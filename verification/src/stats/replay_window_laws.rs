//! What replay detection guarantees, told by the clock and by the calls that were made.

use std::collections::hash_map::DefaultHasher;

use vstd::prelude::*;
use vstd::std_specs::hash::DefaultHasherAdditionalSpecFns;

use crate::stats::replay::{
    after_add, after_cleanup, cleanup_interval_secs, distinct_keys, holds, shard_of, shard_share,
    tls_window_nanos, total_records, with_room, Records, ReplayState,
};
use crate::stats::replay_laws::{
    after_calls, chronological, handshakes_put, in_order, law_calls_keep_the_limits,
    law_every_key_has_a_shard, law_handshake_expires, law_handshake_replay_is_found,
    law_tls_digest_expires, law_tls_replay_is_found, puts_handshake_key, puts_tls_digest_key,
    sharded, tls_digests_put, ReplayCall,
};
use crate::time::{
    cutoff_before, law_older_than_the_cutoff_is_older_than_the_window, Duration, Instant,
};

verus! {

/// Whether a window is one that a clock can be set back by: up to some 292 billion years.
pub open spec fn reachable(window: Duration) -> bool {
    0 < window.nanos() < 9_223_372_036_854_775_809_000_000_000
}

/// A handshake that is shown or added at `first`, and was new then, is a replay at `second`, if no more
/// than the window has passed in between: whatever calls were made meanwhile, as long as they came no
/// more than a window after `first` and put fewer new handshakes into its shard than that can keep.
pub proof fn law_handshake_within_the_window_is_a_replay(
    state: ReplayState,
    key: Seq<u8>,
    first: Instant,
    shown: ReplayState,
    between: Seq<ReplayCall>,
    second: Instant,
)
    requires
        sharded(state),
        reachable(state.window),
        !state.handshake_replayed(key, first),
        shown == state.check_and_add_handshake(key, first) || shown == state.add_handshake(
            key,
            first,
        ),
        handshakes_put(shown, between, shard_of(key)) < state.shard_capacity,
        forall|i: int|
            0 <= i < between.len() ==> (#[trigger] between[i]).now().nanos - first.nanos
                <= state.window.nanos(),
        second.nanos - first.nanos <= state.window.nanos(),
    ensures
        after_calls(shown, between).handshake_replayed(key, second),
{
    law_older_than_the_cutoff_is_older_than_the_window(second, state.window, first);
    assert forall|i: int|
        0 <= i < between.len() && (#[trigger] between[i]).reaches_handshakes(
            shard_of(key),
        ) implies cutoff_before(between[i].now(), state.window).nanos <= first.nanos by {
        law_older_than_the_cutoff_is_older_than_the_window(
            between[i].now(),
            state.window,
            first,
        );
    }
    law_handshake_replay_is_found(state, key, first, shown, between, second);
}

/// A handshake that was shown or added at `first` is new at `second`, if more than the window has passed
/// in between, whatever calls were made meanwhile in order of time, unless one put it there anew.
pub proof fn law_handshake_beyond_the_window_is_new(
    state: ReplayState,
    key: Seq<u8>,
    first: Instant,
    shown: ReplayState,
    between: Seq<ReplayCall>,
    second: Instant,
)
    requires
        sharded(state),
        state.shard_capacity > 0,
        chronological(state.handshake[shard_of(key)], first),
        shown == state.check_and_add_handshake(key, first) || shown == state.add_handshake(
            key,
            first,
        ),
        in_order(between, first),
        !puts_handshake_key(shown, between, key),
        second.nanos - first.nanos > state.window.nanos(),
    ensures
        !after_calls(shown, between).handshake_replayed(key, second),
{
    law_older_than_the_cutoff_is_older_than_the_window(second, state.window, first);
    law_handshake_expires(state, key, first, shown, between, second);
}

/// A TLS digest that is shown or added at `first`, and was new then, is a replay at `second`, if no more
/// than the window for digests has passed in between: whatever calls were made meanwhile, as long as
/// they came no more than that window after `first` and put fewer new digests into its shard than that
/// can keep.
pub proof fn law_tls_digest_within_the_window_is_a_replay(
    state: ReplayState,
    key: Seq<u8>,
    first: Instant,
    shown: ReplayState,
    between: Seq<ReplayCall>,
    second: Instant,
)
    requires
        sharded(state),
        reachable(state.tls_window),
        !state.tls_replayed(key, first),
        shown == state.check_and_add_tls_digest(key, first) || shown == state.add_tls_digest(
            key,
            first,
        ),
        tls_digests_put(shown, between, shard_of(key)) < state.shard_capacity,
        forall|i: int|
            0 <= i < between.len() ==> (#[trigger] between[i]).now().nanos - first.nanos
                <= state.tls_window.nanos(),
        second.nanos - first.nanos <= state.tls_window.nanos(),
    ensures
        after_calls(shown, between).tls_replayed(key, second),
{
    law_older_than_the_cutoff_is_older_than_the_window(second, state.tls_window, first);
    assert forall|i: int|
        0 <= i < between.len() && (#[trigger] between[i]).reaches_tls_digests(
            shard_of(key),
        ) implies cutoff_before(between[i].now(), state.tls_window).nanos <= first.nanos by {
        law_older_than_the_cutoff_is_older_than_the_window(
            between[i].now(),
            state.tls_window,
            first,
        );
    }
    law_tls_replay_is_found(state, key, first, shown, between, second);
}

/// A TLS digest that was shown or added at `first` is new at `second`, if more than the window for digests
/// has passed in between, whatever calls were made meanwhile in order of time, unless one put it there
/// anew.
pub proof fn law_tls_digest_beyond_the_window_is_new(
    state: ReplayState,
    key: Seq<u8>,
    first: Instant,
    shown: ReplayState,
    between: Seq<ReplayCall>,
    second: Instant,
)
    requires
        sharded(state),
        state.shard_capacity > 0,
        chronological(state.tls[shard_of(key)], first),
        shown == state.check_and_add_tls_digest(key, first) || shown == state.add_tls_digest(
            key,
            first,
        ),
        in_order(between, first),
        !puts_tls_digest_key(shown, between, key),
        second.nanos - first.nanos > state.tls_window.nanos(),
    ensures
        !after_calls(shown, between).tls_replayed(key, second),
{
    law_older_than_the_cutoff_is_older_than_the_window(second, state.tls_window, first);
    law_tls_digest_expires(state, key, first, shown, between, second);
}

/// No record is of the key.
pub open spec fn lacks(records: Records, key: Seq<u8>) -> bool {
    forall|i: int| 0 <= i < records.len() ==> (#[trigger] records[i]).1 != key
}

proof fn lemma_cleanup_still_lacks(records: Records, key: Seq<u8>, now: Instant, window: Duration)
    requires
        lacks(records, key),
    ensures
        lacks(after_cleanup(records, now, window), key),
    decreases records.len(),
{
    if window.nanos() > 0 && records.len() > 0 && records[0].0.nanos < cutoff_before(
        now,
        window,
    ).nanos {
        let rest = records.drop_first();
        assert forall|i: int| 0 <= i < rest.len() implies (#[trigger] rest[i]).1 != key by {
            assert(rest[i] == records[i + 1]);
        }
        lemma_cleanup_still_lacks(rest, key, now, window);
    }
}

proof fn lemma_add_still_lacks(
    records: Records,
    key: Seq<u8>,
    other: Seq<u8>,
    now: Instant,
    window: Duration,
    capacity: nat,
)
    requires
        lacks(records, key),
        other != key,
        capacity > 0,
    ensures
        lacks(after_add(records, other, now, window, capacity), key),
{
    lemma_cleanup_still_lacks(records, key, now, window);
    let kept = after_cleanup(records, now, window);
    let room = with_room(kept, capacity);
    assert forall|i: int| 0 <= i < room.len() implies (#[trigger] room[i]).1 != key by {
        let skipped = kept.len() - room.len();
        assert(room[i] == kept[i + skipped]);
    }
}

/// A key that was never shown nor added is no replay, whatever calls were made with other keys, however
/// many, and whatever the time.
pub proof fn law_unseen_handshake_is_new(
    state: ReplayState,
    key: Seq<u8>,
    calls: Seq<ReplayCall>,
    now: Instant,
)
    requires
        sharded(state),
        state.shard_capacity > 0,
        lacks(state.handshake[shard_of(key)], key),
        forall|i: int|
            0 <= i < calls.len() ==> !((#[trigger] calls[i]).adds_handshake() && calls[i].key()
                == key),
    ensures
        !after_calls(state, calls).handshake_replayed(key, now),
        lacks(after_calls(state, calls).handshake[shard_of(key)], key),
    decreases calls.len(),
{
    law_every_key_has_a_shard(key);
    law_calls_keep_the_limits(state, calls);
    if calls.len() > 0 {
        let earlier = calls.drop_last();
        let call = calls.last();
        assert forall|i: int| 0 <= i < earlier.len() implies !((
        #[trigger] earlier[i]).adds_handshake() && earlier[i].key() == key) by {
            assert(earlier[i] == calls[i]);
        }
        assert(calls[calls.len() - 1] == call);
        law_unseen_handshake_is_new(state, key, earlier, now);
        law_calls_keep_the_limits(state, earlier);
        law_every_key_has_a_shard(call.key());
        let mid = after_calls(state, earlier);
        let records = mid.handshake[shard_of(key)];
        lemma_cleanup_still_lacks(records, key, call.now(), state.window);
        if call.adds_handshake() {
            lemma_add_still_lacks(
                records,
                key,
                call.key(),
                call.now(),
                state.window,
                state.shard_capacity,
            );
        }
    }
    lemma_cleanup_still_lacks(
        after_calls(state, calls).handshake[shard_of(key)],
        key,
        now,
        state.window,
    );
}

/// A TLS digest that was never shown nor added is no replay, whatever calls were made with other digests
/// or with handshakes, however many, and whatever the time. Checks of the digest itself do not add it.
pub proof fn law_unseen_tls_digest_is_new(
    state: ReplayState,
    key: Seq<u8>,
    calls: Seq<ReplayCall>,
    now: Instant,
)
    requires
        sharded(state),
        state.shard_capacity > 0,
        lacks(state.tls[shard_of(key)], key),
        forall|i: int|
            0 <= i < calls.len() ==> !((#[trigger] calls[i]).adds_tls_digest() && calls[i].key()
                == key),
    ensures
        !after_calls(state, calls).tls_replayed(key, now),
        lacks(after_calls(state, calls).tls[shard_of(key)], key),
    decreases calls.len(),
{
    law_every_key_has_a_shard(key);
    law_calls_keep_the_limits(state, calls);
    if calls.len() > 0 {
        let earlier = calls.drop_last();
        let call = calls.last();
        assert forall|i: int| 0 <= i < earlier.len() implies !((
        #[trigger] earlier[i]).adds_tls_digest() && earlier[i].key() == key) by {
            assert(earlier[i] == calls[i]);
        }
        assert(calls[calls.len() - 1] == call);
        law_unseen_tls_digest_is_new(state, key, earlier, now);
        law_calls_keep_the_limits(state, earlier);
        law_every_key_has_a_shard(call.key());
        let mid = after_calls(state, earlier);
        let records = mid.tls[shard_of(key)];
        lemma_cleanup_still_lacks(records, key, call.now(), state.tls_window);
        if call.adds_tls_digest() {
            lemma_add_still_lacks(
                records,
                key,
                call.key(),
                call.now(),
                state.tls_window,
                state.shard_capacity,
            );
        }
    }
    lemma_cleanup_still_lacks(
        after_calls(state, calls).tls[shard_of(key)],
        key,
        now,
        state.tls_window,
    );
}

/// A cleanup of records that run forward in time drops exactly those that are older than the window, and
/// leaves the others in their order. An empty window leaves nothing.
pub proof fn law_cleanup_leaves_the_window(
    records: Records,
    latest: Instant,
    now: Instant,
    window: Duration,
) -> (dropped: int)
    requires
        chronological(records, latest),
        window.nanos() < 9_223_372_036_854_775_809_000_000_000,
    ensures
        0 <= dropped <= records.len(),
        after_cleanup(records, now, window) == records.skip(dropped),
        window.nanos() == 0 ==> dropped == records.len(),
        window.nanos() > 0 ==> forall|i: int|
            0 <= i < records.len() ==> (i < dropped <==> (#[trigger] records[i]).0.nanos
                + window.nanos() < now.nanos),
    decreases records.len(),
{
    if window.nanos() == 0 {
        assert(records.skip(records.len() as int) =~= Seq::empty());
        records.len() as int
    } else {
        if records.len() > 0 {
            law_older_than_the_cutoff_is_older_than_the_window(now, window, records[0].0);
        }
        if records.len() > 0 && records[0].0.nanos < cutoff_before(now, window).nanos {
            let rest = records.drop_first();
            assert forall|i: int, j: int| 0 <= i < j < rest.len() implies (
            #[trigger] rest[i]).0.nanos <= (#[trigger] rest[j]).0.nanos by {
                assert(rest[i] == records[i + 1] && rest[j] == records[j + 1]);
            }
            assert forall|i: int| 0 <= i < rest.len() implies (#[trigger] rest[i]).0.nanos
                <= latest.nanos by {
                assert(rest[i] == records[i + 1]);
            }
            let more = law_cleanup_leaves_the_window(rest, latest, now, window);
            assert(rest.skip(more) =~= records.skip(more + 1));
            assert forall|i: int| 0 <= i < records.len() implies (i < more + 1 <==> (
            #[trigger] records[i]).0.nanos + window.nanos() < now.nanos) by {
                if i > 0 {
                    assert(rest[i - 1] == records[i]);
                }
            }
            more + 1
        } else {
            assert(records.skip(0) =~= records);
            assert forall|i: int| 0 <= i < records.len() implies !((
            #[trigger] records[i]).0.nanos + window.nanos() < now.nanos) by {
                assert(records[0].0.nanos <= records[i].0.nanos);
            }
            0
        }
    }
}

/// One addition puts the key, with the time of the addition, behind the others if it is not among those
/// that the window covers; the oldest of them makes room where the shard is full. If it is, nothing is
/// put and its time stays.
pub proof fn law_addition_puts_a_new_key_last(
    records: Records,
    key: Seq<u8>,
    now: Instant,
    window: Duration,
    capacity: nat,
)
    requires
        window.nanos() > 0,
        capacity > 0,
    ensures
        ({
            let kept = after_cleanup(records, now, window);
            let after = after_add(records, key, now, window, capacity);
            if exists|i: int| 0 <= i < kept.len() && (#[trigger] kept[i]).1 == key {
                after == kept
            } else {
                &&& after.len() > 0
                &&& after.last() == (now, key)
                &&& kept.len() < capacity ==> after.drop_last() == kept
                &&& kept.len() == capacity ==> after.drop_last() == kept.skip(1)
            }
        }),
{
    let kept = after_cleanup(records, now, window);
    let after = after_add(records, key, now, window, capacity);
    if !holds(kept, key) {
        let room = with_room(kept, capacity);
        assert(after.drop_last() =~= room);
        if kept.len() == capacity {
            assert(room =~= kept.skip(1));
        }
    }
}

/// A key is a replay exactly if it is among the records that the window covers, in the key's own shard.
pub proof fn law_replay_is_a_covered_record(state: ReplayState, key: Seq<u8>, now: Instant)
    requires
        sharded(state),
    ensures
        state.handshake_replayed(key, now) <==> state.window.nanos() > 0 && exists|i: int|
            0 <= i < after_cleanup(state.handshake[shard_of(key)], now, state.window).len() && (
            #[trigger] after_cleanup(state.handshake[shard_of(key)], now, state.window)[i]).1
                == key,
        state.tls_replayed(key, now) <==> state.tls_window.nanos() > 0 && exists|i: int|
            0 <= i < after_cleanup(state.tls[shard_of(key)], now, state.tls_window).len() && (
            #[trigger] after_cleanup(state.tls[shard_of(key)], now, state.tls_window)[i]).1 == key,
{
}

/// Every call counts what it is: a check, a replay that it found, a key that it added, a cleanup. Nothing
/// but the shards of its kind and these counters changes.
pub proof fn law_calls_are_counted(state: ReplayState, key: Seq<u8>, now: Instant)
    requires
        sharded(state),
        state.checks < u64::MAX,
        state.hits < u64::MAX,
        state.additions < u64::MAX,
        state.cleanups < u64::MAX,
    ensures
        ({
            let after = state.check_and_add_handshake(key, now);
            let found = state.handshake_replayed(key, now);
            &&& after.checks == state.checks + 1
            &&& found ==> after.hits == state.hits + 1 && after.additions == state.additions
            &&& !found ==> after.hits == state.hits && after.additions == state.additions + 1
            &&& after.cleanups == state.cleanups && after.tls == state.tls
        }),
        ({
            let after = state.check_and_add_tls_digest(key, now);
            let found = state.tls_replayed(key, now);
            &&& after.checks == state.checks + 1
            &&& found ==> after.hits == state.hits + 1 && after.additions == state.additions
            &&& !found ==> after.hits == state.hits && after.additions == state.additions + 1
            &&& after.cleanups == state.cleanups && after.handshake == state.handshake
        }),
        ({
            let after = state.check_tls_digest(key, now);
            let found = state.tls_replayed(key, now);
            &&& after.checks == state.checks + 1
            &&& found ==> after.hits == state.hits + 1
            &&& !found ==> after.hits == state.hits
            &&& after.additions == state.additions && after.cleanups == state.cleanups
            &&& after.handshake == state.handshake
        }),
        ({
            let after = state.add_handshake(key, now);
            &&& after.additions == state.additions + 1
            &&& after.checks == state.checks && after.hits == state.hits
            &&& after.cleanups == state.cleanups && after.tls == state.tls
        }),
        ({
            let after = state.add_tls_digest(key, now);
            &&& after.additions == state.additions + 1
            &&& after.checks == state.checks && after.hits == state.hits
            &&& after.cleanups == state.cleanups && after.handshake == state.handshake
        }),
        ({
            let after = state.cleaned(now);
            &&& after.cleanups == state.cleanups + 1
            &&& after.checks == state.checks && after.hits == state.hits && after.additions
                == state.additions
        }),
{
}

/// A call changes no shard but that of its key, and there as a shard does on its own: an addition, with or
/// without a check before, adds, a check cleans, and a periodic cleanup cleans every shard of both kinds.
pub proof fn law_calls_change_the_shard_of_the_key(
    state: ReplayState,
    key: Seq<u8>,
    now: Instant,
    shard: int,
)
    requires
        sharded(state),
        0 <= shard < 64,
    ensures
        state.check_and_add_handshake(key, now).handshake == state.add_handshake(key, now).handshake,
        state.check_and_add_tls_digest(key, now).tls == state.add_tls_digest(key, now).tls,
        state.add_handshake(key, now).handshake[shard] == (if shard == shard_of(key) {
            after_add(state.handshake[shard], key, now, state.window, state.shard_capacity)
        } else {
            state.handshake[shard]
        }),
        state.add_tls_digest(key, now).tls[shard] == (if shard == shard_of(key) {
            after_add(state.tls[shard], key, now, state.tls_window, state.shard_capacity)
        } else {
            state.tls[shard]
        }),
        state.check_tls_digest(key, now).tls[shard] == (if shard == shard_of(key)
            && state.tls_window.nanos() > 0 {
            after_cleanup(state.tls[shard], now, state.tls_window)
        } else {
            state.tls[shard]
        }),
        state.cleaned(now).handshake[shard] == after_cleanup(
            state.handshake[shard],
            now,
            state.window,
        ),
        state.cleaned(now).tls[shard] == after_cleanup(state.tls[shard], now, state.tls_window),
{
    law_every_key_has_a_shard(key);
}

/// The shards share the capacity evenly: each keeps a sixty-fourth of it, rounded down, and at least one
/// key.
pub proof fn law_shards_share_the_capacity(total_capacity: usize)
    ensures
        shard_share(total_capacity) >= 1,
        total_capacity >= 64 ==> 64 * shard_share(total_capacity) <= total_capacity < 64
            * shard_share(total_capacity) + 64,
        total_capacity < 64 ==> shard_share(total_capacity) == 1,
{
}

/// The window for TLS digests is no shorter than the other, and no shorter than two minutes, and as short
/// as that allows.
pub proof fn law_tls_window_is_two_minutes_at_least(window: Duration)
    ensures
        tls_window_nanos(window) >= window.nanos(),
        tls_window_nanos(window) >= 120_000_000_000,
        tls_window_nanos(window) == window.nanos() || tls_window_nanos(window) == 120_000_000_000,
{
}

/// The pause between two cleanups is a whole number of seconds: half the window, rounded down, for windows
/// of two seconds to a minute, half a minute for longer ones and a second for shorter ones.
pub proof fn law_cleanups_come_twice_a_window(window: Duration)
    ensures
        1 <= cleanup_interval_secs(window) <= 30,
        window.nanos() >= 61_000_000_000 ==> cleanup_interval_secs(window) == 30,
        2_000_000_000 <= window.nanos() < 61_000_000_000 ==> 2 * cleanup_interval_secs(window)
            <= window.nanos() / 1_000_000_000 < 2 * cleanup_interval_secs(window) + 2,
        window.nanos() < 2_000_000_000 ==> cleanup_interval_secs(window) == 1,
{
}

/// The number of records is that of each shard, added up.
pub proof fn law_records_are_added_up(shards: Seq<Records>, records: Records)
    ensures
        total_records(Seq::<Records>::empty()) == 0,
        total_records(shards.push(records)) == total_records(shards) + records.len(),
{
    assert(shards.push(records).drop_last() =~= shards);
}

/// The shard of a key is what the hash of its length and its bytes leaves when it is divided by
/// sixty-four.
pub proof fn law_shard_is_the_rest_of_the_hash(key: Seq<u8>)
    ensures
        shard_of(key) == DefaultHasher::spec_finish(
            seq![vstd::bytes::spec_u64_to_le_bytes(key.len() as u64), key],
        ) as int % 64,
{
    let hash: u64 = DefaultHasher::spec_finish(
        seq![vstd::bytes::spec_u64_to_le_bytes(key.len() as u64), key],
    );
    assert(hash as usize & 63usize == hash % 64) by (bit_vector);
}

/// Records have distinct keys if no key is found at two places, and only then.
pub proof fn law_distinct_keys_occur_once(records: Records, i: int, j: int)
    requires
        0 <= i < records.len(),
        0 <= j < records.len(),
    ensures
        distinct_keys(records) && records[i].1 == records[j].1 ==> i == j,
        i != j && records[i].1 == records[j].1 ==> !distinct_keys(records),
{
}

} // verus!
