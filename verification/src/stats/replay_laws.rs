//! What replay detection guarantees over several calls.

use std::collections::hash_map::DefaultHasher;

use vstd::prelude::*;
use vstd::std_specs::hash::DefaultHasherAdditionalSpecFns;

use crate::stats::replay::{
    after_add, after_cleanup, drop_older, holds, is_replay, shard_of, total_records, with_room,
    Records, ReplayState,
};
use crate::time::{cutoff_before, Duration, Instant};

verus! {

/// The records run forward in time, and none is later than `now`.
pub open spec fn chronological(records: Records, now: Instant) -> bool {
    &&& forall|i: int, j: int|
        0 <= i < j < records.len() ==> (#[trigger] records[i]).0.nanos <= (
        #[trigger] records[j]).0.nanos
    &&& forall|i: int| 0 <= i < records.len() ==> (#[trigger] records[i]).0.nanos <= now.nanos
}

/// A record is found at a place with at most `behind` others behind it.
spec fn placed(records: Records, record: (Instant, Seq<u8>), behind: int) -> bool {
    exists|p: int|
        0 <= p < records.len() && #[trigger] records[p] == record && records.len() - 1 - p <= behind
}

/// Dropping old records drops a prefix of them.
proof fn lemma_drop_older_is_suffix(records: Records, cutoff: Instant) -> (dropped: int)
    ensures
        0 <= dropped <= records.len(),
        drop_older(records, cutoff) == records.skip(dropped),
        forall|i: int| 0 <= i < dropped ==> (#[trigger] records[i]).0.nanos < cutoff.nanos,
        dropped < records.len() ==> records[dropped].0.nanos >= cutoff.nanos,
    decreases records.len(),
{
    if records.len() > 0 && records[0].0.nanos < cutoff.nanos {
        let rest = records.drop_first();
        let more = lemma_drop_older_is_suffix(rest, cutoff);
        assert(rest.skip(more) =~= records.skip(more + 1));
        assert forall|i: int| 0 <= i < more + 1 implies (#[trigger] records[i]).0.nanos
            < cutoff.nanos by {
            if i > 0 {
                assert(rest[i - 1] == records[i]);
            }
        }
        if more < rest.len() {
            assert(rest[more] == records[more + 1]);
        }
        more + 1
    } else {
        assert(records.skip(0) =~= records);
        0
    }
}

/// A cleanup keeps a record that the window still covers in its place.
proof fn lemma_cleanup_keeps_place(
    records: Records,
    record: (Instant, Seq<u8>),
    behind: int,
    now: Instant,
    window: Duration,
)
    requires
        window.nanos() > 0,
        cutoff_before(now, window).nanos <= record.0.nanos,
        placed(records, record, behind),
    ensures
        placed(after_cleanup(records, now, window), record, behind),
{
    let cutoff = cutoff_before(now, window);
    let dropped = lemma_drop_older_is_suffix(records, cutoff);
    let p = choose|p: int|
        0 <= p < records.len() && #[trigger] records[p] == record && records.len() - 1 - p <= behind;
    assert(dropped <= p);
    assert(records.skip(dropped)[p - dropped] == record);
}

/// An addition moves a covered record back by one place at most.
proof fn lemma_add_keeps_place(
    records: Records,
    record: (Instant, Seq<u8>),
    behind: int,
    key: Seq<u8>,
    now: Instant,
    window: Duration,
    capacity: nat,
)
    requires
        window.nanos() > 0,
        cutoff_before(now, window).nanos <= record.0.nanos,
        placed(records, record, behind),
        behind + 1 < capacity,
    ensures
        placed(after_add(records, key, now, window, capacity), record, behind + 1),
{
    lemma_cleanup_keeps_place(records, record, behind, now, window);
    let kept = after_cleanup(records, now, window);
    let p = choose|p: int|
        0 <= p < kept.len() && #[trigger] kept[p] == record && kept.len() - 1 - p <= behind;
    if !holds(kept, key) {
        let room = with_room(kept, capacity);
        let skipped = kept.len() - room.len();
        assert(room[p - skipped] == record);
        assert(room.push((now, key))[p - skipped] == record);
    } else {
        assert(kept[p] == record);
    }
}

/// The records after each of `additions` was made in turn.
pub open spec fn after_additions(
    records: Records,
    additions: Seq<(Seq<u8>, Instant)>,
    window: Duration,
    capacity: nat,
) -> Records
    decreases additions.len(),
{
    if additions.len() == 0 {
        records
    } else {
        let earlier = after_additions(records, additions.drop_last(), window, capacity);
        after_add(earlier, additions.last().0, additions.last().1, window, capacity)
    }
}

/// Number of additions that put a new key among the records; the others are of keys that are there.
pub open spec fn keys_put(
    records: Records,
    additions: Seq<(Seq<u8>, Instant)>,
    window: Duration,
    capacity: nat,
) -> nat
    decreases additions.len(),
{
    if additions.len() == 0 {
        0
    } else {
        let earlier = additions.drop_last();
        let (key, now) = additions.last();
        keys_put(records, earlier, window, capacity) + if is_replay(
            after_additions(records, earlier, window, capacity),
            key,
            now,
            window,
        ) {
            0nat
        } else {
            1
        }
    }
}

proof fn lemma_additions_keep_place(
    records: Records,
    record: (Instant, Seq<u8>),
    additions: Seq<(Seq<u8>, Instant)>,
    window: Duration,
    capacity: nat,
)
    requires
        window.nanos() > 0,
        placed(records, record, 0),
        keys_put(records, additions, window, capacity) < capacity,
        forall|i: int|
            0 <= i < additions.len() ==> cutoff_before((#[trigger] additions[i]).1, window).nanos
                <= record.0.nanos,
    ensures
        placed(
            after_additions(records, additions, window, capacity),
            record,
            keys_put(records, additions, window, capacity) as int,
        ),
    decreases additions.len(),
{
    if additions.len() > 0 {
        let earlier = additions.drop_last();
        let (key, now) = additions.last();
        assert forall|i: int| 0 <= i < earlier.len() implies cutoff_before(
            (#[trigger] earlier[i]).1,
            window,
        ).nanos <= record.0.nanos by {
            assert(earlier[i] == additions[i]);
        }
        lemma_additions_keep_place(records, record, earlier, window, capacity);
        let mid = after_additions(records, earlier, window, capacity);
        lemma_shard_keeps_place(
            mid,
            after_add(mid, key, now, window, capacity),
            record,
            keys_put(records, earlier, window, capacity) as int,
            key,
            now,
            window,
            capacity,
            !is_replay(mid, key, now, window),
        );
    }
}

/// A key that is new at `first` is found out at `second`, whatever was added to its shard in between, as
/// long as fewer than `capacity` new keys were among it and the window still covers `first` all the
/// while.
pub proof fn law_replay_is_found(
    records: Records,
    key: Seq<u8>,
    first: Instant,
    between: Seq<(Seq<u8>, Instant)>,
    second: Instant,
    window: Duration,
    capacity: nat,
)
    requires
        window.nanos() > 0,
        !is_replay(records, key, first, window),
        keys_put(
            after_add(records, key, first, window, capacity),
            between,
            window,
            capacity,
        ) < capacity,
        forall|i: int|
            0 <= i < between.len() ==> cutoff_before((#[trigger] between[i]).1, window).nanos
                <= first.nanos,
        cutoff_before(second, window).nanos <= first.nanos,
    ensures
        is_replay(
            after_additions(
                after_add(records, key, first, window, capacity),
                between,
                window,
                capacity,
            ),
            key,
            second,
            window,
        ),
{
    let record = (first, key);
    let added = after_add(records, key, first, window, capacity);
    assert(added.last() == record);
    assert(placed(added, record, 0));
    lemma_additions_keep_place(added, record, between, window, capacity);
    let later = after_additions(added, between, window, capacity);
    let behind = keys_put(added, between, window, capacity) as int;
    lemma_placed_is_found(later, key, first, behind, second, window);
}

/// A key is not found any more once the window has left it behind.
pub proof fn law_expired_key_is_forgotten(
    records: Records,
    key: Seq<u8>,
    latest: Instant,
    now: Instant,
    window: Duration,
)
    requires
        chronological(records, latest),
        forall|i: int|
            0 <= i < records.len() && (#[trigger] records[i]).1 == key ==> records[i].0.nanos
                < cutoff_before(now, window).nanos,
    ensures
        !is_replay(records, key, now, window),
{
    if window.nanos() > 0 {
        let dropped = lemma_drop_older_is_suffix(records, cutoff_before(now, window));
        let kept = after_cleanup(records, now, window);
        assert forall|i: int| 0 <= i < kept.len() implies (#[trigger] kept[i]).1 != key by {
            assert(kept[i] == records[dropped + i]);
            assert(records[dropped].0.nanos <= records[dropped + i].0.nanos);
        }
    }
}

/// The last records are in order of time if all are.
proof fn lemma_suffix_is_chronological(records: Records, skipped: int, latest: Instant, now: Instant)
    requires
        chronological(records, latest),
        latest.nanos <= now.nanos,
        0 <= skipped <= records.len(),
    ensures
        chronological(records.skip(skipped), now),
{
}

/// An addition at the latest instant so far keeps the records in order of time.
pub proof fn law_additions_stay_chronological(
    records: Records,
    key: Seq<u8>,
    latest: Instant,
    now: Instant,
    window: Duration,
    capacity: nat,
)
    requires
        chronological(records, latest),
        latest.nanos <= now.nanos,
        capacity > 0,
    ensures
        chronological(after_add(records, key, now, window, capacity), now),
{
    if window.nanos() > 0 {
        let dropped = lemma_drop_older_is_suffix(records, cutoff_before(now, window));
        lemma_suffix_is_chronological(records, dropped, latest, now);
        let kept = after_cleanup(records, now, window);
        if kept.len() >= capacity {
            lemma_suffix_is_chronological(kept, kept.len() - capacity + 1, now, now);
        }
    }
}

/// An empty window keeps nothing and finds nothing.
pub proof fn law_empty_window_retains_nothing(
    records: Records,
    key: Seq<u8>,
    now: Instant,
    window: Duration,
    capacity: nat,
)
    requires
        window.nanos() == 0,
    ensures
        !is_replay(records, key, now, window),
        after_add(records, key, now, window, capacity) == records,
        after_cleanup(records, now, window) == Records::empty(),
{
}

/// Adding a key that is new a second time changes nothing, as long as the window still covers the first
/// time: the second addition leaves what a cleanup would have left. A second addition at the same
/// instant changes nothing at all.
pub proof fn law_adding_twice_is_adding_once(
    records: Records,
    key: Seq<u8>,
    first: Instant,
    second: Instant,
    window: Duration,
    capacity: nat,
)
    requires
        capacity > 0,
    ensures
        window.nanos() > 0 && !is_replay(records, key, first, window) && cutoff_before(
            second,
            window,
        ).nanos <= first.nanos ==> after_add(
            after_add(records, key, first, window, capacity),
            key,
            second,
            window,
            capacity,
        ) == after_cleanup(after_add(records, key, first, window, capacity), second, window),
        chronological(records, first) ==> after_add(
            after_add(records, key, first, window, capacity),
            key,
            first,
            window,
            capacity,
        ) == after_add(records, key, first, window, capacity),
{
    let added = after_add(records, key, first, window, capacity);
    if window.nanos() > 0 && !is_replay(records, key, first, window) {
        assert(added.last() == (first, key));
        assert(placed(added, (first, key), 0));
        if cutoff_before(second, window).nanos <= first.nanos {
            lemma_placed_is_found(added, key, first, 0, second, window);
        }
        lemma_placed_is_found(added, key, first, 0, first, window);
        let cutoff = cutoff_before(first, window);
        let dropped = lemma_drop_older_is_suffix(records, cutoff);
        let kept = after_cleanup(records, first, window);
        let room = with_room(kept, capacity);
        let skipped = kept.len() - room.len();
        if room.len() > 0 && chronological(records, first) {
            assert(added[0] == records[dropped + skipped]);
            assert(records[dropped].0.nanos <= records[dropped + skipped].0.nanos);
        }
    } else if window.nanos() > 0 {
        crate::stats::replay::lemma_drop_older_idempotent(records, cutoff_before(first, window));
    }
}

/// A shard never holds more keys than it was made for.
pub proof fn law_capacity_is_kept(
    records: Records,
    key: Seq<u8>,
    now: Instant,
    window: Duration,
    capacity: nat,
)
    requires
        0 < capacity,
        records.len() <= capacity,
    ensures
        after_add(records, key, now, window, capacity).len() <= capacity,
        after_cleanup(records, now, window).len() <= records.len(),
{
    if window.nanos() > 0 {
        let dropped = lemma_drop_older_is_suffix(records, cutoff_before(now, window));
    }
}

/// Every key belongs to one of the shards.
pub proof fn law_every_key_has_a_shard(key: Seq<u8>)
    ensures
        0 <= shard_of(key) < 64,
{
    let hash = DefaultHasher::spec_finish(
        seq![vstd::bytes::spec_u64_to_le_bytes(key.len() as u64), key],
    ) as usize;
    assert(hash & 63 < 64) by (bit_vector);
}

/// A call of a checker.
pub enum ReplayCall {
    CheckAndAddHandshake(Seq<u8>, Instant),
    CheckAndAddTlsDigest(Seq<u8>, Instant),
    AddHandshake(Seq<u8>, Instant),
    AddTlsDigest(Seq<u8>, Instant),
    CheckTlsDigest(Seq<u8>, Instant),
    Cleanup(Instant),
}

impl ReplayCall {
    /// When the call is made.
    pub open spec fn now(self) -> Instant {
        match self {
            ReplayCall::CheckAndAddHandshake(_, now) => now,
            ReplayCall::CheckAndAddTlsDigest(_, now) => now,
            ReplayCall::AddHandshake(_, now) => now,
            ReplayCall::AddTlsDigest(_, now) => now,
            ReplayCall::CheckTlsDigest(_, now) => now,
            ReplayCall::Cleanup(now) => now,
        }
    }

    /// What the call is about; a cleanup is about nothing.
    pub open spec fn key(self) -> Seq<u8> {
        match self {
            ReplayCall::CheckAndAddHandshake(key, _) => key,
            ReplayCall::CheckAndAddTlsDigest(key, _) => key,
            ReplayCall::AddHandshake(key, _) => key,
            ReplayCall::AddTlsDigest(key, _) => key,
            ReplayCall::CheckTlsDigest(key, _) => key,
            ReplayCall::Cleanup(_) => Seq::empty(),
        }
    }

    /// Whether the call can add a handshake.
    pub open spec fn adds_handshake(self) -> bool {
        self is CheckAndAddHandshake || self is AddHandshake
    }

    /// Whether the call can add a TLS digest.
    pub open spec fn adds_tls_digest(self) -> bool {
        self is CheckAndAddTlsDigest || self is AddTlsDigest
    }

    /// Whether the call can change a shard of the handshakes.
    pub open spec fn reaches_handshakes(self, shard: int) -> bool {
        self is Cleanup || self.adds_handshake() && shard_of(self.key()) == shard
    }

    /// Whether the call can change a shard of the TLS digests.
    pub open spec fn reaches_tls_digests(self, shard: int) -> bool {
        self is Cleanup || (self.adds_tls_digest() || self is CheckTlsDigest) && shard_of(self.key())
            == shard
    }

    /// Whether the call puts a new handshake into a shard; one that finds a replay adds nothing.
    pub open spec fn puts_handshake(self, state: ReplayState, shard: int) -> bool {
        self.adds_handshake() && shard_of(self.key()) == shard && !state.handshake_replayed(
            self.key(),
            self.now(),
        )
    }

    /// Whether the call puts a new TLS digest into a shard; one that finds a replay adds nothing.
    pub open spec fn puts_tls_digest(self, state: ReplayState, shard: int) -> bool {
        self.adds_tls_digest() && shard_of(self.key()) == shard && !state.tls_replayed(
            self.key(),
            self.now(),
        )
    }

    /// State after the call.
    pub open spec fn made(self, state: ReplayState) -> ReplayState {
        match self {
            ReplayCall::CheckAndAddHandshake(key, now) => state.check_and_add_handshake(key, now),
            ReplayCall::CheckAndAddTlsDigest(key, now) => state.check_and_add_tls_digest(key, now),
            ReplayCall::AddHandshake(key, now) => state.add_handshake(key, now),
            ReplayCall::AddTlsDigest(key, now) => state.add_tls_digest(key, now),
            ReplayCall::CheckTlsDigest(key, now) => state.check_tls_digest(key, now),
            ReplayCall::Cleanup(now) => state.cleaned(now),
        }
    }
}

/// State after each of the calls was made in turn.
pub open spec fn after_calls(state: ReplayState, calls: Seq<ReplayCall>) -> ReplayState
    decreases calls.len(),
{
    if calls.len() == 0 {
        state
    } else {
        calls.last().made(after_calls(state, calls.drop_last()))
    }
}

/// Number of calls that put a new handshake into a shard.
pub open spec fn handshakes_put(state: ReplayState, calls: Seq<ReplayCall>, shard: int) -> nat
    decreases calls.len(),
{
    if calls.len() == 0 {
        0
    } else {
        let earlier = calls.drop_last();
        handshakes_put(state, earlier, shard) + if calls.last().puts_handshake(
            after_calls(state, earlier),
            shard,
        ) {
            1nat
        } else {
            0
        }
    }
}

/// Number of calls that put a new TLS digest into a shard.
pub open spec fn tls_digests_put(state: ReplayState, calls: Seq<ReplayCall>, shard: int) -> nat
    decreases calls.len(),
{
    if calls.len() == 0 {
        0
    } else {
        let earlier = calls.drop_last();
        tls_digests_put(state, earlier, shard) + if calls.last().puts_tls_digest(
            after_calls(state, earlier),
            shard,
        ) {
            1nat
        } else {
            0
        }
    }
}

/// Both kinds have all their shards.
pub open spec fn sharded(state: ReplayState) -> bool {
    state.handshake.len() == 64 && state.tls.len() == 64
}

/// Whatever calls are made, the number of shards, their capacity and the windows stay.
pub proof fn law_calls_keep_the_limits(state: ReplayState, calls: Seq<ReplayCall>)
    requires
        sharded(state),
    ensures
        sharded(after_calls(state, calls)),
        after_calls(state, calls).window == state.window,
        after_calls(state, calls).tls_window == state.tls_window,
        after_calls(state, calls).shard_capacity == state.shard_capacity,
    decreases calls.len(),
{
    if calls.len() > 0 {
        law_calls_keep_the_limits(state, calls.drop_last());
        law_every_key_has_a_shard(calls.last().key());
    }
}

/// What a call does to one shard: nothing, a cleanup, or an addition of its key.
spec fn shard_went_on(
    before: Records,
    after: Records,
    key: Seq<u8>,
    now: Instant,
    window: Duration,
    capacity: nat,
    puts: bool,
) -> bool {
    ||| after == before
    ||| after == after_cleanup(before, now, window)
    ||| puts && after == after_add(before, key, now, window, capacity)
}

proof fn lemma_call_on_shards(state: ReplayState, call: ReplayCall, shard: int)
    requires
        sharded(state),
        0 <= shard < 64,
    ensures
        shard_went_on(
            state.handshake[shard],
            call.made(state).handshake[shard],
            call.key(),
            call.now(),
            state.window,
            state.shard_capacity,
            call.puts_handshake(state, shard),
        ),
        shard_went_on(
            state.tls[shard],
            call.made(state).tls[shard],
            call.key(),
            call.now(),
            state.tls_window,
            state.shard_capacity,
            call.puts_tls_digest(state, shard),
        ),
        !call.reaches_handshakes(shard) ==> call.made(state).handshake[shard]
            == state.handshake[shard],
        !call.reaches_tls_digests(shard) ==> call.made(state).tls[shard] == state.tls[shard],
{
    law_every_key_has_a_shard(call.key());
}

/// A record has at most so many others behind it if it has at most fewer.
proof fn lemma_placed_further(records: Records, record: (Instant, Seq<u8>), behind: int, more: int)
    requires
        placed(records, record, behind),
        behind <= more,
    ensures
        placed(records, record, more),
{
    let p = choose|p: int|
        0 <= p < records.len() && #[trigger] records[p] == record && records.len() - 1 - p <= behind;
    assert(records[p] == record);
}

/// A call moves a covered record back by one place at most, and only if it puts a new key.
proof fn lemma_shard_keeps_place(
    before: Records,
    after: Records,
    record: (Instant, Seq<u8>),
    behind: int,
    key: Seq<u8>,
    now: Instant,
    window: Duration,
    capacity: nat,
    puts: bool,
)
    requires
        shard_went_on(before, after, key, now, window, capacity, puts),
        window.nanos() > 0,
        after == before || cutoff_before(now, window).nanos <= record.0.nanos,
        placed(before, record, behind),
        puts ==> behind + 1 < capacity,
    ensures
        placed(
            after,
            record,
            if puts {
                behind + 1
            } else {
                behind
            },
        ),
{
    let more = if puts {
        behind + 1
    } else {
        behind
    };
    if after == before {
        lemma_placed_further(after, record, behind, more);
    } else if after == after_cleanup(before, now, window) {
        lemma_cleanup_keeps_place(before, record, behind, now, window);
        lemma_placed_further(after, record, behind, more);
    } else {
        lemma_add_keeps_place(before, record, behind, key, now, window, capacity);
    }
}

proof fn lemma_calls_keep_handshake(
    state: ReplayState,
    shard: int,
    record: (Instant, Seq<u8>),
    calls: Seq<ReplayCall>,
)
    requires
        sharded(state),
        0 <= shard < 64,
        state.window.nanos() > 0,
        placed(state.handshake[shard], record, 0),
        handshakes_put(state, calls, shard) < state.shard_capacity,
        forall|i: int|
            0 <= i < calls.len() && (#[trigger] calls[i]).reaches_handshakes(shard)
                ==> cutoff_before(calls[i].now(), state.window).nanos <= record.0.nanos,
    ensures
        placed(
            after_calls(state, calls).handshake[shard],
            record,
            handshakes_put(state, calls, shard) as int,
        ),
    decreases calls.len(),
{
    if calls.len() > 0 {
        let earlier = calls.drop_last();
        let call = calls.last();
        assert forall|i: int|
            0 <= i < earlier.len() && (#[trigger] earlier[i]).reaches_handshakes(
                shard,
            ) implies cutoff_before(earlier[i].now(), state.window).nanos <= record.0.nanos by {
            assert(earlier[i] == calls[i]);
        }
        assert(calls[calls.len() - 1] == call);
        lemma_calls_keep_handshake(state, shard, record, earlier);
        law_calls_keep_the_limits(state, earlier);
        let mid = after_calls(state, earlier);
        lemma_call_on_shards(mid, call, shard);
        lemma_shard_keeps_place(
            mid.handshake[shard],
            call.made(mid).handshake[shard],
            record,
            handshakes_put(state, earlier, shard) as int,
            call.key(),
            call.now(),
            state.window,
            state.shard_capacity,
            call.puts_handshake(mid, shard),
        );
    }
}

proof fn lemma_calls_keep_tls_digest(
    state: ReplayState,
    shard: int,
    record: (Instant, Seq<u8>),
    calls: Seq<ReplayCall>,
)
    requires
        sharded(state),
        0 <= shard < 64,
        state.tls_window.nanos() > 0,
        placed(state.tls[shard], record, 0),
        tls_digests_put(state, calls, shard) < state.shard_capacity,
        forall|i: int|
            0 <= i < calls.len() && (#[trigger] calls[i]).reaches_tls_digests(shard)
                ==> cutoff_before(calls[i].now(), state.tls_window).nanos <= record.0.nanos,
    ensures
        placed(
            after_calls(state, calls).tls[shard],
            record,
            tls_digests_put(state, calls, shard) as int,
        ),
    decreases calls.len(),
{
    if calls.len() > 0 {
        let earlier = calls.drop_last();
        let call = calls.last();
        assert forall|i: int|
            0 <= i < earlier.len() && (#[trigger] earlier[i]).reaches_tls_digests(
                shard,
            ) implies cutoff_before(earlier[i].now(), state.tls_window).nanos <= record.0.nanos by {
            assert(earlier[i] == calls[i]);
        }
        assert(calls[calls.len() - 1] == call);
        lemma_calls_keep_tls_digest(state, shard, record, earlier);
        law_calls_keep_the_limits(state, earlier);
        let mid = after_calls(state, earlier);
        lemma_call_on_shards(mid, call, shard);
        lemma_shard_keeps_place(
            mid.tls[shard],
            call.made(mid).tls[shard],
            record,
            tls_digests_put(state, earlier, shard) as int,
            call.key(),
            call.now(),
            state.tls_window,
            state.shard_capacity,
            call.puts_tls_digest(mid, shard),
        );
    }
}

/// A record that the window covers is found.
proof fn lemma_placed_is_found(
    records: Records,
    key: Seq<u8>,
    first: Instant,
    behind: int,
    second: Instant,
    window: Duration,
)
    requires
        window.nanos() > 0,
        placed(records, (first, key), behind),
        cutoff_before(second, window).nanos <= first.nanos,
    ensures
        is_replay(records, key, second, window),
{
    let record = (first, key);
    lemma_cleanup_keeps_place(records, record, behind, second, window);
    let kept = after_cleanup(records, second, window);
    let p = choose|p: int|
        0 <= p < kept.len() && #[trigger] kept[p] == record && kept.len() - 1 - p <= behind;
    assert(kept[p].1 == key);
}

/// A handshake that is new at `first`, and is then checked and added or simply added, is reported as a
/// replay at `second`, whatever calls were made in between, repeats and cleanups among them. Only two
/// things end this: that as many new handshakes were put into its shard as the shard can keep, and that
/// the window leaves `first` behind.
pub proof fn law_handshake_replay_is_found(
    state: ReplayState,
    key: Seq<u8>,
    first: Instant,
    shown: ReplayState,
    between: Seq<ReplayCall>,
    second: Instant,
)
    requires
        sharded(state),
        state.window.nanos() > 0,
        !state.handshake_replayed(key, first),
        shown == state.check_and_add_handshake(key, first) || shown == state.add_handshake(
            key,
            first,
        ),
        handshakes_put(shown, between, shard_of(key)) < state.shard_capacity,
        forall|i: int|
            0 <= i < between.len() && (#[trigger] between[i]).reaches_handshakes(shard_of(key))
                ==> cutoff_before(between[i].now(), state.window).nanos <= first.nanos,
        cutoff_before(second, state.window).nanos <= first.nanos,
    ensures
        after_calls(shown, between).handshake_replayed(key, second),
{
    law_every_key_has_a_shard(key);
    let shard = shard_of(key);
    let record = (first, key);
    assert(shown.handshake[shard].last() == record);
    assert(placed(shown.handshake[shard], record, 0));
    lemma_calls_keep_handshake(shown, shard, record, between);
    law_calls_keep_the_limits(shown, between);
    lemma_placed_is_found(
        after_calls(shown, between).handshake[shard],
        key,
        first,
        handshakes_put(shown, between, shard) as int,
        second,
        state.window,
    );
}

/// A TLS digest that is new at `first`, and is then checked and added or simply added, is reported as a
/// replay at `second`, whatever calls were made in between, checks, repeats and cleanups among them.
/// Only two things end this: that as many new digests were put into its shard as the shard can keep, and
/// that the window leaves `first` behind.
pub proof fn law_tls_replay_is_found(
    state: ReplayState,
    key: Seq<u8>,
    first: Instant,
    shown: ReplayState,
    between: Seq<ReplayCall>,
    second: Instant,
)
    requires
        sharded(state),
        state.tls_window.nanos() > 0,
        !state.tls_replayed(key, first),
        shown == state.check_and_add_tls_digest(key, first) || shown == state.add_tls_digest(
            key,
            first,
        ),
        tls_digests_put(shown, between, shard_of(key)) < state.shard_capacity,
        forall|i: int|
            0 <= i < between.len() && (#[trigger] between[i]).reaches_tls_digests(shard_of(key))
                ==> cutoff_before(between[i].now(), state.tls_window).nanos <= first.nanos,
        cutoff_before(second, state.tls_window).nanos <= first.nanos,
    ensures
        after_calls(shown, between).tls_replayed(key, second),
{
    law_every_key_has_a_shard(key);
    let shard = shard_of(key);
    let record = (first, key);
    assert(shown.tls[shard].last() == record);
    assert(placed(shown.tls[shard], record, 0));
    lemma_calls_keep_tls_digest(shown, shard, record, between);
    law_calls_keep_the_limits(shown, between);
    lemma_placed_is_found(
        after_calls(shown, between).tls[shard],
        key,
        first,
        tls_digests_put(shown, between, shard) as int,
        second,
        state.tls_window,
    );
}

/// A check of a TLS digest that does not add it gives the answer that a check and addition would have
/// given, and leaves that answer as it is.
pub proof fn law_checking_a_tls_digest_adds_nothing(
    state: ReplayState,
    key: Seq<u8>,
    checked: Seq<u8>,
    now: Instant,
)
    requires
        sharded(state),
    ensures
        state.check_tls_digest(checked, now).tls_replayed(key, now) == state.tls_replayed(key, now),
        state.check_tls_digest(checked, now).additions == state.additions,
{
    law_every_key_has_a_shard(key);
    law_every_key_has_a_shard(checked);
    crate::stats::replay::lemma_drop_older_idempotent(
        state.tls[shard_of(checked)],
        cutoff_before(now, state.tls_window),
    );
}

/// No shard holds more keys than it was made for.
pub open spec fn within_capacity(state: ReplayState) -> bool {
    &&& forall|i: int|
        0 <= i < state.handshake.len() ==> (#[trigger] state.handshake[i]).len()
            <= state.shard_capacity
    &&& forall|i: int|
        0 <= i < state.tls.len() ==> (#[trigger] state.tls[i]).len() <= state.shard_capacity
}

proof fn lemma_shard_stays_within(
    before: Records,
    after: Records,
    key: Seq<u8>,
    now: Instant,
    window: Duration,
    capacity: nat,
    puts: bool,
)
    requires
        shard_went_on(before, after, key, now, window, capacity, puts),
        0 < capacity,
        before.len() <= capacity,
    ensures
        after.len() <= capacity,
{
    law_capacity_is_kept(before, key, now, window, capacity);
}

proof fn lemma_total_is_bounded(shards: Seq<Records>, capacity: nat)
    requires
        forall|i: int| 0 <= i < shards.len() ==> (#[trigger] shards[i]).len() <= capacity,
    ensures
        total_records(shards) <= shards.len() * capacity,
    decreases shards.len(),
{
    if shards.len() > 0 {
        let earlier = shards.drop_last();
        assert forall|i: int| 0 <= i < earlier.len() implies (#[trigger] earlier[i]).len()
            <= capacity by {
            assert(earlier[i] == shards[i]);
        }
        lemma_total_is_bounded(earlier, capacity);
        assert(earlier.len() * capacity + capacity == shards.len() * capacity) by (nonlinear_arith)
            requires
                earlier.len() + 1 == shards.len(),
        ;
    } else {
        assert(0 * capacity == 0);
    }
}

/// Whatever calls are made, no shard holds more keys than it was made for, and all of them together
/// hold no more than that many times the number of shards.
pub proof fn law_calls_keep_the_capacity(state: ReplayState, calls: Seq<ReplayCall>)
    requires
        sharded(state),
        state.shard_capacity > 0,
        within_capacity(state),
    ensures
        within_capacity(after_calls(state, calls)),
        total_records(after_calls(state, calls).handshake) + total_records(
            after_calls(state, calls).tls,
        ) <= 128 * state.shard_capacity,
    decreases calls.len(),
{
    law_calls_keep_the_limits(state, calls);
    if calls.len() > 0 {
        let earlier = calls.drop_last();
        law_calls_keep_the_capacity(state, earlier);
        law_calls_keep_the_limits(state, earlier);
        let mid = after_calls(state, earlier);
        let call = calls.last();
        let after = call.made(mid);
        assert forall|i: int| 0 <= i < 64 implies (#[trigger] after.handshake[i]).len()
            <= state.shard_capacity by {
            lemma_call_on_shards(mid, call, i);
            assert(mid.handshake[i].len() <= state.shard_capacity);
            lemma_shard_stays_within(
                mid.handshake[i],
                after.handshake[i],
                call.key(),
                call.now(),
                state.window,
                state.shard_capacity,
                call.puts_handshake(mid, i),
            );
        }
        assert forall|i: int| 0 <= i < 64 implies (#[trigger] after.tls[i]).len()
            <= state.shard_capacity by {
            lemma_call_on_shards(mid, call, i);
            assert(mid.tls[i].len() <= state.shard_capacity);
            lemma_shard_stays_within(
                mid.tls[i],
                after.tls[i],
                call.key(),
                call.now(),
                state.tls_window,
                state.shard_capacity,
                call.puts_tls_digest(mid, i),
            );
        }
    }
    lemma_total_is_bounded(after_calls(state, calls).handshake, state.shard_capacity);
    lemma_total_is_bounded(after_calls(state, calls).tls, state.shard_capacity);
}

/// Replays are found by checks alone, and a check that adds finds a replay or adds a key. So there are
/// never more replays than checks, and if all calls check and add, every check is counted either as a
/// replay or as an addition.
pub proof fn law_counts_add_up(state: ReplayState, calls: Seq<ReplayCall>)
    requires
        state.hits <= state.checks,
        state.checks + calls.len() <= u64::MAX,
        state.additions + calls.len() <= u64::MAX,
    ensures
        after_calls(state, calls).hits <= after_calls(state, calls).checks,
        after_calls(state, calls).checks <= state.checks + calls.len(),
        after_calls(state, calls).additions <= state.additions + calls.len(),
        (forall|i: int|
            0 <= i < calls.len() ==> (#[trigger] calls[i]) is CheckAndAddHandshake
                || calls[i] is CheckAndAddTlsDigest) ==> after_calls(state, calls).checks
            - state.checks == (after_calls(state, calls).hits - state.hits) + (after_calls(
            state,
            calls,
        ).additions - state.additions),
    decreases calls.len(),
{
    if calls.len() > 0 {
        let earlier = calls.drop_last();
        law_counts_add_up(state, earlier);
        if forall|i: int|
            0 <= i < calls.len() ==> (#[trigger] calls[i]) is CheckAndAddHandshake
                || calls[i] is CheckAndAddTlsDigest {
            assert forall|i: int| 0 <= i < earlier.len() implies (
            #[trigger] earlier[i]) is CheckAndAddHandshake || earlier[i] is CheckAndAddTlsDigest by {
                assert(earlier[i] == calls[i]);
            }
            assert(calls[calls.len() - 1] == calls.last());
        }
    }
}

/// The calls come in order of time, none before `first`.
pub open spec fn in_order(calls: Seq<ReplayCall>, first: Instant) -> bool {
    &&& forall|i: int|
        0 <= i < calls.len() ==> first.nanos <= (#[trigger] calls[i]).now().nanos
    &&& forall|i: int, j: int|
        0 <= i < j < calls.len() ==> (#[trigger] calls[i]).now().nanos <= (
        #[trigger] calls[j]).now().nanos
}

/// Whether some call puts the key among the handshakes; one that finds it there does not.
pub open spec fn puts_handshake_key(
    state: ReplayState,
    calls: Seq<ReplayCall>,
    key: Seq<u8>,
) -> bool
    decreases calls.len(),
{
    if calls.len() == 0 {
        false
    } else {
        let earlier = calls.drop_last();
        ||| puts_handshake_key(state, earlier, key)
        ||| calls.last().key() == key && calls.last().puts_handshake(
            after_calls(state, earlier),
            shard_of(key),
        )
    }
}

/// Whether some call puts the key among the TLS digests; one that finds it there does not.
pub open spec fn puts_tls_digest_key(
    state: ReplayState,
    calls: Seq<ReplayCall>,
    key: Seq<u8>,
) -> bool
    decreases calls.len(),
{
    if calls.len() == 0 {
        false
    } else {
        let earlier = calls.drop_last();
        ||| puts_tls_digest_key(state, earlier, key)
        ||| calls.last().key() == key && calls.last().puts_tls_digest(
            after_calls(state, earlier),
            shard_of(key),
        )
    }
}

/// The records are in order of time up to `latest`, and those of the key are no later than `first`.
spec fn dated(records: Records, key: Seq<u8>, first: Instant, latest: Instant) -> bool {
    &&& chronological(records, latest)
    &&& forall|i: int|
        0 <= i < records.len() && (#[trigger] records[i]).1 == key ==> records[i].0.nanos
            <= first.nanos
}

/// The last records are dated if all are.
proof fn lemma_suffix_is_dated(
    records: Records,
    skipped: int,
    key: Seq<u8>,
    first: Instant,
    latest: Instant,
    now: Instant,
)
    requires
        dated(records, key, first, latest),
        latest.nanos <= now.nanos,
        0 <= skipped <= records.len(),
    ensures
        dated(records.skip(skipped), key, first, now),
{
    lemma_suffix_is_chronological(records, skipped, latest, now);
}

/// A call that does not put the key leaves the records dated.
proof fn lemma_shard_stays_dated(
    before: Records,
    after: Records,
    key: Seq<u8>,
    first: Instant,
    latest: Instant,
    called: Seq<u8>,
    now: Instant,
    window: Duration,
    capacity: nat,
    puts: bool,
)
    requires
        dated(before, key, first, latest),
        latest.nanos <= now.nanos,
        capacity > 0,
        shard_went_on(before, after, called, now, window, capacity, puts),
        puts ==> called != key || now == first,
    ensures
        dated(after, key, first, now),
{
    if window.nanos() > 0 {
        let dropped = lemma_drop_older_is_suffix(before, cutoff_before(now, window));
        let kept = after_cleanup(before, now, window);
        lemma_suffix_is_dated(before, dropped, key, first, latest, now);
        if kept.len() >= capacity {
            lemma_suffix_is_dated(kept, kept.len() - capacity + 1, key, first, now, now);
        }
        let room = with_room(kept, capacity);
        assert(dated(room, key, first, now));
        assert(dated(room.push((now, called)), key, first, now) || !puts);
    }
}

/// When the last of the calls was made; `first` if there was none.
spec fn latest_of(calls: Seq<ReplayCall>, first: Instant) -> Instant {
    if calls.len() == 0 {
        first
    } else {
        calls.last().now()
    }
}

proof fn lemma_earlier_in_order(calls: Seq<ReplayCall>, first: Instant)
    requires
        in_order(calls, first),
        calls.len() > 0,
    ensures
        in_order(calls.drop_last(), first),
        latest_of(calls.drop_last(), first).nanos <= calls.last().now().nanos,
{
    let earlier = calls.drop_last();
    assert forall|i: int| 0 <= i < earlier.len() implies first.nanos <= (
    #[trigger] earlier[i]).now().nanos by {
        assert(earlier[i] == calls[i]);
    }
    assert forall|i: int, j: int| 0 <= i < j < earlier.len() implies (
    #[trigger] earlier[i]).now().nanos <= (#[trigger] earlier[j]).now().nanos by {
        assert(earlier[i] == calls[i] && earlier[j] == calls[j]);
    }
    assert(calls[calls.len() - 1] == calls.last());
    if earlier.len() > 0 {
        assert(earlier.last() == calls[calls.len() - 2]);
    }
}

proof fn lemma_calls_keep_handshake_dated(
    state: ReplayState,
    key: Seq<u8>,
    first: Instant,
    calls: Seq<ReplayCall>,
)
    requires
        sharded(state),
        state.shard_capacity > 0,
        dated(state.handshake[shard_of(key)], key, first, first),
        in_order(calls, first),
        !puts_handshake_key(state, calls, key),
    ensures
        dated(
            after_calls(state, calls).handshake[shard_of(key)],
            key,
            first,
            latest_of(calls, first),
        ),
    decreases calls.len(),
{
    if calls.len() > 0 {
        let earlier = calls.drop_last();
        let call = calls.last();
        let shard = shard_of(key);
        lemma_earlier_in_order(calls, first);
        lemma_calls_keep_handshake_dated(state, key, first, earlier);
        law_calls_keep_the_limits(state, earlier);
        law_every_key_has_a_shard(key);
        let mid = after_calls(state, earlier);
        lemma_call_on_shards(mid, call, shard);
        lemma_shard_stays_dated(
            mid.handshake[shard],
            call.made(mid).handshake[shard],
            key,
            first,
            latest_of(earlier, first),
            call.key(),
            call.now(),
            state.window,
            state.shard_capacity,
            call.puts_handshake(mid, shard),
        );
    }
}

proof fn lemma_calls_keep_tls_digest_dated(
    state: ReplayState,
    key: Seq<u8>,
    first: Instant,
    calls: Seq<ReplayCall>,
)
    requires
        sharded(state),
        state.shard_capacity > 0,
        dated(state.tls[shard_of(key)], key, first, first),
        in_order(calls, first),
        !puts_tls_digest_key(state, calls, key),
    ensures
        dated(
            after_calls(state, calls).tls[shard_of(key)],
            key,
            first,
            latest_of(calls, first),
        ),
    decreases calls.len(),
{
    if calls.len() > 0 {
        let earlier = calls.drop_last();
        let call = calls.last();
        let shard = shard_of(key);
        lemma_earlier_in_order(calls, first);
        lemma_calls_keep_tls_digest_dated(state, key, first, earlier);
        law_calls_keep_the_limits(state, earlier);
        law_every_key_has_a_shard(key);
        let mid = after_calls(state, earlier);
        lemma_call_on_shards(mid, call, shard);
        lemma_shard_stays_dated(
            mid.tls[shard],
            call.made(mid).tls[shard],
            key,
            first,
            latest_of(earlier, first),
            call.key(),
            call.now(),
            state.tls_window,
            state.shard_capacity,
            call.puts_tls_digest(mid, shard),
        );
    }
}

/// A handshake that was shown or added at `first` is new again at `second`, once the window has left
/// `first` behind, whatever calls were made in between in order of time, unless one of them put the
/// handshake there anew. Repeats that are found to be replays do not renew it.
pub proof fn law_handshake_expires(
    state: ReplayState,
    key: Seq<u8>,
    first: Instant,
    shown: ReplayState,
    between: Seq<ReplayCall>,
    second: Instant,
)
    requires
        sharded(state),
        state.shard_capacity > 0,
        chronological(state.handshake[shard_of(key)], first),
        shown == state.check_and_add_handshake(key, first) || shown == state.add_handshake(
            key,
            first,
        ),
        in_order(between, first),
        !puts_handshake_key(shown, between, key),
        first.nanos < cutoff_before(second, state.window).nanos,
    ensures
        !after_calls(shown, between).handshake_replayed(key, second),
{
    law_every_key_has_a_shard(key);
    let shard = shard_of(key);
    lemma_shard_stays_dated(
        state.handshake[shard],
        shown.handshake[shard],
        key,
        first,
        first,
        key,
        first,
        state.window,
        state.shard_capacity,
        true,
    );
    lemma_calls_keep_handshake_dated(shown, key, first, between);
    law_calls_keep_the_limits(shown, between);
    law_expired_key_is_forgotten(
        after_calls(shown, between).handshake[shard],
        key,
        latest_of(between, first),
        second,
        state.window,
    );
}

/// A TLS digest that was shown or added at `first` is new again at `second`, once the window has left
/// `first` behind, whatever calls were made in between in order of time, unless one of them put the
/// digest there anew. Checks, and repeats that are found to be replays, do not renew it.
pub proof fn law_tls_digest_expires(
    state: ReplayState,
    key: Seq<u8>,
    first: Instant,
    shown: ReplayState,
    between: Seq<ReplayCall>,
    second: Instant,
)
    requires
        sharded(state),
        state.shard_capacity > 0,
        chronological(state.tls[shard_of(key)], first),
        shown == state.check_and_add_tls_digest(key, first) || shown == state.add_tls_digest(
            key,
            first,
        ),
        in_order(between, first),
        !puts_tls_digest_key(shown, between, key),
        first.nanos < cutoff_before(second, state.tls_window).nanos,
    ensures
        !after_calls(shown, between).tls_replayed(key, second),
{
    law_every_key_has_a_shard(key);
    let shard = shard_of(key);
    lemma_shard_stays_dated(
        state.tls[shard],
        shown.tls[shard],
        key,
        first,
        first,
        key,
        first,
        state.tls_window,
        state.shard_capacity,
        true,
    );
    lemma_calls_keep_tls_digest_dated(shown, key, first, between);
    law_calls_keep_the_limits(shown, between);
    law_expired_key_is_forgotten(
        after_calls(shown, between).tls[shard],
        key,
        latest_of(between, first),
        second,
        state.tls_window,
    );
}

/// Handshakes and TLS digests do not disturb each other, and a key does not disturb the other shards.
pub proof fn law_kinds_and_shards_are_independent(
    state: ReplayState,
    key: Seq<u8>,
    other: Seq<u8>,
    at: Instant,
    now: Instant,
)
    requires
        sharded(state),
    ensures
        state.check_and_add_tls_digest(other, at).handshake == state.handshake,
        state.check_and_add_tls_digest(other, at).handshake_replayed(key, now)
            == state.handshake_replayed(key, now),
        state.check_and_add_handshake(other, at).tls == state.tls,
        state.check_and_add_handshake(other, at).tls_replayed(key, now) == state.tls_replayed(
            key,
            now,
        ),
        shard_of(key) != shard_of(other) ==> state.check_and_add_handshake(
            other,
            at,
        ).handshake_replayed(key, now) == state.handshake_replayed(key, now),
        shard_of(key) != shard_of(other) ==> state.check_and_add_tls_digest(other, at).tls_replayed(
            key,
            now,
        ) == state.tls_replayed(key, now),
{
    law_every_key_has_a_shard(key);
    law_every_key_has_a_shard(other);
}

} // verus!
