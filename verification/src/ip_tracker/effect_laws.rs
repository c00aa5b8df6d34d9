//! What the calls of a tracker change and what they leave, told by the numbers that it holds.

use std::collections::hash_map::DefaultHasher;

use vstd::prelude::*;
use vstd::std_specs::hash::DefaultHasherAdditionalSpecFns;

use super::cleanup::{
    batch_for, closes, down_to_zero, drawn, from_queue, less, released, released_ips, run_out, stays,
    touches, unqueued, unqueued_ips, Batch,
};
use super::laws::law_every_user_has_a_shard;
use super::{
    as_far_as, cleaned_up, count_of, empty_tracker, has_empty_user, has_pair, ips_or_none,
    mode_number, numbered_mode, popped, runs_out, shard_of, tidy, up_to, users_over, with_count,
    with_ips, Counts, IpAddr, TrackerState, UserMaxUniqueIpsMode,
};
use crate::stats::counters::went_up;

verus! {

/// Whether there is a number for an address of a user.
pub open spec fn knows(counts: Counts, user: Seq<char>, ip: IpAddr) -> bool {
    counts.contains_key(user) && counts[user].contains_key(ip)
}

/// The number of an address of a user stayed as it was, be there one or not.
pub open spec fn untouched(before: Counts, after: Counts, user: Seq<char>, ip: IpAddr) -> bool {
    &&& knows(after, user, ip) <==> knows(before, user, ip)
    &&& knows(before, user, ip) ==> after[user][ip] == before[user][ip]
}

/// There is one number, `n`, for an address of a user, and every other number stayed as it was.
pub open spec fn only_set(
    before: Counts,
    after: Counts,
    user: Seq<char>,
    ip: IpAddr,
    n: int,
) -> bool {
    &&& knows(after, user, ip)
    &&& after[user][ip] == n
    &&& forall|who: Seq<char>, other: IpAddr|
        who != user || other != ip ==> #[trigger] untouched(before, after, who, other)
    &&& forall|who: Seq<char>|
        who != user ==> (#[trigger] after.contains_key(who) <==> before.contains_key(who))
}

/// There is no number for an address of a user any more, every other number stayed as it was, and the
/// user is gone if there is no other address.
pub open spec fn only_dropped(
    before: Counts,
    after: Counts,
    user: Seq<char>,
    ip: IpAddr,
) -> bool {
    &&& !knows(after, user, ip)
    &&& forall|who: Seq<char>, other: IpAddr|
        who != user || other != ip ==> #[trigger] untouched(before, after, who, other)
    &&& forall|who: Seq<char>|
        who != user ==> (#[trigger] after.contains_key(who) <==> before.contains_key(who))
    &&& after.contains_key(user) ==> exists|other: IpAddr|
        other != ip && #[trigger] before[user].contains_key(other)
}

/// A limit that was set for a user counts, however great or small it is beside the limit of the others;
/// zero stands for none of their own. Without one, the limit of the others counts, and zero stands for
/// no limit at all.
pub proof fn law_own_limit_comes_first(state: TrackerState, user: Seq<char>, limit: usize)
    ensures
        limit > 0 && state.max_ips.contains_key(user) && state.max_ips[user] == limit
            ==> state.user_limit(user) == Some(limit),
        (state.max_ips.contains_key(user) ==> state.max_ips[user] == 0) && state.default_max_ips > 0
            ==> state.user_limit(user) == Some(state.default_max_ips),
        (state.max_ips.contains_key(user) ==> state.max_ips[user] == 0) && state.default_max_ips == 0
            ==> state.user_limit(user) is None,
{
}

/// Setting the limit of a user gives exactly that limit to the user, or the limit of the others where it is
/// zero, and leaves every other user alone. Setting the limit of the others leaves the users alone that
/// have one of their own, and gives it to all the rest.
pub proof fn law_set_limit_is_found(
    state: TrackerState,
    user: Seq<char>,
    limit: usize,
    other: Seq<char>,
)
    ensures
        ({
            let after = TrackerState { max_ips: state.max_ips.insert(user, limit), ..state };
            &&& limit > 0 ==> after.user_limit(user) == Some(limit)
            &&& limit == 0 && state.default_max_ips > 0 ==> after.user_limit(user) == Some(
                state.default_max_ips,
            )
            &&& other != user ==> after.user_limit(other) == state.user_limit(other)
        }),
        ({
            let after = TrackerState { default_max_ips: limit, ..state };
            let own = state.max_ips.contains_key(user) && state.max_ips[user] > 0;
            &&& own ==> after.user_limit(user) == state.user_limit(user)
            &&& !own && limit > 0 ==> after.user_limit(user) == Some(limit)
            &&& !own && limit == 0 ==> after.user_limit(user) is None
        }),
{
}

/// The modes have the numbers zero, one and two in the order in which they stand, and any other number
/// stands for the first of them.
pub proof fn law_modes_are_numbered(raw: u8)
    ensures
        mode_number(UserMaxUniqueIpsMode::ActiveWindow) == 0,
        mode_number(UserMaxUniqueIpsMode::TimeWindow) == 1,
        mode_number(UserMaxUniqueIpsMode::Combined) == 2,
        numbered_mode(raw) is TimeWindow <==> raw == 1,
        numbered_mode(raw) is Combined <==> raw == 2,
        numbered_mode(raw) is ActiveWindow <==> raw != 1 && raw != 2,
{
}

/// An address counts as recent for as many seconds as were set, and for one where none was set.
pub proof fn law_window_is_a_second_at_least(state: TrackerState)
    ensures
        state.limit_window_nanos() >= 1_000_000_000,
        state.limit_window_secs >= 1 ==> state.limit_window_nanos() == 1_000_000_000
            * state.limit_window_secs,
        state.limit_window_secs == 0 ==> state.limit_window_nanos() == 1_000_000_000,
{
}

/// The shard of a user is what the hash of the name leaves when it is divided by sixty-four.
pub proof fn law_shard_is_the_rest_of_the_hash(user: Seq<char>)
    ensures
        shard_of(user) == DefaultHasher::spec_finish(
            seq![vstd::utf8::encode_utf8(user), seq![0xffu8]],
        ) as int % 64,
{
    let hash: u64 = DefaultHasher::spec_finish(
        seq![vstd::utf8::encode_utf8(user), seq![0xffu8]],
    );
    assert(hash as usize & 63usize == hash % 64) by (bit_vector);
}

/// A new tracker has seen nobody, limits nobody, and would count an address as recent for thirty seconds.
pub proof fn law_new_tracker_has_seen_nobody(i: int, user: Seq<char>)
    requires
        0 <= i < 64,
    ensures
        empty_tracker().active.len() == 64,
        empty_tracker().recent.len() == 64,
        empty_tracker().queues.len() == 64,
        !empty_tracker().active[i].contains_key(user),
        !empty_tracker().recent[i].contains_key(user),
        !empty_tracker().queues[i].contains_key(user),
        empty_tracker().user_limit(user) is None,
        empty_tracker().active_entries == 0,
        empty_tracker().recent_entries == 0,
        empty_tracker().active_cap_rejects == 0,
        empty_tracker().recent_cap_rejects == 0,
        empty_tracker().deferred_releases == 0,
        empty_tracker().queue_len == 0,
        empty_tracker().last_compact_epoch_secs == 0,
        numbered_mode(empty_tracker().limit_mode) is ActiveWindow,
        empty_tracker().limit_window_nanos() == 30_000_000_000,
{
}

/// The number of an address of a user is the one that is held for it, and zero where none is held.
pub proof fn law_number_is_read_as_held(counts: Counts, user: Seq<char>, ip: IpAddr)
    ensures
        has_pair(counts, user, ip) <==> knows(counts, user, ip),
        knows(counts, user, ip) ==> count_of(counts, user, ip) == counts[user][ip],
        !knows(counts, user, ip) ==> count_of(counts, user, ip) == 0,
        ips_or_none(counts, user).contains_key(ip) <==> knows(counts, user, ip),
        knows(counts, user, ip) ==> ips_or_none(counts, user)[ip] == counts[user][ip],
{
}

/// Setting a number sets that one, and no other.
pub proof fn law_one_number_is_set(counts: Counts, user: Seq<char>, ip: IpAddr, n: usize)
    ensures
        only_set(counts, with_count(counts, user, ip, n), user, ip, n as int),
{
}

/// A connection of a known pair of a user and an address is always counted. A new pair is turned away
/// from 131,072 pairs on, and the turning away is counted; otherwise it is one pair more with one
/// connection. No other number changes.
pub proof fn law_admission_counts_the_connection(state: TrackerState, user: Seq<char>, ip: IpAddr)
    requires
        state.active.len() == 64,
        state.active_entries < u64::MAX,
    ensures
        ({
            let at = shard_of(user);
            let known = knows(state.active[at], user, ip);
            let after = state.add_active(user, ip);
            let refused = !known && state.active_entries >= 131_072;
            &&& refused ==> {
                &&& after == (TrackerState {
                    active_cap_rejects: after.active_cap_rejects,
                    ..state
                })
                &&& went_up(state.active_cap_rejects, after.active_cap_rejects, 1)
            }
            &&& !refused ==> {
                &&& after == (TrackerState {
                    active: after.active,
                    active_entries: after.active_entries,
                    ..state
                })
                &&& after.active.len() == 64
                &&& forall|i: int|
                    0 <= i < 64 && i != at ==> #[trigger] after.active[i] == state.active[i]
                &&& !known ==> after.active_entries == state.active_entries + 1 && only_set(
                    state.active[at],
                    after.active[at],
                    user,
                    ip,
                    1,
                )
                &&& known ==> after.active_entries == state.active_entries && only_set(
                    state.active[at],
                    after.active[at],
                    user,
                    ip,
                    if state.active[at][user][ip] < usize::MAX {
                        state.active[at][user][ip] + 1
                    } else {
                        usize::MAX as int
                    },
                )
            }
        }),
{
    law_every_user_has_a_shard(user);
    let at = shard_of(user);
    let known = knows(state.active[at], user, ip);
    let after = state.add_active(user, ip);
    if known || state.active_entries < 131_072 {
        law_one_number_is_set(state.active[at], user, ip, after.active[at][user][ip]);
        assert(after.active[at] == with_count(
            state.active[at],
            user,
            ip,
            after.active[at][user][ip],
        ));
    }
}

/// A closed connection is queued as one more of its address, in the shard of its user; a new address in
/// the queue makes it longer by one, and every one is counted. Nothing else changes.
pub proof fn law_closed_connection_is_queued(state: TrackerState, user: Seq<char>, ip: IpAddr)
    requires
        state.queues.len() == 64,
    ensures
        ({
            let at = shard_of(user);
            let queue = state.queues[at];
            let waits = knows(queue, user, ip) && queue[user][ip] > 0;
            let after = state.enqueue_cleanup(user, ip);
            &&& after == (TrackerState {
                queues: after.queues,
                queue_len: after.queue_len,
                deferred_releases: after.deferred_releases,
                ..state
            })
            &&& went_up(state.deferred_releases, after.deferred_releases, 1)
            &&& went_up(
                state.queue_len,
                after.queue_len,
                if waits {
                    0
                } else {
                    1
                },
            )
            &&& after.queues.len() == 64
            &&& forall|i: int|
                0 <= i < 64 && i != at ==> #[trigger] after.queues[i] == state.queues[i]
            &&& only_set(
                queue,
                after.queues[at],
                user,
                ip,
                if !waits {
                    1
                } else if queue[user][ip] < usize::MAX {
                    queue[user][ip] + 1
                } else {
                    usize::MAX as int
                },
            )
        }),
{
    law_every_user_has_a_shard(user);
    let at = shard_of(user);
    let after = state.enqueue_cleanup(user, ip);
    law_one_number_is_set(state.queues[at], user, ip, after.queues[at][user][ip]);
    assert(after.queues[at] == with_count(state.queues[at], user, ip, after.queues[at][user][ip]));
}

/// Closing connections of an address takes as many off it, and drops it when none is left; an unknown
/// address has none to take. A user without addresses is dropped too. No other number changes, and
/// closing none changes nothing.
pub proof fn law_closed_connections_are_taken_off(
    counts: Counts,
    user: Seq<char>,
    ip: IpAddr,
    n: usize,
)
    ensures
        ({
            let after = cleaned_up(counts, user, ip, n);
            &&& n == 0 ==> after == counts
            &&& n > 0 && knows(counts, user, ip) && counts[user][ip] > n ==> only_set(
                counts,
                after,
                user,
                ip,
                counts[user][ip] - n,
            )
            &&& n > 0 && knows(counts, user, ip) && counts[user][ip] <= n ==> only_dropped(
                counts,
                after,
                user,
                ip,
            )
            &&& n > 0 && !knows(counts, user, ip) ==> only_dropped(counts, after, user, ip)
        }),
        runs_out(counts, user, ip, n) <==> n > 0 && knows(counts, user, ip) && counts[user][ip] <= n,
{
    let after = cleaned_up(counts, user, ip, n);
    if n > 0 && counts.contains_key(user) {
        let ips = counts[user];
        if ips.contains_key(ip) && ips[ip] > n {
            let left = ips.insert(ip, (ips[ip] - n) as usize);
            assert(left.contains_key(ip));
            assert(left != Map::<IpAddr, usize>::empty());
            assert(only_set(counts, after, user, ip, counts[user][ip] - n));
        } else {
            let left = ips.remove(ip);
            if !ips.contains_key(ip) {
                assert(left =~= ips);
            }
            lemma_without_an_address(counts, user, ip, left);
            assert(after == with_ips(counts, user, left));
        }
    }
}

/// Leaving a user with all addresses but one.
proof fn lemma_without_an_address(
    counts: Counts,
    user: Seq<char>,
    ip: IpAddr,
    left: Map<IpAddr, usize>,
)
    requires
        counts.contains_key(user),
        left == counts[user].remove(ip),
    ensures
        only_dropped(counts, with_ips(counts, user, left), user, ip),
{
    let after = with_ips(counts, user, left);
    if left == Map::<IpAddr, usize>::empty() {
        assert forall|who: Seq<char>, other: IpAddr| who != user || other != ip implies #[trigger] untouched(
            counts,
            after,
            who,
            other,
        ) by {
            if who == user {
                assert(!left.contains_key(other));
            }
        }
    } else {
        if forall|other: IpAddr| !left.contains_key(other) {
            assert(left =~= Map::<IpAddr, usize>::empty());
        }
        let other = choose|other: IpAddr| left.contains_key(other);
        assert(counts[user].contains_key(other));
    }
}

/// What is taken out of a queue is gone from it, with its user where there was no other address, and
/// everything else stays queued.
pub proof fn law_popped_address_is_gone(queue: Counts, user: Seq<char>, ip: IpAddr)
    requires
        knows(queue, user, ip),
    ensures
        only_dropped(queue, popped(queue, user, ip), user, ip),
{
    lemma_without_an_address(queue, user, ip, queue[user].remove(ip));
}

/// Taking a batch out of a queue takes exactly the addresses of the batch, and leaves every other number. A
/// user of whom nothing is left is gone.
pub proof fn law_batch_is_taken_out(queue: Counts, batch: Batch, user: Seq<char>, ip: IpAddr)
    ensures
        ({
            let after = unqueued(queue, batch);
            &&& knows(after, user, ip) <==> knows(queue, user, ip) && !batch.contains_key((user, ip))
            &&& knows(after, user, ip) ==> after[user][ip] == queue[user][ip]
            &&& batch.contains_key((user, ip)) && after.contains_key(user) ==> exists|other: IpAddr| #[trigger]
                queue[user].contains_key(other) && !batch.contains_key((user, other))
            &&& (forall|other: IpAddr| !#[trigger] batch.contains_key((user, other))) ==> (
            after.contains_key(user) <==> queue.contains_key(user))
        }),
{
    let after = unqueued(queue, batch);
    if queue.contains_key(user) {
        let left = unqueued_ips(queue[user], batch, user);
        if knows(queue, user, ip) && !batch.contains_key((user, ip)) {
            assert(left.contains_key(ip));
            assert(left != Map::<IpAddr, usize>::empty());
        }
        if batch.contains_key((user, ip)) && after.contains_key(user) {
            assert(touches(batch, user));
            if forall|other: IpAddr| !left.contains_key(other) {
                assert(left =~= Map::<IpAddr, usize>::empty());
            }
            let other = choose|other: IpAddr| left.contains_key(other);
            assert(queue[user].contains_key(other) && !batch.contains_key((user, other)));
        }
    }
}

/// Closing the connections of a batch takes exactly as many off each address as the batch holds for it,
/// and drops the address where none is left. Every other number stays.
pub proof fn law_batch_is_closed(active: Counts, batch: Batch, user: Seq<char>, ip: IpAddr)
    ensures
        ({
            let after = released(active, batch);
            let closed: int = if batch.contains_key((user, ip)) {
                batch[(user, ip)] as int
            } else {
                0
            };
            let known = knows(active, user, ip);
            &&& known && closed == 0 ==> knows(after, user, ip) && after[user][ip]
                == active[user][ip]
            &&& known && 0 < closed < active[user][ip] ==> knows(after, user, ip)
                && after[user][ip] == active[user][ip] - closed
            &&& known && closed > 0 && closed >= active[user][ip] ==> !knows(after, user, ip)
            &&& !known ==> !knows(after, user, ip)
            &&& run_out(active, batch).contains((user, ip)) <==> known && closed > 0 && closed
                >= active[user][ip]
            &&& closed > 0 && after.contains_key(user) ==> exists|other: IpAddr| #[trigger]
                after[user].contains_key(other)
            &&& (forall|other: IpAddr| #[trigger]
                batch.contains_key((user, other)) ==> batch[(user, other)] == 0) ==> (
            after.contains_key(user) <==> active.contains_key(user))
        }),
{
    let after = released(active, batch);
    if active.contains_key(user) {
        let left = released_ips(active[user], batch, user);
        if stays(active[user], batch, user, ip) {
            assert(left.contains_key(ip));
            assert(left != Map::<IpAddr, usize>::empty());
        }
        if batch.contains_key((user, ip)) && batch[(user, ip)] > 0 && after.contains_key(user) {
            assert(closes(batch, user));
            if forall|other: IpAddr| !left.contains_key(other) {
                assert(left =~= Map::<IpAddr, usize>::empty());
            }
            let other = choose|other: IpAddr| left.contains_key(other);
            assert(after[user].contains_key(other));
        }
    }
}

/// A drain takes at most 1024 addresses, each from the queue with the number that it has there; and if it
/// takes fewer, there were no others.
pub proof fn law_drain_takes_a_batch_at_most(queue: Counts, batch: Batch, user: Seq<char>, ip: IpAddr)
    requires
        drawn(queue, batch),
    ensures
        batch.len() <= 1024,
        batch.contains_key((user, ip)) ==> knows(queue, user, ip) && batch[(user, ip)]
            == queue[user][ip],
        batch.len() < 1024 && knows(queue, user, ip) ==> batch.contains_key((user, ip)),
{
    if batch.contains_key((user, ip)) {
        assert(has_pair(queue, user, ip));
    }
    law_batch_is_taken_out(queue, batch, user, ip);
}

/// Whatever is in a queue, with as many addresses as one drain may take or fewer, can be drawn as a whole.
pub proof fn law_whole_queue_can_be_drawn(queue: Counts, batch: Batch)
    requires
        batch.dom().finite(),
        batch.len() <= 1024,
        forall|user: Seq<char>, ip: IpAddr| #[trigger]
            batch.contains_key((user, ip)) <==> knows(queue, user, ip),
        forall|user: Seq<char>, ip: IpAddr| #[trigger]
            batch.contains_key((user, ip)) ==> batch[(user, ip)] == queue[user][ip],
        forall|user: Seq<char>| #[trigger]
            queue.contains_key(user) ==> exists|ip: IpAddr| queue[user].contains_key(ip),
    ensures
        drawn(queue, batch),
        from_queue(queue, batch),
{
    assert forall|pair: (Seq<char>, IpAddr)| #[trigger] batch.contains_key(pair) implies has_pair(
        queue,
        pair.0,
        pair.1,
    ) && queue[pair.0][pair.1] == batch[pair] by {
        assert(batch.contains_key((pair.0, pair.1)));
    }
    let after = unqueued(queue, batch);
    assert forall|user: Seq<char>| !after.contains_key(user) by {
        if queue.contains_key(user) {
            let ip = choose|ip: IpAddr| queue[user].contains_key(ip);
            assert(batch.contains_key((user, ip)));
            law_batch_is_taken_out(queue, batch, user, ip);
        }
    }
    assert(after =~= Map::<Seq<char>, Map<IpAddr, usize>>::empty());
}

/// What is queued for a user is all of it and nothing else.
pub proof fn law_user_is_drained_whole(
    queue: Counts,
    user: Seq<char>,
    who: Seq<char>,
    ip: IpAddr,
)
    ensures
        batch_for(queue, user).contains_key((who, ip)) <==> who == user && knows(queue, user, ip),
        knows(queue, user, ip) ==> batch_for(queue, user)[(user, ip)] == queue[user][ip],
{
}

/// A counter goes down by what is taken from it; the one that may not go below zero stays there.
pub proof fn law_counters_go_down(counter: u64, amount: nat)
    ensures
        amount <= counter ==> less(counter, amount) == counter - amount,
        counter < amount <= u64::MAX ==> less(counter, amount) == 0x1_0000_0000_0000_0000 + counter
            - amount,
        amount <= counter ==> down_to_zero(counter, amount) == counter - amount,
        amount > counter ==> down_to_zero(counter, amount) == 0,
{
}

/// A drain of a shard moves a batch from its queue to its open connections, makes the queue shorter by the
/// addresses of the batch, and counts fewer pairs by those that lost their last connection. No other
/// shard and nothing else changes.
pub proof fn law_drain_moves_the_batch(state: TrackerState, at: int, batch: Batch)
    requires
        state.active.len() == 64,
        state.queues.len() == 64,
        0 <= at < 64,
    ensures
        ({
            let after = state.drain(at, batch);
            &&& after == (TrackerState {
                queues: after.queues,
                queue_len: after.queue_len,
                active: after.active,
                active_entries: after.active_entries,
                ..state
            })
            &&& after.queues.len() == 64 && after.active.len() == 64
            &&& forall|i: int|
                0 <= i < 64 && i != at ==> #[trigger] after.queues[i] == state.queues[i]
            &&& forall|i: int|
                0 <= i < 64 && i != at ==> #[trigger] after.active[i] == state.active[i]
            &&& after.queues[at] == unqueued(state.queues[at], batch)
            &&& after.active[at] == released(state.active[at], batch)
            &&& batch.len() <= state.queue_len ==> after.queue_len == state.queue_len - batch.len()
            &&& run_out(state.active[at], batch).len() <= state.active_entries
                ==> after.active_entries == state.active_entries - run_out(
                state.active[at],
                batch,
            ).len()
        }),
{
}

/// A drain for a user, unless nothing is queued at all, takes everything that is queued for the user off
/// the open connections of the user, address by address. Everything of every other user stays as it was.
pub proof fn law_user_drain_settles_the_user(
    state: TrackerState,
    user: Seq<char>,
    who: Seq<char>,
    ip: IpAddr,
)
    requires
        state.active.len() == 64,
        state.queues.len() == 64,
    ensures
        state.queue_len == 0 ==> state.drain_user(user) == state,
        state.queue_len > 0 ==> {
            let at = shard_of(user);
            let queue = state.queues[at];
            let active = state.active[at];
            let after = state.drain_user(user);
            let open: int = if knows(active, user, ip) {
                active[user][ip] as int
            } else {
                0
            };
            let queued: int = if knows(queue, user, ip) {
                queue[user][ip] as int
            } else {
                0
            };
            &&& !knows(after.queues[at], user, ip)
            &&& open > queued ==> knows(after.active[at], user, ip) && after.active[at][user][ip]
                == open - queued
            &&& open <= queued && queued > 0 ==> !knows(after.active[at], user, ip)
            &&& who != user ==> untouched(queue, after.queues[at], who, ip) && untouched(
                active,
                after.active[at],
                who,
                ip,
            )
            &&& forall|i: int|
                0 <= i < 64 && i != at ==> #[trigger] after.queues[i] == state.queues[i]
            &&& forall|i: int|
                0 <= i < 64 && i != at ==> #[trigger] after.active[i] == state.active[i]
        },
{
    law_every_user_has_a_shard(user);
    if state.queue_len > 0 {
        let at = shard_of(user);
        let batch = batch_for(state.queues[at], user);
        law_user_is_drained_whole(state.queues[at], user, user, ip);
        law_user_is_drained_whole(state.queues[at], user, who, ip);
        law_batch_is_taken_out(state.queues[at], batch, user, ip);
        law_batch_is_closed(state.active[at], batch, user, ip);
        law_batch_is_taken_out(state.queues[at], batch, who, ip);
        law_batch_is_closed(state.active[at], batch, who, ip);
        law_drain_moves_the_batch(state, at, batch);
    }
}

/// In a drain of all shards, each shard is drained of its own batch and of no other, and only the shards
/// and the counters of what they hold change.
pub proof fn law_each_shard_is_drained_of_its_batch(
    state: TrackerState,
    batches: Seq<Batch>,
    i: int,
)
    requires
        state.active.len() == 64,
        state.queues.len() == 64,
        batches.len() <= 64,
        0 <= i < 64,
    ensures
        ({
            let after = state.drain_each(batches);
            &&& after == (TrackerState {
                queues: after.queues,
                queue_len: after.queue_len,
                active: after.active,
                active_entries: after.active_entries,
                ..state
            })
            &&& after.queues.len() == 64 && after.active.len() == 64
            &&& i < batches.len() ==> after.queues[i] == unqueued(state.queues[i], batches[i])
                && after.active[i] == released(state.active[i], batches[i])
            &&& i >= batches.len() ==> after.queues[i] == state.queues[i] && after.active[i]
                == state.active[i]
        }),
    decreases batches.len(),
{
    if batches.len() > 0 {
        law_each_shard_is_drained_of_its_batch(state, batches.drop_last(), i);
        law_each_shard_is_drained_of_its_batch(state, batches.drop_last(), batches.len() - 1);
        law_drain_moves_the_batch(
            state.drain_each(batches.drop_last()),
            batches.len() - 1,
            batches.last(),
        );
    }
}

/// A drain of all shards leaves a shard alone whose lock is held. From every other one it takes 1024
/// addresses, or all there are.
pub proof fn law_drain_leaves_locked_shards(
    state: TrackerState,
    locks_free: Seq<bool>,
    batches: Seq<Batch>,
    i: int,
    user: Seq<char>,
    ip: IpAddr,
)
    requires
        state.active.len() == 64,
        state.queues.len() == 64,
        batches.len() == 64,
        0 <= i < 64,
        state.may_draw(locks_free, batches),
    ensures
        ({
            let after = state.drain_each(batches);
            &&& !locks_free[i] ==> untouched(state.queues[i], after.queues[i], user, ip)
                && untouched(state.active[i], after.active[i], user, ip)
            &&& locks_free[i] ==> batches[i].len() == 1024 || batches[i].len() < 1024 && !knows(
                after.queues[i],
                user,
                ip,
            )
            &&& locks_free[i] && knows(after.queues[i], user, ip) ==> untouched(
                state.queues[i],
                after.queues[i],
                user,
                ip,
            ) && untouched(state.active[i], after.active[i], user, ip)
        }),
{
    law_each_shard_is_drained_of_its_batch(state, batches, i);
    law_batch_is_taken_out(state.queues[i], batches[i], user, ip);
    law_batch_is_closed(state.active[i], batches[i], user, ip);
    if locks_free[i] {
        law_drain_takes_a_batch_at_most(state.queues[i], batches[i], user, ip);
    }
}

/// The users of a tracker are those of each shard together, as far as a machine word goes.
pub proof fn law_users_are_added_up<V>(
    shards: Seq<Map<Seq<char>, V>>,
    shard: Map<Seq<char>, V>,
    total: nat,
)
    ensures
        users_over(Seq::<Map<Seq<char>, V>>::empty()) == 0,
        users_over(shards.push(shard)) == users_over(shards) + shard.len(),
        total <= usize::MAX ==> as_far_as(total) == total,
        total > usize::MAX ==> as_far_as(total) == usize::MAX,
{
    assert(shards.push(shard).drop_last() =~= shards);
}

/// A connection is admitted if it is counted: one more of its address where it is, one more turned away
/// where it is not.
pub proof fn law_admitted_connection_is_counted(state: TrackerState, user: Seq<char>, ip: IpAddr)
    requires
        state.active.len() == 64,
        state.active_entries < u64::MAX,
    ensures
        ({
            let at = shard_of(user);
            let after = state.add_active(user, ip);
            &&& state.admits(user, ip) ==> knows(after.active[at], user, ip)
                && after.active_cap_rejects == state.active_cap_rejects
            &&& !state.admits(user, ip) ==> !knows(after.active[at], user, ip) && after.active
                == state.active && went_up(state.active_cap_rejects, after.active_cap_rejects, 1)
            &&& state.admits(user, ip) <==> knows(state.active[at], user, ip)
                || state.active_entries < 131_072
        }),
{
    law_admission_counts_the_connection(state, user, ip);
}

/// A counter goes up by one below its cap, and stays from there on.
pub proof fn law_counter_stops_at_its_cap(counter: u64, cap: u64)
    ensures
        counter < cap ==> up_to(counter, cap) == counter + 1 && up_to(counter, cap) <= cap,
        counter >= cap ==> up_to(counter, cap) == counter,
{
}

/// What is set is found: the limit of a user, unless it is zero, the limit of the others by those without
/// one of their own, the mode, and the time for which an address counts as recent. Setting one leaves
/// the others.
pub proof fn law_settings_are_found(
    state: TrackerState,
    user: Seq<char>,
    other: Seq<char>,
    limit: usize,
    mode: UserMaxUniqueIpsMode,
    secs: u64,
)
    ensures
        limit > 0 ==> state.with_user_limit(user, limit).user_limit(user) == Some(limit),
        other != user ==> state.with_user_limit(user, limit).user_limit(other) == state.user_limit(
            other,
        ),
        limit > 0 && !state.max_ips.contains_key(user) ==> state.with_default_limit(
            limit,
        ).user_limit(user) == Some(limit),
        state.max_ips.contains_key(user) && state.max_ips[user] > 0 ==> state.with_default_limit(
            limit,
        ).user_limit(user) == Some(state.max_ips[user]),
        numbered_mode(state.with_limit_policy(mode, secs).limit_mode) == mode,
        secs > 0 ==> state.with_limit_policy(mode, secs).limit_window_nanos() == 1_000_000_000 * secs,
        state.with_limit_policy(mode, secs).user_limit(user) == state.user_limit(user),
        ({
            let after = state.with_user_limit(user, limit);
            after == (TrackerState { max_ips: after.max_ips, ..state })
        }),
        ({
            let after = state.with_default_limit(limit);
            after == (TrackerState { default_max_ips: after.default_max_ips, ..state })
        }),
        ({
            let after = state.with_limit_policy(mode, secs);
            after == (TrackerState {
                limit_mode: after.limit_mode,
                limit_window_secs: after.limit_window_secs,
                ..state
            })
        }),
{
}

/// In a tracker whose parts fit together there are sixty-four shards, every user is in the right one, has
/// an address, and has no address with the number zero; the same holds of what is queued.
pub proof fn law_parts_fit_together(state: TrackerState, i: int, user: Seq<char>, ip: IpAddr)
    requires
        state.wf(),
        0 <= i < 64,
    ensures
        state.active.len() == 64,
        state.recent.len() == 64,
        state.queues.len() == 64,
        state.active[i].contains_key(user) ==> shard_of(user) == i,
        state.queues[i].contains_key(user) ==> shard_of(user) == i,
        knows(state.active[i], user, ip) ==> state.active[i][user][ip] > 0,
        knows(state.queues[i], user, ip) ==> state.queues[i][user][ip] > 0,
        state.active[i].contains_key(user) ==> exists|other: IpAddr| #[trigger]
            state.active[i][user].contains_key(other),
        state.queues[i].contains_key(user) ==> exists|other: IpAddr| #[trigger]
            state.queues[i][user].contains_key(other),
        !has_empty_user(state.queues[i]),
{
    assert(tidy(state.active[i]));
    assert(tidy(state.queues[i]));
    if knows(state.active[i], user, ip) {
        assert(has_pair(state.active[i], user, ip));
    }
    if knows(state.queues[i], user, ip) {
        assert(has_pair(state.queues[i], user, ip));
    }
    if state.active[i].contains_key(user) {
        lemma_some_address(state.active[i][user]);
    }
    if state.queues[i].contains_key(user) {
        lemma_some_address(state.queues[i][user]);
    }
}

/// Numbers that are not none have an address.
proof fn lemma_some_address(ips: Map<IpAddr, usize>)
    requires
        ips != Map::<IpAddr, usize>::empty(),
    ensures
        exists|ip: IpAddr| #[trigger] ips.contains_key(ip),
{
    if forall|ip: IpAddr| !#[trigger] ips.contains_key(ip) {
        assert(ips =~= Map::<IpAddr, usize>::empty());
    }
}

/// A user has no address if none is known of the user, and only then.
pub proof fn law_empty_user_has_no_address(counts: Counts, user: Seq<char>)
    requires
        counts.contains_key(user),
    ensures
        (forall|ip: IpAddr| !#[trigger] counts[user].contains_key(ip)) ==> has_empty_user(counts),
        (forall|who: Seq<char>| #[trigger]
            counts.contains_key(who) ==> exists|ip: IpAddr| #[trigger] counts[who].contains_key(ip))
            ==> !has_empty_user(counts),
{
    if forall|ip: IpAddr| !#[trigger] counts[user].contains_key(ip) {
        assert(counts[user] =~= Map::<IpAddr, usize>::empty());
    }
}

} // verus!
