//! What the tracker guarantees over several calls.

use std::collections::hash_map::DefaultHasher;

use vstd::prelude::*;
use vstd::std_specs::hash::DefaultHasherAdditionalSpecFns;

use super::cleanup::Batch;
use super::{Counts, IpAddr, TrackerState};
use super::{CLEANUP_DRAIN_BATCH_LIMIT, MAX_ACTIVE_IP_ENTRIES, USER_IP_TRACKER_SHARDS};

verus! {

/// The pairs of a user and an address in a queue.
pub open spec fn pairs_in(queue: Counts) -> Set<(Seq<char>, IpAddr)> {
    Set::new(|pair: (Seq<char>, IpAddr)| super::has_pair(queue, pair.0, pair.1))
}

/// The pairs of a user and an address in the shards.
pub open spec fn pairs(shards: Seq<Counts>) -> Set<(Seq<char>, IpAddr)> {
    Set::new(
        |pair: (Seq<char>, IpAddr)|
            super::has_pair(shards[super::shard_of(pair.0)], pair.0, pair.1),
    )
}

impl TrackerState {
    /// The counters tell how many pairs of a user and an address there are.
    pub open spec fn counted(self) -> bool {
        &&& self.wf()
        &&& pairs(self.queues).finite()
        &&& self.queue_len == pairs(self.queues).len()
        &&& pairs(self.active).finite()
        &&& self.active_entries == pairs(self.active).len()
    }
}

/// Every user has a shard.
pub proof fn law_every_user_has_a_shard(user: Seq<char>)
    ensures
        0 <= super::shard_of(user) < USER_IP_TRACKER_SHARDS,
{
    let hash = DefaultHasher::spec_finish(
        seq![vstd::utf8::encode_utf8(user), seq![0xffu8]],
    ) as usize;
    assert(hash & 63usize < 64) by (bit_vector);
}

/// The counters of a new tracker are right.
pub proof fn law_new_tracker_is_counted()
    ensures
        super::empty_tracker().counted(),
{
    let state = super::empty_tracker();
    assert forall|pair: (Seq<char>, IpAddr)| !pairs(state.queues).contains(pair) && !pairs(
        state.active,
    ).contains(pair) by {
        law_every_user_has_a_shard(pair.0);
    }
    assert(pairs(state.queues) =~= Set::empty());
    assert(pairs(state.active) =~= Set::empty());
}

/// One pair more, or the same pairs.
proof fn lemma_pairs_with_count(shards: Seq<Counts>, user: Seq<char>, ip: IpAddr, n: usize)
    requires
        shards.len() == USER_IP_TRACKER_SHARDS,
    ensures
        pairs(
            shards.update(
                super::shard_of(user),
                super::with_count(shards[super::shard_of(user)], user, ip, n),
            ),
        ) == pairs(shards).insert((user, ip)),
{
    let at = super::shard_of(user);
    let after = shards.update(at, super::with_count(shards[at], user, ip, n));
    law_every_user_has_a_shard(user);
    assert forall|pair: (Seq<char>, IpAddr)| #[trigger]
        pairs(after).contains(pair) == pairs(shards).insert((user, ip)).contains(pair) by {
        law_every_user_has_a_shard(pair.0);
    }
    assert(pairs(after) =~= pairs(shards).insert((user, ip)));
}

/// Queueing a closed connection keeps the counters right, as long as they can count.
pub proof fn law_enqueue_keeps_the_count(state: TrackerState, user: Seq<char>, ip: IpAddr)
    requires
        state.counted(),
        state.queue_len < u64::MAX,
    ensures
        state.enqueue_cleanup(user, ip).counted(),
        state.enqueue_cleanup(user, ip).queue_len > 0,
{
    let at = super::shard_of(user);
    let count = super::count_of(state.queues[at], user, ip);
    let more = if count < usize::MAX {
        (count + 1) as usize
    } else {
        count
    };
    law_every_user_has_a_shard(user);
    super::lemma_with_count(state.queues, user, ip, more);
    lemma_pairs_with_count(state.queues, user, ip, more);
    assert(super::tidy(state.queues[at]));
    if count > 0 {
        assert(pairs(state.queues).contains((user, ip)));
        assert(pairs(state.queues).insert((user, ip)) =~= pairs(state.queues));
    } else {
        assert(!pairs(state.queues).contains((user, ip)));
    }
}

/// State after each of the closed connections was queued in turn.
pub open spec fn after_enqueues(
    state: TrackerState,
    closed: Seq<(Seq<char>, IpAddr)>,
) -> TrackerState
    decreases closed.len(),
{
    if closed.len() == 0 {
        state
    } else {
        after_enqueues(state, closed.drop_last()).enqueue_cleanup(closed.last().0, closed.last().1)
    }
}

/// How often a pair of a user and an address occurs.
pub open spec fn times_closed(
    closed: Seq<(Seq<char>, IpAddr)>,
    user: Seq<char>,
    ip: IpAddr,
) -> nat
    decreases closed.len(),
{
    if closed.len() == 0 {
        0
    } else {
        times_closed(closed.drop_last(), user, ip) + if closed.last() == (user, ip) {
            1nat
        } else {
            0
        }
    }
}

/// Queueing closed connections, however many and of whomever, adds to the pending count of each pair of
/// a user and an address the number of its connections, as far as a machine word goes. The queues hold
/// the pairs that they held and those that were queued, each once, and their length says how many these
/// are. Every connection is counted as released later. What is open and what is recent stays as it is.
pub proof fn law_enqueues_add_up(
    state: TrackerState,
    closed: Seq<(Seq<char>, IpAddr)>,
)
    requires
        state.counted(),
        state.queue_len + closed.len() <= u64::MAX,
        state.deferred_releases + closed.len() <= u64::MAX,
    ensures
        ({
            let after = after_enqueues(state, closed);
            &&& after.counted()
            &&& forall|user: Seq<char>, ip: IpAddr| #[trigger]
                super::count_of(after.queues[super::shard_of(user)], user, ip) == super::as_far_as(
                    super::count_of(state.queues[super::shard_of(user)], user, ip) as nat
                        + times_closed(closed, user, ip),
                )
            &&& pairs(after.queues) == pairs(state.queues).union(closed.to_set())
            &&& after.queue_len == pairs(state.queues).union(closed.to_set()).len()
            &&& after.queue_len <= state.queue_len + closed.len()
            &&& after == (TrackerState {
                queues: after.queues,
                queue_len: after.queue_len,
                deferred_releases: (state.deferred_releases + closed.len()) as u64,
                ..state
            })
        }),
    decreases closed.len(),
{
    let after = after_enqueues(state, closed);
    if closed.len() == 0 {
        assert(pairs(state.queues).union(closed.to_set()) =~= pairs(state.queues));
    } else {
        let earlier = closed.drop_last();
        let (user, ip) = closed.last();
        law_enqueues_add_up(state, earlier);
        let mid = after_enqueues(state, earlier);
        law_enqueue_keeps_the_count(mid, user, ip);
        let at = super::shard_of(user);
        let count = super::count_of(mid.queues[at], user, ip);
        let more = if count < usize::MAX {
            (count + 1) as usize
        } else {
            count
        };
        law_every_user_has_a_shard(user);
        lemma_pairs_with_count(mid.queues, user, ip, more);
        assert(closed =~= earlier.push((user, ip)));
        earlier.lemma_push_to_set_commute((user, ip));
        assert(pairs(state.queues).union(closed.to_set()) =~= pairs(state.queues).union(
            earlier.to_set(),
        ).insert((user, ip)));
        assert forall|who: Seq<char>, which: IpAddr| #[trigger]
            super::count_of(after.queues[super::shard_of(who)], who, which) == super::as_far_as(
                super::count_of(state.queues[super::shard_of(who)], who, which) as nat
                    + times_closed(closed, who, which),
            ) by {
            law_every_user_has_a_shard(who);
            assert(super::count_of(mid.queues[super::shard_of(who)], who, which)
                == super::as_far_as(
                super::count_of(state.queues[super::shard_of(who)], who, which) as nat
                    + times_closed(earlier, who, which),
            ));
        }
    }
}

/// In a new tracker that only had closed connections queued, the pending count of each pair of a user
/// and an address is the number of its connections, the length of the queues is the number of distinct
/// pairs, every connection is counted as released later, and nothing is open or recent.
pub proof fn law_new_tracker_counts_what_is_queued(closed: Seq<(Seq<char>, IpAddr)>)
    requires
        closed.len() <= u64::MAX,
    ensures
        ({
            let after = after_enqueues(super::empty_tracker(), closed);
            &&& after.wf()
            &&& forall|user: Seq<char>, ip: IpAddr| #[trigger]
                super::count_of(after.queues[super::shard_of(user)], user, ip) == super::as_far_as(
                    times_closed(closed, user, ip),
                )
            &&& after.queue_len == closed.to_set().len()
            &&& after.deferred_releases == closed.len()
            &&& after.active == super::empty_tracker().active
            &&& after.recent == super::empty_tracker().recent
            &&& after.active_entries == 0
        }),
{
    let state = super::empty_tracker();
    law_new_tracker_is_counted();
    law_enqueues_add_up(state, closed);
    let after = after_enqueues(state, closed);
    assert forall|user: Seq<char>, ip: IpAddr| #[trigger]
        super::count_of(after.queues[super::shard_of(user)], user, ip) == super::as_far_as(
            times_closed(closed, user, ip),
        ) by {
        law_every_user_has_a_shard(user);
    }
    assert(pairs(state.queues) =~= Set::empty()) by {
        assert forall|pair: (Seq<char>, IpAddr)| !pairs(state.queues).contains(pair) by {
            law_every_user_has_a_shard(pair.0);
        }
    }
    assert(pairs(state.queues).union(closed.to_set()) =~= closed.to_set());
}

/// Opening a connection keeps the counters right, and there are never too many pairs.
pub proof fn law_admission_keeps_the_count(state: TrackerState, user: Seq<char>, ip: IpAddr)
    requires
        state.counted(),
        state.active_entries <= MAX_ACTIVE_IP_ENTRIES,
    ensures
        state.add_active(user, ip).counted(),
        state.add_active(user, ip).active_entries <= MAX_ACTIVE_IP_ENTRIES,
{
    let at = super::shard_of(user);
    let count = super::count_of(state.active[at], user, ip);
    let more = if count < usize::MAX {
        (count + 1) as usize
    } else {
        count
    };
    law_every_user_has_a_shard(user);
    super::lemma_with_count(state.active, user, ip, more);
    lemma_pairs_with_count(state.active, user, ip, more);
    if super::has_pair(state.active[at], user, ip) {
        assert(pairs(state.active).contains((user, ip)));
        assert(pairs(state.active).insert((user, ip)) =~= pairs(state.active));
    } else {
        assert(!pairs(state.active).contains((user, ip)));
    }
}

/// A drain keeps the counters right.
pub proof fn law_drain_keeps_the_count(state: TrackerState, at: int, batch: Batch)
    requires
        state.counted(),
        0 <= at < USER_IP_TRACKER_SHARDS,
        super::cleanup::from_queue(state.queues[at], batch),
    ensures
        state.drain(at, batch).counted(),
        state.drain(at, batch).queue_len == state.queue_len - batch.len(),
        state.drain(at, batch).active_entries == state.active_entries - super::cleanup::run_out(
            state.active[at],
            batch,
        ).len(),
{
    let after = state.drain(at, batch);
    let queue = state.queues[at];
    let active = state.active[at];
    let gone = super::cleanup::run_out(active, batch);
    super::cleanup::lemma_drain_keeps_wf(state, at, batch);
    assert forall|pair: (Seq<char>, IpAddr)| #[trigger] batch.contains_key(pair) implies pairs(
        state.queues,
    ).contains(pair) by {
        assert(state.queues[at].contains_key(pair.0));
    }
    assert forall|pair: (Seq<char>, IpAddr)| #[trigger] gone.contains(pair) implies pairs(
        state.active,
    ).contains(pair) by {
        assert(state.active[at].contains_key(pair.0));
    }
    assert forall|pair: (Seq<char>, IpAddr)| #[trigger]
        pairs(after.queues).contains(pair) == (pairs(state.queues).contains(pair)
            && !batch.contains_key(pair)) by {
        law_every_user_has_a_shard(pair.0);
        if super::shard_of(pair.0) == at {
            let rest = super::cleanup::unqueued_ips(queue[pair.0], batch, pair.0);
            if super::has_pair(queue, pair.0, pair.1) && !batch.contains_key(pair) {
                assert(rest.contains_key(pair.1));
                assert(rest != Map::<IpAddr, usize>::empty());
            }
            assert((pair.0, pair.1) == pair);
        } else if batch.contains_key(pair) {
            assert(state.queues[at].contains_key(pair.0));
        }
    }
    assert forall|pair: (Seq<char>, IpAddr)| #[trigger]
        pairs(after.active).contains(pair) == (pairs(state.active).contains(pair) && !gone.contains(
            pair,
        )) by {
        law_every_user_has_a_shard(pair.0);
        assert((pair.0, pair.1) == pair);
        if super::shard_of(pair.0) == at {
            let rest = super::cleanup::released_ips(active[pair.0], batch, pair.0);
            if super::has_pair(active, pair.0, pair.1) && !gone.contains(pair) {
                assert(rest.contains_key(pair.1));
                assert(rest != Map::<IpAddr, usize>::empty());
            }
        } else if gone.contains(pair) {
            assert(state.active[at].contains_key(pair.0));
        }
    }
    assert(pairs(after.queues) =~= pairs(state.queues).difference(batch.dom()));
    assert(pairs(after.active) =~= pairs(state.active).difference(gone));
    lemma_difference_len(pairs(state.queues), batch.dom());
    lemma_difference_len(pairs(state.active), gone);
}

/// Taking members away from a set leaves so many fewer.
proof fn lemma_difference_len<A>(all: Set<A>, part: Set<A>)
    requires
        all.finite(),
        part.subset_of(all),
    ensures
        part.finite(),
        all.difference(part).finite(),
        all.difference(part).len() == all.len() - part.len(),
        part.len() <= all.len(),
{
    vstd::set_lib::lemma_len_subset(part, all);
    assert(part.disjoint(all.difference(part)));
    vstd::set_lib::lemma_set_disjoint_lens(part, all.difference(part));
    assert(part + all.difference(part) =~= all);
}

/// Draining what is queued for a user keeps the counters right and leaves nothing queued for the user.
pub proof fn law_user_drain_keeps_the_count(state: TrackerState, user: Seq<char>)
    requires
        state.counted(),
    ensures
        state.drain_user(user).counted(),
        !state.drain_user(user).queues[super::shard_of(user)].contains_key(user),
{
    let at = super::shard_of(user);
    let queue = state.queues[at];
    let batch = super::cleanup::batch_for(queue, user);
    law_every_user_has_a_shard(user);
    if state.queue_len == 0 {
        assert(pairs(state.queues) =~= Set::empty());
        if queue.contains_key(user) {
            assert(super::tidy(queue));
            if forall|ip: IpAddr| !queue[user].contains_key(ip) {
                assert(queue[user] =~= Map::<IpAddr, usize>::empty());
            }
            let ip = choose|ip: IpAddr| queue[user].contains_key(ip);
            assert(pairs(state.queues).contains((user, ip)));
        }
    } else {
        assert(batch.dom().subset_of(pairs(state.queues)));
        vstd::set_lib::lemma_len_subset(batch.dom(), pairs(state.queues));
        law_drain_keeps_the_count(state, at, batch);
        assert(super::tidy(queue));
        super::cleanup::lemma_user_unqueued(queue, user);
    }
}

/// A drain takes exactly the queued connections off the open ones of each address, and never more than
/// are open.
pub proof fn law_drain_closes_what_was_queued(
    active: Counts,
    batch: Batch,
    user: Seq<char>,
    ip: IpAddr,
)
    ensures
        ({
            let open = super::count_of(active, user, ip);
            let queued = if batch.contains_key((user, ip)) {
                batch[(user, ip)]
            } else {
                0
            };
            super::count_of(super::cleanup::released(active, batch), user, ip) == (if queued < open {
                open - queued
            } else {
                0
            })
        }),
{
    let after = super::cleanup::released(active, batch);
    if active.contains_key(user) {
        let rest = super::cleanup::released_ips(active[user], batch, user);
        if super::cleanup::stays(active[user], batch, user, ip) {
            assert(rest.contains_key(ip));
            assert(rest != Map::<IpAddr, usize>::empty());
            assert(after.contains_key(user));
        }
    }
}

/// A closed connection that was queued is off the open ones after the next drain for its user, together
/// with those that were queued before.
pub proof fn law_queued_connection_is_closed_by_the_next_drain(
    state: TrackerState,
    user: Seq<char>,
    ip: IpAddr,
)
    requires
        state.counted(),
        state.queue_len < u64::MAX,
    ensures
        ({
            let at = super::shard_of(user);
            let open = super::count_of(state.active[at], user, ip);
            let queued = super::count_of(state.queues[at], user, ip);
            let after = state.enqueue_cleanup(user, ip).drain_user(user);
            &&& super::count_of(after.queues[at], user, ip) == 0
            &&& queued < usize::MAX ==> super::count_of(after.active[at], user, ip) == (if queued + 1
                < open {
                open - queued - 1
            } else {
                0
            })
        }),
{
    let at = super::shard_of(user);
    let queued = state.enqueue_cleanup(user, ip);
    law_every_user_has_a_shard(user);
    law_enqueue_keeps_the_count(state, user, ip);
    law_user_drain_keeps_the_count(queued, user);
    let batch = super::cleanup::batch_for(queued.queues[at], user);
    law_drain_closes_what_was_queued(state.active[at], batch, user, ip);
}

/// The order of two cleanups does not matter.
pub proof fn law_cleanups_commute(
    counts: Counts,
    user: Seq<char>,
    ip: IpAddr,
    n: usize,
    other_user: Seq<char>,
    other_ip: IpAddr,
    m: usize,
)
    ensures
        super::cleaned_up(super::cleaned_up(counts, user, ip, n), other_user, other_ip, m)
            == super::cleaned_up(super::cleaned_up(counts, other_user, other_ip, m), user, ip, n),
{
    let here = super::cleaned_up(super::cleaned_up(counts, user, ip, n), other_user, other_ip, m);
    let there = super::cleaned_up(super::cleaned_up(counts, other_user, other_ip, m), user, ip, n);
    if user == other_user && counts.contains_key(user) && n > 0 && m > 0 {
        lemma_same_user_cleanups(counts[user], ip, n, other_ip, m);
        assert(here =~= there);
    }
    assert(here =~= there);
}

/// Addresses of a user after a cleanup.
spec fn cleaned_ips(ips: Map<IpAddr, usize>, ip: IpAddr, n: usize) -> Map<IpAddr, usize> {
    if !ips.contains_key(ip) {
        ips
    } else if ips[ip] > n {
        ips.insert(ip, (ips[ip] - n) as usize)
    } else {
        ips.remove(ip)
    }
}

proof fn lemma_same_user_cleanups(
    ips: Map<IpAddr, usize>,
    ip: IpAddr,
    n: usize,
    other_ip: IpAddr,
    m: usize,
)
    requires
        n > 0,
        m > 0,
    ensures
        cleaned_ips(cleaned_ips(ips, ip, n), other_ip, m) == cleaned_ips(
            cleaned_ips(ips, other_ip, m),
            ip,
            n,
        ),
        cleaned_ips(ips, ip, n) == Map::<IpAddr, usize>::empty() ==> cleaned_ips(
            cleaned_ips(ips, other_ip, m),
            ip,
            n,
        ) == Map::<IpAddr, usize>::empty(),
        cleaned_ips(ips, other_ip, m) == Map::<IpAddr, usize>::empty() ==> cleaned_ips(
            cleaned_ips(ips, ip, n),
            other_ip,
            m,
        ) == Map::<IpAddr, usize>::empty(),
{
    let none = Map::<IpAddr, usize>::empty();
    assert(cleaned_ips(cleaned_ips(ips, ip, n), other_ip, m) =~= cleaned_ips(
        cleaned_ips(ips, other_ip, m),
        ip,
        n,
    ));
    assert(cleaned_ips(none, ip, n) == none);
    assert(cleaned_ips(none, other_ip, m) == none);
}

/// Two cleanups of one address are as good as one of both together.
pub proof fn law_cleanups_add_up(counts: Counts, user: Seq<char>, ip: IpAddr, n: usize, m: usize)
    requires
        n + m <= usize::MAX,
    ensures
        super::cleaned_up(super::cleaned_up(counts, user, ip, n), user, ip, m) == super::cleaned_up(
            counts,
            user,
            ip,
            (n + m) as usize,
        ),
{
    let parts = super::cleaned_up(super::cleaned_up(counts, user, ip, n), user, ip, m);
    let whole = super::cleaned_up(counts, user, ip, (n + m) as usize);
    if counts.contains_key(user) && n > 0 && m > 0 {
        let ips = counts[user];
        assert(cleaned_ips(cleaned_ips(ips, ip, n), ip, m) =~= cleaned_ips(
            ips,
            ip,
            (n + m) as usize,
        ));
    }
    assert(parts =~= whole);
}

/// A queue that fits into one batch is empty after one drain.
pub proof fn law_short_queue_is_drained_at_once(queue: Counts, batch: Batch)
    requires
        super::tidy(queue),
        super::cleanup::drawn(queue, batch),
        pairs_in(queue).finite(),
        pairs_in(queue).len() <= CLEANUP_DRAIN_BATCH_LIMIT,
    ensures
        super::cleanup::unqueued(queue, batch) == Map::<
            Seq<char>,
            Map<IpAddr, usize>,
        >::empty(),
{
    let all = pairs_in(queue);
    if batch.len() == CLEANUP_DRAIN_BATCH_LIMIT {
        assert(batch.dom().subset_of(all));
        vstd::set_lib::lemma_len_subset(batch.dom(), all);
        vstd::set_lib::lemma_subset_equality(batch.dom(), all);
        assert forall|user: Seq<char>| queue.contains_key(user) implies super::cleanup::unqueued_ips(
            queue[user],
            batch,
            user,
        ) == Map::<IpAddr, usize>::empty() && super::cleanup::touches(batch, user) by {
            assert forall|ip: IpAddr| queue[user].contains_key(ip) implies batch.contains_key(
                (user, ip),
            ) by {
                assert(all.contains((user, ip)));
            }
            assert(super::cleanup::unqueued_ips(queue[user], batch, user) =~= Map::<
                IpAddr,
                usize,
            >::empty());
            if forall|ip: IpAddr| !queue[user].contains_key(ip) {
                assert(queue[user] =~= Map::<IpAddr, usize>::empty());
            }
            let ip = choose|ip: IpAddr| queue[user].contains_key(ip);
            assert(batch.contains_key((user, ip)));
        }
        assert(super::cleanup::unqueued(queue, batch) =~= Map::<
            Seq<char>,
            Map<IpAddr, usize>,
        >::empty());
    }
}

} // verus!
