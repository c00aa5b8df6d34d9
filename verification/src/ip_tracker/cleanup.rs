//! Deferred release of client addresses.
//!
//! A closed connection is queued, and taken off the open connections by a later drain.

use vstd::prelude::*;

use super::{CountTable, Counts, IpAddr, TrackerState, UserIpTracker};
use super::{CLEANUP_DRAIN_BATCH_LIMIT, USER_IP_TRACKER_SHARDS};
use crate::table::Table;

verus! {

/// Closed connections of addresses, on their way from a queue to the open connections.
pub type Batch = Map<(Seq<char>, IpAddr), usize>;

/// Whether a batch holds an address of a user.
pub open spec fn touches(batch: Batch, user: Seq<char>) -> bool {
    exists|ip: IpAddr| #[trigger] batch.contains_key((user, ip))
}

/// What is left in a queue for a user once a batch was taken out of it.
pub open spec fn unqueued_ips(
    ips: Map<IpAddr, usize>,
    batch: Batch,
    user: Seq<char>,
) -> Map<IpAddr, usize> {
    ips.remove_keys(Set::new(|ip: IpAddr| batch.contains_key((user, ip))))
}

/// What is left in a queue once a batch was taken out of it.
pub open spec fn unqueued(queue: Counts, batch: Batch) -> Counts {
    Map::new(
        |user: Seq<char>|
            queue.contains_key(user) && (touches(batch, user) ==> unqueued_ips(
                queue[user],
                batch,
                user,
            ) != Map::<IpAddr, usize>::empty()),
        |user: Seq<char>| unqueued_ips(queue[user], batch, user),
    )
}

/// Whether an address keeps a connection once those in a batch are closed.
pub open spec fn stays(ips: Map<IpAddr, usize>, batch: Batch, user: Seq<char>, ip: IpAddr) -> bool {
    ips.contains_key(ip) && (batch.contains_key((user, ip)) && batch[(user, ip)] > 0 ==> ips[ip]
        > batch[(user, ip)])
}

/// Open connections of a user once those in a batch are closed.
pub open spec fn released_ips(
    ips: Map<IpAddr, usize>,
    batch: Batch,
    user: Seq<char>,
) -> Map<IpAddr, usize> {
    Map::new(
        |ip: IpAddr| stays(ips, batch, user, ip),
        |ip: IpAddr|
            if batch.contains_key((user, ip)) {
                (ips[ip] - batch[(user, ip)]) as usize
            } else {
                ips[ip]
            },
    )
}

/// Whether a batch holds a closed connection of a user.
pub open spec fn closes(batch: Batch, user: Seq<char>) -> bool {
    exists|ip: IpAddr| #[trigger] batch.contains_key((user, ip)) && batch[(user, ip)] > 0
}

/// Open connections once those in a batch are closed.
pub open spec fn released(active: Counts, batch: Batch) -> Counts {
    Map::new(
        |user: Seq<char>|
            active.contains_key(user) && (closes(batch, user) ==> released_ips(
                active[user],
                batch,
                user,
            ) != Map::<IpAddr, usize>::empty()),
        |user: Seq<char>| released_ips(active[user], batch, user),
    )
}

/// The addresses that lose their last connection to a batch.
pub open spec fn run_out(active: Counts, batch: Batch) -> Set<(Seq<char>, IpAddr)> {
    Set::new(
        |pair: (Seq<char>, IpAddr)|
            batch.contains_key(pair) && super::runs_out(active, pair.0, pair.1, batch[pair]),
    )
}

/// Whether a batch comes from a queue.
pub open spec fn from_queue(queue: Counts, batch: Batch) -> bool {
    &&& batch.dom().finite()
    &&& forall|pair: (Seq<char>, IpAddr)| #[trigger]
        batch.contains_key(pair) ==> super::has_pair(queue, pair.0, pair.1) && queue[pair.0][pair.1]
            == batch[pair]
}

/// Whether a batch may be what one drain takes out of a queue: everything, unless that is too much.
pub open spec fn drawn(queue: Counts, batch: Batch) -> bool {
    &&& from_queue(queue, batch)
    &&& batch.len() <= CLEANUP_DRAIN_BATCH_LIMIT
    &&& batch.len() < CLEANUP_DRAIN_BATCH_LIMIT ==> unqueued(queue, batch) == Map::<
        Seq<char>,
        Map<IpAddr, usize>,
    >::empty()
}

/// Closed connections of a user, as a batch.
pub open spec fn user_batch(user: Seq<char>, ips: Map<IpAddr, usize>) -> Batch {
    Map::new(
        |pair: (Seq<char>, IpAddr)| pair.0 == user && ips.contains_key(pair.1),
        |pair: (Seq<char>, IpAddr)| ips[pair.1],
    )
}

/// What a queue holds for a user, as a batch.
pub open spec fn batch_for(queue: Counts, user: Seq<char>) -> Batch {
    user_batch(user, super::ips_or_none(queue, user))
}

/// A counter after `amount` was taken from it, modulo its size.
pub open spec fn less(counter: u64, amount: nat) -> u64 {
    ((counter - amount) % 0x1_0000_0000_0000_0000) as u64
}

/// A counter after `amount` was taken from it, down to zero.
pub open spec fn down_to_zero(counter: u64, amount: nat) -> u64 {
    if amount <= counter {
        (counter - amount) as u64
    } else {
        0
    }
}

impl TrackerState {
    /// State after a closed connection was queued.
    pub open spec fn enqueue_cleanup(self, user: Seq<char>, ip: IpAddr) -> TrackerState {
        let at = super::shard_of(user);
        let count = super::count_of(self.queues[at], user, ip);
        let more = if count < usize::MAX {
            (count + 1) as usize
        } else {
            count
        };
        TrackerState {
            queues: self.queues.update(at, super::with_count(self.queues[at], user, ip, more)),
            queue_len: if count == 0 {
                self.queue_len.wrapping_add(1)
            } else {
                self.queue_len
            },
            deferred_releases: self.deferred_releases.wrapping_add(1),
            ..self
        }
    }

    /// State after a batch went from the queue of a shard to its open connections.
    pub open spec fn drain(self, at: int, batch: Batch) -> TrackerState {
        TrackerState {
            queues: self.queues.update(at, unqueued(self.queues[at], batch)),
            queue_len: less(self.queue_len, batch.len()),
            active: self.active.update(at, released(self.active[at], batch)),
            active_entries: down_to_zero(
                self.active_entries,
                run_out(self.active[at], batch).len(),
            ),
            ..self
        }
    }

    /// State after everything that is queued for a user went to the open connections.
    pub open spec fn drain_user(self, user: Seq<char>) -> TrackerState {
        let at = super::shard_of(user);
        if self.queue_len == 0 {
            self
        } else {
            self.drain(at, batch_for(self.queues[at], user))
        }
    }

    /// Whether batches may be what one drain takes out of the queues: nothing where the lock of a shard
    /// is held.
    pub open spec fn may_draw(self, locks_free: Seq<bool>, batches: Seq<Batch>) -> bool {
        forall|i: int|
            0 <= i < batches.len() ==> if locks_free[i] {
                drawn(self.queues[i], #[trigger] batches[i])
            } else {
                batches[i] == Map::<(Seq<char>, IpAddr), usize>::empty()
            }
    }

    /// State after one batch for each of the first shards.
    pub open spec fn drain_each(self, batches: Seq<Batch>) -> TrackerState
        decreases batches.len(),
    {
        if batches.len() == 0 {
            self
        } else {
            self.drain_each(batches.drop_last()).drain(batches.len() - 1, batches.last())
        }
    }
}

/// Taking one more address out of a queue.
proof fn lemma_unqueued_insert(queue: Counts, batch: Batch, user: Seq<char>, ip: IpAddr, n: usize)
    requires
        super::has_pair(unqueued(queue, batch), user, ip),
    ensures
        unqueued(queue, batch.insert((user, ip), n)) == super::popped(
            unqueued(queue, batch),
            user,
            ip,
        ),
        super::has_pair(queue, user, ip),
        unqueued(queue, batch)[user][ip] == queue[user][ip],
        !batch.contains_key((user, ip)),
{
    let more = batch.insert((user, ip), n);
    let before = unqueued(queue, batch);
    assert(more.contains_key((user, ip)));
    assert(touches(more, user));
    assert forall|who: Seq<char>| who != user implies touches(more, who) == touches(batch, who)
        && unqueued_ips(queue[who], more, who) == unqueued_ips(queue[who], batch, who) by {
        assert(forall|other: IpAddr|
            more.contains_key((who, other)) == batch.contains_key((who, other)));
        assert(unqueued_ips(queue[who], more, who) =~= unqueued_ips(queue[who], batch, who));
        if touches(batch, who) {
            let other = choose|other: IpAddr| #[trigger] batch.contains_key((who, other));
            assert(more.contains_key((who, other)));
        }
        if touches(more, who) {
            let other = choose|other: IpAddr| #[trigger] more.contains_key((who, other));
            assert(batch.contains_key((who, other)));
        }
    }
    assert(unqueued_ips(queue[user], more, user) =~= before[user].remove(ip));
    assert(unqueued(queue, more) =~= super::popped(before, user, ip));
}

/// Closing the connections of one more address.
proof fn lemma_released_insert(active: Counts, batch: Batch, user: Seq<char>, ip: IpAddr, n: usize)
    requires
        !batch.contains_key((user, ip)),
    ensures
        released(active, batch.insert((user, ip), n)) == super::cleaned_up(
            released(active, batch),
            user,
            ip,
            n,
        ),
        super::runs_out(released(active, batch), user, ip, n) == super::runs_out(
            active,
            user,
            ip,
            n,
        ),
        run_out(active, batch.insert((user, ip), n)) == (if super::runs_out(active, user, ip, n) {
            run_out(active, batch).insert((user, ip))
        } else {
            run_out(active, batch)
        }),
        !run_out(active, batch).contains((user, ip)),
{
    let more = batch.insert((user, ip), n);
    let before = released(active, batch);
    assert(more.contains_key((user, ip)));
    assert(run_out(active, more) =~= (if super::runs_out(active, user, ip, n) {
        run_out(active, batch).insert((user, ip))
    } else {
        run_out(active, batch)
    }));
    assert forall|who: Seq<char>| who != user implies closes(more, who) == closes(batch, who)
        && released_ips(active[who], more, who) == released_ips(active[who], batch, who) by {
        assert(forall|other: IpAddr|
            more.contains_key((who, other)) == batch.contains_key((who, other)));
        assert(released_ips(active[who], more, who) =~= released_ips(active[who], batch, who));
        if closes(batch, who) {
            let other = choose|other: IpAddr| #[trigger]
                batch.contains_key((who, other)) && batch[(who, other)] > 0;
            assert(more.contains_key((who, other)));
        }
        if closes(more, who) {
            let other = choose|other: IpAddr| #[trigger]
                more.contains_key((who, other)) && more[(who, other)] > 0;
            assert(batch.contains_key((who, other)));
        }
    }
    if closes(batch, user) {
        let other = choose|other: IpAddr| #[trigger]
            batch.contains_key((user, other)) && batch[(user, other)] > 0;
        assert(more.contains_key((user, other)));
    }
    if n > 0 {
        assert(closes(more, user));
    } else if closes(more, user) {
        let other = choose|other: IpAddr| #[trigger]
            more.contains_key((user, other)) && more[(user, other)] > 0;
        assert(batch.contains_key((user, other)));
    }
    let kept = released_ips(active[user], batch, user);
    let left = released_ips(active[user], more, user);
    if !active[user].contains_key(ip) || n == 0 {
        assert(left =~= kept);
    } else if active[user][ip] > n {
        assert(left =~= kept.insert(ip, (kept[ip] - n) as usize));
    } else {
        assert(left =~= kept.remove(ip));
    }
    if active.contains_key(user) && !before.contains_key(user) {
        assert(kept == Map::<IpAddr, usize>::empty());
        assert(!kept.contains_key(ip));
        assert(!stays(active[user], batch, user, ip));
        assert(!active[user].contains_key(ip));
        assert(left =~= kept);
    }
    let after = super::cleaned_up(before, user, ip, n);
    if before.contains_key(user) {
        assert(before[user] == kept);
        assert(kept.contains_key(ip) == active[user].contains_key(ip));
        assert(after.contains_key(user) == (n > 0 ==> left != Map::<IpAddr, usize>::empty()));
        assert(after.contains_key(user) ==> after[user] == left);
    }
    assert forall|who: Seq<char>| after.contains_key(who) == released(active, more).contains_key(
        who,
    ) && (after.contains_key(who) ==> after[who] == released(active, more)[who]) by {
        if who != user {
            assert(after.contains_key(who) == before.contains_key(who));
        }
    }
    assert(released(active, more) =~= after);
}

/// An empty batch changes nothing.
proof fn lemma_empty_batch(counts: Counts)
    ensures
        unqueued(counts, Map::empty()) == counts,
        released(counts, Map::empty()) == counts,
        run_out(counts, Map::empty()) == Set::<(Seq<char>, IpAddr)>::empty(),
{
    let none: Batch = Map::empty();
    assert forall|user: Seq<char>| counts.contains_key(user) implies unqueued_ips(
        counts[user],
        none,
        user,
    ) == counts[user] && released_ips(counts[user], none, user) == counts[user] by {
        assert(unqueued_ips(counts[user], none, user) =~= counts[user]);
        assert(released_ips(counts[user], none, user) =~= counts[user]);
    }
    assert(unqueued(counts, none) =~= counts);
    assert(released(counts, none) =~= counts);
    assert(run_out(counts, none) =~= Set::empty());
}

/// Taking a batch out of a tidy queue leaves it tidy, and closing the connections of a batch leaves tidy
/// connections tidy. Neither adds a user.
proof fn lemma_batch_keeps_tidy(counts: Counts, batch: Batch)
    requires
        super::tidy(counts),
    ensures
        super::tidy(unqueued(counts, batch)),
        super::tidy(released(counts, batch)),
        unqueued(counts, batch).dom().subset_of(counts.dom()),
        released(counts, batch).dom().subset_of(counts.dom()),
{
    let rest = unqueued(counts, batch);
    let open = released(counts, batch);
    assert forall|user: Seq<char>| #[trigger] rest.contains_key(user) implies rest[user] != Map::<
        IpAddr,
        usize,
    >::empty() by {
        assert(counts.contains_key(user));
        if !touches(batch, user) {
            assert(rest[user] =~= counts[user]);
        }
    }
    assert forall|user: Seq<char>, ip: IpAddr| #[trigger]
        super::has_pair(rest, user, ip) implies rest[user][ip] > 0 by {
        assert(super::has_pair(counts, user, ip));
    }
    assert forall|user: Seq<char>| #[trigger] open.contains_key(user) implies open[user] != Map::<
        IpAddr,
        usize,
    >::empty() by {
        assert(counts.contains_key(user));
        if !closes(batch, user) {
            assert(open[user] =~= counts[user]);
        }
    }
    assert forall|user: Seq<char>, ip: IpAddr| #[trigger]
        super::has_pair(open, user, ip) implies open[user][ip] > 0 by {
        assert(super::has_pair(counts, user, ip));
        assert(stays(counts[user], batch, user, ip));
    }
}

/// A drain keeps the parts together.
pub(crate) proof fn lemma_drain_keeps_wf(state: TrackerState, at: int, batch: Batch)
    requires
        state.wf(),
        0 <= at < USER_IP_TRACKER_SHARDS,
    ensures
        state.drain(at, batch).wf(),
{
    let after = state.drain(at, batch);
    lemma_batch_keeps_tidy(state.queues[at], batch);
    lemma_batch_keeps_tidy(state.active[at], batch);
    assert forall|i: int, user: Seq<char>|
        0 <= i < after.active.len() && (#[trigger] after.active[i]).contains_key(
            user,
        ) implies #[trigger] super::shard_of(user) == i by {
        assert(state.active[i].contains_key(user));
    }
    assert forall|i: int, user: Seq<char>|
        0 <= i < after.queues.len() && (#[trigger] after.queues[i]).contains_key(
            user,
        ) implies #[trigger] super::shard_of(user) == i by {
        assert(state.queues[i].contains_key(user));
    }
}

/// The closed connections in a list, as a batch.
spec fn batch_of(items: Seq<(String, IpAddr, usize)>) -> Batch
    decreases items.len(),
{
    if items.len() == 0 {
        Map::empty()
    } else {
        let last = items.last();
        batch_of(items.drop_last()).insert((last.0@, last.1), last.2)
    }
}

/// No address occurs twice in a list.
spec fn fresh(items: Seq<(String, IpAddr, usize)>) -> bool {
    forall|i: int|
        0 <= i < items.len() ==> !batch_of(items.take(i)).contains_key(
            ((#[trigger] items[i]).0@, items[i].1),
        )
}

/// Takes addresses out of a queue, as many as one drain may take.
fn draw_batch(queue: &mut CountTable) -> (items: Vec<(String, IpAddr, usize)>)
    requires
        super::tidy(super::counts_of(old(queue)@)),
    ensures
        fresh(items@),
        drawn(super::counts_of(old(queue)@), batch_of(items@)),
        batch_of(items@).len() == items@.len(),
        super::counts_of(final(queue)@) == unqueued(
            super::counts_of(old(queue)@),
            batch_of(items@),
        ),
{
    let mut items: Vec<(String, IpAddr, usize)> = Vec::new();
    let ghost before = super::counts_of(queue@);
    proof {
        lemma_empty_batch(before);
    }
    let mut taken: usize = 0;
    while taken < CLEANUP_DRAIN_BATCH_LIMIT
        invariant
            taken <= CLEANUP_DRAIN_BATCH_LIMIT,
            items@.len() == taken,
            fresh(items@),
            before == super::counts_of(old(queue)@),
            super::tidy(before),
            super::counts_of(queue@) == unqueued(before, batch_of(items@)),
            from_queue(before, batch_of(items@)),
            batch_of(items@).len() == taken,
        decreases CLEANUP_DRAIN_BATCH_LIMIT - taken,
    {
        let ghost batch = batch_of(items@);
        proof {
            lemma_batch_keeps_tidy(before, batch);
        }
        match UserIpTracker::pop_one_cleanup(queue) {
            None => {
                return items;
            },
            Some(item) => {
                proof {
                    let grown = items@.push(item);
                    lemma_unqueued_insert(before, batch, item.0@, item.1, item.2);
                    assert(grown.drop_last() =~= items@);
                    assert(batch_of(grown) == batch.insert((item.0@, item.1), item.2));
                    assert forall|i: int| 0 <= i < grown.len() implies !batch_of(
                        grown.take(i),
                    ).contains_key(((#[trigger] grown[i]).0@, grown[i].1)) by {
                        if i < items@.len() {
                            assert(grown.take(i) =~= items@.take(i));
                            assert(items@[i] == grown[i]);
                        } else {
                            assert(grown.take(i) =~= items@);
                        }
                    }
                }
                items.push(item);
                taken = taken + 1;
            },
        }
    }
    items
}

/// What the first items of a list leave of the open connections.
#[verifier::opaque]
spec fn left_by(active: Counts, items: Seq<(String, IpAddr, usize)>, i: int) -> Counts {
    released(active, batch_of(items.take(i)))
}

/// Number of addresses that lose their last connection by the first items of a list.
#[verifier::opaque]
spec fn lost_by(active: Counts, items: Seq<(String, IpAddr, usize)>, i: int) -> nat {
    run_out(active, batch_of(items.take(i))).len()
}

/// No items take nothing off, and all of them take their batch off.
proof fn lemma_ends_of_list(active: Counts, items: Seq<(String, IpAddr, usize)>)
    ensures
        left_by(active, items, 0) == active,
        lost_by(active, items, 0) == 0,
        left_by(active, items, items.len() as int) == released(active, batch_of(items)),
        lost_by(active, items, items.len() as int) == run_out(active, batch_of(items)).len(),
{
    reveal(left_by);
    reveal(lost_by);
    assert(batch_of(items.take(0)) == Map::<(Seq<char>, IpAddr), usize>::empty());
    lemma_empty_batch(active);
    assert(items.take(items.len() as int) =~= items);
}

/// Only so many addresses can run out as there are items.
proof fn lemma_finitely_many_run_out(active: Counts, items: Seq<(String, IpAddr, usize)>, i: int)
    requires
        fresh(items),
        0 <= i <= items.len(),
    ensures
        run_out(active, batch_of(items.take(i))).finite(),
    decreases i,
{
    if i == 0 {
        assert(batch_of(items.take(0)) == Map::<(Seq<char>, IpAddr), usize>::empty());
        lemma_empty_batch(active);
    } else {
        let item = items[i - 1];
        lemma_finitely_many_run_out(active, items, i - 1);
        assert(items.take(i).drop_last() =~= items.take(i - 1));
        lemma_released_insert(active, batch_of(items.take(i - 1)), item.0@, item.1, item.2);
    }
}

/// The next item of a list is taken off what the items before it left.
proof fn lemma_next_item(active: Counts, items: Seq<(String, IpAddr, usize)>, i: int)
    requires
        fresh(items),
        0 <= i < items.len(),
    ensures
        left_by(active, items, i + 1) == super::cleaned_up(
            left_by(active, items, i),
            items[i].0@,
            items[i].1,
            items[i].2,
        ),
        lost_by(active, items, i + 1) == lost_by(active, items, i) + (if super::runs_out(
            left_by(active, items, i),
            items[i].0@,
            items[i].1,
            items[i].2,
        ) {
            1int
        } else {
            0
        }),
{
    reveal(left_by);
    reveal(lost_by);
    let item = items[i];
    assert(items.take(i + 1).drop_last() =~= items.take(i));
    lemma_finitely_many_run_out(active, items, i);
    lemma_released_insert(active, batch_of(items.take(i)), item.0@, item.1, item.2);
}

/// Takes closed connections off the open ones. Returns the number of addresses that lost their last
/// connection.
#[verifier::spinoff_prover]
fn close_connections(active_ips: &mut CountTable, items: &Vec<(String, IpAddr, usize)>) -> (removed:
    usize)
    requires
        fresh(items@),
    ensures
        super::counts_of(final(active_ips)@) == released(
            super::counts_of(old(active_ips)@),
            batch_of(items@),
        ),
        removed == run_out(super::counts_of(old(active_ips)@), batch_of(items@)).len(),
{
    let ghost before = super::counts_of(active_ips@);
    let mut removed: usize = 0;
    let mut i: usize = 0;
    proof {
        lemma_ends_of_list(before, items@);
    }
    while i < items.len()
        invariant
            i <= items@.len(),
            fresh(items@),
            super::counts_of(active_ips@) == left_by(before, items@, i as int),
            removed == lost_by(before, items@, i as int),
            removed <= i,
        decreases items@.len() - i,
    {
        proof {
            lemma_next_item(before, items@, i as int);
        }
        let gone = UserIpTracker::apply_active_cleanup(
            active_ips,
            items[i].0.as_str(),
            items[i].1,
            items[i].2,
        );
        removed = removed.saturating_add(gone);
        i = i + 1;
    }
    removed
}

proof fn lemma_user_batch_len(user: Seq<char>, ips: Map<IpAddr, usize>)
    requires
        ips.dom().finite(),
    ensures
        user_batch(user, ips).dom().finite(),
        user_batch(user, ips).len() == ips.len(),
{
    let pair_with = |ip: IpAddr| (user, ip);
    assert(ips.dom().map(pair_with) =~= user_batch(user, ips).dom()) by {
        assert forall|pair: (Seq<char>, IpAddr)| user_batch(user, ips).dom().contains(
            pair,
        ) implies ips.dom().map(pair_with).contains(pair) by {
            assert(pair_with(pair.1) == pair);
        }
    }
    vstd::set_lib::lemma_map_size(ips.dom(), user_batch(user, ips).dom(), pair_with);
}

/// What one user leaves in a queue.
pub(crate) proof fn lemma_user_unqueued(queue: Counts, user: Seq<char>)
    requires
        super::tidy(queue),
    ensures
        unqueued(queue, batch_for(queue, user)) == queue.remove(user),
{
    let batch = batch_for(queue, user);
    assert forall|who: Seq<char>| queue.contains_key(who) && who != user implies !touches(batch, who)
        && unqueued_ips(queue[who], batch, who) == queue[who] by {
        assert(unqueued_ips(queue[who], batch, who) =~= queue[who]);
    }
    if queue.contains_key(user) {
        assert(unqueued_ips(queue[user], batch, user) =~= Map::<IpAddr, usize>::empty());
        assert(exists|ip: IpAddr| queue[user].contains_key(ip)) by {
            if forall|ip: IpAddr| !queue[user].contains_key(ip) {
                assert(queue[user] =~= Map::<IpAddr, usize>::empty());
            }
        }
        let ip = choose|ip: IpAddr| queue[user].contains_key(ip);
        assert(batch.contains_key((user, ip)));
    }
    assert(unqueued(queue, batch) =~= queue.remove(user));
}

/// Takes the closed connections of a user off the open ones. Returns the number of addresses that lost
/// their last connection.
fn close_user_connections(
    active_ips: &mut CountTable,
    user: &str,
    to_remove: Table<IpAddr, usize>,
) -> (removed: usize)
    ensures
        super::counts_of(final(active_ips)@) == released(
            super::counts_of(old(active_ips)@),
            user_batch(user@, to_remove@),
        ),
        removed == run_out(
            super::counts_of(old(active_ips)@),
            user_batch(user@, to_remove@),
        ).len(),
{
    let ghost before = super::counts_of(active_ips@);
    let ghost all = to_remove@;
    let mut rest = to_remove;
    let count = rest.len();
    let ghost mut batch: Batch = Map::empty();
    let mut removed: usize = 0;
    proof {
        lemma_empty_batch(before);
        assert(all.remove_keys(rest@.dom()) =~= Map::<IpAddr, usize>::empty());
        assert(batch =~= user_batch(user@, all.remove_keys(rest@.dom())));
    }
    while !rest.is_empty()
        invariant
            before == super::counts_of(old(active_ips)@),
            rest@.submap_of(all),
            rest@.dom().finite(),
            removed + rest@.len() <= count,
            batch == user_batch(user@, all.remove_keys(rest@.dom())),
            super::counts_of(active_ips@) == released(before, batch),
            run_out(before, batch).finite(),
            removed == run_out(before, batch).len(),
        decreases rest@.len(),
    {
        let ghost remaining = rest@;
        match rest.pop() {
            None => {
                return removed;
            },
            Some((ip, pending_count)) => {
                proof {
                    lemma_released_insert(before, batch, user@, ip, pending_count);
                    let more = user_batch(user@, all.remove_keys(rest@.dom()));
                    assert(more =~= batch.insert((user@, ip), pending_count));
                    batch = more;
                }
                let gone = UserIpTracker::apply_active_cleanup(
                    active_ips,
                    user,
                    ip,
                    pending_count,
                );
                removed = removed.saturating_add(gone);
            },
        }
    }
    assert(all.remove_keys(rest@.dom()) =~= all);
    removed
}

impl UserIpTracker {
    /// Queues a deferred active IP cleanup for a later drain.
    pub fn enqueue_cleanup(&mut self, user: String, ip: IpAddr)
        requires
            old(self)@.wf(),
        ensures
            final(self)@ == old(self)@.enqueue_cleanup(user@, ip),
            final(self)@.wf(),
    {
        let at = Self::shard_idx(user.as_str());
        let count = super::get_count(&self.cleanup_queues[at], &user, ip);
        if count == 0 {
            self.cleanup_queue_len = self.cleanup_queue_len.wrapping_add(1);
        }
        let more: usize = count.saturating_add(1);
        super::set_count(&mut self.cleanup_queues[at], user, ip, more);
        self.cleanup_deferred_releases = self.cleanup_deferred_releases.wrapping_add(1);
        proof {
            super::lemma_with_count(old(self)@.queues, user@, ip, more);
            let after = old(self)@.enqueue_cleanup(user@, ip);
            assert(self@.queues =~= after.queues);
            assert(self@.active =~= after.active);
            assert(self@.recent =~= after.recent);
        }
    }

    /// Number of addresses that wait for a drain.
    pub fn cleanup_queue_len(&self) -> (res: u64)
        ensures
            res == self@.queue_len,
    {
        self.cleanup_queue_len
    }

    /// Takes everything that is queued for a user off the open connections.
    pub fn drain_cleanup_for_user(&mut self, user: &str)
        requires
            old(self)@.wf(),
        ensures
            final(self)@ == old(self)@.drain_user(user@),
            final(self)@.wf(),
    {
        if self.cleanup_queue_len == 0 {
            return;
        }
        let at = Self::shard_idx(user);
        let ghost state = self@;
        let ghost batch = batch_for(state.queues[at as int], user@);
        proof {
            lemma_drain_keeps_wf(state, at as int, batch);
            lemma_user_unqueued(state.queues[at as int], user@);
        }
        let name = user.to_owned();
        let to_remove = match self.cleanup_queues[at].remove(&name) {
            Some(ips) => ips,
            None => Table::new(),
        };
        assert(to_remove@ == super::ips_or_none(state.queues[at as int], user@));
        assert(super::counts_of(self.cleanup_queues@[at as int]@) =~= state.queues[at as int].remove(
            user@,
        ));
        assert(self@.queues =~= state.queues.update(
            at as int,
            state.queues[at as int].remove(user@),
        ));
        let count = to_remove.len();
        proof {
            lemma_user_batch_len(user@, to_remove@);
        }
        if to_remove.is_empty() {
            proof {
                lemma_empty_batch(state.active[at as int]);
                assert(batch =~= Map::<(Seq<char>, IpAddr), usize>::empty());
                assert(self@ =~= state.drain(at as int, batch));
            }
            return;
        }
        self.cleanup_queue_len = self.cleanup_queue_len.wrapping_sub(count as u64);
        let removed = close_user_connections(&mut self.shards[at].active_ips, user, to_remove);
        Self::decrement_counter(&mut self.active_entry_count, removed);
        proof {
            assert(self@.active =~= state.drain(at as int, batch).active);
            assert(self@.recent =~= state.recent);
            assert(self@.queue_len == less(state.queue_len, batch.len()));
            assert(self@ =~= state.drain(at as int, batch));
        }
    }

    /// Takes a batch from the queue of a shard off its open connections, unless another drain of the
    /// shard holds its lock.
    pub fn drain_cleanup_shard(&mut self, shard_idx: usize, lock_free: bool)
        requires
            old(self)@.wf(),
            shard_idx < USER_IP_TRACKER_SHARDS,
        ensures
            !lock_free ==> final(self)@ == old(self)@,
            lock_free ==> exists|batch: Batch|
                drawn(old(self)@.queues[shard_idx as int], batch) && final(self)@
                    == #[trigger] old(self)@.drain(shard_idx as int, batch),
            final(self)@.wf(),
    {
        if !lock_free {
            return;
        }
        let ghost state = self@;
        assert(super::tidy(state.queues[shard_idx as int]));
        let items = draw_batch(&mut self.cleanup_queues[shard_idx]);
        let ghost batch = batch_of(items@);
        self.cleanup_queue_len = self.cleanup_queue_len.wrapping_sub(items.len() as u64);
        let removed = close_connections(&mut self.shards[shard_idx].active_ips, &items);
        Self::decrement_counter(&mut self.active_entry_count, removed);
        proof {
            lemma_drain_keeps_wf(state, shard_idx as int, batch);
            let after = state.drain(shard_idx as int, batch);
            assert(self@.active =~= after.active);
            assert(self@.recent =~= after.recent);
            assert(self@.queues =~= after.queues);
            assert(self@ =~= after);
        }
    }

    /// Takes a batch from the queue of each shard off its open connections, unless another drain of the
    /// shard holds its lock.
    pub fn drain_cleanup_queue(&mut self, locks_free: &Vec<bool>)
        requires
            old(self)@.wf(),
            locks_free@.len() == USER_IP_TRACKER_SHARDS,
        ensures
            old(self)@.queue_len == 0 ==> final(self)@ == old(self)@,
            old(self)@.queue_len != 0 ==> exists|batches: Seq<Batch>|
                batches.len() == USER_IP_TRACKER_SHARDS && old(self)@.may_draw(locks_free@, batches)
                    && final(self)@ == #[trigger] old(self)@.drain_each(batches),
            final(self)@.wf(),
    {
        if self.cleanup_queue_len == 0 {
            return;
        }
        let ghost state = self@;
        let ghost mut batches: Seq<Batch> = Seq::empty();
        let mut shard_idx: usize = 0;
        while shard_idx < USER_IP_TRACKER_SHARDS
            invariant
                shard_idx <= USER_IP_TRACKER_SHARDS,
                locks_free@.len() == USER_IP_TRACKER_SHARDS,
                batches.len() == shard_idx,
                self@.wf(),
                state.wf(),
                state.may_draw(locks_free@, batches),
                self@ == state.drain_each(batches),
                forall|i: int|
                    shard_idx <= i < USER_IP_TRACKER_SHARDS ==> #[trigger] self@.queues[i]
                        == state.queues[i],
            decreases USER_IP_TRACKER_SHARDS - shard_idx,
        {
            let ghost before = self@;
            let ghost at = shard_idx as int;
            self.drain_cleanup_shard(shard_idx, locks_free[shard_idx]);
            proof {
                let batch = if locks_free[shard_idx as int] {
                    choose|batch: Batch|
                        drawn(before.queues[at], batch) && self@ == #[trigger] before.drain(
                            at,
                            batch,
                        )
                } else {
                    Map::empty()
                };
                if !locks_free[shard_idx as int] {
                    lemma_empty_batch(before.queues[at]);
                    lemma_empty_batch(before.active[at]);
                    assert(before.drain(at, batch) =~= before);
                }
                let more = batches.push(batch);
                assert(more.drop_last() =~= batches);
                assert(state.queues[at] == before.queues[at]);
                batches = more;
            }
            shard_idx = shard_idx + 1;
        }
    }
}

} // verus!
