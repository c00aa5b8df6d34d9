//! The per-user part of the counters.

use vstd::prelude::*;

use crate::stats::counters::{EventCounters, Stats};
use crate::stats::users::{
    no_traffic, one_less, one_more, QuotaReserveError, UserStats, UserStatsHandle,
};

verus! {

/// Two sets of counters differ in nothing but their users.
pub open spec fn same_but_users(a: Stats, b: Stats) -> bool {
    &&& a.policy == b.policy
    &&& a.connects_all == b.connects_all
    &&& a.me == b.me
    &&& a.events == b.events
}

/// The slot of a user is known: an unknown user gets one that was not in use.
pub open spec fn user_named(before: Stats, after: Stats, user: Seq<char>, slot: usize) -> bool {
    &&& same_but_users(after, before)
    &&& after.users.separate()
    &&& if before.users.names().contains_key(user) {
        &&& slot == before.users.names()[user]
        &&& after.users.names() == before.users.names()
    } else {
        &&& !before.users.slots().contains_key(slot)
        &&& after.users.names() == before.users.names().insert(user, slot)
    }
}

/// A handle of a user was given out. Every other handle is good for what it was good for.
pub open spec fn handle_given(
    before: Stats,
    after: Stats,
    user: Seq<char>,
    handle: UserStatsHandle,
) -> bool {
    &&& user_named(before, after, user, handle.slot)
    &&& after.users.issued(handle)
    &&& after.users.slots() == before.users.slots().insert(handle.slot, before.user_stats(user))
    &&& forall|slot: usize| #[trigger]
        after.users.holders(slot) == (if slot == handle.slot {
            one_more(before.users.holders(slot))
        } else {
            before.users.holders(slot)
        })
}

/// A handle was given back. The counters behind it go with the last handle of a user without a name.
pub open spec fn handle_returned(before: Stats, after: Stats, handle: UserStatsHandle) -> bool {
    &&& same_but_users(after, before)
    &&& after.users.names() == before.users.names()
    &&& after.users.slots() == (if one_less(before.users.holders(handle.slot)) == 0
        && !before.users.leads_to(handle.slot) {
        before.users.slots().remove(handle.slot)
    } else {
        before.users.slots()
    })
    &&& forall|slot: usize| #[trigger]
        after.users.holders(slot) == (if slot == handle.slot {
            one_less(before.users.holders(slot))
        } else {
            before.users.holders(slot)
        })
}

/// A user was removed. The counters stay for the handles of the user.
pub open spec fn user_removed(before: Stats, after: Stats, user: Seq<char>) -> bool {
    &&& same_but_users(after, before)
    &&& after.users.names() == before.users.names().remove(user)
    &&& after.users.slots() == (if before.users.names().contains_key(user) && before.users.holders(
        before.users.names()[user],
    ) == 0 {
        before.users.slots().remove(before.users.names()[user])
    } else {
        before.users.slots()
    })
    &&& forall|slot: usize| #[trigger]
        after.users.holders(slot) == before.users.holders(slot)
}

/// The counters of a user were set. Every handle is good for what it was good for, those of the user
/// for the new counters.
pub open spec fn user_set(before: Stats, after: Stats, user: Seq<char>, to: UserStats) -> bool {
    &&& user_named(before, after, user, after.users.names()[user])
    &&& after.users.slots() == before.users.slots().insert(after.users.names()[user], to)
    &&& forall|slot: usize| #[trigger]
        after.users.holders(slot) == before.users.holders(slot)
}

impl Stats {
    /// The counters of a user; those of an unknown user are zero.
    pub open spec fn user_stats(&self, name: Seq<char>) -> UserStats {
        match self.users.user(name) {
            Some(stats) => stats,
            None => no_traffic(),
        }
    }

    /// The counters behind a handle.
    pub open spec fn handle_stats(&self, handle: UserStatsHandle) -> UserStats {
        self.users.slots()[handle.slot]
    }

    /// Handle of a user, which keeps the counters alive when the user is removed.
    pub fn get_or_create_user_stats_handle(&mut self, user: &str) -> (handle: UserStatsHandle)
        ensures
            handle_given(*old(self), *final(self), user@, handle),
            final(self).handle_stats(handle) == old(self).user_stats(user@),
            forall|name: Seq<char>| #[trigger]
                final(self).user_stats(name) == old(self).user_stats(name),
    {
        let slot = self.users.get_or_create(user);
        let handle = self.users.hold(slot);
        assert(self.users.slots() =~= old(self).users.slots().insert(
            slot,
            old(self).user_stats(user@),
        ));
        handle
    }

    /// Gives a handle back. The counters go with the last handle of a user that was removed.
    pub fn release_user_stats_handle(&mut self, handle: UserStatsHandle)
        requires
            old(self).users.issued(handle),
        ensures
            handle_returned(*old(self), *final(self), handle),
            same_but_users(*final(self), *old(self)),
            final(self).users.separate(),
            final(self).users.names() == old(self).users.names(),
            final(self).users.slots() == (if one_less(old(self).users.holders(handle.slot)) == 0
                && !old(self).users.leads_to(handle.slot) {
                old(self).users.slots().remove(handle.slot)
            } else {
                old(self).users.slots()
            }),
            forall|slot: usize| #[trigger]
                final(self).users.holders(slot) == (if slot == handle.slot {
                    one_less(old(self).users.holders(slot))
                } else {
                    old(self).users.holders(slot)
                }),
    {
        self.users.release(handle);
    }

    /// Counts a connection of a user.
    pub fn increment_user_connects(&mut self, user: &str)
        ensures
            if old(self).policy.user_enabled {
                user_set(*old(self), *final(self), user@, old(self).user_stats(user@).connected())
            } else {
                *final(self) == *old(self)
            },
            final(self).user_stats(user@) == (if old(self).policy.user_enabled {
                old(self).user_stats(user@).connected()
            } else {
                old(self).user_stats(user@)
            }),
            forall|name: Seq<char>|
                name != user@ ==> #[trigger] final(self).user_stats(name) == old(self).user_stats(name),
    {
        if !self.policy.user_enabled {
            return;
        }
        let slot = self.users.get_or_create(user);
        let mut stats = self.users.read(slot);
        stats.connects = stats.connects.wrapping_add(1);
        stats.curr_connects = stats.curr_connects.wrapping_add(1);
        self.users.write(slot, stats);
        assert(self.users.slots() =~= old(self).users.slots().insert(
            slot,
            old(self).user_stats(user@).connected(),
        ));
    }

    /// Counts bytes that came from a user.
    pub fn add_user_octets_from(&mut self, user: &str, bytes: u64)
        ensures
            if old(self).policy.user_enabled {
                user_set(*old(self), *final(self), user@, old(self).user_stats(user@).received(bytes))
            } else {
                *final(self) == *old(self)
            },
            final(self).user_stats(user@) == (if old(self).policy.user_enabled {
                old(self).user_stats(user@).received(bytes)
            } else {
                old(self).user_stats(user@)
            }),
            forall|name: Seq<char>|
                name != user@ ==> #[trigger] final(self).user_stats(name) == old(self).user_stats(name),
    {
        if !self.policy.user_enabled {
            return;
        }
        let slot = self.users.get_or_create(user);
        let mut stats = self.users.read(slot);
        stats.octets_from = stats.octets_from.wrapping_add(bytes);
        self.users.write(slot, stats);
        assert(self.users.slots() =~= old(self).users.slots().insert(
            slot,
            old(self).user_stats(user@).received(bytes),
        ));
    }

    /// Counts bytes that went to a user.
    pub fn add_user_octets_to_handle(&mut self, handle: &UserStatsHandle, bytes: u64)
        requires
            old(self).users.issued(*handle),
        ensures
            same_but_users(*final(self), *old(self)),
            final(self).users.names() == old(self).users.names(),
            forall|slot: usize| #[trigger]
                final(self).users.holders(slot) == old(self).users.holders(slot),
            final(self).users.slots() == (if old(self).policy.user_enabled {
                old(self).users.slots().insert(
                    handle.slot,
                    old(self).handle_stats(*handle).sent(bytes),
                )
            } else {
                old(self).users.slots()
            }),
    {
        if !self.policy.user_enabled {
            return;
        }
        let mut stats = self.users.read(handle.slot);
        stats.octets_to = stats.octets_to.wrapping_add(bytes);
        self.users.write(handle.slot, stats);
    }

    /// Counts a message that came from a user, and its bytes.
    pub fn add_user_traffic_from_handle(&mut self, handle: &UserStatsHandle, bytes: u64)
        requires
            old(self).users.issued(*handle),
        ensures
            same_but_users(*final(self), *old(self)),
            final(self).users.names() == old(self).users.names(),
            forall|slot: usize| #[trigger]
                final(self).users.holders(slot) == old(self).users.holders(slot),
            final(self).users.slots() == (if old(self).policy.user_enabled {
                old(self).users.slots().insert(
                    handle.slot,
                    old(self).handle_stats(*handle).message_received(bytes),
                )
            } else {
                old(self).users.slots()
            }),
    {
        if !self.policy.user_enabled {
            return;
        }
        let mut stats = self.users.read(handle.slot);
        stats.octets_from = stats.octets_from.wrapping_add(bytes);
        stats.msgs_from = stats.msgs_from.wrapping_add(1);
        self.users.write(handle.slot, stats);
    }

    /// Counts a message that went to a user, and its bytes.
    pub fn add_user_traffic_to_handle(&mut self, handle: &UserStatsHandle, bytes: u64)
        requires
            old(self).users.issued(*handle),
        ensures
            same_but_users(*final(self), *old(self)),
            final(self).users.names() == old(self).users.names(),
            forall|slot: usize| #[trigger]
                final(self).users.holders(slot) == old(self).users.holders(slot),
            final(self).users.slots() == (if old(self).policy.user_enabled {
                old(self).users.slots().insert(
                    handle.slot,
                    old(self).handle_stats(*handle).message_sent(bytes),
                )
            } else {
                old(self).users.slots()
            }),
    {
        if !self.policy.user_enabled {
            return;
        }
        let mut stats = self.users.read(handle.slot);
        stats.octets_to = stats.octets_to.wrapping_add(bytes);
        stats.msgs_to = stats.msgs_to.wrapping_add(1);
        self.users.write(handle.slot, stats);
    }

    /// Charges a user's quota for bytes that were written already, whatever the policy.
    pub fn quota_charge_post_write(&mut self, handle: &UserStatsHandle, bytes: u64)
        requires
            old(self).users.issued(*handle),
        ensures
            same_but_users(*final(self), *old(self)),
            final(self).users.names() == old(self).users.names(),
            forall|slot: usize| #[trigger]
                final(self).users.holders(slot) == old(self).users.holders(slot),
            final(self).users.slots() == old(self).users.slots().insert(
                handle.slot,
                old(self).handle_stats(*handle).charged(bytes),
            ),
    {
        let mut stats = self.users.read(handle.slot);
        stats.quota_charge(bytes);
        self.users.write(handle.slot, stats);
    }

    /// Takes bytes of the quota of a user, if they fit under `limit`.
    pub fn quota_try_reserve(&mut self, handle: &UserStatsHandle, bytes: u64, limit: u64) -> (res: Result<
        u64,
        QuotaReserveError,
    >)
        requires
            old(self).users.issued(*handle),
        ensures
            same_but_users(*final(self), *old(self)),
            final(self).users.names() == old(self).users.names(),
            forall|slot: usize| #[trigger]
                final(self).users.holders(slot) == old(self).users.holders(slot),
            final(self).users.slots() == old(self).users.slots().insert(
                handle.slot,
                old(self).handle_stats(*handle).attempted(bytes, limit),
            ),
            match res {
                Ok(used) => old(self).handle_stats(*handle).quota_used + bytes <= limit && used
                    == old(self).handle_stats(*handle).quota_used + bytes,
                Err(error) => old(self).handle_stats(*handle).quota_used + bytes > limit && error
                    == QuotaReserveError::LimitExceeded,
            },
            res == old(self).handle_stats(*handle).attempt(bytes, limit),
    {
        let mut stats = self.users.read(handle.slot);
        let res = stats.quota_try_reserve(bytes, limit);
        self.users.write(handle.slot, stats);
        res
    }

    /// Gives bytes back to the quota of a user, and counts them.
    pub fn quota_refund(&mut self, handle: &UserStatsHandle, bytes: u64)
        requires
            old(self).users.issued(*handle),
        ensures
            final(self).policy == old(self).policy,
            final(self).connects_all == old(self).connects_all,
            final(self).me == old(self).me,
            final(self).events == (EventCounters {
                quota_refund_bytes_total: old(self).events.quota_refund_bytes_total.wrapping_add(bytes),
                ..old(self).events
            }),
            final(self).users.names() == old(self).users.names(),
            forall|slot: usize| #[trigger]
                final(self).users.holders(slot) == old(self).users.holders(slot),
            final(self).users.slots() == old(self).users.slots().insert(
                handle.slot,
                old(self).handle_stats(*handle).refunded(bytes),
            ),
    {
        let mut stats = self.users.read(handle.slot);
        stats.refund_reserved_quota_bytes(bytes);
        self.users.write(handle.slot, stats);
        self.add_quota_refund_bytes_total(bytes);
    }

    /// Open connections of a user.
    pub fn get_user_curr_connects(&self, user: &str) -> (res: u64)
        ensures
            res == self.user_stats(user@).curr_connects,
    {
        match self.users.get(user) {
            Some(stats) => stats.curr_connects,
            None => 0,
        }
    }

    /// Bytes of a user in both directions.
    pub fn get_user_total_octets(&self, user: &str) -> (res: u64)
        ensures
            res == self.user_stats(user@).octets_from.wrapping_add(self.user_stats(user@).octets_to),
            res == self.user_stats(user@).octets(),
    {
        match self.users.get(user) {
            Some(stats) => stats.octets_from.wrapping_add(stats.octets_to),
            None => 0,
        }
    }

    /// Bytes that a user has used up of the quota.
    pub fn get_user_quota_used(&self, user: &str) -> (res: u64)
        ensures
            res == self.user_stats(user@).quota_used,
    {
        match self.users.get(user) {
            Some(stats) => stats.quota_used,
            None => 0,
        }
    }

    /// Removes a user. The counters stay for the handles of the user.
    pub fn remove_user(&mut self, user: &str)
        ensures
            user_removed(*old(self), *final(self), user@),
            same_but_users(*final(self), *old(self)),
            final(self).users.separate(),
            final(self).users.names() == old(self).users.names().remove(user@),
            final(self).users.slots() == (if old(self).users.names().contains_key(user@) && old(
                self,
            ).users.holders(old(self).users.names()[user@]) == 0 {
                old(self).users.slots().remove(old(self).users.names()[user@])
            } else {
                old(self).users.slots()
            }),
            final(self).user_stats(user@) == no_traffic(),
            forall|name: Seq<char>|
                name != user@ ==> #[trigger] final(self).user_stats(name) == old(self).user_stats(name),
            forall|slot: usize| #[trigger]
                final(self).users.holders(slot) == old(self).users.holders(slot),
    {
        self.users.remove(user);
    }

    /// Bytes that the user behind a handle has used up of the quota.
    pub fn get_handle_quota_used(&self, handle: &UserStatsHandle) -> (res: u64)
        requires
            self.users.issued(*handle),
        ensures
            res == self.handle_stats(*handle).quota_used,
    {
        self.users.read(handle.slot).quota_used
    }
}

} // verus!
