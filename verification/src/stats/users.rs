//! Per-user counters and quota.

use vstd::hash_map::StringHashMap;
use vstd::prelude::*;


verus! {

/// Why a quota reservation failed.
#[derive(Debug, Clone, Copy, PartialEq, Eq, Structural)]
pub enum QuotaReserveError {
    /// The reservation does not fit under the limit.
    LimitExceeded,
    /// Another reservation was in the way; trying again may help.
    Contended,
}

/// Counters of one user.
#[derive(Debug, Clone, Copy, PartialEq, Eq, Structural)]
pub struct UserStats {
    pub connects: u64,
    pub curr_connects: u64,
    pub octets_from: u64,
    pub octets_to: u64,
    pub msgs_from: u64,
    pub msgs_to: u64,
    /// Bytes used up of the user's quota.
    pub quota_used: u64,
}

/// A user without any traffic.
pub open spec fn no_traffic() -> UserStats {
    UserStats {
        connects: 0,
        curr_connects: 0,
        octets_from: 0,
        octets_to: 0,
        msgs_from: 0,
        msgs_to: 0,
        quota_used: 0,
    }
}

impl Default for UserStats {
    fn default() -> (res: Self)
        ensures
            res == no_traffic(),
    {
        UserStats {
            connects: 0,
            curr_connects: 0,
            octets_from: 0,
            octets_to: 0,
            msgs_from: 0,
            msgs_to: 0,
            quota_used: 0,
        }
    }
}

impl UserStats {
    /// Counters after a connection.
    pub open spec fn connected(self) -> UserStats {
        UserStats {
            connects: self.connects.wrapping_add(1),
            curr_connects: self.curr_connects.wrapping_add(1),
            ..self
        }
    }

    /// Counters after bytes came from the user.
    pub open spec fn received(self, bytes: u64) -> UserStats {
        UserStats { octets_from: self.octets_from.wrapping_add(bytes), ..self }
    }

    /// Counters after bytes went to the user.
    pub open spec fn sent(self, bytes: u64) -> UserStats {
        UserStats { octets_to: self.octets_to.wrapping_add(bytes), ..self }
    }

    /// Counters after a message came from the user.
    pub open spec fn message_received(self, bytes: u64) -> UserStats {
        UserStats { msgs_from: self.msgs_from.wrapping_add(1), ..self.received(bytes) }
    }

    /// Counters after a message went to the user.
    pub open spec fn message_sent(self, bytes: u64) -> UserStats {
        UserStats { msgs_to: self.msgs_to.wrapping_add(1), ..self.sent(bytes) }
    }

    /// Counters after the quota was charged, as far as it can count.
    pub open spec fn charged(self, bytes: u64) -> UserStats {
        UserStats {
            quota_used: if self.quota_used + bytes <= u64::MAX {
                (self.quota_used + bytes) as u64
            } else {
                u64::MAX
            },
            ..self
        }
    }

    /// Counters after bytes went back to the quota, down to none used up.
    pub open spec fn refunded(self, bytes: u64) -> UserStats {
        UserStats {
            quota_used: if self.quota_used >= bytes {
                (self.quota_used - bytes) as u64
            } else {
                0
            },
            ..self
        }
    }

    /// Counters after an attempt to take bytes of the quota.
    pub open spec fn attempted(self, bytes: u64, limit: u64) -> UserStats {
        UserStats { quota_used: after_attempt(self.quota_used, bytes, limit), ..self }
    }

    /// Bytes in both directions.
    pub open spec fn octets(self) -> u64 {
        self.octets_from.wrapping_add(self.octets_to)
    }

    /// What an attempt to take bytes of the quota comes to.
    pub open spec fn attempt(self, bytes: u64, limit: u64) -> Result<u64, QuotaReserveError> {
        if self.quota_used + bytes <= limit {
            Ok((self.quota_used + bytes) as u64)
        } else {
            Err(QuotaReserveError::LimitExceeded)
        }
    }

    /// Bytes used up of the quota.
    pub fn quota_used(&self) -> (res: u64)
        ensures
            res == self.quota_used,
    {
        self.quota_used
    }

    /// Takes `bytes` of the quota, if they fit under `limit`. Returns what is used up afterwards.
    pub fn quota_try_reserve(&mut self, bytes: u64, limit: u64) -> (res: Result<
        u64,
        QuotaReserveError,
    >)
        ensures
            *final(self) == old(self).attempted(bytes, limit),
            match res {
                Ok(used) => old(self).quota_used + bytes <= limit && used == old(self).quota_used
                    + bytes,
                Err(error) => old(self).quota_used + bytes > limit && error
                    == QuotaReserveError::LimitExceeded,
            },
            res == old(self).attempt(bytes, limit),
    {
        match self.quota_used.checked_add(bytes) {
            Some(used) => {
                if used <= limit {
                    self.quota_used = used;
                    Ok(used)
                } else {
                    Err(QuotaReserveError::LimitExceeded)
                }
            },
            None => Err(QuotaReserveError::LimitExceeded),
        }
    }

    /// Gives `bytes` back to the quota.
    pub fn refund_reserved_quota_bytes(&mut self, bytes: u64)
        ensures
            *final(self) == old(self).refunded(bytes),
    {
        self.quota_used = self.quota_used.saturating_sub(bytes);
    }

    /// Charges `bytes` that were written already.
    pub fn quota_charge(&mut self, bytes: u64)
        ensures
            *final(self) == old(self).charged(bytes),
    {
        self.quota_used = self.quota_used.saturating_add(bytes);
    }
}

/// What is used up of a quota after an attempt to reserve `bytes`.
pub open spec fn after_attempt(used: u64, bytes: u64, limit: u64) -> u64 {
    if used + bytes <= limit {
        (used + bytes) as u64
    } else {
        used
    }
}

/// What is used up of a quota after so many attempts to reserve `bytes`.
pub open spec fn after_attempts(used: u64, bytes: u64, limit: u64, attempts: nat) -> u64
    decreases attempts,
{
    if attempts == 0 {
        used
    } else {
        after_attempt(
            after_attempts(used, bytes, limit, (attempts - 1) as nat),
            bytes,
            limit,
        )
    }
}

/// Reservations succeed until the next one does not fit under the limit, and never go beyond it.
pub proof fn law_reservations_stop_at_the_limit(used: u64, bytes: u64, limit: u64, attempts: nat)
    requires
        used <= limit,
        bytes > 0,
    ensures
        ({
            let room: int = (limit - used) / bytes as int;
            let successes = if attempts < room {
                attempts as int
            } else {
                room
            };
            after_attempts(used, bytes, limit, attempts) == used + successes * bytes
        }),
        after_attempts(used, bytes, limit, attempts) <= limit,
    decreases attempts,
{
    let free: int = limit - used;
    let step: int = bytes as int;
    let room: int = free / step;
    assert(room * step <= free < (room + 1) * step) by (nonlinear_arith)
        requires
            room == free / step,
            step > 0,
            free >= 0,
    ;
    if attempts > 0 {
        law_reservations_stop_at_the_limit(used, bytes, limit, (attempts - 1) as nat);
        let earlier: int = attempts - 1;
        if earlier < room {
            assert((earlier + 1) * step <= room * step) by (nonlinear_arith)
                requires
                    earlier < room,
                    step > 0,
            ;
            assert((earlier + 1) * step == earlier * step + step) by (nonlinear_arith);
        } else {
            assert((room + 1) * step == room * step + step) by (nonlinear_arith);
        }
    } else {
        assert(0 * step == 0);
        assert(room >= 0) by (nonlinear_arith)
            requires
                free < (room + 1) * step,
                free >= 0,
                step > 0,
        ;
    }
}

/// What was reserved and given back again leaves no trace.
pub proof fn law_refund_undoes_reservation(user: UserStats, bytes: u64, limit: u64)
    requires
        user.quota_used + bytes <= limit,
    ensures
        user.attempted(bytes, limit).refunded(bytes) == user,
{
}

/// The quota is used up by charges and reservations alone, whatever traffic is counted, and counted
/// traffic does not depend on the quota.
pub proof fn law_quota_and_traffic_are_independent(user: UserStats, bytes: u64, other: u64, limit: u64)
    ensures
        user.received(bytes).quota_used == user.quota_used,
        user.sent(bytes).quota_used == user.quota_used,
        user.message_received(bytes).quota_used == user.quota_used,
        user.message_sent(bytes).quota_used == user.quota_used,
        user.charged(other).received(bytes) == user.received(bytes).charged(other),
        user.charged(other).sent(bytes) == user.sent(bytes).charged(other),
        user.attempted(other, limit).message_received(bytes) == user.message_received(
            bytes,
        ).attempted(other, limit),
        user.refunded(other).message_sent(bytes) == user.message_sent(bytes).refunded(other),
{
}

/// Keeps the counters of a user alive, also after the user's name was removed.
#[derive(Debug, PartialEq, Eq, Structural)]
pub struct UserStatsHandle {
    pub slot: usize,
}

/// A place for the counters of a user.
#[derive(Clone, Copy)]
struct UserSlot {
    stats: UserStats,
    /// Number of handles.
    holders: u64,
    /// Whether a name leads here.
    named: bool,
}

impl UserSlot {
    spec fn in_use(self) -> bool {
        self.named || self.holders > 0
    }
}

/// Users by name. The counters of a user are there as long as the user has a name or a handle.
pub struct UserStatsTable {
    index: StringHashMap<usize>,
    slots: Vec<UserSlot>,
}

/// Number of handles after another one was given out. The greatest number stands for any number from
/// it on.
pub open spec fn one_more(holders: u64) -> u64 {
    if holders < u64::MAX {
        (holders + 1) as u64
    } else {
        u64::MAX
    }
}

/// Number of handles after one was given back.
pub open spec fn one_less(holders: u64) -> u64 {
    if 0 < holders < u64::MAX {
        (holders - 1) as u64
    } else {
        holders
    }
}

/// Whether some name leads to a slot.
spec fn pointed_at(index: Map<Seq<char>, usize>, slot: int) -> bool {
    exists|name: Seq<char>| #[trigger] index.contains_key(name) && index[name] == slot
}

/// Every name leads to a slot of its own, and these slots know it.
spec fn fits(index: Map<Seq<char>, usize>, slots: Seq<UserSlot>) -> bool {
    &&& forall|name: Seq<char>| #[trigger]
        index.contains_key(name) ==> index[name] < slots.len() && slots[index[name] as int].named
    &&& forall|a: Seq<char>, b: Seq<char>| #[trigger]
        index.contains_key(a) && #[trigger] index.contains_key(b) && a != b ==> index[a]
            != index[b]
    &&& forall|i: int|
        0 <= i < slots.len() && (#[trigger] slots[i]).named ==> pointed_at(index, i)
}

impl UserStatsTable {
    #[verifier::type_invariant]
    spec fn indexed(self) -> bool {
        fits(self.index@, self.slots@)
    }

    /// Whether some name leads to a slot.
    pub open spec fn leads_to(&self, slot: usize) -> bool {
        exists|name: Seq<char>| #[trigger]
            self.names().contains_key(name) && self.names()[name] == slot
    }

    /// The slot of each name.
    pub closed spec fn names(&self) -> Map<Seq<char>, usize> {
        self.index@
    }

    /// The counters in each slot that is in use.
    pub closed spec fn slots(&self) -> Map<usize, UserStats> {
        Map::new(
            |slot: usize| slot < self.slots@.len() && self.slots@[slot as int].in_use(),
            |slot: usize| self.slots@[slot as int].stats,
        )
    }

    /// Number of handles of a slot.
    pub closed spec fn holders(&self, slot: usize) -> u64 {
        if slot < self.slots@.len() {
            self.slots@[slot as int].holders
        } else {
            0
        }
    }

    /// Whether `handle` keeps counters of this table alive.
    pub open spec fn issued(&self, handle: UserStatsHandle) -> bool {
        self.slots().contains_key(handle.slot) && self.holders(handle.slot) > 0
    }

    /// The counters of a name, if it is known.
    pub open spec fn user(&self, name: Seq<char>) -> Option<UserStats> {
        if self.names().contains_key(name) {
            Some(self.slots()[self.names()[name]])
        } else {
            None
        }
    }

    /// Every name has a slot of its own, and the slots in use are those with a name or a handle.
    pub open spec fn separate(&self) -> bool {
        &&& forall|name: Seq<char>| #[trigger]
            self.names().contains_key(name) ==> self.slots().contains_key(self.names()[name])
        &&& forall|a: Seq<char>, b: Seq<char>| #[trigger]
            self.names().contains_key(a) && #[trigger] self.names().contains_key(b) && a != b
                ==> self.names()[a] != self.names()[b]
        &&& forall|slot: usize| #[trigger]
            self.slots().contains_key(slot) <==> self.holders(slot) > 0 || self.leads_to(slot)
    }

    proof fn lemma_separate(&self)
        requires
            self.indexed(),
        ensures
            self.separate(),
            forall|slot: usize|
                slot < self.slots@.len() ==> #[trigger] self.leads_to(slot)
                    == self.slots@[slot as int].named,
    {
        assert forall|slot: usize| slot < self.slots@.len() implies #[trigger] self.leads_to(slot)
            == self.slots@[slot as int].named by {
            if self.slots@[slot as int].named {
                assert(pointed_at(self.index@, slot as int));
                let name = choose|name: Seq<char>| #[trigger]
                    self.index@.contains_key(name) && self.index@[name] == slot as int;
                assert(self.names().contains_key(name));
            }
            if self.leads_to(slot) {
                let name = choose|name: Seq<char>| #[trigger]
                    self.names().contains_key(name) && self.names()[name] == slot;
                assert(self.index@.contains_key(name));
            }
        }
        assert forall|slot: usize| #[trigger] self.slots().contains_key(slot) == (self.holders(slot)
            > 0 || self.leads_to(slot)) by {
            if self.leads_to(slot) {
                let name = choose|name: Seq<char>| #[trigger]
                    self.names().contains_key(name) && self.names()[name] == slot;
                assert(self.index@.contains_key(name));
            }
        }
        assert forall|name: Seq<char>| #[trigger] self.names().contains_key(
            name,
        ) implies self.slots().contains_key(self.names()[name]) by {
            assert(self.index@.contains_key(name));
        }
        assert forall|a: Seq<char>, b: Seq<char>| #[trigger]
            self.names().contains_key(a) && #[trigger] self.names().contains_key(b) && a
                != b implies self.names()[a] != self.names()[b] by {
            assert(self.index@.contains_key(a) && self.index@.contains_key(b));
        }
    }

    /// A table without users.
    pub fn new() -> (res: UserStatsTable)
        ensures
            res.names() == Map::<Seq<char>, usize>::empty(),
            res.slots() == Map::<usize, UserStats>::empty(),
            forall|slot: usize| #[trigger] res.holders(slot) == 0,
    {
        let res = UserStatsTable { index: StringHashMap::new(), slots: Vec::new() };
        assert(res.slots() =~= Map::<usize, UserStats>::empty());
        res
    }

    /// A slot that is not in use, or the next one.
    fn free_slot(slots: &Vec<UserSlot>) -> (res: usize)
        ensures
            res <= slots@.len(),
            res < slots@.len() ==> !slots@[res as int].in_use(),
    {
        let mut i: usize = 0;
        while i < slots.len()
            invariant
                i <= slots@.len(),
            decreases slots@.len() - i,
        {
            if !slots[i].named && slots[i].holders == 0 {
                return i;
            }
            i = i + 1;
        }
        i
    }

    /// The slot of `name`; an unknown name is added without any traffic.
    pub fn get_or_create(&mut self, name: &str) -> (slot: usize)
        ensures
            old(self).separate(),
            final(self).separate(),
            final(self).slots().contains_key(slot),
            forall|other: usize| #[trigger] final(self).holders(other) == old(self).holders(other),
            if old(self).names().contains_key(name@) {
                &&& slot == old(self).names()[name@]
                &&& final(self).names() == old(self).names()
                &&& final(self).slots() == old(self).slots()
            } else {
                &&& !old(self).slots().contains_key(slot)
                &&& final(self).names() == old(self).names().insert(name@, slot)
                &&& final(self).slots() == old(self).slots().insert(slot, no_traffic())
            },
    {
        proof {
            use_type_invariant(&*self);
            self.lemma_separate();
        }
        if let Some(slot) = self.index.get(name) {
            return *slot;
        }
        let ghost before = *self;
        let mut taken = UserStatsTable::new();
        std::mem::swap(self, &mut taken);
        let UserStatsTable { index: mut names, mut slots } = taken;
        let slot = Self::free_slot(&slots);
        let added = UserSlot { stats: UserStats::default(), holders: 0, named: true };
        if slot < slots.len() {
            slots[slot] = added;
        } else {
            slots.push(added);
        }
        names.insert(name.to_owned(), slot);
        proof {
            assert forall|i: int| 0 <= i < slots@.len() && (
            #[trigger] slots@[i]).named implies pointed_at(names@, i) by {
                if i == slot {
                    assert(names@.contains_key(name@));
                } else {
                    assert(before.slots@[i].named);
                    assert(pointed_at(before.index@, i));
                    let other = choose|other: Seq<char>| #[trigger]
                        before.index@.contains_key(other) && before.index@[other] == i;
                    assert(names@.contains_key(other));
                }
            }
        }
        *self = UserStatsTable { index: names, slots };
        proof {
            self.lemma_separate();
            assert(self.slots() =~= before.slots().insert(slot, no_traffic()));
        }
        slot
    }

    /// Gives out a handle of a slot.
    pub fn hold(&mut self, slot: usize) -> (handle: UserStatsHandle)
        requires
            old(self).slots().contains_key(slot),
        ensures
            old(self).separate(),
            final(self).separate(),
            handle.slot == slot,
            final(self).names() == old(self).names(),
            final(self).slots() == old(self).slots(),
            forall|other: usize| #[trigger]
                final(self).holders(other) == (if other == slot {
                    one_more(old(self).holders(other))
                } else {
                    old(self).holders(other)
                }),
    {
        proof {
            use_type_invariant(&*self);
            self.lemma_separate();
        }
        let current = self.slots[slot];
        self.set_slot(
            slot,
            UserSlot { holders: current.holders.saturating_add(1), ..current },
        );
        assert(self.slots() =~= old(self).slots());
        UserStatsHandle { slot }
    }

    /// Gives a handle back. The counters go with the last one, unless the user has a name.
    pub fn release(&mut self, handle: UserStatsHandle)
        requires
            old(self).issued(handle),
        ensures
            old(self).separate(),
            final(self).separate(),
            final(self).names() == old(self).names(),
            final(self).slots() == (if one_less(old(self).holders(handle.slot)) == 0 && !old(
                self,
            ).leads_to(handle.slot) {
                old(self).slots().remove(handle.slot)
            } else {
                old(self).slots()
            }),
            forall|other: usize| #[trigger]
                final(self).holders(other) == (if other == handle.slot {
                    one_less(old(self).holders(other))
                } else {
                    old(self).holders(other)
                }),
    {
        proof {
            use_type_invariant(&*self);
            self.lemma_separate();
        }
        let current = self.slots[handle.slot];
        let holders = if current.holders < u64::MAX {
            current.holders - 1
        } else {
            current.holders
        };
        self.set_slot(handle.slot, UserSlot { holders, ..current });
        assert(self.slots() =~= (if one_less(old(self).holders(handle.slot)) == 0 && !old(
            self,
        ).leads_to(handle.slot) {
            old(self).slots().remove(handle.slot)
        } else {
            old(self).slots()
        }));
    }

    /// Replaces a slot by one that has a name if the old one had.
    fn set_slot(&mut self, slot: usize, to: UserSlot)
        requires
            slot < old(self).slots@.len(),
            to.named == old(self).slots@[slot as int].named,
        ensures
            final(self).separate(),
            final(self).index == old(self).index,
            final(self).slots@ == old(self).slots@.update(slot as int, to),
    {
        proof {
            use_type_invariant(&*self);
        }
        let ghost before = *self;
        let mut taken = UserStatsTable::new();
        std::mem::swap(self, &mut taken);
        let UserStatsTable { index: mut names, mut slots } = taken;
        slots[slot] = to;
        proof {
            assert forall|i: int| 0 <= i < slots@.len() && (
            #[trigger] slots@[i]).named implies pointed_at(names@, i) by {
                assert(before.slots@[i].named);
            }
        }
        *self = UserStatsTable { index: names, slots };
        proof {
            self.lemma_separate();
        }
    }

    /// Removes a name. Its counters stay for the handles.
    pub fn remove(&mut self, name: &str)
        ensures
            old(self).separate(),
            final(self).separate(),
            final(self).names() == old(self).names().remove(name@),
            final(self).slots() == (if old(self).names().contains_key(name@) && old(self).holders(
                old(self).names()[name@],
            ) == 0 {
                old(self).slots().remove(old(self).names()[name@])
            } else {
                old(self).slots()
            }),
            forall|slot: usize| #[trigger] final(self).holders(slot) == old(self).holders(slot),
    {
        proof {
            use_type_invariant(&*self);
            self.lemma_separate();
        }
        let ghost before = *self;
        let mut taken = UserStatsTable::new();
        std::mem::swap(self, &mut taken);
        let UserStatsTable { index: mut names, mut slots } = taken;
        let known = match names.get(name) {
            Some(slot) => Some(*slot),
            None => None,
        };
        names.remove(name);
        if let Some(slot) = known {
            let current = slots[slot];
            slots[slot] = UserSlot { named: false, ..current };
        }
        proof {
            assert forall|i: int| 0 <= i < slots@.len() && (
            #[trigger] slots@[i]).named implies pointed_at(names@, i) by {
                assert(before.slots@[i].named);
                assert(pointed_at(before.index@, i));
                let other = choose|other: Seq<char>| #[trigger]
                    before.index@.contains_key(other) && before.index@[other] == i;
                assert(names@.contains_key(other));
            }
        }
        *self = UserStatsTable { index: names, slots };
        proof {
            self.lemma_separate();
            assert(self.slots() =~= (if before.names().contains_key(name@) && before.holders(
                before.names()[name@],
            ) == 0 {
                before.slots().remove(before.names()[name@])
            } else {
                before.slots()
            }));
        }
    }

    /// The counters of a name.
    pub fn get(&self, name: &str) -> (res: Option<UserStats>)
        ensures
            self.separate(),
            res == self.user(name@),
    {
        proof {
            use_type_invariant(self);
            self.lemma_separate();
        }
        match self.index.get(name) {
            Some(slot) => Some(self.slots[*slot].stats),
            None => None,
        }
    }

    /// Whether the counters in a slot are there.
    pub fn is_alive(&self, slot: usize) -> (res: bool)
        ensures
            self.separate(),
            res == self.slots().contains_key(slot),
    {
        proof {
            use_type_invariant(self);
            self.lemma_separate();
        }
        slot < self.slots.len() && (self.slots[slot].named || self.slots[slot].holders > 0)
    }

    /// The counters in a slot.
    pub fn read(&self, slot: usize) -> (res: UserStats)
        requires
            self.slots().contains_key(slot),
        ensures
            self.separate(),
            res == self.slots()[slot],
    {
        proof {
            use_type_invariant(self);
            self.lemma_separate();
        }
        self.slots[slot].stats
    }

    /// Replaces the counters in a slot.
    pub fn write(&mut self, slot: usize, stats: UserStats)
        requires
            old(self).slots().contains_key(slot),
        ensures
            old(self).separate(),
            final(self).separate(),
            final(self).names() == old(self).names(),
            final(self).slots() == old(self).slots().insert(slot, stats),
            forall|other: usize| #[trigger] final(self).holders(other) == old(self).holders(other),
    {
        proof {
            use_type_invariant(&*self);
            self.lemma_separate();
        }
        let current = self.slots[slot];
        self.set_slot(slot, UserSlot { stats, ..current });
        assert(self.slots() =~= old(self).slots().insert(slot, stats));
    }
}

} // verus!
