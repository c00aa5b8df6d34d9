//! IP address tracking and per-user unique IP limiting.

pub mod cleanup;
pub mod effect_laws;
pub mod laws;

use std::collections::hash_map::DefaultHasher;
use std::collections::HashMap;
use std::hash::Hasher;

use dashmap::DashMap;
use vstd::prelude::*;
use vstd::std_specs::hash::DefaultHasherAdditionalSpecFns;
use vstd::string::StringSliceAdditionalSpecFns;

use crate::dash::{limits_get, limits_insert, limits_new};
use crate::table::{Key, Table};
use crate::time::{Duration, Instant};

verus! {

broadcast use vstd::std_specs::hash::group_hash_axioms;

/// Most cleanups that one drain of a shard takes from its queue.
pub const CLEANUP_DRAIN_BATCH_LIMIT: usize = 1024;

/// Most active pairs of a user and an address.
pub const MAX_ACTIVE_IP_ENTRIES: u64 = 131_072;

/// Number of shards.
pub const USER_IP_TRACKER_SHARDS: usize = 64;

/// Mask that maps a hash to a shard.
pub const USER_IP_TRACKER_SHARD_MASK: usize = 63;

/// Seconds that an address counts as recent, unless set otherwise.
pub const DEFAULT_LIMIT_WINDOW_SECS: u64 = 30;

/// An internet address.
#[derive(Debug, Clone, Copy, PartialEq, Eq, Structural, Hash)]
pub enum IpAddr {
    V4(u32),
    V6(u128),
}

impl View for IpAddr {
    type V = IpAddr;

    open spec fn view(&self) -> IpAddr {
        *self
    }
}

/// The places of addresses in a table.
pub struct IpPlaces {
    v4: HashMap<u32, usize>,
    v6: HashMap<u128, usize>,
}

impl Key for IpAddr {
    type Index = IpPlaces;

    closed spec fn places(index: &IpPlaces) -> Map<IpAddr, usize> {
        Map::new(
            |ip: IpAddr|
                match ip {
                    IpAddr::V4(bits) => index.v4@.contains_key(bits),
                    IpAddr::V6(bits) => index.v6@.contains_key(bits),
                },
            |ip: IpAddr|
                match ip {
                    IpAddr::V4(bits) => index.v4@[bits],
                    IpAddr::V6(bits) => index.v6@[bits],
                },
        )
    }

    fn no_places() -> (index: IpPlaces) {
        let index = IpPlaces { v4: HashMap::new(), v6: HashMap::new() };
        assert(IpAddr::places(&index) =~= Map::<IpAddr, usize>::empty());
        index
    }

    fn place_in(&self, index: &IpPlaces) -> (res: Option<usize>) {
        let found = match self {
            IpAddr::V4(bits) => index.v4.get(bits),
            IpAddr::V6(bits) => index.v6.get(bits),
        };
        match found {
            Some(place) => Some(*place),
            None => None,
        }
    }

    fn put_in(&self, index: &mut IpPlaces, place: usize) {
        match self {
            IpAddr::V4(bits) => {
                index.v4.insert(*bits, place);
            },
            IpAddr::V6(bits) => {
                index.v6.insert(*bits, place);
            },
        }
        assert(IpAddr::places(index) =~= IpAddr::places(old(index)).insert(self@, place));
    }

    fn drop_from(&self, index: &mut IpPlaces) {
        match self {
            IpAddr::V4(bits) => {
                index.v4.remove(bits);
            },
            IpAddr::V6(bits) => {
                index.v6.remove(bits);
            },
        }
        assert(IpAddr::places(index) =~= IpAddr::places(old(index)).remove(self@));
    }
}

/// Which addresses of a user count towards the limit.
#[derive(Debug, Clone, Copy, PartialEq, Eq, Structural)]
pub enum UserMaxUniqueIpsMode {
    /// The addresses with open connections.
    ActiveWindow,
    /// The addresses of the time window.
    TimeWindow,
    /// Both.
    Combined,
}

/// Point-in-time memory counters for user/IP limiter state.
#[derive(Debug, Clone, Copy, PartialEq, Eq, Structural)]
pub struct UserIpTrackerMemoryStats {
    /// Number of users with active IP state.
    pub active_users: usize,
    /// Number of users with recent IP state.
    pub recent_users: usize,
    /// Number of active `(user, ip)` entries.
    pub active_entries: usize,
    /// Number of recent-window `(user, ip)` entries.
    pub recent_entries: usize,
    /// Number of deferred disconnect cleanups waiting to be drained.
    pub cleanup_queue_len: usize,
    /// Number of new connections rejected by the global active-entry cap.
    pub active_cap_rejects: u64,
    /// Number of new connections rejected by the global recent-entry cap.
    pub recent_cap_rejects: u64,
    /// Number of release cleanups deferred through the cleanup queue.
    pub cleanup_deferred_releases: u64,
}

/// A number for each address of each user.
pub type Counts = Map<Seq<char>, Map<IpAddr, usize>>;

/// What the tables of a shard hold.
pub type CountTable = Table<String, Table<IpAddr, usize>>;

/// The numbers in a table.
pub open spec fn counts_of(table: Map<Seq<char>, Table<IpAddr, usize>>) -> Counts {
    table.map_values(|ips: Table<IpAddr, usize>| ips@)
}

/// The instants in a table.
pub open spec fn instants_of(table: Map<Seq<char>, Table<IpAddr, Instant>>) -> Map<
    Seq<char>,
    Map<IpAddr, Instant>,
> {
    table.map_values(|ips: Table<IpAddr, Instant>| ips@)
}

/// Addresses of the users of a shard.
pub struct UserIpShard {
    /// Number of open connections of each address of each user.
    active_ips: CountTable,
    /// When each address of each user was seen last.
    recent_ips: Table<String, Table<IpAddr, Instant>>,
}

/// Tracks active and recent client IPs for per-user admission control.
pub struct UserIpTracker {
    shards: Vec<UserIpShard>,
    active_entry_count: u64,
    recent_entry_count: u64,
    active_cap_rejects: u64,
    recent_cap_rejects: u64,
    cleanup_deferred_releases: u64,
    max_ips: DashMap<String, usize>,
    default_max_ips: usize,
    limit_mode: u8,
    limit_window_secs: u64,
    last_compact_epoch_secs: u64,
    cleanup_queue_len: u64,
    cleanup_queues: Vec<CountTable>,
}

/// What a [`UserIpTracker`] knows.
#[verifier::ext_equal]
pub struct TrackerState {
    /// Open connections, shard by shard.
    pub active: Seq<Counts>,
    /// Last sightings, shard by shard.
    pub recent: Seq<Map<Seq<char>, Map<IpAddr, Instant>>>,
    /// Connections that were closed since the last drain, shard by shard.
    pub queues: Seq<Counts>,
    pub active_entries: u64,
    pub recent_entries: u64,
    pub active_cap_rejects: u64,
    pub recent_cap_rejects: u64,
    pub deferred_releases: u64,
    /// Limits of users with a limit of their own.
    pub max_ips: Map<Seq<char>, usize>,
    pub default_max_ips: usize,
    pub limit_mode: u8,
    pub limit_window_secs: u64,
    pub last_compact_epoch_secs: u64,
    pub queue_len: u64,
}

/// The shard of a user, by a hash of the bytes of the name and of an end mark.
pub open spec fn shard_of(user: Seq<char>) -> int {
    (DefaultHasher::spec_finish(
        seq![vstd::utf8::encode_utf8(user), seq![0xffu8]],
    ) as usize & USER_IP_TRACKER_SHARD_MASK) as int
}

/// The number of a mode.
pub open spec fn mode_number(mode: UserMaxUniqueIpsMode) -> u8 {
    match mode {
        UserMaxUniqueIpsMode::ActiveWindow => 0,
        UserMaxUniqueIpsMode::TimeWindow => 1,
        UserMaxUniqueIpsMode::Combined => 2,
    }
}

/// The mode of a number; any unknown number stands for the active addresses.
pub open spec fn numbered_mode(raw: u8) -> UserMaxUniqueIpsMode {
    if raw == 1 {
        UserMaxUniqueIpsMode::TimeWindow
    } else if raw == 2 {
        UserMaxUniqueIpsMode::Combined
    } else {
        UserMaxUniqueIpsMode::ActiveWindow
    }
}

/// A mode is found again by its number.
pub proof fn law_modes_are_found_again(mode: UserMaxUniqueIpsMode)
    ensures
        numbered_mode(mode_number(mode)) == mode,
{
}

/// Whether a user has an address.
pub open spec fn has_pair(counts: Counts, user: Seq<char>, ip: IpAddr) -> bool {
    counts.contains_key(user) && counts[user].contains_key(ip)
}

/// Number of an address of a user, zero for an unknown one.
pub open spec fn count_of(counts: Counts, user: Seq<char>, ip: IpAddr) -> usize {
    if has_pair(counts, user, ip) {
        counts[user][ip]
    } else {
        0
    }
}

/// The addresses of a user, none for an unknown one.
pub open spec fn ips_or_none(counts: Counts, user: Seq<char>) -> Map<IpAddr, usize> {
    if counts.contains_key(user) {
        counts[user]
    } else {
        Map::empty()
    }
}

/// Numbers with `n` for an address of a user.
pub open spec fn with_count(counts: Counts, user: Seq<char>, ip: IpAddr, n: usize) -> Counts {
    counts.insert(user, ips_or_none(counts, user).insert(ip, n))
}

/// Numbers without a user that has no address left.
pub open spec fn with_ips(counts: Counts, user: Seq<char>, ips: Map<IpAddr, usize>) -> Counts {
    if ips == Map::<IpAddr, usize>::empty() {
        counts.remove(user)
    } else {
        counts.insert(user, ips)
    }
}

/// Open connections after `n` connections of an address were closed. An address without connections
/// is dropped, and so is a user without addresses.
pub open spec fn cleaned_up(counts: Counts, user: Seq<char>, ip: IpAddr, n: usize) -> Counts {
    if n == 0 || !counts.contains_key(user) {
        counts
    } else {
        let ips = counts[user];
        let left = if !ips.contains_key(ip) {
            ips
        } else if ips[ip] > n {
            ips.insert(ip, (ips[ip] - n) as usize)
        } else {
            ips.remove(ip)
        };
        with_ips(counts, user, left)
    }
}

/// Whether an address loses its last connection when `n` of its connections are closed.
pub open spec fn runs_out(counts: Counts, user: Seq<char>, ip: IpAddr, n: usize) -> bool {
    n > 0 && has_pair(counts, user, ip) && counts[user][ip] <= n
}

/// Queue without an address of a user.
pub open spec fn popped(queue: Counts, user: Seq<char>, ip: IpAddr) -> Counts {
    with_ips(queue, user, queue[user].remove(ip))
}

/// Every user has an address, and every number is positive.
pub open spec fn tidy(counts: Counts) -> bool {
    &&& forall|user: Seq<char>| #[trigger]
        counts.contains_key(user) ==> counts[user] != Map::<IpAddr, usize>::empty()
    &&& forall|user: Seq<char>, ip: IpAddr| #[trigger]
        has_pair(counts, user, ip) ==> counts[user][ip] > 0
}

/// Whether some user has no address.
pub open spec fn has_empty_user(counts: Counts) -> bool {
    exists|user: Seq<char>| #[trigger]
        counts.contains_key(user) && counts[user] == Map::<IpAddr, usize>::empty()
}

/// Every user is in the right shard.
pub open spec fn at_home(shards: Seq<Counts>) -> bool {
    forall|i: int, user: Seq<char>|
        0 <= i < shards.len() && (#[trigger] shards[i]).contains_key(user) ==> #[trigger] shard_of(
            user,
        ) == i
}

impl TrackerState {
    /// The parts fit together.
    pub open spec fn wf(self) -> bool {
        &&& self.active.len() == USER_IP_TRACKER_SHARDS
        &&& self.recent.len() == USER_IP_TRACKER_SHARDS
        &&& self.queues.len() == USER_IP_TRACKER_SHARDS
        &&& at_home(self.active)
        &&& at_home(self.queues)
        &&& forall|i: int| 0 <= i < self.active.len() ==> tidy(#[trigger] self.active[i])
        &&& forall|i: int| 0 <= i < self.queues.len() ==> tidy(#[trigger] self.queues[i])
    }

    /// Most addresses that a user may have, if there is a limit. Zero stands for none.
    pub open spec fn user_limit(self, user: Seq<char>) -> Option<usize> {
        match self.max_ips.get(user) {
            Some(limit) if limit > 0 => Some(limit),
            _ => if self.default_max_ips > 0 {
                Some(self.default_max_ips)
            } else {
                None
            },
        }
    }

    /// How long an address counts as recent, in nanoseconds.
    pub open spec fn limit_window_nanos(self) -> int {
        (if self.limit_window_secs < 1 {
            1
        } else {
            self.limit_window_secs
        }) * crate::time::NANOS_PER_SEC
    }

    /// State with a limit of its own for a user.
    pub open spec fn with_user_limit(self, user: Seq<char>, limit: usize) -> TrackerState {
        TrackerState { max_ips: self.max_ips.insert(user, limit), ..self }
    }

    /// State with a limit for the users without one of their own.
    pub open spec fn with_default_limit(self, limit: usize) -> TrackerState {
        TrackerState { default_max_ips: limit, ..self }
    }

    /// State in which other addresses count, and for another time.
    pub open spec fn with_limit_policy(self, mode: UserMaxUniqueIpsMode, window_secs: u64) -> TrackerState {
        TrackerState { limit_mode: mode_number(mode), limit_window_secs: window_secs, ..self }
    }

    /// Whether a connection of a user is counted as open.
    pub open spec fn admits(self, user: Seq<char>, ip: IpAddr) -> bool {
        has_pair(self.active[shard_of(user)], user, ip) || self.active_entries
            < MAX_ACTIVE_IP_ENTRIES
    }

    /// State after a connection of a user was opened. A new pair of a user and an address is turned
    /// away where there are too many.
    pub open spec fn add_active(self, user: Seq<char>, ip: IpAddr) -> TrackerState {
        let at = shard_of(user);
        let known = has_pair(self.active[at], user, ip);
        if !known && self.active_entries >= MAX_ACTIVE_IP_ENTRIES {
            TrackerState { active_cap_rejects: self.active_cap_rejects.wrapping_add(1), ..self }
        } else {
            let count = count_of(self.active[at], user, ip);
            let more = if count < usize::MAX {
                (count + 1) as usize
            } else {
                count
            };
            TrackerState {
                active: self.active.update(at, with_count(self.active[at], user, ip, more)),
                active_entries: if known {
                    self.active_entries
                } else {
                    (self.active_entries + 1) as u64
                },
                ..self
            }
        }
    }
}

/// Number of users over the shards of a tracker.
pub open spec fn users_over<V>(shards: Seq<Map<Seq<char>, V>>) -> nat
    decreases shards.len(),
{
    if shards.len() == 0 {
        0
    } else {
        users_over(shards.drop_last()) + shards.last().len()
    }
}

/// A counter that goes up by one, as long as it is below `cap`.
pub open spec fn up_to(counter: u64, cap: u64) -> u64 {
    if counter < cap {
        (counter + 1) as u64
    } else {
        counter
    }
}

/// A number as far as a machine word goes.
pub open spec fn as_far_as(total: nat) -> usize {
    if total <= usize::MAX {
        total as usize
    } else {
        usize::MAX
    }
}

/// A tracker that has seen nobody.
pub open spec fn empty_tracker() -> TrackerState {
    TrackerState {
        active: Seq::new(USER_IP_TRACKER_SHARDS as nat, |i: int| Map::empty()),
        recent: Seq::new(USER_IP_TRACKER_SHARDS as nat, |i: int| Map::empty()),
        queues: Seq::new(USER_IP_TRACKER_SHARDS as nat, |i: int| Map::empty()),
        active_entries: 0,
        recent_entries: 0,
        active_cap_rejects: 0,
        recent_cap_rejects: 0,
        deferred_releases: 0,
        max_ips: Map::empty(),
        default_max_ips: 0,
        limit_mode: 0,
        limit_window_secs: DEFAULT_LIMIT_WINDOW_SECS,
        last_compact_epoch_secs: 0,
        queue_len: 0,
    }
}

impl View for UserIpTracker {
    type V = TrackerState;

    closed spec fn view(&self) -> TrackerState {
        TrackerState {
            active: self.shards@.map_values(|shard: UserIpShard| counts_of(shard.active_ips@)),
            recent: self.shards@.map_values(|shard: UserIpShard| instants_of(shard.recent_ips@)),
            queues: self.cleanup_queues@.map_values(|queue: CountTable| counts_of(queue@)),
            active_entries: self.active_entry_count,
            recent_entries: self.recent_entry_count,
            active_cap_rejects: self.active_cap_rejects,
            recent_cap_rejects: self.recent_cap_rejects,
            deferred_releases: self.cleanup_deferred_releases,
            max_ips: crate::dash::limits_of(self.max_ips),
            default_max_ips: self.default_max_ips,
            limit_mode: self.limit_mode,
            limit_window_secs: self.limit_window_secs,
            last_compact_epoch_secs: self.last_compact_epoch_secs,
            queue_len: self.cleanup_queue_len,
        }
    }
}

/// A positive number for an address of a user, in the shard of the user, keeps the shards tidy and every
/// user at home.
proof fn lemma_with_count(shards: Seq<Counts>, user: Seq<char>, ip: IpAddr, n: usize)
    requires
        0 <= shard_of(user) < shards.len(),
        at_home(shards),
        forall|i: int| 0 <= i < shards.len() ==> tidy(#[trigger] shards[i]),
        n > 0,
    ensures
        ({
            let after = shards.update(
                shard_of(user),
                with_count(shards[shard_of(user)], user, ip, n),
            );
            at_home(after) && forall|i: int|
                0 <= i < after.len() ==> tidy(#[trigger] after[i])
        }),
{
    let at = shard_of(user);
    let after = shards.update(at, with_count(shards[at], user, ip, n));
    let counts = after[at];
    assert(tidy(shards[at]));
    assert forall|who: Seq<char>| #[trigger] counts.contains_key(who) implies counts[who] != Map::<
        IpAddr,
        usize,
    >::empty() by {
        if who == user {
            assert(counts[who].contains_key(ip));
        } else {
            assert(shards[at].contains_key(who));
        }
    }
    assert forall|who: Seq<char>, other: IpAddr| #[trigger]
        has_pair(counts, who, other) implies counts[who][other] > 0 by {
        if who != user || other != ip {
            assert(has_pair(shards[at], who, other));
        }
    }
    assert forall|i: int, who: Seq<char>|
        0 <= i < after.len() && (#[trigger] after[i]).contains_key(who) implies #[trigger] shard_of(
        who,
    ) == i by {
        if i != at || who != user {
            assert(shards[i].contains_key(who));
        }
    }
}

/// Sets the number of an address of a user.
fn set_count(table: &mut CountTable, user: String, ip: IpAddr, n: usize)
    ensures
        counts_of(final(table)@) == with_count(counts_of(old(table)@), user@, ip, n),
{
    let mut ips = match table.remove(&user) {
        Some(ips) => ips,
        None => Table::new(),
    };
    let _ = ips.insert(ip, n);
    let _ = table.insert(user, ips);
    assert(counts_of(table@) =~= with_count(counts_of(old(table)@), user@, ip, n));
}

/// Number of an address of a user, zero for an unknown one.
fn get_count(table: &CountTable, user: &String, ip: IpAddr) -> (res: usize)
    ensures
        res == count_of(counts_of(table@), user@, ip),
{
    match table.get(user) {
        Some(ips) => match ips.get(&ip) {
            Some(count) => *count,
            None => 0,
        },
        None => 0,
    }
}

impl UserIpTracker {
    /// A tracker that has seen nobody and limits nobody.
    pub fn new() -> (res: UserIpTracker)
        ensures
            res@ == empty_tracker(),
            res@.wf(),
    {
        let mut shards: Vec<UserIpShard> = Vec::new();
        let mut cleanup_queues: Vec<CountTable> = Vec::new();
        let mut i: usize = 0;
        while i < USER_IP_TRACKER_SHARDS
            invariant
                i <= USER_IP_TRACKER_SHARDS,
                shards@.len() == i,
                cleanup_queues@.len() == i,
                forall|j: int|
                    0 <= j < i ==> counts_of((#[trigger] shards@[j]).active_ips@)
                        == Map::<Seq<char>, Map<IpAddr, usize>>::empty(),
                forall|j: int|
                    0 <= j < i ==> instants_of((#[trigger] shards@[j]).recent_ips@)
                        == Map::<Seq<char>, Map<IpAddr, Instant>>::empty(),
                forall|j: int|
                    0 <= j < i ==> counts_of((#[trigger] cleanup_queues@[j])@)
                        == Map::<Seq<char>, Map<IpAddr, usize>>::empty(),
            decreases USER_IP_TRACKER_SHARDS - i,
        {
            let shard = UserIpShard { active_ips: Table::new(), recent_ips: Table::new() };
            let queue: CountTable = Table::new();
            assert(counts_of(shard.active_ips@) =~= Map::<
                Seq<char>,
                Map<IpAddr, usize>,
            >::empty());
            assert(instants_of(shard.recent_ips@) =~= Map::<
                Seq<char>,
                Map<IpAddr, Instant>,
            >::empty());
            assert(counts_of(queue@) =~= Map::<Seq<char>, Map<IpAddr, usize>>::empty());
            shards.push(shard);
            cleanup_queues.push(queue);
            i = i + 1;
        }
        let res = UserIpTracker {
            shards,
            active_entry_count: 0,
            recent_entry_count: 0,
            active_cap_rejects: 0,
            recent_cap_rejects: 0,
            cleanup_deferred_releases: 0,
            max_ips: limits_new(),
            default_max_ips: 0,
            limit_mode: Self::mode_to_u8(UserMaxUniqueIpsMode::ActiveWindow),
            limit_window_secs: DEFAULT_LIMIT_WINDOW_SECS,
            last_compact_epoch_secs: 0,
            cleanup_queue_len: 0,
            cleanup_queues,
        };
        assert(res@ =~= empty_tracker());
        res
    }

    /// The number of a mode.
    pub fn mode_to_u8(mode: UserMaxUniqueIpsMode) -> (res: u8)
        ensures
            res == mode_number(mode),
    {
        match mode {
            UserMaxUniqueIpsMode::ActiveWindow => 0,
            UserMaxUniqueIpsMode::TimeWindow => 1,
            UserMaxUniqueIpsMode::Combined => 2,
        }
    }

    /// The mode of a number.
    pub fn mode_from_u8(raw: u8) -> (res: UserMaxUniqueIpsMode)
        ensures
            res == numbered_mode(raw),
    {
        match raw {
            1 => UserMaxUniqueIpsMode::TimeWindow,
            2 => UserMaxUniqueIpsMode::Combined,
            _ => UserMaxUniqueIpsMode::ActiveWindow,
        }
    }

    /// The shard of a user.
    pub fn shard_idx(username: &str) -> (res: usize)
        ensures
            res == shard_of(username@),
            res < USER_IP_TRACKER_SHARDS,
    {
        let mut hasher = DefaultHasher::new();
        hasher.write(username.as_bytes());
        let mut end: Vec<u8> = Vec::new();
        end.push(0xff);
        hasher.write(end.as_slice());
        let hash: u64 = hasher.finish();
        assert(end@ =~= seq![0xffu8]);
        assert(hasher@ =~= seq![vstd::utf8::encode_utf8(username@), seq![0xffu8]]);
        let masked: usize = (hash as usize) & USER_IP_TRACKER_SHARD_MASK;
        assert(hash as usize & 63usize < 64) by (bit_vector);
        masked
    }

    /// How long an address counts as recent: at least a second.
    pub fn limit_window(&self) -> (res: Duration)
        ensures
            res.nanos() == self@.limit_window_nanos(),
    {
        let secs: u64 = if self.limit_window_secs < 1 {
            1
        } else {
            self.limit_window_secs
        };
        Duration::from_secs(secs)
    }

    /// Most addresses that a user may have, if there is a limit.
    pub fn user_limit(&self, username: &str) -> (res: Option<usize>)
        ensures
            res == self@.user_limit(username@),
    {
        match limits_get(&self.max_ips, username) {
            Some(limit) if limit > 0 => Some(limit),
            _ => {
                if self.default_max_ips > 0 {
                    Some(self.default_max_ips)
                } else {
                    None
                }
            },
        }
    }

    /// Sets the limit of a user.
    pub fn set_user_limit(&mut self, username: String, limit: usize)
        ensures
            final(self)@ == (TrackerState {
                max_ips: old(self)@.max_ips.insert(username@, limit),
                ..old(self)@
            }),
            final(self)@ == old(self)@.with_user_limit(username@, limit),
    {
        let _ = limits_insert(&mut self.max_ips, username, limit);
    }

    /// Sets the limit of the users without a limit of their own.
    pub fn set_default_limit(&mut self, limit: usize)
        ensures
            final(self)@ == (TrackerState { default_max_ips: limit, ..old(self)@ }),
            final(self)@ == old(self)@.with_default_limit(limit),
    {
        self.default_max_ips = limit;
    }

    /// Sets which addresses count, and for how long they count as recent.
    pub fn set_limit_policy(&mut self, mode: UserMaxUniqueIpsMode, window_secs: u64)
        ensures
            final(self)@ == (TrackerState {
                limit_mode: mode_number(mode),
                limit_window_secs: window_secs,
                ..old(self)@
            }),
            final(self)@ == old(self)@.with_limit_policy(mode, window_secs),
    {
        self.limit_mode = Self::mode_to_u8(mode);
        self.limit_window_secs = window_secs;
    }

    /// Which addresses count.
    pub fn limit_mode(&self) -> (res: UserMaxUniqueIpsMode)
        ensures
            res == numbered_mode(self@.limit_mode),
    {
        Self::mode_from_u8(self.limit_mode)
    }

    /// Takes `amount` from a counter, down to zero.
    pub fn decrement_counter(counter: &mut u64, amount: usize)
        ensures
            *final(counter) == (if amount <= *old(counter) {
                *old(counter) - amount
            } else {
                0
            }),
            *final(counter) == cleanup::down_to_zero(*old(counter), amount as nat),
    {
        if amount == 0 {
            return;
        }
        *counter = counter.saturating_sub(amount as u64);
    }

    /// Adds one to a counter that is below `cap`.
    pub fn try_increment_counter(counter: &mut u64, cap: u64) -> (added: bool)
        ensures
            added == (*old(counter) < cap),
            *final(counter) == (if added {
                *old(counter) + 1
            } else {
                *old(counter) as int
            }),
            *final(counter) == up_to(*old(counter), cap),
    {
        if *counter < cap {
            *counter = *counter + 1;
            true
        } else {
            false
        }
    }

    /// Takes `pending_count` closed connections of an address off the open ones. Returns the number of
    /// addresses that lost their last connection: one or none.
    pub fn apply_active_cleanup(
        active_ips: &mut CountTable,
        user: &str,
        ip: IpAddr,
        pending_count: usize,
    ) -> (removed: usize)
        ensures
            counts_of(final(active_ips)@) == cleaned_up(
                counts_of(old(active_ips)@),
                user@,
                ip,
                pending_count,
            ),
            removed == (if runs_out(counts_of(old(active_ips)@), user@, ip, pending_count) {
                1int
            } else {
                0
            }),
    {
        if pending_count == 0 {
            return 0;
        }
        let name = user.to_owned();
        let ghost before = counts_of(active_ips@);
        match active_ips.remove(&name) {
            None => {
                assert(counts_of(active_ips@) =~= before);
                0
            },
            Some(mut ips) => {
                let mut removed: usize = 0;
                let count = match ips.get(&ip) {
                    Some(count) => Some(*count),
                    None => None,
                };
                if let Some(open) = count {
                    if open > pending_count {
                        let _ = ips.insert(ip, open - pending_count);
                    } else if ips.remove(&ip).is_some() {
                        removed = 1;
                    }
                }
                if !ips.is_empty() {
                    let _ = active_ips.insert(name, ips);
                }
                assert(counts_of(active_ips@) =~= cleaned_up(before, user@, ip, pending_count));
                removed
            },
        }
    }

    /// Takes some address of some user out of a queue. There is none to take if the queue is empty, and
    /// perhaps none if some user in it has no address.
    pub fn pop_one_cleanup(queue: &mut CountTable) -> (res: Option<(String, IpAddr, usize)>)
        ensures
            match res {
                Some(item) => has_pair(counts_of(old(queue)@), item.0@, item.1) && item.2
                    == counts_of(old(queue)@)[item.0@][item.1] && counts_of(final(queue)@) == popped(
                    counts_of(old(queue)@),
                    item.0@,
                    item.1,
                ),
                None => {
                    &&& counts_of(final(queue)@) == counts_of(old(queue)@)
                    &&& counts_of(old(queue)@) == Map::<Seq<char>, Map<IpAddr, usize>>::empty()
                        || has_empty_user(counts_of(old(queue)@))
                },
            },
    {
        let ghost before = counts_of(queue@);
        let user = match queue.any_key() {
            Some(user) => user.clone(),
            None => {
                assert(before =~= Map::<Seq<char>, Map<IpAddr, usize>>::empty());
                return None;
            },
        };
        let ip = match queue.get(&user) {
            Some(ips) => match ips.any_key() {
                Some(ip) => *ip,
                None => {
                    assert(before.contains_key(user@));
                    assert(before[user@] =~= Map::<IpAddr, usize>::empty());
                    return None;
                },
            },
            None => return None,
        };
        match queue.remove(&user) {
            Some(mut ips) => {
                let count = ips.remove(&ip);
                if !ips.is_empty() {
                    let _ = queue.insert(user.clone(), ips);
                }
                assert(counts_of(queue@) =~= popped(before, user@, ip));
                match count {
                    Some(count) => Some((user, ip, count)),
                    None => None,
                }
            },
            None => None,
        }
    }

    /// Counts a connection of a user as open, unless there are too many pairs of users and addresses.
    pub fn add_active(&mut self, user: String, ip: IpAddr) -> (admitted: bool)
        requires
            old(self)@.wf(),
        ensures
            final(self)@ == old(self)@.add_active(user@, ip),
            final(self)@.wf(),
            admitted == (has_pair(old(self)@.active[shard_of(user@)], user@, ip)
                || old(self)@.active_entries < MAX_ACTIVE_IP_ENTRIES),
            admitted == old(self)@.admits(user@, ip),
    {
        let at = Self::shard_idx(user.as_str());
        let count = get_count(&self.shards[at].active_ips, &user, ip);
        assert(tidy(self@.active[at as int]));
        if count == 0 {
            let mut entries: u64 = self.active_entry_count;
            let room = Self::try_increment_counter(&mut entries, MAX_ACTIVE_IP_ENTRIES);
            if !room {
                self.active_cap_rejects = self.active_cap_rejects.wrapping_add(1);
                assert(self@ =~= old(self)@.add_active(user@, ip));
                return false;
            }
            self.active_entry_count = entries;
        }
        let more: usize = count.saturating_add(1);
        set_count(&mut self.shards[at].active_ips, user, ip, more);
        proof {
            lemma_with_count(old(self)@.active, user@, ip, more);
            let after = old(self)@.add_active(user@, ip);
            assert(self@.active =~= after.active);
            assert(self@.recent =~= after.recent);
            assert(self@.queues =~= after.queues);
        }
        true
    }

    /// How much the tracker holds.
    pub fn memory_stats(&self) -> (res: UserIpTrackerMemoryStats)
        requires
            self@.wf(),
        ensures
            res == (UserIpTrackerMemoryStats {
                active_users: as_far_as(users_over(self@.active)),
                recent_users: as_far_as(users_over(self@.recent)),
                active_entries: self@.active_entries as usize,
                recent_entries: self@.recent_entries as usize,
                cleanup_queue_len: self@.queue_len as usize,
                active_cap_rejects: self@.active_cap_rejects,
                recent_cap_rejects: self@.recent_cap_rejects,
                cleanup_deferred_releases: self@.deferred_releases,
            }),
    {
        let mut active_users: usize = 0;
        let mut recent_users: usize = 0;
        let mut i: usize = 0;
        assert(self@.active.take(0) =~= Seq::empty());
        assert(self@.recent.take(0) =~= Seq::empty());
        while i < self.shards.len()
            invariant
                i <= self.shards@.len(),
                active_users == as_far_as(users_over(self@.active.take(i as int))),
                recent_users == as_far_as(users_over(self@.recent.take(i as int))),
            decreases self.shards@.len() - i,
        {
            proof {
                let at = i as int;
                assert(self@.active.take(at + 1).drop_last() =~= self@.active.take(at));
                assert(self@.recent.take(at + 1).drop_last() =~= self@.recent.take(at));
                assert(self@.active[at].dom() =~= self.shards@[at].active_ips@.dom());
                assert(self@.recent[at].dom() =~= self.shards@[at].recent_ips@.dom());
            }
            active_users = active_users.saturating_add(self.shards[i].active_ips.len());
            recent_users = recent_users.saturating_add(self.shards[i].recent_ips.len());
            i = i + 1;
        }
        assert(self@.active.take(i as int) =~= self@.active);
        assert(self@.recent.take(i as int) =~= self@.recent);
        UserIpTrackerMemoryStats {
            active_users,
            recent_users,
            active_entries: self.active_entry_count as usize,
            recent_entries: self.recent_entry_count as usize,
            cleanup_queue_len: self.cleanup_queue_len as usize,
            active_cap_rejects: self.active_cap_rejects,
            recent_cap_rejects: self.recent_cap_rejects,
            cleanup_deferred_releases: self.cleanup_deferred_releases,
        }
    }

    /// Number of open connections of an address of a user.
    pub fn active_connections(&self, user: &String, ip: IpAddr) -> (res: usize)
        requires
            self@.wf(),
        ensures
            res == count_of(self@.active[shard_of(user@)], user@, ip),
    {
        let at = Self::shard_idx(user.as_str());
        get_count(&self.shards[at].active_ips, user, ip)
    }
}

impl Default for UserIpTracker {
    fn default() -> (res: Self)
        ensures
            res@ == empty_tracker(),
            res@.wf(),
    {
        UserIpTracker::new()
    }
}

} // verus!
