//! Replay detection: a key that is shown twice within a time window is found out.
//!
//! Keys are spread over shards. A shard keeps the keys of the window in a queue, in the order in
//! which they came, and looks them up in a cache.

use std::collections::hash_map::DefaultHasher;
use std::collections::VecDeque;
use std::hash::Hasher;

use lru::LruCache;
use vstd::prelude::*;
use vstd::slice::{slice_subrange, slice_to_vec};
use vstd::std_specs::hash::DefaultHasherAdditionalSpecFns;

use crate::lru_cache::{
    has_key, lru_cap, lru_clear, lru_entries, lru_get, lru_len, lru_new, lru_peek, lru_pop, lru_put,
};
use crate::time::{cutoff_before, Clock, Duration, Instant, CLOCK_ORIGIN};

verus! {

broadcast use vstd::std_specs::vecdeque::group_vec_dequeue_axioms;

/// Longest key that is stored without an allocation of its own.
pub const REPLAY_INLINE_KEY_CAP: usize = 48;

/// A stored key: short ones lie in place, longer ones on the heap.
pub enum ReplayKey {
    Inline { len: u8, bytes: [u8; 48] },
    Heap(Vec<u8>),
}

impl View for ReplayKey {
    type V = Seq<u8>;

    open spec fn view(&self) -> Seq<u8> {
        match *self {
            ReplayKey::Inline { len, bytes } => bytes@.subrange(0, len as int),
            ReplayKey::Heap(bytes) => bytes@,
        }
    }
}

impl ReplayKey {
    /// Whether the stored length of a short key lies within its storage.
    pub open spec fn wf(&self) -> bool {
        self matches ReplayKey::Inline { len, bytes } ==> len <= REPLAY_INLINE_KEY_CAP
    }

    /// Stores a copy of `key`.
    pub fn from_slice(key: &[u8]) -> (res: ReplayKey)
        ensures
            res.wf(),
            res@ == key@,
            res is Inline <==> key@.len() <= REPLAY_INLINE_KEY_CAP,
    {
        if key.len() <= REPLAY_INLINE_KEY_CAP {
            let mut bytes: [u8; 48] = [0u8;48];
            let mut i: usize = 0;
            while i < key.len()
                invariant
                    i <= key@.len() <= REPLAY_INLINE_KEY_CAP,
                    forall|j: int| 0 <= j < i ==> bytes@[j] == key@[j],
                decreases key@.len() - i,
            {
                bytes[i] = key[i];
                i = i + 1;
            }
            let res = ReplayKey::Inline { len: key.len() as u8, bytes };
            assert(res@ =~= key@);
            return res;
        }
        ReplayKey::Heap(slice_to_vec(key))
    }

    /// The bytes of the key.
    pub fn as_slice(&self) -> (res: &[u8])
        requires
            self.wf(),
        ensures
            res@ == self@,
    {
        match self {
            ReplayKey::Inline { len, bytes } => slice_subrange(
                bytes.as_slice(),
                0,
                *len as usize,
            ),
            ReplayKey::Heap(bytes) => bytes.as_slice(),
        }
    }
}

/// What a shard remembers: the keys it has seen and when, in the order in which they came.
pub type Records = Seq<(Instant, Seq<u8>)>;

/// Whether `key` is among the records.
pub open spec fn holds(records: Records, key: Seq<u8>) -> bool {
    exists|i: int| 0 <= i < records.len() && (#[trigger] records[i]).1 == key
}

/// The records without the leading ones from before `cutoff`.
pub open spec fn drop_older(records: Records, cutoff: Instant) -> Records
    decreases records.len(),
{
    if records.len() > 0 && records[0].0.nanos < cutoff.nanos {
        drop_older(records.drop_first(), cutoff)
    } else {
        records
    }
}

/// The records that a cleanup at `now` leaves: none for an empty window, otherwise those that the
/// window has not yet left behind.
pub open spec fn after_cleanup(records: Records, now: Instant, window: Duration) -> Records {
    if window.nanos() == 0 {
        Seq::empty()
    } else {
        drop_older(records, cutoff_before(now, window))
    }
}

/// Whether showing `key` at `now` is a replay.
pub open spec fn is_replay(
    records: Records,
    key: Seq<u8>,
    now: Instant,
    window: Duration,
) -> bool {
    window.nanos() != 0 && holds(after_cleanup(records, now, window), key)
}

/// The records that a check at `now` leaves.
pub open spec fn after_check(records: Records, now: Instant, window: Duration) -> Records {
    if window.nanos() == 0 {
        records
    } else {
        after_cleanup(records, now, window)
    }
}

/// The latest records, with room for one more in a shard for `capacity` keys.
pub open spec fn with_room(records: Records, capacity: nat) -> Records {
    if records.len() >= capacity {
        records.skip(records.len() - capacity + 1)
    } else {
        records
    }
}

/// The records after `key` was added at `now`.
pub open spec fn after_add(
    records: Records,
    key: Seq<u8>,
    now: Instant,
    window: Duration,
    capacity: nat,
) -> Records {
    if window.nanos() == 0 {
        records
    } else if holds(after_cleanup(records, now, window), key) {
        after_cleanup(records, now, window)
    } else {
        with_room(after_cleanup(records, now, window), capacity).push((now, key))
    }
}

/// No two records share a key.
pub open spec fn distinct_keys(records: Records) -> bool {
    forall|i: int, j: int|
        0 <= i < j < records.len() ==> (#[trigger] records[i]).1 != (#[trigger] records[j]).1
}

/// No two cache entries share a key.
spec fn distinct_entries(entries: Seq<(Seq<u8>, u64)>) -> bool {
    forall|i: int, j: int|
        0 <= i < j < entries.len() ==> (#[trigger] entries[i]).0 != (#[trigger] entries[j]).0
}

/// One part of the replay memory.
pub struct ReplayShard {
    cache: LruCache<Vec<u8>, u64>,
    queue: VecDeque<(Instant, ReplayKey, u64)>,
    seq_counter: u64,
    capacity: usize,
}

impl ReplayShard {
    /// The keys in the queue.
    pub closed spec fn records(&self) -> Records {
        Seq::new(self.queue@.len(), |i: int| (self.queue@[i].0, self.queue@[i].1@))
    }

    /// Number of keys that the shard was made for.
    pub closed spec fn capacity(&self) -> nat {
        self.capacity as nat
    }

    /// The cache holds exactly the queued keys, each with its sequence number, and there is room for
    /// all of them.
    pub closed spec fn wf(&self) -> bool {
        let entries = lru_entries(self.cache);
        &&& 0 < self.capacity <= usize::MAX / 256
        &&& lru_cap(self.cache) == self.capacity
        &&& self.queue@.len() <= self.capacity
        &&& entries.len() == self.queue@.len()
        &&& distinct_keys(self.records())
        &&& distinct_entries(entries)
        &&& forall|i: int| 0 <= i < self.queue@.len() ==> (#[trigger] self.queue@[i]).1.wf()
        &&& forall|i: int|
            0 <= i < self.queue@.len() ==> entries.contains(
                ((#[trigger] self.queue@[i]).1@, self.queue@[i].2),
            )
        &&& forall|j: int|
            0 <= j < entries.len() ==> holds(self.records(), (#[trigger] entries[j]).0)
    }

    /// A shard that remembers at most `cap` keys.
    pub fn new(cap: usize) -> (res: ReplayShard)
        requires
            0 < cap <= usize::MAX / 256,
        ensures
            res.wf(),
            res.records() == Records::empty(),
            res.capacity() == cap,
    {
        let res = ReplayShard {
            cache: lru_new(cap),
            queue: VecDeque::with_capacity(cap),
            seq_counter: 0,
            capacity: cap,
        };
        assert(res.records() =~= Records::empty());
        res
    }

    fn next_seq(&mut self) -> (res: u64)
        ensures
            res == old(self).seq_counter.wrapping_add(1),
            *final(self) == (ReplayShard { seq_counter: res, ..*old(self) }),
    {
        self.seq_counter = self.seq_counter.wrapping_add(1);
        self.seq_counter
    }

    fn evict_queue_front(&mut self)
        requires
            old(self).wf(),
            old(self).records().len() > 0,
        ensures
            final(self).wf(),
            final(self).records() == old(self).records().drop_first(),
            final(self).capacity() == old(self).capacity(),
    {
        let ghost entries = lru_entries(self.cache);
        let ghost before = self.queue@;
        let ghost records = self.records();
        if let Some(item) = self.queue.pop_front() {
            let key = item.1;
            assert(before[0] == item);
            assert(entries.contains((key@, item.2)));
            if let Some(seq) = lru_peek(&self.cache, key.as_slice()) {
                if seq == item.2 {
                    let _ = lru_pop(&mut self.cache, key.as_slice());
                }
            }
            proof {
                let rest = lru_entries(self.cache);
                let front = choose|i: int|
                    0 <= i < entries.len() && #[trigger] entries[i] == (key@, item.2) && rest
                        == entries.remove(i);
                assert(self.records() =~= records.drop_first());
                assert(records[0].1 == key@);
                assert forall|i: int| 0 <= i < self.queue@.len() implies rest.contains(
                    ((#[trigger] self.queue@[i]).1@, self.queue@[i].2),
                ) by {
                    assert(self.queue@[i] == before[i + 1]);
                    let pair = (before[i + 1].1@, before[i + 1].2);
                    assert(records[0].1 != records[i + 1].1);
                    let at = choose|j: int| 0 <= j < entries.len() && entries[j] == pair;
                    assert(rest[if at < front { at } else { at - 1 }] == pair);
                }
                assert forall|j: int| 0 <= j < rest.len() implies holds(
                    self.records(),
                    (#[trigger] rest[j]).0,
                ) by {
                    let at = if j < front { j } else { j + 1 };
                    assert(entries[at] == rest[j]);
                    let i = choose|i: int|
                        0 <= i < records.len() && (#[trigger] records[i]).1 == entries[at].0;
                    assert(self.records()[i - 1] == records[i]);
                }
            }
        }
    }

    /// Forgets the keys that have left the window, or all keys if the window is empty.
    pub fn cleanup(&mut self, now: Instant, window: Duration)
        requires
            old(self).wf(),
        ensures
            final(self).wf(),
            final(self).records() == after_cleanup(old(self).records(), now, window),
            final(self).capacity() == old(self).capacity(),
    {
        if window.is_zero() {
            lru_clear(&mut self.cache);
            self.queue.clear();
            assert(self.records() =~= Records::empty());
            return;
        }
        let cutoff = match now.checked_sub(window) {
            Some(earlier) => earlier,
            None => now,
        };
        while self.queue.len() > 0 && self.queue[0].0.nanos < cutoff.nanos
            invariant
                self.wf(),
                self.capacity() == old(self).capacity(),
                drop_older(self.records(), cutoff) == drop_older(old(self).records(), cutoff),
            decreases self.queue@.len(),
        {
            assert(self.records()[0].0 == self.queue@[0].0);
            self.evict_queue_front();
        }
        assert(self.records().len() > 0 ==> self.records()[0].0 == self.queue@[0].0);
    }

    /// Whether `key` is held at `now`; forgets what has left the window on the way.
    pub fn check(&mut self, key: &[u8], now: Instant, window: Duration) -> (res: bool)
        requires
            old(self).wf(),
        ensures
            final(self).wf(),
            res == is_replay(old(self).records(), key@, now, window),
            final(self).records() == after_check(old(self).records(), now, window),
            final(self).capacity() == old(self).capacity(),
    {
        if window.is_zero() {
            return false;
        }
        self.cleanup(now, window);
        let ghost entries = lru_entries(self.cache);
        proof {
            self.lemma_cached_iff_held(key@);
        }
        let found = lru_get(&mut self.cache, key).is_some();
        proof {
            if found {
                let rest = lru_entries(self.cache);
                let at = choose|i: int|
                    0 <= i < entries.len() && (#[trigger] entries[i]).0 == key@ && rest == seq![
                        entries[i],
                    ] + entries.remove(i);
                assert forall|pair: (Seq<u8>, u64)| entries.contains(pair) implies rest.contains(
                    pair,
                ) by {
                    let j = choose|j: int| 0 <= j < entries.len() && entries[j] == pair;
                    assert(rest[if j == at { 0 } else if j < at { j + 1 } else { j }] == pair);
                }
                assert forall|j: int| 0 <= j < rest.len() implies holds(
                    self.records(),
                    (#[trigger] rest[j]).0,
                ) by {
                    assert(rest[j] == entries[if j == 0 { at } else if j <= at { j - 1 } else { j }]);
                }
                assert(distinct_entries(rest)) by {
                    assert forall|i: int, j: int| 0 <= i < j < rest.len() implies (
                    #[trigger] rest[i]).0 != (#[trigger] rest[j]).0 by {
                        assert(rest[i] == entries[if i == 0 { at } else if i <= at { i - 1 } else { i }]);
                        assert(rest[j] == entries[if j <= at { j - 1 } else { j }]);
                    }
                }
            }
        }
        found
    }

    /// The cache knows a key exactly when the queue does.
    proof fn lemma_cached_iff_held(&self, key: Seq<u8>)
        requires
            self.wf(),
        ensures
            has_key(lru_entries(self.cache), key) == holds(self.records(), key),
    {
        let entries = lru_entries(self.cache);
        if holds(self.records(), key) {
            let i = choose|i: int|
                0 <= i < self.records().len() && (#[trigger] self.records()[i]).1 == key;
            let pair = (self.queue@[i].1@, self.queue@[i].2);
            assert(entries.contains(pair));
            let j = choose|j: int| 0 <= j < entries.len() && entries[j] == pair;
            assert(entries[j].0 == key);
        }
    }

    /// Remembers `key` as seen at `now`, unless it is held already. The oldest keys make room.
    pub fn add_owned(&mut self, key: ReplayKey, now: Instant, window: Duration)
        requires
            old(self).wf(),
            key.wf(),
        ensures
            final(self).wf(),
            final(self).records() == after_add(
                old(self).records(),
                key@,
                now,
                window,
                old(self).capacity(),
            ),
            final(self).capacity() == old(self).capacity(),
    {
        if window.is_zero() {
            return;
        }
        self.cleanup(now, window);
        let ghost kept = self.records();
        proof {
            self.lemma_cached_iff_held(key@);
        }
        if lru_peek(&self.cache, key.as_slice()).is_some() {
            return;
        }
        let capacity: usize = self.capacity;
        while self.queue.len() >= capacity
            invariant
                self.wf(),
                capacity == self.capacity() == old(self).capacity(),
                capacity > 0,
                self.records().len() <= kept.len(),
                self.records() == kept.skip(kept.len() - self.records().len()),
                kept.len() >= capacity ==> self.records().len() >= capacity - 1,
                kept.len() < capacity ==> self.records() == kept,
            decreases self.queue@.len(),
        {
            assert(self.records().len() == self.queue@.len());
            let ghost earlier = self.records();
            self.evict_queue_front();
            assert(self.records() =~= kept.skip(kept.len() - self.records().len()));
        }
        assert(self.records() =~= with_room(kept, capacity as nat));
        assert(!holds(self.records(), key@)) by {
            let records = self.records();
            assert forall|i: int| 0 <= i < records.len() implies (#[trigger] records[i]).1 != key@ by {
                assert(records[i] == kept[kept.len() - records.len() + i]);
            }
        }
        proof {
            self.lemma_cached_iff_held(key@);
        }
        let ghost entries = lru_entries(self.cache);
        let ghost records = self.records();
        let ghost before = self.queue@;
        let seq = self.next_seq();
        let _ = lru_put(&mut self.cache, slice_to_vec(key.as_slice()), seq);
        self.queue.push_back((now, key, seq));
        proof {
            let grown = lru_entries(self.cache);
            assert(grown == seq![(key@, seq)] + entries);
            assert(self.records() =~= records.push((now, key@)));
            assert forall|i: int| 0 <= i < self.queue@.len() implies grown.contains(
                ((#[trigger] self.queue@[i]).1@, self.queue@[i].2),
            ) by {
                if i < before.len() {
                    let pair = (before[i].1@, before[i].2);
                    let j = choose|j: int| 0 <= j < entries.len() && entries[j] == pair;
                    assert(grown[j + 1] == pair);
                } else {
                    assert(grown[0] == (key@, seq));
                }
            }
            assert forall|j: int| 0 <= j < grown.len() implies holds(
                self.records(),
                (#[trigger] grown[j]).0,
            ) by {
                if j > 0 {
                    assert(grown[j] == entries[j - 1]);
                    let i = choose|i: int|
                        0 <= i < records.len() && (#[trigger] records[i]).1 == entries[j - 1].0;
                    assert(self.records()[i] == records[i]);
                } else {
                    assert(self.records()[records.len() as int].1 == key@);
                }
            }
            assert(distinct_entries(grown)) by {
                assert forall|i: int, j: int| 0 <= i < j < grown.len() implies (
                #[trigger] grown[i]).0 != (#[trigger] grown[j]).0 by {
                    assert(grown[j] == entries[j - 1]);
                }
            }
        }
    }

    /// Number of keys that the cache holds.
    pub fn len(&self) -> (res: usize)
        requires
            self.wf(),
        ensures
            res == self.records().len(),
            res <= self.capacity(),
    {
        lru_len(&self.cache)
    }

    /// Number of keys that wait in the queue.
    pub fn queue_len(&self) -> (res: usize)
        requires
            self.wf(),
        ensures
            res == self.records().len(),
            res <= self.capacity(),
    {
        self.queue.len()
    }
}

/// Number of shards for each kind of key.
pub const REPLAY_SHARDS: usize = 64;

/// Shortest window for TLS digests, in seconds.
pub const MIN_TLS_REPLAY_WINDOW_SECS: u64 = 120;

/// The shard that keeps `key`, by a hash of its length and its bytes.
pub open spec fn shard_of(key: Seq<u8>) -> int {
    (DefaultHasher::spec_finish(
        seq![vstd::bytes::spec_u64_to_le_bytes(key.len() as u64), key],
    ) as usize & 63) as int
}

/// Number of records over all shards.
pub open spec fn total_records(shards: Seq<Records>) -> nat
    decreases shards.len(),
{
    if shards.len() == 0 {
        0
    } else {
        total_records(shards.drop_last()) + shards.last().len()
    }
}

/// What a [`ReplayChecker`] knows.
#[verifier::ext_equal]
pub struct ReplayState {
    /// Handshake keys, shard by shard.
    pub handshake: Seq<Records>,
    /// TLS digests, shard by shard.
    pub tls: Seq<Records>,
    /// Number of keys that one shard keeps.
    pub shard_capacity: nat,
    pub window: Duration,
    pub tls_window: Duration,
    pub checks: u64,
    pub hits: u64,
    pub additions: u64,
    pub cleanups: u64,
}

/// The shards after `key` was added to its shard at `now`.
pub open spec fn shards_after_add(
    shards: Seq<Records>,
    key: Seq<u8>,
    now: Instant,
    window: Duration,
    capacity: nat,
) -> Seq<Records> {
    shards.update(
        shard_of(key),
        after_add(shards[shard_of(key)], key, now, window, capacity),
    )
}

impl ReplayState {
    /// Whether showing the handshake key at `now` is a replay.
    pub open spec fn handshake_replayed(self, key: Seq<u8>, now: Instant) -> bool {
        is_replay(self.handshake[shard_of(key)], key, now, self.window)
    }

    /// Whether showing the TLS digest at `now` is a replay.
    pub open spec fn tls_replayed(self, key: Seq<u8>, now: Instant) -> bool {
        is_replay(self.tls[shard_of(key)], key, now, self.tls_window)
    }

    /// Counters after a check that came out as `found` and was followed by an addition if it did not.
    pub open spec fn counted_check_and_add(self, found: bool) -> ReplayState {
        ReplayState {
            checks: self.checks.wrapping_add(1),
            hits: if found {
                self.hits.wrapping_add(1)
            } else {
                self.hits
            },
            additions: if found {
                self.additions
            } else {
                self.additions.wrapping_add(1)
            },
            ..self
        }
    }

    /// State after the handshake key was checked and, if new, added at `now`.
    pub open spec fn check_and_add_handshake(self, key: Seq<u8>, now: Instant) -> ReplayState {
        ReplayState {
            handshake: shards_after_add(
                self.handshake,
                key,
                now,
                self.window,
                self.shard_capacity,
            ),
            ..self.counted_check_and_add(self.handshake_replayed(key, now))
        }
    }

    /// State after the TLS digest was checked and, if new, added at `now`.
    pub open spec fn check_and_add_tls_digest(self, key: Seq<u8>, now: Instant) -> ReplayState {
        ReplayState {
            tls: shards_after_add(self.tls, key, now, self.tls_window, self.shard_capacity),
            ..self.counted_check_and_add(self.tls_replayed(key, now))
        }
    }

    /// State after the handshake key was added at `now`.
    pub open spec fn add_handshake(self, key: Seq<u8>, now: Instant) -> ReplayState {
        ReplayState {
            handshake: shards_after_add(
                self.handshake,
                key,
                now,
                self.window,
                self.shard_capacity,
            ),
            additions: self.additions.wrapping_add(1),
            ..self
        }
    }

    /// State after the TLS digest was added at `now`.
    pub open spec fn add_tls_digest(self, key: Seq<u8>, now: Instant) -> ReplayState {
        ReplayState {
            tls: shards_after_add(self.tls, key, now, self.tls_window, self.shard_capacity),
            additions: self.additions.wrapping_add(1),
            ..self
        }
    }

    /// State after the TLS digest was checked at `now`.
    pub open spec fn check_tls_digest(self, key: Seq<u8>, now: Instant) -> ReplayState {
        ReplayState {
            tls: self.tls.update(
                shard_of(key),
                after_check(self.tls[shard_of(key)], now, self.tls_window),
            ),
            checks: self.checks.wrapping_add(1),
            hits: if self.tls_replayed(key, now) {
                self.hits.wrapping_add(1)
            } else {
                self.hits
            },
            ..self
        }
    }

    /// State after every shard was cleaned at `now`.
    pub open spec fn cleaned(self, now: Instant) -> ReplayState {
        ReplayState {
            handshake: self.handshake.map_values(
                |records: Records| after_cleanup(records, now, self.window),
            ),
            tls: self.tls.map_values(
                |records: Records| after_cleanup(records, now, self.tls_window),
            ),
            cleanups: self.cleanups.wrapping_add(1),
            ..self
        }
    }
}

/// Number of keys that a shard keeps of so many in all: its share, and at least one.
pub open spec fn shard_share(total_capacity: usize) -> nat {
    if total_capacity < REPLAY_SHARDS {
        1
    } else {
        (total_capacity / REPLAY_SHARDS) as nat
    }
}

/// Length of the window for TLS digests, in nanoseconds.
pub open spec fn tls_window_nanos(window: Duration) -> nat {
    if window.nanos() >= 120_000_000_000 {
        window.nanos()
    } else {
        120_000_000_000
    }
}

/// Seconds between two periodic cleanups.
pub open spec fn cleanup_interval_secs(window: Duration) -> nat {
    let secs = window.nanos() / 1_000_000_000;
    if secs > 60 {
        30
    } else if secs >= 2 {
        secs / 2
    } else {
        1
    }
}

/// Detects replayed handshakes and TLS digests.
pub struct ReplayChecker {
    handshake_shards: Vec<ReplayShard>,
    tls_shards: Vec<ReplayShard>,
    shard_mask: usize,
    window: Duration,
    tls_window: Duration,
    checks: u64,
    hits: u64,
    additions: u64,
    cleanups: u64,
    clock: Clock,
}

/// Counters of a [`ReplayChecker`].
#[derive(Debug, Clone)]
pub struct ReplayStats {
    pub total_entries: usize,
    pub total_queue_len: usize,
    pub total_checks: u64,
    pub total_hits: u64,
    pub total_additions: u64,
    pub total_cleanups: u64,
    pub num_shards: usize,
    pub window_secs: u64,
}

/// The records of each shard.
spec fn all_records(shards: Seq<ReplayShard>) -> Seq<Records> {
    Seq::new(shards.len(), |i: int| shards[i].records())
}

/// A full set of well-formed shards for `capacity` keys each.
spec fn shards_wf(shards: Seq<ReplayShard>, capacity: nat) -> bool {
    &&& shards.len() == REPLAY_SHARDS
    &&& forall|i: int|
        0 <= i < shards.len() ==> (#[trigger] shards[i]).wf() && shards[i].capacity() == capacity
}

impl View for ReplayChecker {
    type V = ReplayState;

    closed spec fn view(&self) -> ReplayState {
        ReplayState {
            handshake: all_records(self.handshake_shards@),
            tls: all_records(self.tls_shards@),
            shard_capacity: self.handshake_shards@[0].capacity(),
            window: self.window,
            tls_window: self.tls_window,
            checks: self.checks,
            hits: self.hits,
            additions: self.additions,
            cleanups: self.cleanups,
        }
    }
}

impl ReplayChecker {
    /// Every shard is well-formed and made for the same number of keys.
    pub closed spec fn wf(&self) -> bool {
        let capacity = self.handshake_shards@[0].capacity();
        &&& self.shard_mask == 63
        &&& 0 < capacity <= usize::MAX / 256
        &&& shards_wf(self.handshake_shards@, capacity)
        &&& shards_wf(self.tls_shards@, capacity)
    }

    /// What tells the time of calls that are not told it.
    pub closed spec fn clock(&self) -> Clock {
        self.clock
    }

    /// A checker for about `total_capacity` keys of each kind, which remembers handshakes for `window`
    /// and TLS digests for `window` or the shortest TLS window, whichever is longer.
    pub fn new(total_capacity: usize, window: Duration) -> (res: ReplayChecker)
        requires
            total_capacity / REPLAY_SHARDS <= usize::MAX / 256,
        ensures
            res.wf(),
            res@.handshake == Seq::new(64, |i: int| Records::empty()),
            res@.tls == Seq::new(64, |i: int| Records::empty()),
            res@.shard_capacity == shard_share(total_capacity),
            res@.window == window,
            res@.tls_window.nanos() == tls_window_nanos(window),
            res@.checks == 0 && res@.hits == 0 && res@.additions == 0 && res@.cleanups == 0,
    {
        let share: usize = total_capacity / REPLAY_SHARDS;
        let shard_capacity: usize = if share > 1 {
            share
        } else {
            1
        };
        let mut handshake_shards: Vec<ReplayShard> = Vec::with_capacity(REPLAY_SHARDS);
        let mut tls_shards: Vec<ReplayShard> = Vec::with_capacity(REPLAY_SHARDS);
        let mut made: usize = 0;
        while made < REPLAY_SHARDS
            invariant
                0 < shard_capacity <= usize::MAX / 256,
                made <= REPLAY_SHARDS,
                handshake_shards@.len() == made,
                tls_shards@.len() == made,
                forall|i: int|
                    0 <= i < made ==> (#[trigger] handshake_shards@[i]).wf()
                        && handshake_shards@[i].capacity() == shard_capacity
                        && handshake_shards@[i].records() == Records::empty(),
                forall|i: int|
                    0 <= i < made ==> (#[trigger] tls_shards@[i]).wf() && tls_shards@[i].capacity()
                        == shard_capacity && tls_shards@[i].records() == Records::empty(),
            decreases REPLAY_SHARDS - made,
        {
            handshake_shards.push(ReplayShard::new(shard_capacity));
            tls_shards.push(ReplayShard::new(shard_capacity));
            made = made + 1;
        }
        let res = ReplayChecker {
            handshake_shards,
            tls_shards,
            shard_mask: REPLAY_SHARDS - 1,
            window,
            tls_window: window.max(Duration::from_secs(MIN_TLS_REPLAY_WINDOW_SECS)),
            checks: 0,
            hits: 0,
            additions: 0,
            cleanups: 0,
            clock: Clock::start(),
        };
        assert(res@.handshake =~= Seq::new(64, |i: int| Records::empty()));
        assert(res@.tls =~= Seq::new(64, |i: int| Records::empty()));
        res
    }

    fn get_shard_idx(&self, key: &[u8]) -> (res: usize)
        requires
            self.wf(),
        ensures
            res == shard_of(key@),
            res < REPLAY_SHARDS,
    {
        let mut hasher = DefaultHasher::new();
        let len = vstd::bytes::u64_to_le_bytes(key.len() as u64);
        hasher.write(len.as_slice());
        hasher.write(key);
        let hash: u64 = hasher.finish();
        assert(hasher@ =~= seq![
            vstd::bytes::spec_u64_to_le_bytes(key@.len() as u64),
            key@,
        ]);
        let masked: usize = (hash as usize) & self.shard_mask;
        assert(hash as usize & 63usize < 64) by (bit_vector);
        masked
    }

    /// Checks `data` in its shard and adds it if it is new.
    fn check_and_add_in(
        shards: &mut Vec<ReplayShard>,
        idx: usize,
        data: &[u8],
        now: Instant,
        window: Duration,
        Ghost(capacity): Ghost<nat>,
    ) -> (found: bool)
        requires
            shards_wf(old(shards)@, capacity),
            idx == shard_of(data@),
            idx < REPLAY_SHARDS,
        ensures
            shards_wf(final(shards)@, capacity),
            found == is_replay(all_records(old(shards)@)[idx as int], data@, now, window),
            all_records(final(shards)@) == shards_after_add(
                all_records(old(shards)@),
                data@,
                now,
                window,
                capacity,
            ),
    {
        let owned_key = ReplayKey::from_slice(data);
        let ghost records = shards@[idx as int].records();
        let found = shards[idx].check(data, now, window);
        proof {
            lemma_drop_older_idempotent(records, cutoff_before(now, window));
        }
        if !found {
            shards[idx].add_owned(owned_key, now, window);
        }
        assert(all_records(shards@) =~= shards_after_add(
            all_records(old(shards)@),
            data@,
            now,
            window,
            capacity,
        ));
        found
    }

    /// Checks the handshake key at `now` and adds it if it is new.
    pub fn check_and_add_handshake_at(&mut self, data: &[u8], now: Instant) -> (found: bool)
        requires
            old(self).wf(),
        ensures
            final(self).wf(),
            final(self).clock() == old(self).clock(),
            found == old(self)@.handshake_replayed(data@, now),
            final(self)@ == old(self)@.check_and_add_handshake(data@, now),
    {
        let ghost capacity = self@.shard_capacity;
        self.checks = self.checks.wrapping_add(1);
        let idx = self.get_shard_idx(data);
        let window = self.window;
        let found = ReplayChecker::check_and_add_in(
            &mut self.handshake_shards,
            idx,
            data,
            now,
            window,
            Ghost(capacity),
        );
        if found {
            self.hits = self.hits.wrapping_add(1);
        } else {
            self.additions = self.additions.wrapping_add(1);
        }
        found
    }

    /// Checks the TLS digest at `now` and adds it if it is new.
    pub fn check_and_add_tls_digest_at(&mut self, data: &[u8], now: Instant) -> (found: bool)
        requires
            old(self).wf(),
        ensures
            final(self).wf(),
            final(self).clock() == old(self).clock(),
            found == old(self)@.tls_replayed(data@, now),
            final(self)@ == old(self)@.check_and_add_tls_digest(data@, now),
    {
        let ghost capacity = self@.shard_capacity;
        self.checks = self.checks.wrapping_add(1);
        let idx = self.get_shard_idx(data);
        let window = self.tls_window;
        let found = ReplayChecker::check_and_add_in(
            &mut self.tls_shards,
            idx,
            data,
            now,
            window,
            Ghost(capacity),
        );
        if found {
            self.hits = self.hits.wrapping_add(1);
        } else {
            self.additions = self.additions.wrapping_add(1);
        }
        found
    }

    /// Adds the handshake key at `now`.
    pub fn add_handshake_at(&mut self, data: &[u8], now: Instant)
        requires
            old(self).wf(),
        ensures
            final(self).wf(),
            final(self).clock() == old(self).clock(),
            final(self)@ == old(self)@.add_handshake(data@, now),
    {
        self.additions = self.additions.wrapping_add(1);
        let idx = self.get_shard_idx(data);
        let window = self.window;
        self.handshake_shards[idx].add_owned(ReplayKey::from_slice(data), now, window);
        assert(self@.handshake =~= old(self)@.add_handshake(data@, now).handshake);
    }

    /// Adds the TLS digest at `now`.
    pub fn add_tls_digest_at(&mut self, data: &[u8], now: Instant)
        requires
            old(self).wf(),
        ensures
            final(self).wf(),
            final(self).clock() == old(self).clock(),
            final(self)@ == old(self)@.add_tls_digest(data@, now),
    {
        self.additions = self.additions.wrapping_add(1);
        let idx = self.get_shard_idx(data);
        let window = self.tls_window;
        self.tls_shards[idx].add_owned(ReplayKey::from_slice(data), now, window);
        assert(self@.tls =~= old(self)@.add_tls_digest(data@, now).tls);
    }

    /// Checks the TLS digest at `now` without adding it.
    pub fn check_tls_digest_at(&mut self, data: &[u8], now: Instant) -> (found: bool)
        requires
            old(self).wf(),
        ensures
            final(self).wf(),
            final(self).clock() == old(self).clock(),
            found == old(self)@.tls_replayed(data@, now),
            final(self)@ == old(self)@.check_tls_digest(data@, now),
    {
        self.checks = self.checks.wrapping_add(1);
        let idx = self.get_shard_idx(data);
        let window = self.tls_window;
        let found = self.tls_shards[idx].check(data, now, window);
        if found {
            self.hits = self.hits.wrapping_add(1);
        }
        assert(self@.tls =~= old(self)@.check_tls_digest(data@, now).tls);
        found
    }

    /// Checks the handshake key now and adds it if it is new.
    pub fn check_and_add_handshake(&mut self, data: &[u8]) -> (found: bool)
        requires
            old(self).wf(),
        ensures
            final(self).wf(),
            final(self).clock() == old(self).clock(),
            exists|now: Instant|
                now.nanos >= CLOCK_ORIGIN && found == old(self)@.handshake_replayed(data@, now) && final(self)@ == #[trigger] old(
                    self,
                )@.check_and_add_handshake(data@, now),
    {
        let now = self.clock.now();
        self.check_and_add_handshake_at(data, now)
    }

    /// Checks the TLS digest now and adds it if it is new.
    pub fn check_and_add_tls_digest(&mut self, data: &[u8]) -> (found: bool)
        requires
            old(self).wf(),
        ensures
            final(self).wf(),
            final(self).clock() == old(self).clock(),
            exists|now: Instant|
                now.nanos >= CLOCK_ORIGIN && found == old(self)@.tls_replayed(data@, now) && final(self)@ == #[trigger] old(
                    self,
                )@.check_and_add_tls_digest(data@, now),
    {
        let now = self.clock.now();
        self.check_and_add_tls_digest_at(data, now)
    }

    /// Checks the handshake key now; a new key is added on the way.
    pub fn check_handshake(&mut self, data: &[u8]) -> (found: bool)
        requires
            old(self).wf(),
        ensures
            final(self).wf(),
            final(self).clock() == old(self).clock(),
            exists|now: Instant|
                now.nanos >= CLOCK_ORIGIN && found == old(self)@.handshake_replayed(data@, now) && final(self)@ == #[trigger] old(
                    self,
                )@.check_and_add_handshake(data@, now),
    {
        self.check_and_add_handshake(data)
    }

    /// Adds the handshake key now.
    pub fn add_handshake(&mut self, data: &[u8])
        requires
            old(self).wf(),
        ensures
            final(self).wf(),
            final(self).clock() == old(self).clock(),
            exists|now: Instant|
                now.nanos >= CLOCK_ORIGIN && final(self)@ == #[trigger] old(self)@.add_handshake(data@, now),
    {
        let now = self.clock.now();
        self.add_handshake_at(data, now)
    }

    /// Checks the TLS digest now without adding it.
    pub fn check_tls_digest(&mut self, data: &[u8]) -> (found: bool)
        requires
            old(self).wf(),
        ensures
            final(self).wf(),
            final(self).clock() == old(self).clock(),
            exists|now: Instant|
                now.nanos >= CLOCK_ORIGIN && found == old(self)@.tls_replayed(data@, now) && final(self)@ == #[trigger] old(
                    self,
                )@.check_tls_digest(data@, now),
    {
        let now = self.clock.now();
        self.check_tls_digest_at(data, now)
    }

    /// Adds the TLS digest now.
    pub fn add_tls_digest(&mut self, data: &[u8])
        requires
            old(self).wf(),
        ensures
            final(self).wf(),
            final(self).clock() == old(self).clock(),
            exists|now: Instant|
                now.nanos >= CLOCK_ORIGIN && final(self)@ == #[trigger] old(self)@.add_tls_digest(data@, now),
    {
        let now = self.clock.now();
        self.add_tls_digest_at(data, now)
    }

    /// Adds up the sizes of the shards: of their caches, and of their queues.
    fn count_in(shards: &Vec<ReplayShard>, Ghost(capacity): Ghost<nat>) -> (res: (usize, usize))
        requires
            shards_wf(shards@, capacity),
            capacity <= usize::MAX / 256,
        ensures
            res.0 == total_records(all_records(shards@)),
            res.1 == total_records(all_records(shards@)),
            res.0 <= 64 * capacity,
    {
        let mut entries: usize = 0;
        let mut queued: usize = 0;
        let mut i: usize = 0;
        while i < shards.len()
            invariant
                shards_wf(shards@, capacity),
                capacity <= usize::MAX / 256,
                i <= shards@.len(),
                entries == total_records(all_records(shards@).take(i as int)),
                queued == entries,
                entries <= i * capacity,
            decreases shards@.len() - i,
        {
            let ghost upto = all_records(shards@).take(i + 1);
            assert(upto.drop_last() =~= all_records(shards@).take(i as int));
            assert(upto.last() == shards@[i as int].records());
            assert(i * capacity + capacity == (i + 1) * capacity) by (nonlinear_arith);
            assert((i + 1) * capacity <= 64 * capacity) by (nonlinear_arith)
                requires
                    i + 1 <= 64,
            ;
            let in_cache = shards[i].len();
            let in_queue = shards[i].queue_len();
            entries = entries + in_cache;
            queued = queued + in_queue;
            i = i + 1;
        }
        assert(all_records(shards@).take(i as int) =~= all_records(shards@));
        (entries, queued)
    }

    /// The counters.
    pub fn stats(&self) -> (res: ReplayStats)
        requires
            self.wf(),
        ensures
            res.total_entries == total_records(self@.handshake) + total_records(self@.tls),
            res.total_queue_len == total_records(self@.handshake) + total_records(self@.tls),
            res.total_entries <= 128 * self@.shard_capacity,
            res.total_checks == self@.checks,
            res.total_hits == self@.hits,
            res.total_additions == self@.additions,
            res.total_cleanups == self@.cleanups,
            res.num_shards == 128,
            res.window_secs == self@.window.nanos() / 1_000_000_000,
    {
        let ghost capacity = self@.shard_capacity;
        let handshake = ReplayChecker::count_in(&self.handshake_shards, Ghost(capacity));
        let tls = ReplayChecker::count_in(&self.tls_shards, Ghost(capacity));
        ReplayStats {
            total_entries: handshake.0 + tls.0,
            total_queue_len: handshake.1 + tls.1,
            total_checks: self.checks,
            total_hits: self.hits,
            total_additions: self.additions,
            total_cleanups: self.cleanups,
            num_shards: self.handshake_shards.len() + self.tls_shards.len(),
            window_secs: self.window.as_secs(),
        }
    }

    /// Pause between two periodic cleanups.
    pub fn cleanup_interval(&self) -> (res: Duration)
        ensures
            res.nanos() == 1_000_000_000 * cleanup_interval_secs(self@.window),
    {
        let secs: u64 = self.window.as_secs();
        if secs > 60 {
            Duration::from_secs(30)
        } else {
            let at_least_one: u64 = if secs > 1 {
                secs
            } else {
                1
            };
            let half: u64 = at_least_one / 2;
            Duration::from_secs(
                if half > 1 {
                    half
                } else {
                    1
                },
            )
        }
    }

    /// Cleans each shard at `now`. Returns how many keys were forgotten.
    fn cleanup_in(
        shards: &mut Vec<ReplayShard>,
        now: Instant,
        window: Duration,
        Ghost(capacity): Ghost<nat>,
    ) -> (cleaned: usize)
        requires
            shards_wf(old(shards)@, capacity),
            capacity <= usize::MAX / 256,
        ensures
            shards_wf(final(shards)@, capacity),
            all_records(final(shards)@) == all_records(old(shards)@).map_values(
                |records: Records| after_cleanup(records, now, window),
            ),
            cleaned == total_records(all_records(old(shards)@)) - total_records(
                all_records(final(shards)@),
            ),
            cleaned <= 64 * capacity,
    {
        let mut cleaned: usize = 0;
        let mut i: usize = 0;
        while i < shards.len()
            invariant
                shards_wf(shards@, capacity),
                capacity <= usize::MAX / 256,
                i <= shards@.len() == old(shards)@.len(),
                cleaned == total_records(all_records(old(shards)@).take(i as int)) - total_records(
                    all_records(shards@).take(i as int),
                ),
                cleaned <= i * capacity,
                forall|j: int|
                    0 <= j < i ==> (#[trigger] shards@[j]).records() == after_cleanup(
                        old(shards)@[j].records(),
                        now,
                        window,
                    ),
                forall|j: int| i <= j < shards@.len() ==> shards@[j] == old(shards)@[j],
            decreases shards@.len() - i,
        {
            let ghost earlier = shards@;
            proof {
                lemma_drop_older_len(shards@[i as int].records(), cutoff_before(now, window));
                let upto = all_records(old(shards)@).take(i + 1);
                assert(upto.drop_last() =~= all_records(old(shards)@).take(i as int));
                assert(upto.last() == shards@[i as int].records());
                assert(i * capacity + capacity == (i + 1) * capacity) by (nonlinear_arith);
                assert((i + 1) * capacity <= 64 * capacity) by (nonlinear_arith)
                    requires
                        i + 1 <= 64,
                ;
            }
            let before = shards[i].len();
            shards[i].cleanup(now, window);
            let after = shards[i].len();
            cleaned = cleaned + (before - after);
            proof {
                let upto = all_records(shards@).take(i + 1);
                assert(upto.drop_last() =~= all_records(earlier).take(i as int));
                assert(upto.last() == shards@[i as int].records());
            }
            i = i + 1;
        }
        assert(all_records(shards@).take(i as int) =~= all_records(shards@));
        assert(all_records(old(shards)@).take(i as int) =~= all_records(old(shards)@));
        assert(all_records(shards@) =~= all_records(old(shards)@).map_values(
            |records: Records| after_cleanup(records, now, window),
        ));
        cleaned
    }

    /// One periodic cleanup at `now`. Returns how many keys were forgotten.
    pub fn cleanup_pass_at(&mut self, now: Instant) -> (cleaned: usize)
        requires
            old(self).wf(),
        ensures
            final(self).wf(),
            final(self).clock() == old(self).clock(),
            final(self)@ == old(self)@.cleaned(now),
            cleaned == total_records(old(self)@.handshake) + total_records(old(self)@.tls)
                - total_records(final(self)@.handshake) - total_records(final(self)@.tls),
    {
        let ghost capacity = self@.shard_capacity;
        let window = self.window;
        let tls_window = self.tls_window;
        let handshake: usize = ReplayChecker::cleanup_in(
            &mut self.handshake_shards,
            now,
            window,
            Ghost(capacity),
        );
        let tls: usize = ReplayChecker::cleanup_in(
            &mut self.tls_shards,
            now,
            tls_window,
            Ghost(capacity),
        );
        self.cleanups = self.cleanups.wrapping_add(1);
        handshake + tls
    }

    /// One periodic cleanup now. Returns how many keys were forgotten.
    pub fn cleanup_pass(&mut self) -> (cleaned: usize)
        requires
            old(self).wf(),
        ensures
            final(self).wf(),
            final(self).clock() == old(self).clock(),
            exists|now: Instant|
                now.nanos >= CLOCK_ORIGIN && final(self)@ == #[trigger] old(self)@.cleaned(now),
            cleaned == total_records(old(self)@.handshake) + total_records(old(self)@.tls)
                - total_records(final(self)@.handshake) - total_records(final(self)@.tls),
    {
        let now = self.clock.now();
        self.cleanup_pass_at(now)
    }
}

/// A cleanup never adds records.
proof fn lemma_drop_older_len(records: Records, cutoff: Instant)
    ensures
        drop_older(records, cutoff).len() <= records.len(),
    decreases records.len(),
{
    if records.len() > 0 && records[0].0.nanos < cutoff.nanos {
        lemma_drop_older_len(records.drop_first(), cutoff);
    }
}

/// Dropping the same records twice drops nothing more.
pub proof fn lemma_drop_older_idempotent(records: Records, cutoff: Instant)
    ensures
        drop_older(drop_older(records, cutoff), cutoff) == drop_older(records, cutoff),
    decreases records.len(),
{
    if records.len() > 0 && records[0].0.nanos < cutoff.nanos {
        lemma_drop_older_idempotent(records.drop_first(), cutoff);
    }
}

} // verus!
