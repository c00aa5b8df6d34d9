//! Reports of desynchronised streams.
//!
//! A stream whose frame length makes no sense has lost its encryption state. Such an event is reported
//! in full once in a while, and in short otherwise.

use std::collections::hash_map::RandomState;
use std::collections::HashSet;
use std::hash::BuildHasher;

use dashmap::DashMap;
use vstd::prelude::*;

use crate::dash::{
    slots_clear, slots_get, slots_insert, slots_len, slots_new, slots_pairs,
    slots_remove,
};
use crate::ip_tracker::IpAddr;
use crate::proxy::ProxyError;
use crate::stats::counters::{EventCounters, Stats};
use crate::text::{append_decimal, append_hexadecimal, decimal, hexadecimal};
use crate::time::{millis_between, Clock, Duration, Instant, CLOCK_ORIGIN};

verus! {

broadcast use vstd::std_specs::hash::group_hash_axioms;

/// `std::hash::RandomState::new` seeds a hasher. Nothing is claimed of the seed.
pub assume_specification[ std::hash::RandomState::new ]() -> RandomState
;

/// How often desynchronised streams are reported in full.
pub struct DesyncLimits {
    /// Time in which a key is reported in full once.
    pub dedup_window: Duration,
    /// Number of keys from which on a new one starts the table afresh.
    pub max_entries: usize,
    /// Least time between full reports of new keys that found the table full.
    pub full_cache_emit_min_interval: Duration,
    /// Name under which the events are reported.
    pub error_class: String,
}

/// Which of the locks were left behind by a holder that failed.
#[derive(Debug, Clone, Copy, PartialEq, Eq, Structural)]
pub struct PoisonedLocks {
    pub rotation: bool,
    pub full_cache_gate: bool,
}

/// What is known of desynchronised streams.
#[verifier::ext_equal]
pub struct DesyncState {
    /// When each key was seen, in the running period.
    pub current: Map<u64, u64>,
    /// When each key was seen, in the period before.
    pub previous: Map<u64, u64>,
    /// Begin of the running period.
    pub started_at: Option<Instant>,
    /// Last full report of a new key that found the table full.
    pub last_full_cache_emit: Option<Instant>,
}

/// Remembers which desynchronised streams were reported lately.
pub struct DesyncDedup {
    current: DashMap<u64, u64>,
    previous: DashMap<u64, u64>,
    current_started_at: Option<Instant>,
    full_cache_last_emit_at: Option<Instant>,
    limits: DesyncLimits,
    hasher: RandomState,
}

impl View for DesyncDedup {
    type V = DesyncState;

    closed spec fn view(&self) -> DesyncState {
        DesyncState {
            current: crate::dash::slots_of(self.current),
            previous: crate::dash::slots_of(self.previous),
            started_at: self.current_started_at,
            last_full_cache_emit: self.full_cache_last_emit_at,
        }
    }
}

/// Whether at least `span` has passed since `since`; an instant in the future counts as long ago.
pub open spec fn passed(now: Instant, since: Instant, span: Duration) -> bool {
    since.nanos > now.nanos || now.nanos - since.nanos >= span.nanos()
}

/// Whether less than `span` has passed since `since`; an instant in the future counts as just now.
pub open spec fn within(now: Instant, since: u64, span: Duration) -> bool {
    since > now.nanos || now.nanos - since < span.nanos()
}

/// A state that knows nothing.
pub open spec fn nothing_seen() -> DesyncState {
    DesyncState {
        current: Map::empty(),
        previous: Map::empty(),
        started_at: None,
        last_full_cache_emit: None,
    }
}

impl DesyncState {
    /// Whether the running period is over.
    pub open spec fn period_over(self, now: Instant, limits: DesyncLimits) -> bool {
        match self.started_at {
            Some(started_at) => passed(now, started_at, limits.dedup_window),
            None => true,
        }
    }

    /// State with a new period that starts now.
    pub open spec fn rotated(self, now: Instant) -> DesyncState {
        DesyncState {
            current: Map::empty(),
            previous: self.current,
            started_at: Some(now),
            ..self
        }
    }

    /// State in a period that runs.
    pub open spec fn prepared(self, now: Instant, limits: DesyncLimits) -> DesyncState {
        if self.period_over(now, limits) {
            self.rotated(now)
        } else {
            self
        }
    }

    /// When a key was seen, in the running period or else in the one before.
    pub open spec fn seen(self, key: u64) -> Option<u64> {
        if self.current.contains_key(key) {
            Some(self.current[key])
        } else {
            self.previous.get(key)
        }
    }

    /// Whether a new key that finds the table full is reported in full.
    pub open spec fn gate_opens(self, now: Instant, limits: DesyncLimits) -> bool {
        match self.last_full_cache_emit {
            Some(last) => passed(now, last, limits.full_cache_emit_min_interval),
            None => true,
        }
    }

    /// State after a new key found the table full and asked for a full report.
    pub open spec fn through_gate(self, now: Instant, limits: DesyncLimits) -> DesyncState {
        DesyncState {
            last_full_cache_emit: if self.gate_opens(now, limits) {
                Some(now)
            } else {
                self.last_full_cache_emit
            },
            ..self
        }
    }

    /// State, and whether to report in full, for a new key that found the table full.
    pub open spec fn at_gate(self, now: Instant, limits: DesyncLimits, poisoned: bool) -> (
        DesyncState,
        bool,
    ) {
        if poisoned {
            (self, false)
        } else {
            (self.through_gate(now, limits), self.gate_opens(now, limits))
        }
    }

    /// State without its keys, and without the times whose locks could be taken.
    pub open spec fn forgotten(self, poisoned: PoisonedLocks) -> DesyncState {
        DesyncState {
            current: Map::empty(),
            previous: Map::empty(),
            started_at: if poisoned.rotation {
                self.started_at
            } else {
                None
            },
            last_full_cache_emit: if poisoned.full_cache_gate {
                self.last_full_cache_emit
            } else {
                None
            },
        }
    }

    /// State, and whether to report in full, for an event in a period that runs.
    pub open spec fn judged(
        self,
        key: u64,
        now: Instant,
        limits: DesyncLimits,
        gate_poisoned: bool,
    ) -> (DesyncState, bool) {
        match self.seen(key) {
            Some(seen_at) if within(now, seen_at, limits.dedup_window) => (
                DesyncState { current: self.current.insert(key, seen_at), ..self },
                false,
            ),
            _ => if self.current.contains_key(key) {
                (DesyncState { current: self.current.insert(key, now.nanos), ..self }, true)
            } else if self.current.len() >= limits.max_entries {
                let afresh = DesyncState {
                    current: Map::empty().insert(key, now.nanos),
                    ..self.rotated(now)
                };
                if gate_poisoned {
                    (afresh, false)
                } else {
                    (afresh.through_gate(now, limits), self.gate_opens(now, limits))
                }
            } else {
                (
                    DesyncState {
                        current: self.current.insert(key, now.nanos),
                        previous: self.previous.remove(key),
                        ..self
                    },
                    true,
                )
            },
        }
    }

    /// State, and whether to report in full, for an event.
    pub open spec fn emit(
        self,
        key: u64,
        all_full: bool,
        now: Instant,
        limits: DesyncLimits,
        poisoned: PoisonedLocks,
    ) -> (DesyncState, bool) {
        if all_full {
            (self, true)
        } else {
            let recovered = DesyncState {
                started_at: if poisoned.rotation {
                    None
                } else {
                    self.started_at
                },
                ..self
            };
            recovered.prepared(now, limits).judged(key, now, limits, poisoned.full_cache_gate)
        }
    }
}

impl DesyncState {
    /// State, and whether to report in full, for an event, where a lost begin of the period means no.
    pub open spec fn emit_if_sound(
        self,
        key: u64,
        all_full: bool,
        now: Instant,
        limits: DesyncLimits,
        poisoned: PoisonedLocks,
    ) -> (DesyncState, bool) {
        if poisoned.rotation && !all_full {
            (self, false)
        } else {
            self.emit(key, all_full, now, limits, poisoned)
        }
    }
}

/// Copies every pair of a map into an empty one.
fn copy_into(from: &DashMap<u64, u64>, to: &mut DashMap<u64, u64>)
    requires
        crate::dash::slots_of(*old(to)) == Map::<u64, u64>::empty(),
    ensures
        crate::dash::slots_of(*final(to)) == crate::dash::slots_of(*from),
{
    let pairs = slots_pairs(from);
    let ghost all = crate::dash::slots_of(*from);
    let mut i: usize = 0;
    while i < pairs.len()
        invariant
            i <= pairs@.len(),
            forall|j: int| 0 <= j < pairs@.len() ==> all.get((#[trigger] pairs@[j]).0) == Some(pairs@[j].1),
            forall|j: int, k: int|
                0 <= j < k < pairs@.len() ==> (#[trigger] pairs@[j]).0 != (#[trigger] pairs@[k]).0,
            forall|key: u64| #[trigger]
                crate::dash::slots_of(*to).contains_key(key) <==> exists|j: int|
                    0 <= j < i && (#[trigger] pairs@[j]).0 == key,
            forall|key: u64| #[trigger]
                crate::dash::slots_of(*to).contains_key(key) ==> all.get(key) == Some(
                    crate::dash::slots_of(*to)[key],
                ),
        decreases pairs@.len() - i,
    {
        let pair = pairs[i];
        let ghost before = crate::dash::slots_of(*to);
        let _ = slots_insert(to, pair.0, pair.1);
        i = i + 1;
        proof {
            let after = crate::dash::slots_of(*to);
            assert forall|key: u64| #[trigger] after.contains_key(key) <==> exists|j: int|
                0 <= j < i && (#[trigger] pairs@[j]).0 == key by {
                if after.contains_key(key) {
                    if key == pair.0 {
                        assert(pairs@[i - 1].0 == key);
                    } else {
                        assert(before.contains_key(key));
                    }
                }
                if exists|j: int| 0 <= j < i && (#[trigger] pairs@[j]).0 == key {
                    let j = choose|j: int| 0 <= j < i && (#[trigger] pairs@[j]).0 == key;
                    if j < i - 1 {
                        assert(before.contains_key(key));
                    }
                }
            }
        }
    }
    assert(crate::dash::slots_of(*to) =~= all);
}

impl DesyncDedup {
    /// What the limits are.
    pub closed spec fn limits(&self) -> DesyncLimits {
        self.limits
    }

    /// What keys and addresses are hashed with.
    pub closed spec fn hasher(&self) -> RandomState {
        self.hasher
    }

    /// A memory of nothing.
    pub fn new(limits: DesyncLimits) -> (res: DesyncDedup)
        ensures
            res@ == nothing_seen(),
            res.limits() == limits,
    {
        DesyncDedup {
            current: slots_new(),
            previous: slots_new(),
            current_started_at: None,
            full_cache_last_emit_at: None,
            limits,
            hasher: RandomState::new(),
        }
    }

    /// Starts a new period.
    fn rotate(&mut self, now: Instant)
        ensures
            final(self)@ == old(self)@.rotated(now),
            final(self).limits() == old(self).limits(),
            final(self).hasher() == old(self).hasher(),
    {
        slots_clear(&mut self.previous);
        copy_into(&self.current, &mut self.previous);
        slots_clear(&mut self.current);
        self.current_started_at = Some(now);
    }

    /// Whether an event with the key `key` is to be reported in full.
    pub fn should_emit_full_desync_in(
        &mut self,
        key: u64,
        all_full: bool,
        now: Instant,
        poisoned: PoisonedLocks,
    ) -> (emit: bool)
        ensures
            (final(self)@, emit) == old(self)@.emit(
                key,
                all_full,
                now,
                old(self).limits(),
                poisoned,
            ),
            final(self).limits() == old(self).limits(),
            final(self).hasher() == old(self).hasher(),
    {
        if all_full {
            return true;
        }
        if poisoned.rotation {
            self.current_started_at = None;
        }
        let rotate_now = match self.current_started_at {
            Some(started_at) => match now.checked_duration_since(started_at) {
                Some(elapsed) => elapsed.at_least(self.limits.dedup_window),
                None => true,
            },
            None => true,
        };
        if rotate_now {
            self.rotate(now);
        }
        let ghost running = self@;
        if let Some(seen_at) = slots_get(&self.current, key) {
            let within_window = self.within_window(now, seen_at);
            if within_window {
                assert(running.current.insert(key, seen_at) =~= running.current);
                return false;
            }
            let _ = slots_insert(&mut self.current, key, now.nanos);
            return true;
        }
        if let Some(seen_at) = slots_get(&self.previous, key) {
            let within_window = self.within_window(now, seen_at);
            if within_window {
                let _ = slots_insert(&mut self.current, key, seen_at);
                return false;
            }
            let _ = slots_remove(&mut self.previous, key);
        }
        assert(self@.previous =~= running.previous.remove(key));
        if slots_len(&self.current) >= self.limits.max_entries {
            self.rotate(now);
            let _ = slots_insert(&mut self.current, key, now.nanos);
            self.should_emit_full_desync_full_cache_in(now, poisoned.full_cache_gate)
        } else {
            let _ = slots_insert(&mut self.current, key, now.nanos);
            true
        }
    }

    fn within_window(&self, now: Instant, seen_at: u64) -> (res: bool)
        ensures
            res == within(now, seen_at, self.limits().dedup_window),
    {
        match now.checked_duration_since(Instant { nanos: seen_at }) {
            Some(elapsed) => !elapsed.at_least(self.limits.dedup_window),
            None => true,
        }
    }

    /// Whether a new key that found the table full is to be reported in full.
    pub fn should_emit_full_desync_full_cache_in(&mut self, now: Instant, poisoned: bool) -> (emit: bool)
        ensures
            emit == (!poisoned && old(self)@.gate_opens(now, old(self).limits())),
            final(self)@ == (if poisoned {
                old(self)@
            } else {
                old(self)@.through_gate(now, old(self).limits())
            }),
            (final(self)@, emit) == old(self)@.at_gate(now, old(self).limits(), poisoned),
            final(self).limits() == old(self).limits(),
            final(self).hasher() == old(self).hasher(),
    {
        if poisoned {
            return false;
        }
        match self.full_cache_last_emit_at {
            None => {
                self.full_cache_last_emit_at = Some(now);
                true
            },
            Some(last) => match now.checked_duration_since(last) {
                None => {
                    self.full_cache_last_emit_at = Some(now);
                    true
                },
                Some(elapsed) => {
                    if elapsed.at_least(self.limits.full_cache_emit_min_interval) {
                        self.full_cache_last_emit_at = Some(now);
                        true
                    } else {
                        false
                    }
                },
            },
        }
    }

    /// Whether an event is to be reported in full, where a lock that was left behind by a failed holder
    /// means no.
    pub fn should_emit_full_desync_for_testing(
        &mut self,
        key: u64,
        all_full: bool,
        now: Instant,
        poisoned: PoisonedLocks,
    ) -> (emit: bool)
        ensures
            (final(self)@, emit) == (if poisoned.rotation && !all_full {
                (old(self)@, false)
            } else {
                old(self)@.emit(key, all_full, now, old(self).limits(), poisoned)
            }),
            (final(self)@, emit) == old(self)@.emit_if_sound(
                key,
                all_full,
                now,
                old(self).limits(),
                poisoned,
            ),
            final(self).limits() == old(self).limits(),
            final(self).hasher() == old(self).hasher(),
    {
        if poisoned.rotation && !all_full {
            return false;
        }
        self.should_emit_full_desync_in(key, all_full, now, poisoned)
    }

    /// Forgets every key, and the times that stand behind locks that were not left behind by a failed
    /// holder.
    pub fn clear_desync_dedup_for_testing_in_shared(&mut self, poisoned: PoisonedLocks)
        ensures
            final(self)@ == old(self)@.forgotten(poisoned),
            final(self).limits() == old(self).limits(),
            final(self).hasher() == old(self).hasher(),
    {
        slots_clear(&mut self.current);
        slots_clear(&mut self.previous);
        if !poisoned.rotation {
            self.current_started_at = None;
        }
        if !poisoned.full_cache_gate {
            self.full_cache_last_emit_at = None;
        }
    }

    /// Number of keys of the running period.
    pub fn desync_dedup_len_for_testing(&self) -> (res: usize)
        ensures
            res == self@.current.len(),
    {
        slots_len(&self.current)
    }

    /// Notes that a key was seen in the running period.
    pub fn desync_dedup_insert_for_testing(&mut self, key: u64, at: Instant)
        ensures
            final(self)@ == (DesyncState {
                current: old(self)@.current.insert(key, at.nanos),
                ..old(self)@
            }),
            final(self).limits() == old(self).limits(),
            final(self).hasher() == old(self).hasher(),
    {
        let _ = slots_insert(&mut self.current, key, at.nanos);
    }

    /// When a key was seen in the running period.
    pub fn desync_dedup_get_for_testing(&self, key: u64) -> (res: Option<Instant>)
        ensures
            res == (match self@.current.get(key) {
                Some(nanos) => Some(Instant { nanos }),
                None => None,
            }),
    {
        match slots_get(&self.current, key) {
            Some(nanos) => Some(Instant { nanos }),
            None => None,
        }
    }

    /// The keys of the running period.
    pub fn desync_dedup_keys_for_testing(&self) -> (res: HashSet<u64>)
        ensures
            res@ == self@.current.dom(),
    {
        let pairs = slots_pairs(&self.current);
        let ghost all = self@.current;
        let mut keys: HashSet<u64> = HashSet::new();
        let mut i: usize = 0;
        while i < pairs.len()
            invariant
                i <= pairs@.len(),
                forall|j: int| 0 <= j < pairs@.len() ==> all.contains_key((#[trigger] pairs@[j]).0),
                forall|key: u64| #[trigger]
                    keys@.contains(key) <==> exists|j: int|
                        0 <= j < i && (#[trigger] pairs@[j]).0 == key,
            decreases pairs@.len() - i,
        {
            let key = pairs[i].0;
            let ghost before = keys@;
            keys.insert(key);
            i = i + 1;
            proof {
                assert forall|other: u64| #[trigger] keys@.contains(other) <==> exists|j: int|
                    0 <= j < i && (#[trigger] pairs@[j]).0 == other by {
                    if keys@.contains(other) {
                        if other == key {
                            assert(pairs@[i - 1].0 == other);
                        } else {
                            assert(before.contains(other));
                        }
                    }
                    if exists|j: int| 0 <= j < i && (#[trigger] pairs@[j]).0 == other {
                        let j = choose|j: int| 0 <= j < i && (#[trigger] pairs@[j]).0 == other;
                        if j < i - 1 {
                            assert(before.contains(other));
                        }
                    }
                }
            }
        }
        assert(keys@ =~= all.dom());
        keys
    }
}

/// The stream that lost its synchronisation.
pub struct RelayForensicsState {
    pub trace_id: u64,
    pub conn_id: u64,
    pub user: String,
    pub peer_hash: u64,
    pub started_at: Instant,
    /// Bytes that went to the middle proxy.
    pub bytes_c2me: u64,
    /// Bytes that came from the middle proxy.
    pub bytes_me2c: u64,
    /// Whether every event of the stream is to be reported in full.
    pub desync_all_full: bool,
}

/// A frame that cannot be as long as it says.
pub struct OversizedFrame {
    /// Number of the protocol variant.
    pub proto_tag: u32,
    /// Number of frames that made sense before.
    pub frame_counter: u64,
    pub max_frame: usize,
    pub len: usize,
    /// The bytes that the length was read from, where they are known.
    pub raw_len_bytes: Option<[u8; 4]>,
}

/// Why an event is reported in full.
#[derive(Debug, Clone, Copy, PartialEq, Eq, Structural)]
pub enum FullReason {
    DesyncAllFull,
    FirstInDedupWindow,
}

/// What there is to report of an event.
pub struct DesyncReport {
    /// Why the event is reported in full, if it is.
    pub full: Option<FullReason>,
    pub duration_ms: u64,
    /// The bytes of the length.
    pub len_buf: [u8; 4],
    /// Whether the length does not fit into four bytes.
    pub len_buf_truncated: bool,
    pub tls_like: bool,
    pub http_like: bool,
    pub error: ProxyError,
}

/// The bytes of a number, the lowest first.
pub open spec fn le_bytes(value: u32) -> Seq<u8> {
    seq![
        (value % 256) as u8,
        (value / 256 % 256) as u8,
        (value / 65536 % 256) as u8,
        (value / 16777216) as u8,
    ]
}

fn to_le_bytes(value: u32) -> (res: [u8; 4])
    ensures
        res@ == le_bytes(value),
{
    let res = [
        (value % 256) as u8,
        (value / 256 % 256) as u8,
        (value / 65536 % 256) as u8,
        (value / 16777216) as u8,
    ];
    assert(res@ =~= le_bytes(value));
    res
}

/// The bytes of a length, and whether it does not fit into them. Such a length stands for the greatest
/// one that does.
pub fn desync_forensics_len_bytes(len: usize) -> (res: ([u8; 4], bool))
    ensures
        res.1 == (len > u32::MAX),
        res.0@ == le_bytes(
            if len > u32::MAX {
                u32::MAX
            } else {
                len as u32
            },
        ),
{
    if len as u64 <= u32::MAX as u64 {
        (to_le_bytes(len as u32), false)
    } else {
        (to_le_bytes(u32::MAX), true)
    }
}

/// Whether the bytes of a length begin a TLS record.
pub open spec fn looks_like_tls(raw: Option<[u8; 4]>) -> bool {
    raw matches Some(bytes) && bytes@[0] == 0x16 && bytes@[1] == 0x03
}

/// Whether the bytes of a length begin an HTTP request: `G`, `P`, `H`, `C` or `D`.
pub open spec fn looks_like_http(raw: Option<[u8; 4]>) -> bool {
    raw matches Some(bytes) && (bytes@[0] == 0x47 || bytes@[0] == 0x50 || bytes@[0] == 0x48
        || bytes@[0] == 0x43 || bytes@[0] == 0x44)
}

/// Text of the error that an event ends a relay with.
pub open spec fn frame_too_large_text(
    state: RelayForensicsState,
    frame: OversizedFrame,
) -> Seq<char> {
    "Frame too large: "@ + decimal(frame.len as nat) + " (max "@ + decimal(frame.max_frame as nat)
        + "), frames_ok="@ + decimal(frame.frame_counter as nat) + ", conn_id="@ + decimal(
        state.conn_id as nat,
    ) + ", trace_id=0x"@ + hexadecimal(state.trace_id as nat, 16)
}

fn frame_too_large(state: &RelayForensicsState, frame: &OversizedFrame) -> (res: ProxyError)
    ensures
        res matches ProxyError::Proxy(text) && text@ == frame_too_large_text(*state, *frame),
{
    let mut text = "Frame too large: ".to_owned();
    append_decimal(&mut text, frame.len as u64);
    text.append(" (max ");
    append_decimal(&mut text, frame.max_frame as u64);
    text.append("), frames_ok=");
    append_decimal(&mut text, frame.frame_counter);
    text.append(", conn_id=");
    append_decimal(&mut text, state.conn_id);
    text.append(", trace_id=0x");
    append_hexadecimal(&mut text, state.trace_id, 16);
    ProxyError::Proxy(text)
}

/// Counters after an event.
pub open spec fn counted(events: EventCounters, frame_counter: u64, full: bool) -> EventCounters {
    EventCounters {
        desync_total: events.desync_total.wrapping_add(1),
        relay_protocol_desync_close_total: events.relay_protocol_desync_close_total.wrapping_add(1),
        desync_frames_ok_observations: events.desync_frames_ok_observations.wrapping_add(1),
        desync_frames_ok_sum: events.desync_frames_ok_sum.wrapping_add(frame_counter),
        desync_full_logged: if full {
            events.desync_full_logged.wrapping_add(1)
        } else {
            events.desync_full_logged
        },
        desync_suppressed: if full {
            events.desync_suppressed
        } else {
            events.desync_suppressed.wrapping_add(1)
        },
        ..events
    }
}

/// What there is to report of an event that ended at `ended`.
pub open spec fn reported(
    report: DesyncReport,
    state: RelayForensicsState,
    frame: OversizedFrame,
    ended: Instant,
    full: bool,
) -> bool {
    &&& report.full == (if !full {
        None
    } else if state.desync_all_full {
        Some(FullReason::DesyncAllFull)
    } else {
        Some(FullReason::FirstInDedupWindow)
    })
    &&& report.duration_ms == millis_between(state.started_at, ended)
    &&& report.len_buf@ == (match frame.raw_len_bytes {
        Some(bytes) => bytes@,
        None => le_bytes(
            if frame.len > u32::MAX {
                u32::MAX
            } else {
                frame.len as u32
            },
        ),
    })
    &&& report.len_buf_truncated == (frame.len > u32::MAX)
    &&& report.tls_like == looks_like_tls(frame.raw_len_bytes)
    &&& report.http_like == looks_like_http(frame.raw_len_bytes)
    &&& report.error matches ProxyError::Proxy(text) && text@ == frame_too_large_text(state, frame)
}

/// How an event ends that was judged: with a state, a report and counters.
pub open spec fn event_ends(
    judgement: (DesyncState, bool),
    state: RelayForensicsState,
    frame: OversizedFrame,
    ended: Instant,
    stats: Stats,
    after: DesyncState,
    report: DesyncReport,
    stats_after: Stats,
) -> bool {
    &&& after == judgement.0
    &&& reported(report, state, frame, ended, judgement.1)
    &&& stats_after == (Stats {
        events: counted(stats.events, frame.frame_counter, judgement.1),
        ..stats
    })
}

/// The hash of what an event is told from others by: user, peer, protocol variant and kind of event.
/// The seed of the hasher is part of the hasher.
pub uninterp spec fn dedup_key_of(hasher: RandomState, user: Seq<char>, peer_hash: u64, proto_tag: u32, error_class: Seq<char>) -> u64;

/// The hash of the number of an address and of whether it is of the longer kind. The seed of the hasher
/// is part of the hasher.
pub uninterp spec fn address_hash_of(hasher: RandomState, v6: bool, bits: u128) -> u64;

/// The hash of an address.
pub open spec fn ip_hash_of(hasher: RandomState, ip: IpAddr) -> u64 {
    match ip {
        IpAddr::V4(bits) => address_hash_of(hasher, false, bits as u128),
        IpAddr::V6(bits) => address_hash_of(hasher, true, bits),
    }
}

/// `std::hash::BuildHasher::hash_one` hashes what an event is told from others by. One hasher gives
/// equal values equal hashes; which hash it is depends on its seed, and is not said.
#[verifier::external_body]
fn dedup_key(
    hasher: &RandomState,
    user: &str,
    peer_hash: u64,
    proto_tag: u32,
    error_class: &str,
) -> (res: u64)
    ensures
        res == dedup_key_of(*hasher, user@, peer_hash, proto_tag, error_class@),
{
    hasher.hash_one((user, peer_hash, proto_tag, error_class))
}

/// `std::hash::BuildHasher::hash_one` hashes the number of an address and its kind. One hasher gives
/// equal values equal hashes; which hash it is depends on its seed, and is not said.
#[verifier::external_body]
fn hash_address(hasher: &RandomState, v6: bool, bits: u128) -> (res: u64)
    ensures
        res == address_hash_of(*hasher, v6, bits),
{
    hasher.hash_one((v6, bits))
}

/// Counts an event that was judged, and tells what there is to report of it.
fn report_judged(
    state: &RelayForensicsState,
    frame: &OversizedFrame,
    emit_full: bool,
    ended: Instant,
    stats: &mut Stats,
) -> (report: DesyncReport)
    ensures
        reported(report, *state, *frame, ended, emit_full),
        *final(stats) == (Stats {
            events: counted(old(stats).events, frame.frame_counter, emit_full),
            ..*old(stats)
        }),
{
    let (fallback, len_buf_truncated) = desync_forensics_len_bytes(frame.len);
    let mut tls_like = false;
    let mut http_like = false;
    let len_buf = match frame.raw_len_bytes {
        Some(bytes) => {
            tls_like = bytes[0] == 0x16 && bytes[1] == 0x03;
            http_like = matches!(bytes[0], 0x47 | 0x50 | 0x48 | 0x43 | 0x44);
            bytes
        },
        None => fallback,
    };
    let duration_ms: u64 = ended.millis_since(state.started_at);
    stats.increment_desync_total();
    stats.increment_relay_protocol_desync_close_total();
    stats.observe_desync_frames_ok(frame.frame_counter);
    let full = if emit_full {
        stats.increment_desync_full_logged();
        if state.desync_all_full {
            Some(FullReason::DesyncAllFull)
        } else {
            Some(FullReason::FirstInDedupWindow)
        }
    } else {
        stats.increment_desync_suppressed();
        None
    };
    DesyncReport {
        full,
        duration_ms,
        len_buf,
        len_buf_truncated,
        tls_like,
        http_like,
        error: frame_too_large(state, frame),
    }
}

impl DesyncDedup {
    /// A number that stands for an address in reports. It is the same for every call on one memory.
    pub fn hash_ip_in(&self, ip: IpAddr) -> (res: u64)
        ensures
            res == ip_hash_of(self.hasher(), ip),
    {
        match ip {
            IpAddr::V4(bits) => hash_address(&self.hasher, false, bits as u128),
            IpAddr::V6(bits) => hash_address(&self.hasher, true, bits),
        }
    }

    /// Counts an event with a known key, and tells what there is to report of it.
    pub fn report_desync_frame_too_large_keyed(
        &mut self,
        state: &RelayForensicsState,
        frame: &OversizedFrame,
        key: u64,
        now: Instant,
        ended: Instant,
        poisoned: PoisonedLocks,
        stats: &mut Stats,
    ) -> (report: DesyncReport)
        ensures
            event_ends(
                old(self)@.emit(
                    key,
                    state.desync_all_full,
                    now,
                    old(self).limits(),
                    poisoned,
                ),
                *state,
                *frame,
                ended,
                *old(stats),
                final(self)@,
                report,
                *final(stats),
            ),
            final(self).limits() == old(self).limits(),
            final(self).hasher() == old(self).hasher(),
    {
        let emit_full = self.should_emit_full_desync_in(
            key,
            state.desync_all_full,
            now,
            poisoned,
        );
        report_judged(state, frame, emit_full, ended, stats)
    }

    /// Counts an event, and tells what there is to report of it.
    pub fn report_desync_frame_too_large_in(
        &mut self,
        state: &RelayForensicsState,
        frame: &OversizedFrame,
        clock: &Clock,
        poisoned: PoisonedLocks,
        stats: &mut Stats,
    ) -> (report: DesyncReport)
        ensures
            exists|now: Instant, ended: Instant|
                CLOCK_ORIGIN <= now.nanos <= ended.nanos && #[trigger] event_ends(
                    old(self)@.emit(
                        dedup_key_of(
                            old(self).hasher(),
                            state.user@,
                            state.peer_hash,
                            frame.proto_tag,
                            old(self).limits().error_class@,
                        ),
                        state.desync_all_full,
                        now,
                        old(self).limits(),
                        poisoned,
                    ),
                    *state,
                    *frame,
                    ended,
                    *old(stats),
                    final(self)@,
                    report,
                    *final(stats),
                ),
            final(self).limits() == old(self).limits(),
            final(self).hasher() == old(self).hasher(),
    {
        let now = clock.now();
        let key = dedup_key(
            &self.hasher,
            state.user.as_str(),
            state.peer_hash,
            frame.proto_tag,
            self.limits.error_class.as_str(),
        );
        let emit_full = self.should_emit_full_desync_in(
            key,
            state.desync_all_full,
            now,
            poisoned,
        );
        let ended = clock.now().no_earlier_than(now);
        let report = report_judged(state, frame, emit_full, ended, stats);
        assert(event_ends(
            old(self)@.emit(key, state.desync_all_full, now, old(self).limits(), poisoned),
            *state,
            *frame,
            ended,
            *old(stats),
            self@,
            report,
            *stats,
        ));
        report
    }
}

} // verus!
