//! What holds of reports over several events.

use vstd::prelude::*;

use super::desync::{counted, nothing_seen, DesyncLimits, DesyncState, PoisonedLocks};
use crate::stats::counters::EventCounters;
use crate::time::Instant;

verus! {

/// No lock was left behind.
pub open spec fn sound_locks() -> PoisonedLocks {
    PoisonedLocks { rotation: false, full_cache_gate: false }
}

/// A stream that asks for full reports gets them, and leaves no trace for others.
pub proof fn law_full_reports_on_demand(
    state: DesyncState,
    key: u64,
    now: Instant,
    limits: DesyncLimits,
    poisoned: PoisonedLocks,
)
    ensures
        state.emit(key, true, now, limits, poisoned) == (state, true),
{
}

/// Every event leaves its key behind, with the time at which it was seen first in the window.
pub proof fn law_event_is_remembered(
    state: DesyncState,
    key: u64,
    now: Instant,
    limits: DesyncLimits,
    poisoned: PoisonedLocks,
)
    ensures
        ({
            let (after, full) = state.emit(key, false, now, limits, poisoned);
            &&& after.current.contains_key(key)
            &&& after.started_at matches Some(started_at) && started_at.nanos <= now.nanos
            &&& full ==> after.current[key] == now.nanos
        }),
{
}

/// A key that was reported in full is not reported in full again within the window.
pub proof fn law_repeat_is_suppressed(
    state: DesyncState,
    key: u64,
    first: Instant,
    again: Instant,
    limits: DesyncLimits,
    poisoned: PoisonedLocks,
    poisoned_again: PoisonedLocks,
)
    requires
        state.emit(key, false, first, limits, poisoned).1,
        first.nanos <= again.nanos,
        again.nanos - first.nanos < limits.dedup_window.nanos(),
    ensures
        !state.emit(key, false, first, limits, poisoned).0.emit(
            key,
            false,
            again,
            limits,
            poisoned_again,
        ).1,
{
}

/// A key that was seen is reported in full again once the window has passed.
pub proof fn law_expired_key_is_reported_again(
    state: DesyncState,
    key: u64,
    first: Instant,
    again: Instant,
    limits: DesyncLimits,
    poisoned: PoisonedLocks,
    poisoned_again: PoisonedLocks,
)
    requires
        limits.max_entries > 0,
        first.nanos <= again.nanos,
        again.nanos - first.nanos >= limits.dedup_window.nanos(),
        state.emit(key, false, first, limits, poisoned).1,
    ensures
        state.emit(key, false, first, limits, poisoned).0.emit(
            key,
            false,
            again,
            limits,
            poisoned_again,
        ).1,
{
}

/// A new key that finds room is reported in full.
pub proof fn law_new_key_is_reported(
    state: DesyncState,
    key: u64,
    now: Instant,
    limits: DesyncLimits,
    poisoned: PoisonedLocks,
)
    requires
        state.seen(key) is None,
        state.current.len() < limits.max_entries,
    ensures
        state.emit(key, false, now, limits, poisoned).1,
{
    let recovered = DesyncState {
        started_at: if poisoned.rotation {
            None
        } else {
            state.started_at
        },
        ..state
    };
    let running = recovered.prepared(now, limits);
    assert(running.seen(key) is None);
}

/// A new key that finds the table full starts it afresh, with itself alone, and keeps the others for
/// one more period.
pub proof fn law_full_table_starts_afresh(
    state: DesyncState,
    key: u64,
    now: Instant,
    limits: DesyncLimits,
    gate_poisoned: bool,
)
    requires
        state.seen(key) is None,
        state.current.len() >= limits.max_entries,
    ensures
        ({
            let (after, full) = state.judged(key, now, limits, gate_poisoned);
            &&& after.current == Map::<u64, u64>::empty().insert(key, now.nanos)
            &&& after.previous == state.current
            &&& full == (!gate_poisoned && state.gate_opens(now, limits))
        }),
{
}

/// Full reports of new keys that find the table full keep their distance, and are not held back once
/// the distance is kept.
pub proof fn law_full_table_reports_keep_their_distance(
    state: DesyncState,
    first: Instant,
    again: Instant,
    limits: DesyncLimits,
)
    requires
        state.gate_opens(first, limits),
        first.nanos <= again.nanos,
    ensures
        state.through_gate(first, limits).gate_opens(again, limits) == (again.nanos - first.nanos
            >= limits.full_cache_emit_min_interval.nanos()),
{
}

/// An event of another key neither forgets nor renews a key, as long as it starts no new period.
pub proof fn law_keys_are_independent(
    state: DesyncState,
    key: u64,
    other: u64,
    now: Instant,
    limits: DesyncLimits,
)
    requires
        key != other,
        !state.period_over(now, limits),
        state.current.len() < limits.max_entries,
    ensures
        state.emit(key, false, now, limits, sound_locks()).0.seen(other) == state.seen(other),
        state.emit(key, false, now, limits, sound_locks()).0.started_at == state.started_at,
{
}

/// An event.
pub struct DesyncEvent {
    pub key: u64,
    /// Whether the stream asks for full reports.
    pub all_full: bool,
    pub now: Instant,
}

/// State after each of the events came in turn, from nothing.
pub open spec fn after_events(events: Seq<DesyncEvent>, limits: DesyncLimits) -> DesyncState
    decreases events.len(),
{
    if events.len() == 0 {
        nothing_seen()
    } else {
        let last = events.last();
        after_events(events.drop_last(), limits).emit(
            last.key,
            last.all_full,
            last.now,
            limits,
            sound_locks(),
        ).0
    }
}

/// Whether the last of the events is reported in full.
pub open spec fn last_in_full(events: Seq<DesyncEvent>, limits: DesyncLimits) -> bool {
    let last = events.last();
    after_events(events.drop_last(), limits).emit(
        last.key,
        last.all_full,
        last.now,
        limits,
        sound_locks(),
    ).1
}

/// The keys of the events that do not ask for full reports.
pub open spec fn deduplicated(events: Seq<DesyncEvent>) -> Set<u64>
    decreases events.len(),
{
    if events.len() == 0 {
        Set::empty()
    } else if events.last().all_full {
        deduplicated(events.drop_last())
    } else {
        deduplicated(events.drop_last()).insert(events.last().key)
    }
}

/// The events come in order of time.
pub open spec fn in_order(events: Seq<DesyncEvent>) -> bool {
    forall|i: int, j: int|
        0 <= i <= j < events.len() ==> (#[trigger] events[i]).now.nanos <= (
        #[trigger] events[j]).now.nanos
}

/// When a key was last reported in full without being asked for.
spec fn last_report(events: Seq<DesyncEvent>, limits: DesyncLimits, key: u64) -> Option<u64>
    decreases events.len(),
{
    if events.len() == 0 {
        None
    } else if events.last().key == key && !events.last().all_full && last_in_full(events, limits) {
        Some(events.last().now.nanos)
    } else {
        last_report(events.drop_last(), limits, key)
    }
}

/// A key was seen when it was reported, or was reported so long ago that the window has left it behind.
spec fn recalls(
    seen: Option<u64>,
    reported: Option<u64>,
    limits: DesyncLimits,
    now: Instant,
) -> bool {
    ||| seen == reported
    ||| seen is None && (reported matches Some(at) && at <= now.nanos && now.nanos - at
        >= limits.dedup_window.nanos())
}

/// What a state knows of the reports so far, at `now`: of each key the last one, unless the window has
/// left it behind.
spec fn knows(
    state: DesyncState,
    events: Seq<DesyncEvent>,
    limits: DesyncLimits,
    now: Instant,
) -> bool {
    &&& state.current.dom().subset_of(deduplicated(events))
    &&& forall|key: u64| #[trigger]
        state.current.contains_key(key) ==> state.current[key] <= now.nanos
    &&& forall|key: u64| #[trigger]
        state.previous.contains_key(key) ==> (state.started_at matches Some(started_at)
            && state.previous[key] <= started_at.nanos)
    &&& state.started_at matches Some(started_at) ==> started_at.nanos <= now.nanos
    &&& forall|key: u64|
        recalls(#[trigger] state.seen(key), last_report(events, limits, key), limits, now)
}

/// The first events are in order of time if all are.
proof fn lemma_earlier_in_order(events: Seq<DesyncEvent>)
    requires
        in_order(events),
        events.len() > 0,
    ensures
        in_order(events.drop_last()),
{
    let earlier = events.drop_last();
    assert forall|i: int, j: int| 0 <= i <= j < earlier.len() implies (
    #[trigger] earlier[i]).now.nanos <= (#[trigger] earlier[j]).now.nanos by {
        assert(earlier[i] == events[i] && earlier[j] == events[j]);
    }
}

/// A new period forgets only what the window has left behind.
proof fn lemma_prepared_knows(
    state: DesyncState,
    events: Seq<DesyncEvent>,
    limits: DesyncLimits,
    now: Instant,
)
    requires
        knows(state, events, limits, now),
    ensures
        knows(state.prepared(now, limits), events, limits, now),
{
    let after = state.prepared(now, limits);
    assert forall|key: u64|
        recalls(#[trigger] after.seen(key), last_report(events, limits, key), limits, now) by {
        assert(state.seen(key) is Some || state.seen(key) is None);
        if state.previous.contains_key(key) {
            assert(state.previous[key] <= state.started_at->0.nanos);
        }
    }
}

/// In a running period, an event is suppressed exactly if its key was last reported within the window,
/// and what becomes of it is known afterwards.
proof fn lemma_judged_knows(
    state: DesyncState,
    events: Seq<DesyncEvent>,
    limits: DesyncLimits,
    event: DesyncEvent,
)
    requires
        !event.all_full,
        state.started_at is Some,
        knows(state, events, limits, event.now),
        state.current.len() < limits.max_entries,
        last_in_full(events.push(event), limits) == state.judged(
            event.key,
            event.now,
            limits,
            false,
        ).1,
    ensures
        knows(
            state.judged(event.key, event.now, limits, false).0,
            events.push(event),
            limits,
            event.now,
        ),
        state.judged(event.key, event.now, limits, false).1 == (match last_report(
            events,
            limits,
            event.key,
        ) {
            Some(reported_at) => event.now.nanos - reported_at >= limits.dedup_window.nanos(),
            None => true,
        }),
{
    let (after, full) = state.judged(event.key, event.now, limits, false);
    let more = events.push(event);
    assert(more.drop_last() =~= events);
    assert(state.seen(event.key) is Some || state.seen(event.key) is None);
    assert forall|key: u64|
        recalls(#[trigger] after.seen(key), last_report(more, limits, key), limits, event.now) by {
        assert(state.seen(key) is Some || state.seen(key) is None);
        assert(last_report(more, limits, key) == (if key == event.key && full {
            Some(event.now.nanos)
        } else {
            last_report(events, limits, key)
        }));
    }
}

/// The keys of the first events are among those of all.
proof fn lemma_fewer_events(events: Seq<DesyncEvent>)
    requires
        events.len() > 0,
    ensures
        deduplicated(events.drop_last()).len() <= deduplicated(events).len(),
        deduplicated(events).finite(),
    decreases events.len(),
{
    if events.len() > 1 {
        lemma_fewer_events(events.drop_last());
    }
    vstd::set_lib::lemma_len_subset(deduplicated(events.drop_last()), deduplicated(events));
}

/// What is known after events that found room.
proof fn lemma_events_are_known(events: Seq<DesyncEvent>, limits: DesyncLimits, now: Instant)
    requires
        in_order(events),
        events.len() > 0 ==> events.last().now.nanos <= now.nanos,
        events.len() > 0 ==> deduplicated(events.drop_last()).len() < limits.max_entries,
    ensures
        knows(after_events(events, limits), events, limits, now),
    decreases events.len(),
{
    if events.len() > 0 {
        let earlier = events.drop_last();
        let event = events.last();
        lemma_earlier_in_order(events);
        if earlier.len() > 0 {
            assert(earlier.last() == events[events.len() - 2]);
            lemma_fewer_events(earlier);
        }
        let state = after_events(earlier, limits);
        if event.all_full {
            lemma_events_are_known(earlier, limits, now);
            assert forall|key: u64|
                recalls(
                    #[trigger] state.seen(key),
                    last_report(events, limits, key),
                    limits,
                    now,
                ) by {
                assert(last_report(events, limits, key) == last_report(earlier, limits, key));
            }
        } else {
            lemma_events_are_known(earlier, limits, event.now);
            lemma_prepared_knows(state, earlier, limits, event.now);
            let running = state.prepared(event.now, limits);
            lemma_room(running, earlier, limits, event.now);
            assert(earlier.push(event) =~= events);
            lemma_judged_knows(running, earlier, limits, event);
        }
    }
}

/// A state that knows fewer keys than there is room for has room.
proof fn lemma_room(
    state: DesyncState,
    events: Seq<DesyncEvent>,
    limits: DesyncLimits,
    now: Instant,
)
    requires
        knows(state, events, limits, now),
        deduplicated(events).len() < limits.max_entries,
    ensures
        state.current.len() < limits.max_entries,
{
    if events.len() > 0 {
        lemma_fewer_events(events);
    }
    vstd::set_lib::lemma_len_subset(state.current.dom(), deduplicated(events));
}

/// The last report of a key is the last of the events that were reported.
proof fn lemma_last_report_is_last(events: Seq<DesyncEvent>, limits: DesyncLimits, key: u64)
    requires
        in_order(events),
    ensures
        match last_report(events, limits, key) {
            Some(at) => exists|j: int| #[trigger]
                reports(events, limits, key, j) && events[j].now.nanos == at,
            None => forall|j: int| !#[trigger] reports(events, limits, key, j),
        },
        forall|j: int| #[trigger]
            reports(events, limits, key, j) ==> (last_report(events, limits, key) matches Some(at)
                && events[j].now.nanos <= at),
    decreases events.len(),
{
    if events.len() > 0 {
        let earlier = events.drop_last();
        let last: int = events.len() - 1;
        lemma_earlier_in_order(events);
        lemma_last_report_is_last(earlier, limits, key);
        assert(events.take(last + 1) =~= events);
        assert forall|j: int| j != last implies #[trigger] reports(events, limits, key, j)
            == reports(earlier, limits, key, j) by {
            if 0 <= j < last {
                assert(events.take(j + 1) =~= earlier.take(j + 1));
                assert(events[j] == earlier[j]);
            }
        }
        assert(reports(events, limits, key, last) == (events.last().key == key
            && !events.last().all_full && last_in_full(events, limits)));
        if reports(events, limits, key, last) {
            assert forall|j: int| #[trigger]
                reports(events, limits, key, j) implies events[j].now.nanos
                <= events.last().now.nanos by {
                assert(events[j].now.nanos <= events[last].now.nanos);
            }
        } else {
            if last_report(earlier, limits, key) is Some {
                let at = last_report(earlier, limits, key)->0;
                let j = choose|j: int| #[trigger]
                    reports(earlier, limits, key, j) && earlier[j].now.nanos == at;
                assert(reports(events, limits, key, j) && events[j].now.nanos == at);
            }
            assert forall|j: int| #[trigger]
                reports(events, limits, key, j) implies (last_report(
                events,
                limits,
                key,
            ) matches Some(at) && events[j].now.nanos <= at) by {
                assert(reports(earlier, limits, key, j));
                assert(events[j] == earlier[j]);
            }
        }
    }
}

/// Whether the event with the number `j` reports the key in full without being asked for.
pub open spec fn reports(events: Seq<DesyncEvent>, limits: DesyncLimits, key: u64, j: int) -> bool {
    &&& 0 <= j < events.len()
    &&& events[j].key == key
    &&& !events[j].all_full
    &&& last_in_full(events.take(j + 1), limits)
}

/// Of any events that come in order of time, from nothing and with room for their keys, one that does
/// not ask for a full report is suppressed exactly if its key was reported in full less than a window
/// before.
pub proof fn law_suppressed_iff_reported_within_the_window(
    events: Seq<DesyncEvent>,
    event: DesyncEvent,
    limits: DesyncLimits,
)
    requires
        in_order(events.push(event)),
        deduplicated(events).len() < limits.max_entries,
    ensures
        !last_in_full(events.push(event), limits) <==> !event.all_full && exists|j: int| #[trigger]
            reports(events, limits, event.key, j) && event.now.nanos - events[j].now.nanos
                < limits.dedup_window.nanos(),
{
    let all = events.push(event);
    assert(all.drop_last() =~= events);
    lemma_earlier_in_order(all);
    if !event.all_full {
        if events.len() > 0 {
            let last: int = events.len() - 1;
            assert(all[last] == events.last() && all[last + 1] == event);
            lemma_fewer_events(events);
        }
        lemma_events_are_known(events, limits, event.now);
        let state = after_events(events, limits);
        lemma_prepared_knows(state, events, limits, event.now);
        let running = state.prepared(event.now, limits);
        lemma_room(running, events, limits, event.now);
        lemma_judged_knows(running, events, limits, event);
        lemma_last_report_is_last(events, limits, event.key);
    }
}

/// Every event is counted once, and as either reported in full or suppressed.
pub proof fn law_every_event_is_counted_once(events: EventCounters, frame_counter: u64, full: bool)
    requires
        events.desync_total < u64::MAX,
        events.desync_full_logged < u64::MAX,
        events.desync_suppressed < u64::MAX,
    ensures
        ({
            let after = counted(events, frame_counter, full);
            &&& after.desync_total == events.desync_total + 1
            &&& after.desync_full_logged + after.desync_suppressed == events.desync_full_logged
                + events.desync_suppressed + 1
            &&& full <==> after.desync_full_logged > events.desync_full_logged
        }),
{
}

/// The length of a frame is found again from its bytes.
pub proof fn law_length_is_found_again(value: u32)
    ensures
        ({
            let bytes = super::desync::le_bytes(value);
            bytes[0] + 256 * bytes[1] + 65536 * bytes[2] + 16777216 * bytes[3] == value
        }),
{
}

} // verus!
