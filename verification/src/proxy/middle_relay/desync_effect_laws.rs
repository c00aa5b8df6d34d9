//! What one event does, told by the times and the numbers themselves.

use std::collections::hash_map::RandomState;

use vstd::prelude::*;

use super::desync::{
    address_hash_of, counted, event_ends, ip_hash_of, le_bytes, nothing_seen, reported,
    DesyncLimits, DesyncReport, DesyncState, FullReason, OversizedFrame, PoisonedLocks,
    RelayForensicsState,
};
use crate::ip_tracker::IpAddr;
use crate::proxy::ProxyError;
use crate::stats::counters::{went_up, EventCounters, Stats};
use crate::text::{
    decimal, hexadecimal, law_decimal_is_read_back, law_sixteen_digits_are_enough, read_number,
};
use crate::time::{is_millis, law_milliseconds_are_rounded_down, Instant};

verus! {

/// A period is over at `now`: there is none, its begin was lost or lies ahead, or a window has passed since
/// it began.
pub open spec fn is_over(
    state: DesyncState,
    now: Instant,
    limits: DesyncLimits,
    poisoned: PoisonedLocks,
) -> bool {
    ||| poisoned.rotation
    ||| state.started_at is None
    ||| state.started_at->0.nanos > now.nanos
    ||| now.nanos - state.started_at->0.nanos >= limits.dedup_window.nanos()
}

/// The keys of the period that runs at `now`.
pub open spec fn running_keys(
    state: DesyncState,
    now: Instant,
    limits: DesyncLimits,
    poisoned: PoisonedLocks,
) -> Map<u64, u64> {
    if is_over(state, now, limits, poisoned) {
        Map::empty()
    } else {
        state.current
    }
}

/// The keys of the period before the one that runs at `now`.
pub open spec fn earlier_keys(
    state: DesyncState,
    now: Instant,
    limits: DesyncLimits,
    poisoned: PoisonedLocks,
) -> Map<u64, u64> {
    if is_over(state, now, limits, poisoned) {
        state.current
    } else {
        state.previous
    }
}

/// When a key was seen last, in one table or else in another.
pub open spec fn seen_last(running: Map<u64, u64>, earlier: Map<u64, u64>, key: u64) -> Option<u64> {
    if running.contains_key(key) {
        Some(running[key])
    } else if earlier.contains_key(key) {
        Some(earlier[key])
    } else {
        None
    }
}

/// A sight is recent: it lies ahead, or less than a window has passed since.
pub open spec fn is_recent(seen: Option<u64>, now: Instant, limits: DesyncLimits) -> bool {
    seen matches Some(at) && (at > now.nanos || now.nanos - at < limits.dedup_window.nanos())
}

/// A new memory knows no key, and no time.
pub proof fn law_new_memory_is_empty(key: u64)
    ensures
        !nothing_seen().current.contains_key(key),
        !nothing_seen().previous.contains_key(key),
        nothing_seen().started_at is None,
        nothing_seen().last_full_cache_emit is None,
{
}

/// An event whose key was seen less than a window ago is not reported in full, and the key keeps the time
/// at which it was seen. No other key is touched.
pub proof fn law_recent_key_is_suppressed(
    state: DesyncState,
    key: u64,
    now: Instant,
    limits: DesyncLimits,
    poisoned: PoisonedLocks,
    other: u64,
)
    requires
        is_recent(
            seen_last(
                running_keys(state, now, limits, poisoned),
                earlier_keys(state, now, limits, poisoned),
                key,
            ),
            now,
            limits,
        ),
    ensures
        ({
            let running = running_keys(state, now, limits, poisoned);
            let earlier = earlier_keys(state, now, limits, poisoned);
            let (after, full) = state.emit(key, false, now, limits, poisoned);
            &&& !full
            &&& after.current.contains_key(key)
            &&& Some(after.current[key]) == seen_last(running, earlier, key)
            &&& other != key ==> (after.current.contains_key(other) <==> running.contains_key(
                other,
            )) && (running.contains_key(other) ==> after.current[other] == running[other])
            &&& after.previous == earlier
            &&& after.last_full_cache_emit == state.last_full_cache_emit
            &&& after.started_at == (if is_over(state, now, limits, poisoned) {
                Some(now)
            } else {
                state.started_at
            })
        }),
{
}

/// An event whose key was not seen within the window is reported in full, as long as the key is known or
/// there is room for it, and the key is known from `now` on. No other key is touched, and a key that
/// was new in the running period is dropped from the one before.
pub proof fn law_key_that_finds_room_is_reported(
    state: DesyncState,
    key: u64,
    now: Instant,
    limits: DesyncLimits,
    poisoned: PoisonedLocks,
    other: u64,
)
    requires
        !is_recent(
            seen_last(
                running_keys(state, now, limits, poisoned),
                earlier_keys(state, now, limits, poisoned),
                key,
            ),
            now,
            limits,
        ),
        running_keys(state, now, limits, poisoned).contains_key(key) || running_keys(
            state,
            now,
            limits,
            poisoned,
        ).len() < limits.max_entries,
    ensures
        ({
            let running = running_keys(state, now, limits, poisoned);
            let earlier = earlier_keys(state, now, limits, poisoned);
            let (after, full) = state.emit(key, false, now, limits, poisoned);
            &&& full
            &&& after.current.contains_key(key) && after.current[key] == now.nanos
            &&& other != key ==> (after.current.contains_key(other) <==> running.contains_key(
                other,
            )) && (running.contains_key(other) ==> after.current[other] == running[other])
            &&& running.contains_key(key) ==> after.previous == earlier
            &&& !running.contains_key(key) ==> !after.previous.contains_key(key)
            &&& other != key ==> (after.previous.contains_key(other) <==> earlier.contains_key(
                other,
            )) && (earlier.contains_key(other) ==> after.previous[other] == earlier[other])
            &&& after.last_full_cache_emit == state.last_full_cache_emit
            &&& after.started_at == (if is_over(state, now, limits, poisoned) {
                Some(now)
            } else {
                state.started_at
            })
        }),
{
}

/// A new key that finds no room starts a period with itself alone. It is reported in full if no other such
/// key was for the least time, or if that other time lies ahead, and the lock on it is sound; and only
/// then does it count as such a report.
pub proof fn law_key_without_room_starts_afresh(
    state: DesyncState,
    key: u64,
    now: Instant,
    limits: DesyncLimits,
    poisoned: PoisonedLocks,
    other: u64,
)
    requires
        !is_recent(
            seen_last(
                running_keys(state, now, limits, poisoned),
                earlier_keys(state, now, limits, poisoned),
                key,
            ),
            now,
            limits,
        ),
        !running_keys(state, now, limits, poisoned).contains_key(key),
        running_keys(state, now, limits, poisoned).len() >= limits.max_entries,
    ensures
        ({
            let (after, full) = state.emit(key, false, now, limits, poisoned);
            let last = state.last_full_cache_emit;
            &&& after.current.contains_key(key) && after.current[key] == now.nanos
            &&& other != key ==> !after.current.contains_key(other)
            &&& after.previous == running_keys(state, now, limits, poisoned)
            &&& after.started_at == Some(now)
            &&& full <==> !poisoned.full_cache_gate && (last is None || last->0.nanos > now.nanos
                || now.nanos - last->0.nanos >= limits.full_cache_emit_min_interval.nanos())
            &&& full ==> after.last_full_cache_emit == Some(now)
            &&& !full ==> after.last_full_cache_emit == last
        }),
{
}

/// A new key that finds no room is let through if no such key was reported for the least time, or if the
/// last such report lies ahead; what is let through is remembered as the last one.
pub proof fn law_gate_keeps_the_distance(state: DesyncState, now: Instant, limits: DesyncLimits)
    ensures
        ({
            let last = state.last_full_cache_emit;
            let after = state.through_gate(now, limits);
            &&& state.gate_opens(now, limits) <==> last is None || last->0.nanos > now.nanos
                || now.nanos - last->0.nanos >= limits.full_cache_emit_min_interval.nanos()
            &&& state.gate_opens(now, limits) ==> after.last_full_cache_emit == Some(now)
            &&& !state.gate_opens(now, limits) ==> after.last_full_cache_emit == last
            &&& after.current == state.current && after.previous == state.previous
                && after.started_at == state.started_at
        }),
{
}

/// Forgetting forgets every key, and each of the two times unless its lock was left behind.
pub proof fn law_forgotten_keys_are_gone(state: DesyncState, poisoned: PoisonedLocks, key: u64)
    ensures
        !state.forgotten(poisoned).current.contains_key(key),
        !state.forgotten(poisoned).previous.contains_key(key),
        poisoned.rotation ==> state.forgotten(poisoned).started_at == state.started_at,
        !poisoned.rotation ==> state.forgotten(poisoned).started_at is None,
        poisoned.full_cache_gate ==> state.forgotten(poisoned).last_full_cache_emit
            == state.last_full_cache_emit,
        !poisoned.full_cache_gate ==> state.forgotten(poisoned).last_full_cache_emit is None,
{
}

/// An event is one desynchronisation, one closed relay and one observation of as many frames as went well
/// before, and one full report or one suppressed one. Nothing else is counted.
pub proof fn law_event_counts(events: EventCounters, frames: u64, full: bool)
    ensures
        ({
            let after = counted(events, frames, full);
            &&& went_up(events.desync_total, after.desync_total, 1)
            &&& went_up(
                events.relay_protocol_desync_close_total,
                after.relay_protocol_desync_close_total,
                1,
            )
            &&& went_up(
                events.desync_frames_ok_observations,
                after.desync_frames_ok_observations,
                1,
            )
            &&& went_up(events.desync_frames_ok_sum, after.desync_frames_ok_sum, frames as int)
            &&& full ==> went_up(events.desync_full_logged, after.desync_full_logged, 1)
                && after.desync_suppressed == events.desync_suppressed
            &&& !full ==> went_up(events.desync_suppressed, after.desync_suppressed, 1)
                && after.desync_full_logged == events.desync_full_logged
            &&& after.quota_contention_total == events.quota_contention_total
            &&& after.quota_contention_timeout_total == events.quota_contention_timeout_total
            &&& after.quota_refund_bytes_total == events.quota_refund_bytes_total
        }),
{
}

/// A report says why an event is reported in full, if it is; how long the stream ran, in milliseconds;
/// whether the length does not fit into four bytes; and by what the length begins, where its bytes are
/// known, whether it looks like another protocol.
pub proof fn law_report_tells_the_event(
    report: DesyncReport,
    state: RelayForensicsState,
    frame: OversizedFrame,
    ended: Instant,
    full: bool,
)
    requires
        reported(report, state, frame, ended, full),
    ensures
        report.full is Some <==> full,
        full && state.desync_all_full ==> report.full == Some(FullReason::DesyncAllFull),
        full && !state.desync_all_full ==> report.full == Some(FullReason::FirstInDedupWindow),
        is_millis(report.duration_ms, state.started_at, ended),
        report.len_buf_truncated <==> frame.len >= 0x1_0000_0000,
        frame.raw_len_bytes is None ==> !report.tls_like && !report.http_like,
        frame.raw_len_bytes matches Some(bytes) ==> {
            &&& report.tls_like <==> bytes@[0] == 22 && bytes@[1] == 3
            &&& report.http_like <==> bytes@[0] == 'G' as u8 || bytes@[0] == 'P' as u8 || bytes@[0]
                == 'H' as u8 || bytes@[0] == 'C' as u8 || bytes@[0] == 'D' as u8
        },
{
    law_milliseconds_are_rounded_down(state.started_at, ended);
}

/// A report carries the bytes that the length was read from, where they are known. Where they are not, its
/// bytes are those of the length, the lowest first, or of the greatest length that fits.
pub proof fn law_report_carries_the_length(
    report: DesyncReport,
    state: RelayForensicsState,
    frame: OversizedFrame,
    ended: Instant,
    full: bool,
    i: int,
)
    requires
        reported(report, state, frame, ended, full),
    ensures
        frame.raw_len_bytes matches Some(bytes) ==> 0 <= i < 4 ==> report.len_buf@[i] == bytes@[i],
        frame.raw_len_bytes is None ==> report.len_buf@[0] + 256 * report.len_buf@[1] + 65536
            * report.len_buf@[2] + 16777216 * report.len_buf@[3] == (if frame.len < 0x1_0000_0000 {
            frame.len as int
        } else {
            0xffff_ffff
        }),
{
    super::desync_laws::law_length_is_found_again(
        if frame.len > u32::MAX {
            u32::MAX
        } else {
            frame.len as u32
        },
    );
}

/// The error of an event names, in this order, the length of the frame, the greatest length, the frames
/// that went well and the connection, each as a decimal number, and the trace as a number of sixteen
/// hexadecimal digits.
pub proof fn law_error_names_the_event(
    report: DesyncReport,
    state: RelayForensicsState,
    frame: OversizedFrame,
    ended: Instant,
    full: bool,
)
    requires
        reported(report, state, frame, ended, full),
    ensures
        report.error matches ProxyError::Proxy(text) && exists|
            len: Seq<char>,
            most: Seq<char>,
            frames: Seq<char>,
            conn: Seq<char>,
            trace: Seq<char>,
        |
            text@ == #[trigger] error_text(len, most, frames, conn, trace) && read_number(len, 10)
                == frame.len && read_number(most, 10) == frame.max_frame && read_number(frames, 10)
                == frame.frame_counter && read_number(conn, 10) == state.conn_id && trace.len() == 16
                && read_number(trace, 16) == state.trace_id,
{
    let len = decimal(frame.len as nat);
    let most = decimal(frame.max_frame as nat);
    let frames = decimal(frame.frame_counter as nat);
    let conn = decimal(state.conn_id as nat);
    let trace = hexadecimal(state.trace_id as nat, 16);
    law_decimal_is_read_back(frame.len as nat);
    law_decimal_is_read_back(frame.max_frame as nat);
    law_decimal_is_read_back(frame.frame_counter as nat);
    law_decimal_is_read_back(state.conn_id as nat);
    law_sixteen_digits_are_enough(state.trace_id);
    crate::text::law_hexadecimal_is_read_back(state.trace_id as nat, 16);
    assert(report.error->Proxy_0@ == error_text(len, most, frames, conn, trace));
}

/// A text of an error, with its numbers.
pub open spec fn error_text(
    len: Seq<char>,
    most: Seq<char>,
    frames: Seq<char>,
    conn: Seq<char>,
    trace: Seq<char>,
) -> Seq<char> {
    "Frame too large: "@ + len + " (max "@ + most + "), frames_ok="@ + frames + ", conn_id="@ + conn
        + ", trace_id=0x"@ + trace
}

/// An event ends with the state and the report that it was judged to, and is counted; no counter of
/// another kind moves.
pub proof fn law_event_ends_as_judged(
    before: DesyncState,
    key: u64,
    now: Instant,
    limits: DesyncLimits,
    poisoned: PoisonedLocks,
    state: RelayForensicsState,
    frame: OversizedFrame,
    ended: Instant,
    stats: Stats,
    after: DesyncState,
    report: DesyncReport,
    stats_after: Stats,
)
    requires
        event_ends(
            before.emit(key, state.desync_all_full, now, limits, poisoned),
            state,
            frame,
            ended,
            stats,
            after,
            report,
            stats_after,
        ),
    ensures
        report.full is Some <==> before.emit(key, state.desync_all_full, now, limits, poisoned).1,
        after == before.emit(key, state.desync_all_full, now, limits, poisoned).0,
        report.full is Some ==> went_up(
            stats.events.desync_full_logged,
            stats_after.events.desync_full_logged,
            1,
        ),
        report.full is None ==> went_up(
            stats.events.desync_suppressed,
            stats_after.events.desync_suppressed,
            1,
        ),
        state.desync_all_full ==> report.full == Some(FullReason::DesyncAllFull) && after == before,
        stats_after.policy == stats.policy && stats_after.connects_all == stats.connects_all
            && stats_after.me == stats.me && stats_after.users == stats.users,
{
}

/// The bytes of a number are its four digits in the base 256.
pub proof fn law_bytes_are_digits(value: u32)
    ensures
        le_bytes(value).len() == 4,
        le_bytes(value)[0] == value % 256,
        le_bytes(value)[1] == value / 256 % 256,
        le_bytes(value)[2] == value / 65536 % 256,
        le_bytes(value)[3] == value / 16777216,
{
}

/// An address is hashed by its number and its kind.
pub proof fn law_address_is_hashed_by_its_number(hasher: RandomState, short: u32, long: u128)
    ensures
        ip_hash_of(hasher, IpAddr::V4(short)) == address_hash_of(hasher, false, short as u128),
        ip_hash_of(hasher, IpAddr::V6(long)) == address_hash_of(hasher, true, long),
{
}

/// Where the lock on the time of the last such report was left behind, nothing is let through, and that
/// time stays as it is.
pub proof fn law_shut_gate_keeps_its_time(
    state: DesyncState,
    now: Instant,
    limits: DesyncLimits,
    poisoned: bool,
)
    ensures
        ({
            let (after, full) = state.at_gate(now, limits, poisoned);
            let last = state.last_full_cache_emit;
            &&& full <==> !poisoned && (last is None || last->0.nanos > now.nanos || now.nanos
                - last->0.nanos >= limits.full_cache_emit_min_interval.nanos())
            &&& full ==> after.last_full_cache_emit == Some(now)
            &&& !full ==> after.last_full_cache_emit == last
            &&& after.current == state.current && after.previous == state.previous
                && after.started_at == state.started_at
        }),
{
}

/// Where a lost begin of the period means no, it means no unless full reports are asked for; otherwise the
/// event is judged as ever.
pub proof fn law_lost_period_means_no(
    state: DesyncState,
    key: u64,
    now: Instant,
    limits: DesyncLimits,
    poisoned: PoisonedLocks,
)
    ensures
        state.emit_if_sound(key, true, now, limits, poisoned).1,
        poisoned.rotation ==> !state.emit_if_sound(key, false, now, limits, poisoned).1
            && state.emit_if_sound(key, false, now, limits, poisoned).0 == state,
        !poisoned.rotation ==> state.emit_if_sound(key, false, now, limits, poisoned) == state.emit(
            key,
            false,
            now,
            limits,
            poisoned,
        ),
{
}

} // verus!
