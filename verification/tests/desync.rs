//! Reports of desynchronised streams.

use std::collections::HashSet;

use relay_core::ip_tracker::IpAddr;
use relay_core::proxy::middle_relay::desync::{
    desync_forensics_len_bytes, DesyncDedup, DesyncLimits, FullReason, OversizedFrame,
    PoisonedLocks, RelayForensicsState,
};
use relay_core::proxy::ProxyError;
use relay_core::stats::counters::Stats;
use relay_core::time::{Clock, Duration, Instant};

const SOUND: PoisonedLocks = PoisonedLocks {
    rotation: false,
    full_cache_gate: false,
};

const WINDOW_MS: u64 = 60_000;

fn dedup(max_entries: usize) -> DesyncDedup {
    DesyncDedup::new(DesyncLimits {
        dedup_window: Duration::from_millis(WINDOW_MS),
        max_entries,
        full_cache_emit_min_interval: Duration::from_secs(1),
        error_class: "frame_too_large".to_string(),
    })
}

fn at(millis: u64) -> Instant {
    Clock::instant_after(u128::from(millis) * 1_000_000)
}

#[test]
fn repeats_are_suppressed_within_the_window() {
    let mut dedup = dedup(100);
    assert!(dedup.should_emit_full_desync_in(1, false, at(0), SOUND));
    assert!(!dedup.should_emit_full_desync_in(1, false, at(59_999), SOUND));
    assert!(dedup.should_emit_full_desync_in(2, false, at(59_999), SOUND));
    assert!(dedup.should_emit_full_desync_in(1, false, at(60_000), SOUND));
    // The key of the period before is still known.
    assert!(!dedup.should_emit_full_desync_in(2, false, at(60_001), SOUND));
    assert_eq!(dedup.desync_dedup_get_for_testing(2), Some(at(59_999)));
    assert!(dedup.should_emit_full_desync_in(2, false, at(119_999), SOUND));
}

#[test]
fn full_reports_on_demand_leave_no_trace() {
    let mut dedup = dedup(100);
    for _ in 0..3 {
        assert!(dedup.should_emit_full_desync_in(1, true, at(0), SOUND));
    }
    assert_eq!(dedup.desync_dedup_len_for_testing(), 0);
}

#[test]
fn full_table_starts_afresh_and_keeps_its_distance() {
    let mut dedup = dedup(2);
    assert!(dedup.should_emit_full_desync_in(1, false, at(0), SOUND));
    assert!(dedup.should_emit_full_desync_in(2, false, at(1), SOUND));
    assert!(dedup.should_emit_full_desync_in(3, false, at(2), SOUND));
    assert_eq!(dedup.desync_dedup_keys_for_testing(), HashSet::from([3]));
    assert!(!dedup.should_emit_full_desync_in(1, false, at(3), SOUND));
    assert_eq!(dedup.desync_dedup_keys_for_testing(), HashSet::from([1, 3]));
    assert!(!dedup.should_emit_full_desync_in(4, false, at(1_001), SOUND));
    assert_eq!(dedup.desync_dedup_keys_for_testing(), HashSet::from([4]));
    // There is room for one more, and then the distance is kept.
    assert!(dedup.should_emit_full_desync_in(5, false, at(1_001), SOUND));
    assert!(dedup.should_emit_full_desync_in(6, false, at(1_002), SOUND));
    assert!(dedup.should_emit_full_desync_in(7, false, at(1_003), SOUND));
    assert!(!dedup.should_emit_full_desync_in(8, false, at(1_004), SOUND));
    assert!(!dedup.should_emit_full_desync_full_cache_in(at(2_001), false));
    assert!(dedup.should_emit_full_desync_full_cache_in(at(2_002), false));
    assert!(!dedup.should_emit_full_desync_full_cache_in(at(9_000), true));
}

#[test]
fn instants_of_the_future_are_survived() {
    let mut dedup = dedup(100);
    assert!(dedup.should_emit_full_desync_in(1, false, at(5_000), SOUND));
    // The running period began in the future, so that a new one begins.
    assert!(!dedup.should_emit_full_desync_in(1, false, at(1_000), SOUND));
    assert_eq!(dedup.desync_dedup_get_for_testing(1), Some(at(5_000)));
    assert!(dedup.should_emit_full_desync_full_cache_in(at(5_000), false));
    assert!(dedup.should_emit_full_desync_full_cache_in(at(4_000), false));
}

#[test]
fn failed_holders_are_survived() {
    let rotation = PoisonedLocks {
        rotation: true,
        full_cache_gate: false,
    };
    let gate = PoisonedLocks {
        rotation: false,
        full_cache_gate: true,
    };
    let mut dedup = dedup(1);
    assert!(dedup.should_emit_full_desync_in(1, false, at(0), SOUND));
    // The period starts anew, and remembers the key from before.
    assert!(!dedup.should_emit_full_desync_in(1, false, at(1), rotation));
    assert!(!dedup.should_emit_full_desync_for_testing(9, false, at(1), rotation));
    assert_eq!(dedup.desync_dedup_keys_for_testing(), HashSet::from([1]));
    assert!(dedup.should_emit_full_desync_for_testing(9, true, at(1), rotation));
    // A full table is not reported through a gate that failed.
    assert!(!dedup.should_emit_full_desync_in(2, false, at(2), gate));
    assert_eq!(dedup.desync_dedup_keys_for_testing(), HashSet::from([2]));
    assert!(dedup.should_emit_full_desync_for_testing(3, false, at(3), SOUND));
}

#[test]
fn memory_can_be_set_and_cleared() {
    let mut dedup = dedup(100);
    dedup.desync_dedup_insert_for_testing(7, at(10));
    assert_eq!(dedup.desync_dedup_len_for_testing(), 1);
    assert_eq!(dedup.desync_dedup_get_for_testing(7), Some(at(10)));
    assert_eq!(dedup.desync_dedup_get_for_testing(8), None);
    assert!(!dedup.should_emit_full_desync_in(7, false, at(20), SOUND));
    dedup.clear_desync_dedup_for_testing_in_shared(SOUND);
    assert_eq!(dedup.desync_dedup_len_for_testing(), 0);
    assert!(dedup.should_emit_full_desync_in(7, false, at(20), SOUND));
}

#[test]
fn times_behind_failed_locks_are_not_cleared() {
    let failed = PoisonedLocks {
        rotation: true,
        full_cache_gate: true,
    };
    for (poisoned, full) in [(SOUND, true), (failed, false)] {
        let mut dedup = dedup(1);
        assert!(dedup.should_emit_full_desync_in(1, false, at(0), SOUND));
        assert!(dedup.should_emit_full_desync_in(2, false, at(1), SOUND));
        dedup.clear_desync_dedup_for_testing_in_shared(poisoned);
        assert_eq!(dedup.desync_dedup_len_for_testing(), 0);
        assert!(dedup.should_emit_full_desync_in(3, false, at(2), SOUND));
        // The table is full again. Whether the key is reported depends on the time of the last report.
        assert_eq!(dedup.should_emit_full_desync_in(4, false, at(3), SOUND), full);
    }
}

#[test]
fn event_is_suppressed_iff_reported_within_the_window() {
    let mut dedup = dedup(100);
    let mut reported: Vec<(u64, u64)> = Vec::new();
    for index in 0..400_u64 {
        let key = index * index % 7;
        let now = index * 4_321;
        let all_full = index % 11 == 0;
        let full = dedup.should_emit_full_desync_in(key, all_full, at(now), SOUND);
        let within = reported
            .iter()
            .any(|(earlier, when)| *earlier == key && now - when < WINDOW_MS);
        assert_eq!(full, all_full || !within);
        if full && !all_full {
            reported.push((key, now));
        }
    }
    assert!(reported.len() > 10);
}

#[test]
fn lengths_become_bytes() {
    assert_eq!(desync_forensics_len_bytes(0), ([0, 0, 0, 0], false));
    assert_eq!(desync_forensics_len_bytes(0x1234_5678), ([0x78, 0x56, 0x34, 0x12], false));
    assert_eq!(desync_forensics_len_bytes(0xffff_ffff), ([0xff; 4], false));
    if usize::BITS > 32 {
        assert_eq!(desync_forensics_len_bytes(usize::MAX), ([0xff; 4], true));
    }
}

fn stream(all_full: bool) -> RelayForensicsState {
    RelayForensicsState {
        trace_id: 0xabc,
        conn_id: 42,
        user: "alice".to_string(),
        peer_hash: 77,
        started_at: at(1_000),
        bytes_c2me: 10,
        bytes_me2c: 20,
        desync_all_full: all_full,
    }
}

fn frame(raw_len_bytes: Option<[u8; 4]>) -> OversizedFrame {
    OversizedFrame {
        proto_tag: 1,
        frame_counter: 9,
        max_frame: 1_024,
        len: 0x0403_0216,
        raw_len_bytes,
    }
}

#[test]
fn events_are_reported_and_counted() {
    let mut dedup = dedup(100);
    let mut stats = Stats::new();
    let first = dedup.report_desync_frame_too_large_keyed(
        &stream(false),
        &frame(None),
        5,
        at(3_000),
        at(3_500),
        SOUND,
        &mut stats,
    );
    assert_eq!(first.full, Some(FullReason::FirstInDedupWindow));
    assert_eq!(first.duration_ms, 2_500);
    assert_eq!(first.len_buf, [0x16, 0x02, 0x03, 0x04]);
    assert!(!first.len_buf_truncated);
    assert!(!first.tls_like);
    assert!(!first.http_like);
    assert_eq!(
        first.error,
        ProxyError::Proxy(
            "Frame too large: 67306006 (max 1024), frames_ok=9, conn_id=42, \
             trace_id=0x0000000000000abc"
                .to_string()
        )
    );

    let second = dedup.report_desync_frame_too_large_keyed(
        &stream(false),
        &frame(Some([0x16, 0x03, 0x01, 0x02])),
        5,
        at(4_000),
        at(500),
        SOUND,
        &mut stats,
    );
    assert_eq!(second.full, None);
    assert_eq!(second.duration_ms, 0);
    assert_eq!(second.len_buf, [0x16, 0x03, 0x01, 0x02]);
    assert!(second.tls_like);
    assert!(!second.http_like);

    let third = dedup.report_desync_frame_too_large_keyed(
        &stream(true),
        &frame(Some(*b"GET ")),
        5,
        at(5_000),
        at(5_000),
        SOUND,
        &mut stats,
    );
    assert_eq!(third.full, Some(FullReason::DesyncAllFull));
    assert!(third.http_like);
    assert!(!third.tls_like);

    assert_eq!(stats.get_desync_total(), 3);
    assert_eq!(stats.get_relay_protocol_desync_close_total(), 3);
    assert_eq!(stats.get_desync_full_logged(), 2);
    assert_eq!(stats.get_desync_suppressed(), 1);
    assert_eq!(stats.get_desync_frames_ok_observations(), 3);
    assert_eq!(stats.get_desync_frames_ok_sum(), 27);
}

#[test]
fn requests_of_http_are_recognised() {
    for (byte, http) in [
        (b'G', true),
        (b'P', true),
        (b'H', true),
        (b'C', true),
        (b'D', true),
        (b'O', false),
        (b'g', false),
    ] {
        let report = dedup(100).report_desync_frame_too_large_keyed(
            &stream(false),
            &frame(Some([byte, 3, 0, 0])),
            5,
            at(0),
            at(0),
            SOUND,
            &mut Stats::new(),
        );
        assert_eq!(report.http_like, http);
    }
}

#[test]
fn events_of_one_stream_share_a_key() {
    let clock = Clock::start();
    let mut dedup = dedup(100);
    let mut stats = Stats::new();
    let first =
        dedup.report_desync_frame_too_large_in(&stream(false), &frame(None), &clock, SOUND, &mut stats);
    let second =
        dedup.report_desync_frame_too_large_in(&stream(false), &frame(None), &clock, SOUND, &mut stats);
    assert_eq!(first.full, Some(FullReason::FirstInDedupWindow));
    assert_eq!(second.full, None);
    let mut other = stream(false);
    other.user = "bob".to_string();
    let third =
        dedup.report_desync_frame_too_large_in(&other, &frame(None), &clock, SOUND, &mut stats);
    assert_eq!(third.full, Some(FullReason::FirstInDedupWindow));
    assert_eq!(dedup.desync_dedup_len_for_testing(), 2);
}

#[test]
fn event_is_told_from_others_by_user_peer_and_protocol() {
    let clock = Clock::start();
    let mut dedup = dedup(100);
    let mut stats = Stats::new();
    let mut state = stream(false);
    let mut event = frame(None);
    let first = dedup.report_desync_frame_too_large_in(&state, &event, &clock, SOUND, &mut stats);
    assert_eq!(first.full, Some(FullReason::FirstInDedupWindow));
    state.conn_id = 43;
    state.trace_id = 1;
    event.frame_counter = 10;
    event.max_frame = 2_048;
    event.len = 5_000;
    event.raw_len_bytes = Some(*b"GET ");
    let again = dedup.report_desync_frame_too_large_in(&state, &event, &clock, SOUND, &mut stats);
    assert_eq!(again.full, None);
    assert_eq!(stats.get_desync_suppressed(), 1);
    assert_eq!(stats.get_desync_full_logged(), 1);
    event.proto_tag = 2;
    let other = dedup.report_desync_frame_too_large_in(&state, &event, &clock, SOUND, &mut stats);
    assert_eq!(other.full, Some(FullReason::FirstInDedupWindow));
    state.peer_hash = 78;
    let peer = dedup.report_desync_frame_too_large_in(&state, &event, &clock, SOUND, &mut stats);
    assert_eq!(peer.full, Some(FullReason::FirstInDedupWindow));
}

#[test]
fn addresses_are_hashed_alike() {
    let dedup = dedup(100);
    let ip = IpAddr::V4(0x7f00_0001);
    assert_eq!(dedup.hash_ip_in(ip), dedup.hash_ip_in(ip));
    assert_ne!(dedup.hash_ip_in(ip), dedup.hash_ip_in(IpAddr::V6(0x7f00_0001)));
}
