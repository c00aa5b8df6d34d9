//! Counters, telemetry policy and quota.

use relay_core::stats::counters::{
    MeD2cFlushReason, MeD2cQuotaRejectStage, MeD2cWriteMode, MeTelemetryLevel, Stats,
    TelemetryPolicy,
};
use relay_core::stats::users::{QuotaReserveError, UserStats};

#[test]
fn test_stats_shared_counters() {
    let mut stats = Stats::new();
    stats.increment_connects_all();
    stats.increment_connects_all();
    stats.increment_connects_all();
    assert_eq!(stats.get_connects_all(), 3);
}

#[test]
fn test_telemetry_policy_disables_core_and_user_counters() {
    let mut stats = Stats::new();
    stats.apply_telemetry_policy(TelemetryPolicy {
        core_enabled: false,
        user_enabled: false,
        me_level: MeTelemetryLevel::Normal,
    });

    stats.increment_connects_all();
    stats.increment_user_connects("alice");
    stats.add_user_octets_from("alice", 1024);
    assert_eq!(stats.get_connects_all(), 0);
    assert_eq!(stats.get_user_curr_connects("alice"), 0);
    assert_eq!(stats.get_user_total_octets("alice"), 0);
}

#[test]
fn test_telemetry_policy_me_silent_blocks_me_counters() {
    let mut stats = Stats::new();
    stats.apply_telemetry_policy(TelemetryPolicy {
        core_enabled: true,
        user_enabled: true,
        me_level: MeTelemetryLevel::Silent,
    });

    stats.increment_me_crc_mismatch();
    stats.increment_me_keepalive_sent();
    stats.increment_me_route_drop_queue_full();
    stats.increment_me_d2c_batches_total();
    stats.add_me_d2c_batch_frames_total(4);
    stats.add_me_d2c_batch_bytes_total(4096);
    stats.increment_me_d2c_flush_reason(MeD2cFlushReason::BatchBytes);
    stats.increment_me_d2c_write_mode(MeD2cWriteMode::Coalesced);
    stats.increment_me_d2c_quota_reject_total(MeD2cQuotaRejectStage::PreWrite);
    stats.observe_me_d2c_frame_buf_shrink(1024);
    stats.observe_me_d2c_batch_frames(4);
    stats.observe_me_d2c_batch_bytes(4096);
    stats.observe_me_d2c_flush_duration_us(120);
    stats.increment_me_d2c_batch_timeout_armed_total();
    stats.increment_me_d2c_batch_timeout_fired_total();
    assert_eq!(stats.get_me_crc_mismatch(), 0);
    assert_eq!(stats.get_me_keepalive_sent(), 0);
    assert_eq!(stats.get_me_route_drop_queue_full(), 0);
    assert_eq!(stats.get_me_d2c_batches_total(), 0);
    assert_eq!(stats.get_me_d2c_flush_reason_batch_bytes_total(), 0);
    assert_eq!(stats.get_me_d2c_write_mode_coalesced_total(), 0);
    assert_eq!(stats.get_me_d2c_quota_reject_pre_write_total(), 0);
    assert_eq!(stats.get_me_d2c_frame_buf_shrink_total(), 0);
    assert_eq!(stats.get_me_d2c_batch_frames_bucket_2_4(), 0);
    assert_eq!(stats.get_me_d2c_batch_bytes_bucket_1k_4k(), 0);
    assert_eq!(stats.get_me_d2c_flush_duration_us_bucket_51_200(), 0);
    assert_eq!(stats.get_me_d2c_batch_timeout_armed_total(), 0);
    assert_eq!(stats.get_me_d2c_batch_timeout_fired_total(), 0);
}

#[test]
fn test_telemetry_policy_me_normal_blocks_d2c_debug_metrics() {
    let mut stats = Stats::new();
    stats.apply_telemetry_policy(TelemetryPolicy {
        core_enabled: true,
        user_enabled: true,
        me_level: MeTelemetryLevel::Normal,
    });

    stats.increment_me_d2c_batches_total();
    stats.add_me_d2c_batch_frames_total(2);
    stats.add_me_d2c_batch_bytes_total(2048);
    stats.increment_me_d2c_flush_reason(MeD2cFlushReason::QueueDrain);
    stats.observe_me_d2c_batch_frames(2);
    stats.observe_me_d2c_batch_bytes(2048);
    stats.observe_me_d2c_flush_duration_us(100);
    stats.increment_me_d2c_batch_timeout_armed_total();
    stats.increment_me_d2c_batch_timeout_fired_total();

    assert_eq!(stats.get_me_d2c_batches_total(), 1);
    assert_eq!(stats.get_me_d2c_batch_frames_total(), 2);
    assert_eq!(stats.get_me_d2c_batch_bytes_total(), 2048);
    assert_eq!(stats.get_me_d2c_flush_reason_queue_drain_total(), 1);
    assert_eq!(stats.get_me_d2c_batch_frames_bucket_2_4(), 0);
    assert_eq!(stats.get_me_d2c_batch_bytes_bucket_1k_4k(), 0);
    assert_eq!(stats.get_me_d2c_flush_duration_us_bucket_51_200(), 0);
    assert_eq!(stats.get_me_d2c_batch_timeout_armed_total(), 0);
    assert_eq!(stats.get_me_d2c_batch_timeout_fired_total(), 0);
}

#[test]
fn test_telemetry_policy_me_debug_enables_d2c_debug_metrics() {
    let mut stats = Stats::new();
    stats.apply_telemetry_policy(TelemetryPolicy {
        core_enabled: true,
        user_enabled: true,
        me_level: MeTelemetryLevel::Debug,
    });

    stats.observe_me_d2c_batch_frames(7);
    stats.observe_me_d2c_batch_bytes(70_000);
    stats.observe_me_d2c_flush_duration_us(1400);
    stats.increment_me_d2c_batch_timeout_armed_total();
    stats.increment_me_d2c_batch_timeout_fired_total();

    assert_eq!(stats.get_me_d2c_batch_frames_bucket_5_8(), 1);
    assert_eq!(stats.get_me_d2c_batch_bytes_bucket_64k_128k(), 1);
    assert_eq!(stats.get_me_d2c_flush_duration_us_bucket_1001_5000(), 1);
    assert_eq!(stats.get_me_d2c_batch_timeout_armed_total(), 1);
    assert_eq!(stats.get_me_d2c_batch_timeout_fired_total(), 1);
}

#[test]
fn test_quota_used_is_authoritative_and_independent_from_octets_telemetry() {
    let mut stats = Stats::new();
    let user = "quota-authoritative-user";
    let user_stats = stats.get_or_create_user_stats_handle(user);

    stats.add_user_octets_to_handle(&user_stats, 5);
    assert_eq!(stats.get_user_total_octets(user), 5);
    assert_eq!(stats.get_user_quota_used(user), 0);

    stats.quota_charge_post_write(&user_stats, 7);
    assert_eq!(stats.get_user_total_octets(user), 5);
    assert_eq!(stats.get_user_quota_used(user), 7);
}

#[test]
fn test_cached_handle_survives_map_cleanup_until_last_drop() {
    let mut stats = Stats::new();
    let user = "quota-handle-lifetime-user";
    let user_stats = stats.get_or_create_user_stats_handle(user);
    let weak = user_stats.slot;

    stats.remove_user(user);
    assert!(
        stats.users.get(user).is_none(),
        "map cleanup should remove idle entry"
    );
    assert!(
        stats.users.is_alive(weak),
        "cached handle must keep user stats object alive after map removal"
    );

    stats.quota_charge_post_write(&user_stats, 3);
    assert_eq!(stats.get_handle_quota_used(&user_stats), 3);

    stats.release_user_stats_handle(user_stats);
    assert!(
        !stats.users.is_alive(weak),
        "user stats object must be dropped after the last cached handle is released"
    );
}

#[test]
fn second_handle_keeps_counters_of_a_removed_user() {
    let mut stats = Stats::new();
    let first = stats.get_or_create_user_stats_handle("bob");
    let second = stats.get_or_create_user_stats_handle("bob");
    let slot = first.slot;
    assert_eq!(second.slot, slot);
    stats.remove_user("bob");
    stats.release_user_stats_handle(first);
    assert!(stats.users.is_alive(slot));
    stats.quota_charge_post_write(&second, 9);
    assert_eq!(stats.get_handle_quota_used(&second), 9);
    stats.release_user_stats_handle(second);
    assert!(!stats.users.is_alive(slot));

    // The slot is taken again by a user who starts from zero.
    let other = stats.get_or_create_user_stats_handle("carol");
    assert_eq!(other.slot, slot);
    assert_eq!(stats.get_handle_quota_used(&other), 0);
    assert_eq!(stats.get_user_quota_used("bob"), 0);
}

#[test]
fn reservations_hit_the_limit_exactly() {
    let mut user_stats = UserStats::default();
    let limit = 8_192u64;
    let mut successes = 0u64;
    loop {
        match user_stats.quota_try_reserve(1, limit) {
            Ok(used) => {
                successes += 1;
                assert_eq!(used, successes);
            }
            Err(error) => {
                assert_eq!(error, QuotaReserveError::LimitExceeded);
                break;
            }
        }
    }
    assert_eq!(successes, limit);
    assert_eq!(user_stats.quota_used(), limit);
}

#[test]
fn reservations_of_1k_reach_100k_without_overshoot() {
    let mut user_stats = UserStats::default();
    let limit = 100 * 1_024u64;
    let mut successes = 0u32;
    let mut failures = 0u32;
    for _ in 0..200 {
        match user_stats.quota_try_reserve(1_024, limit) {
            Ok(_) => successes += 1,
            Err(_) => failures += 1,
        }
    }
    assert_eq!(successes, 100);
    assert_eq!(failures, 100);
    assert_eq!(user_stats.quota_used(), limit);
}

#[test]
fn reservation_that_overflows_is_refused() {
    let mut user_stats = UserStats::default();
    user_stats.quota_charge(u64::MAX - 1);
    assert_eq!(
        user_stats.quota_try_reserve(2, u64::MAX),
        Err(QuotaReserveError::LimitExceeded)
    );
    assert_eq!(user_stats.quota_try_reserve(1, u64::MAX), Ok(u64::MAX));
    user_stats.quota_charge(5);
    assert_eq!(user_stats.quota_used(), u64::MAX);
}

#[test]
fn refund_undoes_a_reservation() {
    let mut user_stats = UserStats::default();
    user_stats.quota_charge(10);
    assert_eq!(user_stats.quota_try_reserve(7, 100), Ok(17));
    user_stats.refund_reserved_quota_bytes(7);
    assert_eq!(user_stats.quota_used(), 10);
    user_stats.refund_reserved_quota_bytes(11);
    assert_eq!(user_stats.quota_used(), 0);
}

#[test]
fn traffic_is_counted_per_user() {
    let mut stats = Stats::new();
    let handle = stats.get_or_create_user_stats_handle("dave");
    stats.add_user_traffic_from_handle(&handle, 11);
    stats.add_user_traffic_to_handle(&handle, 31);
    stats.increment_user_connects("dave");
    stats.add_user_octets_from("erin", 100);
    assert_eq!(stats.get_user_total_octets("dave"), 42);
    assert_eq!(stats.get_user_curr_connects("dave"), 1);
    assert_eq!(stats.get_user_total_octets("erin"), 100);
    assert_eq!(stats.get_user_curr_connects("erin"), 0);
}
