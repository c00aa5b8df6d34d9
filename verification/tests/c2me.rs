//! Queueing towards the middle proxy.

use relay_core::proxy::middle_relay::c2me::{
    acquire_c2me_payload_permit, enqueue_c2me_command_in, on_payload_permit, on_place, C2MeCommand,
    C2MeTuning, EnqueueStep, PayloadPermitOutcome, PayloadPermitRequest, PlaceOutcome,
    QueueOutcome,
};
use relay_core::proxy::ProxyError;
use relay_core::stats::counters::{MeTelemetryLevel, Stats, TelemetryPolicy};
use relay_core::time::Duration;

const TUNING: C2MeTuning = C2MeTuning {
    sender_fairness_budget: 32,
    queued_byte_permit_unit: 16 * 1024,
    queued_permits_per_slot: 4,
    soft_pressure_min_free_slots: 64,
};

#[test]
fn senders_yield_after_their_share() {
    assert!(!TUNING.should_yield_c2me_sender(31, true));
    assert!(TUNING.should_yield_c2me_sender(32, true));
    assert!(!TUNING.should_yield_c2me_sender(1_000, false));
}

#[test]
fn payloads_cost_permits() {
    assert_eq!(TUNING.c2me_payload_permits(0), 1);
    assert_eq!(TUNING.c2me_payload_permits(1), 1);
    assert_eq!(TUNING.c2me_payload_permits(16 * 1024), 1);
    assert_eq!(TUNING.c2me_payload_permits(16 * 1024 + 1), 2);
    let fine = C2MeTuning {
        queued_byte_permit_unit: 1,
        ..TUNING
    };
    assert_eq!(fine.c2me_payload_permits(usize::MAX), u32::MAX);
    assert_eq!(
        acquire_c2me_payload_permit(&TUNING, 40_000, Some(Duration::from_secs(5))),
        PayloadPermitRequest {
            permits: 3,
            timeout: Some(Duration::from_secs(5))
        }
    );
}

#[test]
fn budget_fits_the_queue_and_the_longest_frame() {
    assert_eq!(TUNING.c2me_queued_permit_budget(128, 16 * 1024), 512);
    assert_eq!(TUNING.c2me_queued_permit_budget(1, 1024 * 1024), 64);
    assert_eq!(TUNING.c2me_queued_permit_budget(0, 0), 1);
    assert_eq!(TUNING.c2me_queued_permit_budget(usize::MAX, 1), usize::MAX);
}

#[test]
fn permit_outcomes_become_errors() {
    let mut stats = Stats::new();
    assert_eq!(on_payload_permit(PayloadPermitOutcome::Acquired(8), &mut stats), Ok(8));
    assert_eq!(
        on_payload_permit(PayloadPermitOutcome::Closed, &mut stats),
        Err(ProxyError::Proxy("ME sender byte budget closed".to_string()))
    );
    assert_eq!(stats.get_me_c2me_send_timeout_total(), 0);
    assert_eq!(
        on_payload_permit(PayloadPermitOutcome::TimedOut, &mut stats),
        Err(ProxyError::Proxy("ME sender byte budget timeout".to_string()))
    );
    assert_eq!(stats.get_me_c2me_send_timeout_total(), 1);
}

fn command() -> C2MeCommand {
    C2MeCommand::Data {
        payload: vec![1, 2],
        flags: 3,
        permit: 4,
    }
}

#[test]
fn full_queue_is_waited_for() {
    let mut stats = Stats::new();
    let timeout = Some(Duration::from_millis(10));
    assert_eq!(
        enqueue_c2me_command_in(&TUNING, QueueOutcome::Queued, timeout, &mut stats),
        EnqueueStep::Done
    );
    assert_eq!(
        enqueue_c2me_command_in(&TUNING, QueueOutcome::Closed(command()), timeout, &mut stats),
        EnqueueStep::Failed(command())
    );
    assert_eq!(stats.get_me_c2me_send_full_total(), 0);
    for (free, yield_first) in [(0, true), (64, true), (65, false)] {
        assert_eq!(
            enqueue_c2me_command_in(
                &TUNING,
                QueueOutcome::Full(command(), free),
                timeout,
                &mut stats
            ),
            EnqueueStep::Reserve {
                command: command(),
                yield_first,
                timeout
            }
        );
    }
    assert_eq!(stats.get_me_c2me_send_full_total(), 3);
    assert_eq!(stats.get_me_c2me_send_high_water_total(), 3);
    assert_eq!(stats.get_me_c2me_send_timeout_total(), 0);
}

#[test]
fn waits_for_a_place_end() {
    let mut stats = Stats::new();
    assert_eq!(
        on_place(C2MeCommand::Close, PlaceOutcome::Reserved, &mut stats),
        EnqueueStep::Send(C2MeCommand::Close)
    );
    assert_eq!(stats.get_me_c2me_send_timeout_total(), 0);
    assert_eq!(
        on_place(C2MeCommand::Close, PlaceOutcome::Closed, &mut stats),
        EnqueueStep::Failed(C2MeCommand::Close)
    );
    assert_eq!(
        on_place(command(), PlaceOutcome::TimedOut, &mut stats),
        EnqueueStep::Failed(command())
    );
    assert_eq!(stats.get_me_c2me_send_timeout_total(), 2);
}

#[test]
fn silent_telemetry_counts_no_sends() {
    let mut stats = Stats::new();
    stats.apply_telemetry_policy(TelemetryPolicy {
        core_enabled: true,
        user_enabled: true,
        me_level: MeTelemetryLevel::Silent,
    });
    let _ = enqueue_c2me_command_in(
        &TUNING,
        QueueOutcome::Full(C2MeCommand::Close, 0),
        None,
        &mut stats,
    );
    let _ = on_place(C2MeCommand::Close, PlaceOutcome::TimedOut, &mut stats);
    assert_eq!(stats.get_me_c2me_send_full_total(), 0);
    assert_eq!(stats.get_me_c2me_send_timeout_total(), 0);
}
