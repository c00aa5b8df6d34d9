//! Handing responses to connections.

use relay_core::transport::middle_proxy::registry::route::{
    AfterTrySend, FullPolicy, MeResponse, PendingResponse, PermitOutcome, PermitRequest,
    PermitWait, RouteBytePermit, RouteResult, RouteStep, SendOutcome, SendWait, TrySendOutcome,
};
use relay_core::transport::middle_proxy::registry::{ConnRegistry, RouteBackpressure};

fn registry(high_watermark_pct: u8) -> ConnRegistry {
    let mut registry = ConnRegistry::new(RouteBackpressure {
        channel_capacity: 10,
        base_timeout_ms: 25,
        high_timeout_ms: 120,
        high_watermark_pct,
    });
    registry.register_route(1, 101, 201);
    registry
}

fn data() -> MeResponse {
    MeResponse::Data {
        flags: 3,
        data: vec![1, 2, 3],
        route_permit: None,
    }
}

fn with_permit() -> MeResponse {
    MeResponse::Data {
        flags: 3,
        data: vec![1, 2, 3],
        route_permit: Some(RouteBytePermit { permit: 9 }),
    }
}

fn adaptive() -> FullPolicy {
    FullPolicy::Adaptive {
        base_timeout_ms: 25,
    }
}

#[test]
fn unknown_connection_gets_nothing() {
    let registry = registry(80);
    let none = RouteStep::Finish(RouteResult::NoConn);
    assert_eq!(registry.route(2, data(), 1), none);
    assert_eq!(registry.route_nowait(2, data(), 1), none);
    assert_eq!(registry.route_with_timeout(2, data(), 1, 50), none);
    assert_eq!(registry.route(2, MeResponse::Other { content: 4 }, 1), none);
}

#[test]
fn data_need_a_permit_first() {
    let registry = registry(80);
    let waits = [
        (registry.route(1, data(), 5), PermitWait::Timeout(25), adaptive()),
        (registry.route_nowait(1, data(), 5), PermitWait::Try, FullPolicy::Drop),
        (
            registry.route_with_timeout(1, data(), 5, 0),
            PermitWait::Try,
            FullPolicy::Drop,
        ),
        (
            registry.route_with_timeout(1, data(), 5, 60),
            PermitWait::Timeout(60),
            FullPolicy::Fixed { timeout_ms: 60 },
        ),
    ];
    for (step, wait, full) in waits {
        assert_eq!(
            step,
            RouteStep::Acquire(
                PermitRequest {
                    budget: 201,
                    permits: 5,
                    wait
                },
                PendingResponse {
                    channel: 101,
                    response: data(),
                    full
                }
            )
        );
    }
}

#[test]
fn other_responses_need_no_permit() {
    let registry = registry(80);
    for response in [
        || MeResponse::Other { content: 4 },
        with_permit,
    ] {
        assert_eq!(
            registry.route(1, response(), 5),
            RouteStep::TrySend(PendingResponse {
                channel: 101,
                response: response(),
                full: adaptive()
            })
        );
    }
}

#[test]
fn permit_outcomes_are_told_apart() {
    let pending = || PendingResponse {
        channel: 101,
        response: data(),
        full: FullPolicy::Drop,
    };
    let permit = RouteBytePermit { permit: 9 };
    for wait in [PermitWait::Try, PermitWait::Timeout(25), PermitWait::Unbounded] {
        assert_eq!(
            pending().on_permit(wait, PermitOutcome::Acquired(permit)),
            RouteStep::TrySend(PendingResponse {
                channel: 101,
                response: with_permit(),
                full: FullPolicy::Drop
            })
        );
        assert_eq!(
            pending().on_permit(wait, PermitOutcome::Unavailable),
            RouteStep::Finish(RouteResult::QueueFullHigh)
        );
    }
    assert_eq!(
        pending().on_permit(PermitWait::Try, PermitOutcome::Closed),
        RouteStep::Finish(RouteResult::QueueFullHigh)
    );
    assert_eq!(
        pending().on_permit(PermitWait::Timeout(25), PermitOutcome::Closed),
        RouteStep::Finish(RouteResult::ChannelClosed)
    );
    assert_eq!(
        pending().on_permit(PermitWait::Unbounded, PermitOutcome::Closed),
        RouteStep::Finish(RouteResult::ChannelClosed)
    );
}

#[test]
fn full_channel_is_waited_for_by_its_use() {
    let registry = registry(80);
    let on_try_send = |outcome| registry.on_try_send(adaptive(), outcome);
    assert_eq!(
        on_try_send(TrySendOutcome::Sent),
        AfterTrySend::Finish(RouteResult::Routed)
    );
    assert_eq!(
        on_try_send(TrySendOutcome::Closed),
        AfterTrySend::Finish(RouteResult::ChannelClosed)
    );
    let high = SendWait {
        timeout_ms: 120,
        high_profile: true,
    };
    let base = SendWait {
        timeout_ms: 25,
        high_profile: false,
    };
    assert_eq!(on_try_send(TrySendOutcome::Full { free: 0 }), AfterTrySend::Send(high));
    assert_eq!(on_try_send(TrySendOutcome::Full { free: 2 }), AfterTrySend::Send(high));
    assert_eq!(on_try_send(TrySendOutcome::Full { free: 3 }), AfterTrySend::Send(base));
    assert_eq!(on_try_send(TrySendOutcome::Full { free: 99 }), AfterTrySend::Send(base));
    assert_eq!(
        registry.on_try_send(FullPolicy::Drop, TrySendOutcome::Full { free: 0 }),
        AfterTrySend::Finish(RouteResult::QueueFullBase)
    );

    assert_eq!(high.on_send(SendOutcome::Sent), RouteResult::Routed);
    assert_eq!(high.on_send(SendOutcome::Closed), RouteResult::ChannelClosed);
    assert_eq!(high.on_send(SendOutcome::TimedOut), RouteResult::QueueFullHigh);
    assert_eq!(base.on_send(SendOutcome::TimedOut), RouteResult::QueueFullBase);
}

#[test]
fn settings_count_from_the_moment_they_are_changed() {
    let mut registry = registry(80);
    let RouteStep::Acquire(request, pending) = registry.route(1, data(), 5) else {
        panic!("data need a permit");
    };
    registry.set_backpressure(RouteBackpressure {
        channel_capacity: 10,
        base_timeout_ms: 500,
        high_timeout_ms: 300,
        high_watermark_pct: 50,
    });
    let permit = PermitOutcome::Acquired(RouteBytePermit { permit: 9 });
    let RouteStep::TrySend(pending) = pending.on_permit(request.wait, permit) else {
        panic!("a response with a permit is tried");
    };
    // The least wait is that of the beginning, and the rest that of now.
    assert_eq!(pending.full, adaptive());
    assert_eq!(
        registry.on_try_send(pending.full, TrySendOutcome::Full { free: 5 }),
        AfterTrySend::Send(SendWait {
            timeout_ms: 300,
            high_profile: true
        })
    );
    assert_eq!(
        registry.on_try_send(pending.full, TrySendOutcome::Full { free: 6 }),
        AfterTrySend::Send(SendWait {
            timeout_ms: 25,
            high_profile: false
        })
    );
    let fixed = FullPolicy::Fixed { timeout_ms: 60 };
    assert_eq!(
        registry.on_try_send(fixed, TrySendOutcome::Full { free: 5 }),
        AfterTrySend::Send(SendWait {
            timeout_ms: 60,
            high_profile: true
        })
    );
    // A new response is subject to the new settings altogether.
    let RouteStep::TrySend(next) = registry.route(1, with_permit(), 5) else {
        panic!("a response with a permit is tried");
    };
    assert_eq!(next.full, FullPolicy::Adaptive { base_timeout_ms: 500 });
    assert_eq!(
        registry.on_try_send(next.full, TrySendOutcome::Full { free: 0 }),
        AfterTrySend::Send(SendWait {
            timeout_ms: 500,
            high_profile: true
        })
    );
}

#[test]
fn limits_are_put_in_range() {
    let mut registry = ConnRegistry::new(RouteBackpressure {
        channel_capacity: 0,
        base_timeout_ms: 0,
        high_timeout_ms: 0,
        high_watermark_pct: 200,
    });
    registry.register_route(1, 101, 201);
    let step = registry.route(1, MeResponse::Other { content: 4 }, 5);
    let RouteStep::TrySend(pending) = step else {
        panic!("a response without data is tried at once");
    };
    assert_eq!(
        pending.full,
        FullPolicy::Adaptive { base_timeout_ms: 1 }
    );
    // A channel without capacity is in full use.
    assert_eq!(
        registry.on_try_send(pending.full, TrySendOutcome::Full { free: 5 }),
        AfterTrySend::Send(SendWait {
            timeout_ms: 1,
            high_profile: true
        })
    );
}

#[test]
fn huge_channels_do_not_overflow() {
    let registry = ConnRegistry::new(RouteBackpressure {
        channel_capacity: usize::MAX,
        base_timeout_ms: 1,
        high_timeout_ms: 2,
        high_watermark_pct: 1,
    });
    let full = FullPolicy::Adaptive { base_timeout_ms: 1 };
    // The hundredfold of the use is held at the greatest number.
    assert_eq!(
        registry.on_try_send(full, TrySendOutcome::Full { free: 0 }),
        AfterTrySend::Send(SendWait {
            timeout_ms: 2,
            high_profile: true
        })
    );
}
