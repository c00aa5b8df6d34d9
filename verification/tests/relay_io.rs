//! The client side of a relay.

use relay_core::proxy::relay::io::combined::CombinedStream;
use relay_core::proxy::relay::io::read::{AfterSettle, ReadOutcome, ReadReturn, ReadStep};
use relay_core::proxy::relay::io::write::{WriteEnd, WriteOutcome, WriteReturn, WriteStep};
use relay_core::proxy::relay::io::{
    LeaseGrant, QuotaCheck, QuotaTuning, RateWait, SharedCounters, StatsIo,
};
use relay_core::stats::counters::Stats;
use relay_core::time::{Clock, Instant};

const TUNING: QuotaTuning = QuotaTuning {
    spin_retries: 2,
    max_rounds: 2,
};

const UNUSED: SharedCounters = SharedCounters {
    c2s_bytes: 0,
    s2c_bytes: 0,
    c2s_ops: 0,
    s2c_ops: 0,
    last_activity_ms: 0,
};

const LAZY: QuotaCheck = QuotaCheck {
    immediate: false,
    interval: 1_000,
};

const AT_ONCE: QuotaCheck = QuotaCheck {
    immediate: true,
    interval: 1_000,
};

fn at(millis: u64) -> Instant {
    Clock::instant_after(u128::from(millis) * 1_000_000)
}

fn relay(stats: &mut Stats, has_lease: bool, quota_limit: Option<u64>) -> StatsIo {
    StatsIo::new_with_traffic_lease(
        UNUSED,
        stats,
        "alice",
        has_lease,
        quota_limit,
        false,
        TUNING,
        at(0),
        at(5),
    )
}

fn granted(granted: u64) -> LeaseGrant {
    LeaseGrant {
        granted,
        blocked_user: false,
        blocked_cidr: false,
    }
}

const BLOCKED: LeaseGrant = LeaseGrant {
    granted: 0,
    blocked_user: true,
    blocked_cidr: false,
};

fn ended(result: WriteReturn, lease_refund: Option<u64>) -> WriteStep {
    WriteStep::Return(WriteEnd {
        result,
        lease_refund,
    })
}

#[test]
fn relay_is_active_from_the_start() {
    let mut stats = Stats::new();
    let shared = SharedCounters {
        c2s_bytes: 11,
        s2c_bytes: 12,
        c2s_ops: 3,
        s2c_ops: 4,
        last_activity_ms: 1,
    };
    let io = StatsIo::new(shared, &mut stats, "alice", Some(10), false, TUNING, at(0), at(7));
    assert_eq!(
        io.counters,
        SharedCounters {
            last_activity_ms: 7,
            ..shared
        }
    );
    assert!(!io.has_lease);
    assert_eq!(io.quota_limit, Some(10));
    assert!(stats.users.get("alice").is_some());
}

#[test]
fn relays_of_one_user_share_its_counters() {
    let mut stats = Stats::new();
    let mut first = relay(&mut stats, false, None);
    stats.increment_user_connects("bob");
    let mut second = relay(&mut stats, false, None);
    stats.add_user_octets_from("carol", 7);
    assert_eq!(first.user_stats, second.user_stats);
    for io in [&mut first, &mut second] {
        let ReadStep::Read(stage) = io.poll_read(&mut stats, 100) else {
            panic!("nothing stands in the way of a read");
        };
        assert_eq!(
            stage.on_read(io, &mut stats, ReadOutcome::Ready(40), LAZY, at(9)),
            ReadStep::Return(ReadReturn::Done)
        );
        assert_eq!(io.counters.c2s_bytes, 40);
    }
    assert_eq!(stats.get_user_total_octets("alice"), 80);
    assert_eq!(stats.get_user_total_octets("carol"), 7);
    stats.release_user_stats_handle(first.user_stats);
    stats.remove_user("alice");
    assert!(stats.users.is_alive(second.user_stats.slot));
    stats.release_user_stats_handle(second.user_stats);
    assert_eq!(stats.get_user_total_octets("alice"), 0);
}

#[test]
fn plain_read_is_counted() {
    let mut stats = Stats::new();
    let mut io = relay(&mut stats, false, None);
    let ReadStep::Read(stage) = io.poll_read(&mut stats, 100) else {
        panic!("nothing stands in the way of a read");
    };
    assert_eq!(stage.limit, 100);
    assert!(!stage.limited);
    assert_eq!(
        stage.on_read(&mut io, &mut stats, ReadOutcome::Ready(40), LAZY, at(9)),
        ReadStep::Return(ReadReturn::Done)
    );
    assert_eq!(io.counters.c2s_bytes, 40);
    assert_eq!(io.counters.c2s_ops, 1);
    assert_eq!(io.counters.last_activity_ms, 9);
    assert_eq!(stats.get_user_total_octets("alice"), 40);
    assert_eq!(stats.get_user_quota_used("alice"), 0);

    let ReadStep::Read(stage) = io.poll_read(&mut stats, 100) else {
        panic!("nothing stands in the way of a read");
    };
    assert_eq!(
        stage.on_read(&mut io, &mut stats, ReadOutcome::Ready(0), LAZY, at(10)),
        ReadStep::Return(ReadReturn::Done)
    );
    assert_eq!(io.counters.c2s_ops, 1);
    assert_eq!(
        io.poll_read(&mut stats, 0),
        ReadStep::Return(ReadReturn::Delegate)
    );
}

#[test]
fn read_under_a_quota_uses_up_what_it_brings() {
    let mut stats = Stats::new();
    let mut io = relay(&mut stats, false, Some(100));
    let ReadStep::Reserve(reserve) = io.poll_read(&mut stats, 300) else {
        panic!("a quota is reserved first");
    };
    assert_eq!(reserve.desired, 100);
    let ReadStep::Read(stage) = reserve.on_reserve(&mut io, &mut stats, false, at(1)) else {
        panic!("the share fits");
    };
    assert_eq!(stage.limit, 100);
    assert!(stage.limited);
    assert_eq!(stats.get_user_quota_used("alice"), 100);
    assert_eq!(
        stage.on_read(&mut io, &mut stats, ReadOutcome::Ready(30), LAZY, at(2)),
        ReadStep::Return(ReadReturn::Done)
    );
    assert_eq!(stats.get_user_quota_used("alice"), 30);
    assert_eq!(stats.get_quota_refund_bytes_total(), 70);
    assert_eq!(io.quota_bytes_since_check, 30);
    assert!(!io.quota_exceeded);

    for outcome in [ReadOutcome::Pending, ReadOutcome::Error] {
        let ReadStep::Reserve(reserve) = io.poll_read(&mut stats, 50) else {
            panic!("a quota is reserved first");
        };
        let ReadStep::Read(stage) = reserve.on_reserve(&mut io, &mut stats, false, at(3)) else {
            panic!("the share fits");
        };
        assert_eq!(stats.get_user_quota_used("alice"), 80);
        let end = stage.on_read(&mut io, &mut stats, outcome, LAZY, at(4));
        let expected = if outcome == ReadOutcome::Pending {
            ReadReturn::Pending
        } else {
            ReadReturn::StreamError
        };
        assert_eq!(end, ReadStep::Return(expected));
        assert_eq!(stats.get_user_quota_used("alice"), 30);
    }
    assert_eq!(stats.get_quota_refund_bytes_total(), 170);

    let ReadStep::Reserve(reserve) = io.poll_read(&mut stats, 500) else {
        panic!("a quota is reserved first");
    };
    assert_eq!(reserve.desired, 70);
    let ReadStep::Read(stage) = reserve.on_reserve(&mut io, &mut stats, false, at(5)) else {
        panic!("the share fits");
    };
    assert_eq!(
        stage.on_read(&mut io, &mut stats, ReadOutcome::Ready(70), AT_ONCE, at(6)),
        ReadStep::Return(ReadReturn::Done)
    );
    assert_eq!(io.quota_bytes_since_check, 0);
    assert!(io.quota_exceeded);
    assert_eq!(
        io.poll_read(&mut stats, 10),
        ReadStep::Return(ReadReturn::QuotaError)
    );
    assert_eq!(
        io.poll_write(&mut stats, 10),
        ended(WriteReturn::QuotaError, None)
    );
    assert_eq!(stats.get_user_quota_used("alice"), 100);
}

#[test]
fn quota_taken_by_others_is_noticed() {
    let mut stats = Stats::new();
    let mut io = relay(&mut stats, false, Some(100));
    let other = stats.get_or_create_user_stats_handle("alice");
    let ReadStep::Reserve(reserve) = io.poll_read(&mut stats, 60) else {
        panic!("a quota is reserved first");
    };
    stats.quota_charge_post_write(&other, 50);
    assert_eq!(
        reserve.on_reserve(&mut io, &mut stats, false, at(1)),
        ReadStep::Return(ReadReturn::QuotaError)
    );
    assert!(io.quota_exceeded);
    assert_eq!(stats.get_user_quota_used("alice"), 50);

    let mut second = relay(&mut stats, false, Some(50));
    assert_eq!(
        second.poll_read(&mut stats, 1),
        ReadStep::Return(ReadReturn::QuotaError)
    );
    assert!(second.quota_exceeded);
}

#[test]
fn contended_read_waits_and_tries_again() {
    let mut stats = Stats::new();
    let mut io = relay(&mut stats, false, Some(100));
    let mut step = io.poll_read(&mut stats, 10);
    for _ in 0..3 {
        let ReadStep::Reserve(reserve) = step else {
            panic!("there are attempts left");
        };
        step = reserve.on_reserve(&mut io, &mut stats, true, at(1));
    }
    let ReadStep::Reserve(reserve) = step else {
        panic!("there is an attempt left");
    };
    assert_eq!((reserve.rounds, reserve.spins), (1, 1));
    let ReadStep::QuotaSleep(sleep) = reserve.on_reserve(&mut io, &mut stats, true, at(2)) else {
        panic!("the attempts are used up");
    };
    assert!(sleep.start);
    assert!(io.quota_wait.sleeping);
    assert_eq!(stats.get_quota_contention_total(), 4);
    assert_eq!(stats.get_quota_contention_timeout_total(), 1);
    assert_eq!(
        sleep.on_sleep(&mut io, &mut stats, false, at(3)),
        ReadStep::Return(ReadReturn::Pending)
    );
    let ReadStep::Reserve(again) = sleep.on_sleep(&mut io, &mut stats, true, at(4)) else {
        panic!("attempts start afresh");
    };
    assert_eq!((again.rounds, again.spins), (0, 0));
    assert!(!io.quota_wait.sleeping);
}

#[test]
fn shaped_read_is_owed_and_settled() {
    let mut stats = Stats::new();
    let mut io = relay(&mut stats, true, None);
    let ReadStep::Read(stage) = io.poll_read(&mut stats, 100) else {
        panic!("there is no debt yet");
    };
    let ReadStep::Consume(consume) =
        stage.on_read(&mut io, &mut stats, ReadOutcome::Ready(100), LAZY, at(1))
    else {
        panic!("the bytes are owed");
    };
    assert_eq!(consume.bytes, 100);
    assert_eq!(consume.after, AfterSettle::End);
    let ReadStep::Consume(rest) = consume.on_consume(&mut io, &mut stats, granted(60), at(2)) else {
        panic!("some bytes are still owed");
    };
    assert_eq!(rest.bytes, 40);
    let ReadStep::Sleep(sleep) = rest.on_consume(&mut io, &mut stats, BLOCKED, at(3)) else {
        panic!("the lease has nothing left");
    };
    assert!(sleep.start);
    let (told, end) = sleep.on_sleep(&mut io, &mut stats, false, at(4));
    assert_eq!(told, None);
    // The read itself has been made.
    assert_eq!(end, ReadStep::Return(ReadReturn::Done));

    let ReadStep::Consume(consume) = io.poll_read(&mut stats, 10) else {
        panic!("nothing is read in debt");
    };
    assert_eq!(consume.bytes, 40);
    let ReadStep::Sleep(sleep) = consume.on_consume(&mut io, &mut stats, BLOCKED, at(5)) else {
        panic!("the lease has nothing left");
    };
    assert!(!sleep.start);
    let (_, end) = sleep.on_sleep(&mut io, &mut stats, false, at(6));
    assert_eq!(end, ReadStep::Return(ReadReturn::Pending));
    let (told, next) = sleep.on_sleep(&mut io, &mut stats, true, at(13));
    let told = told.expect("the wait is over");
    assert_eq!(told.wait_ms, 10);
    assert!(told.blocked_user);
    assert!(!told.blocked_cidr);
    let ReadStep::Consume(consume) = next else {
        panic!("the debt is still there");
    };
    let ReadStep::Read(_) = consume.on_consume(&mut io, &mut stats, granted(40), at(14)) else {
        panic!("the debt is settled");
    };
    assert_eq!(io.c2s_rate_debt_bytes, 0);
}

#[test]
fn plain_write_is_counted() {
    let mut stats = Stats::new();
    let mut io = relay(&mut stats, false, None);
    let WriteStep::Write(stage) = io.poll_write(&mut stats, 50) else {
        panic!("nothing stands in the way of a write");
    };
    assert_eq!(stage.len, 50);
    let (told, end) = stage.on_write(&mut io, &mut stats, WriteOutcome::Ready(20), LAZY, at(8));
    assert_eq!(told, None);
    assert_eq!(end, ended(WriteReturn::Done(20), None));
    assert_eq!(io.counters.s2c_bytes, 20);
    assert_eq!(io.counters.s2c_ops, 1);
    assert_eq!(io.counters.last_activity_ms, 8);
    assert_eq!(stats.get_user_total_octets("alice"), 20);
    assert_eq!(
        stage.on_write(&mut io, &mut stats, WriteOutcome::Error, LAZY, at(9)).1,
        ended(WriteReturn::StreamError, None)
    );
    assert_eq!(io.counters.s2c_ops, 1);
}

#[test]
fn shaped_write_gives_back_what_it_does_not_use() {
    let mut stats = Stats::new();
    let mut io = relay(&mut stats, true, Some(100));
    let WriteStep::Consume(consume) = io.poll_write(&mut stats, 80) else {
        panic!("the lease is asked first");
    };
    assert_eq!(consume.len, 80);
    let WriteStep::Reserve(reserve) = consume.on_consume(&mut io, &mut stats, granted(60), at(1))
    else {
        panic!("the quota comes next");
    };
    assert_eq!(reserve.desired, 60);
    let WriteStep::Write(stage) = reserve.on_reserve(&mut io, &mut stats, false, at(2)) else {
        panic!("the share fits");
    };
    assert_eq!(stage.len, 60);
    let (_, end) = stage.on_write(&mut io, &mut stats, WriteOutcome::Ready(25), LAZY, at(3));
    assert_eq!(end, ended(WriteReturn::Done(25), Some(35)));
    assert_eq!(stats.get_user_quota_used("alice"), 25);
    assert_eq!(stats.get_quota_refund_bytes_total(), 35);
    assert_eq!(io.quota_bytes_since_check, 25);

    let WriteStep::Consume(consume) = io.poll_write(&mut stats, 500) else {
        panic!("the lease is asked first");
    };
    let WriteStep::Reserve(reserve) = consume.on_consume(&mut io, &mut stats, granted(500), at(4))
    else {
        panic!("the quota comes next");
    };
    assert_eq!(reserve.desired, 75);
    let WriteStep::Write(stage) = reserve.on_reserve(&mut io, &mut stats, false, at(5)) else {
        panic!("the share fits");
    };
    assert_eq!(
        stage.on_write(&mut io, &mut stats, WriteOutcome::Pending, LAZY, at(6)).1,
        ended(WriteReturn::Pending, Some(500))
    );
    assert_eq!(stats.get_user_quota_used("alice"), 25);
    assert_eq!(
        stage.on_write(&mut io, &mut stats, WriteOutcome::Error, LAZY, at(6)).1,
        ended(WriteReturn::StreamError, Some(500))
    );
}

#[test]
fn quota_is_looked_at_when_due() {
    let mut stats = Stats::new();
    let mut io = relay(&mut stats, false, Some(100));
    let often = QuotaCheck {
        immediate: false,
        interval: 60,
    };
    for (bytes, exceeded, since) in [(50, false, 50), (50, true, 0)] {
        let WriteStep::Reserve(reserve) = io.poll_write(&mut stats, bytes) else {
            panic!("the quota comes first");
        };
        let WriteStep::Write(stage) = reserve.on_reserve(&mut io, &mut stats, false, at(1)) else {
            panic!("the share fits");
        };
        let (_, end) = stage.on_write(&mut io, &mut stats, WriteOutcome::Ready(bytes), often, at(2));
        assert_eq!(end, ended(WriteReturn::Done(bytes), None));
        assert_eq!(io.quota_exceeded, exceeded);
        assert_eq!(io.quota_bytes_since_check, since);
    }

    // A used up quota that no look was due for is found out by the next write.
    let mut lazy = relay(&mut stats, true, Some(100));
    let WriteStep::Consume(consume) = lazy.poll_write(&mut stats, 10) else {
        panic!("the lease is asked first");
    };
    assert_eq!(
        consume.on_consume(&mut lazy, &mut stats, granted(10), at(3)),
        ended(WriteReturn::QuotaError, Some(10))
    );
    assert!(lazy.quota_exceeded);
    let mut empty = relay(&mut stats, true, Some(100));
    assert_eq!(
        empty.poll_write(&mut stats, 0),
        ended(WriteReturn::QuotaError, Some(0))
    );
}

#[test]
fn blocked_write_waits_for_the_lease() {
    let mut stats = Stats::new();
    let mut io = relay(&mut stats, true, None);
    let WriteStep::Consume(consume) = io.poll_write(&mut stats, 10) else {
        panic!("the lease is asked first");
    };
    let WriteStep::Sleep(sleep) = consume.on_consume(&mut io, &mut stats, BLOCKED, at(10)) else {
        panic!("the lease has nothing left");
    };
    assert!(sleep.start);
    assert_eq!(
        sleep.on_sleep(&mut io, &mut stats, false, at(11)),
        (None, ended(WriteReturn::Pending, None))
    );
    // The timer still runs when the lease has something again.
    let WriteStep::Sleep(glance) = consume.on_consume(&mut io, &mut stats, granted(4), at(12)) else {
        panic!("the timer is looked at");
    };
    assert!(!glance.start);
    let (told, next) = glance.on_sleep(&mut io, &mut stats, false, at(13));
    assert_eq!(told, None);
    let WriteStep::Write(stage) = next else {
        panic!("the write goes on either way");
    };
    assert_eq!(stage.len, 4);
    let (told, end) = stage.on_write(&mut io, &mut stats, WriteOutcome::Ready(4), LAZY, at(15));
    assert_eq!(end, ended(WriteReturn::Done(4), None));
    let told = told.expect("the wait is over");
    assert_eq!(told.wait_ms, 5);
    assert!(told.blocked_user);
    assert_eq!(io.s2c_wait.started_at, None);
}

#[test]
fn contended_write_gives_everything_back() {
    let mut stats = Stats::new();
    let mut io = relay(&mut stats, true, Some(100));
    let WriteStep::Consume(consume) = io.poll_write(&mut stats, 30) else {
        panic!("the lease is asked first");
    };
    let mut step = consume.on_consume(&mut io, &mut stats, granted(30), at(1));
    for _ in 0..4 {
        let WriteStep::Reserve(reserve) = step else {
            panic!("there are attempts left");
        };
        step = reserve.on_reserve(&mut io, &mut stats, true, at(2));
    }
    let WriteStep::QuotaSleep(sleep) = step else {
        panic!("the attempts are used up");
    };
    assert!(sleep.start);
    assert_eq!(sleep.lease_refund, Some(30));
    assert_eq!(stats.get_quota_contention_total(), 4);
    assert_eq!(stats.get_quota_contention_timeout_total(), 1);
    assert_eq!(
        sleep.on_sleep(&mut io, &mut stats, false, at(3)),
        ended(WriteReturn::Pending, None)
    );
    assert_eq!(stats.get_user_quota_used("alice"), 0);
}

#[test]
fn waits_are_told_once() {
    let mut wait = RateWait::new();
    assert_eq!(wait.record_wait(at(0)), None);
    assert!(wait.arm_wait(at(1), false, true));
    assert!(!wait.arm_wait(at(2), true, false));
    assert_eq!(wait.poll_wait(false, at(3)), None);
    let told = wait.poll_wait(true, at(4)).expect("the wait is over");
    assert_eq!(told.wait_ms, 3);
    assert!(told.blocked_user && told.blocked_cidr);
    assert_eq!(wait, RateWait::new());
}

#[test]
fn halves_are_joined() {
    let stream = CombinedStream::new("reader", 7);
    assert_eq!(stream.reader, "reader");
    assert_eq!(stream.writer, 7);
}
