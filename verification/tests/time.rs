//! Instants and durations.

use relay_core::time::{epoch_secs, now_epoch_secs, Clock, Duration, Instant, CLOCK_ORIGIN};

#[test]
fn durations_convert() {
    assert_eq!(Duration::from_millis(1_500).as_nanos(), 1_500_000_000);
    assert_eq!(Duration::from_millis(1_500).as_secs(), 1);
    assert_eq!(Duration::from_nanos(2_999_999).as_millis(), 2);
    assert_eq!(Duration::from_secs(u64::MAX).as_secs(), u64::MAX);
    assert!(Duration::from_millis(0).is_zero());
    assert!(!Duration::from_nanos(1).is_zero());
    assert_eq!(Duration::from_millis(1_000), Duration::from_secs(1));
    assert_eq!(
        Duration::from_secs(2).max(Duration::from_millis(2_001)),
        Duration::from_millis(2_001)
    );
}

#[test]
fn instants_are_compared() {
    let early = Instant { nanos: 10 };
    let late = Instant { nanos: 25 };
    assert_eq!(late.checked_duration_since(early), Some(Duration::from_nanos(15)));
    assert_eq!(early.checked_duration_since(late), None);
    assert_eq!(early.saturating_duration_since(late), Duration::from_nanos(0));
    assert_eq!(late.checked_sub(Duration::from_nanos(25)), Some(Instant { nanos: 0 }));
    assert_eq!(late.checked_sub(Duration::from_nanos(26)), Some(Instant { nanos: 0 }));
    assert_eq!(late.checked_sub(Duration::from_secs(1 << 63)), Some(Instant { nanos: 0 }));
    assert_eq!(late.checked_sub(Duration::from_secs((1 << 63) + 1)), None);
    assert_eq!(late.checked_sub(Duration::from_secs(u64::MAX)), None);
    assert_eq!(Instant { nanos: 5_999_999 }.millis_since(Instant { nanos: 1_000_000 }), 4);
    assert_eq!(early.millis_since(late), 0);
    assert_eq!(early.no_earlier_than(late), late);
    assert_eq!(late.no_earlier_than(early), late);
    assert_eq!(Duration::new(7, 5).as_nanos(), 7_000_000_005);
    assert_eq!(Duration::new(u64::MAX, 5).as_secs(), u64::MAX);
}

#[test]
fn clocks_run_forward() {
    let clock = Clock::start();
    let first = clock.now();
    let second = clock.now();
    assert!(first.nanos >= CLOCK_ORIGIN);
    assert!(second.nanos >= first.nanos);
    assert_eq!(Clock::instant_after(5), Instant { nanos: CLOCK_ORIGIN + 5 });
    assert_eq!(Clock::instant_after(u128::MAX), Instant { nanos: u64::MAX });
}

#[test]
fn calendar_runs() {
    // The first of January 2020.
    assert!(now_epoch_secs() > 1_577_836_800);
}

#[test]
fn calendar_before_the_epoch_shows_zero() {
    assert_eq!(epoch_secs(Some(1_577_836_800)), 1_577_836_800);
    assert_eq!(epoch_secs(Some(0)), 0);
    assert_eq!(epoch_secs(None), 0);
}
