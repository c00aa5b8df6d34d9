//! Replay detection.

use relay_core::stats::replay::ReplayChecker;
use relay_core::time::{Clock, Duration, Instant};

#[test]
fn test_replay_checker_basic() {
    let mut checker = ReplayChecker::new(100, Duration::from_secs(60));
    assert!(!checker.check_handshake(b"test1")); // first time, inserts
    assert!(checker.check_handshake(b"test1")); // duplicate
    assert!(!checker.check_handshake(b"test2")); // new key inserts
}

#[test]
fn test_replay_checker_duplicate_add() {
    let mut checker = ReplayChecker::new(100, Duration::from_secs(60));
    checker.add_handshake(b"dup");
    checker.add_handshake(b"dup");
    assert!(checker.check_handshake(b"dup"));
}

#[test]
fn test_replay_checker_zero_window_does_not_retain_entries() {
    let mut checker = ReplayChecker::new(100, Duration::from_secs(0));

    for _ in 0..1_000 {
        assert!(!checker.check_handshake(b"no-retain"));
        checker.add_handshake(b"no-retain");
    }

    let stats = checker.stats();
    assert_eq!(stats.total_entries, 0);
    assert_eq!(stats.total_queue_len, 0);
}

#[test]
fn test_replay_checker_stats() {
    let mut checker = ReplayChecker::new(100, Duration::from_secs(60));
    assert!(!checker.check_handshake(b"k1"));
    assert!(!checker.check_handshake(b"k2"));
    assert!(checker.check_handshake(b"k1"));
    assert!(!checker.check_handshake(b"k3"));
    let stats = checker.stats();
    assert_eq!(stats.total_additions, 3);
    assert_eq!(stats.total_checks, 4);
    assert_eq!(stats.total_hits, 1);
}

#[test]
fn test_replay_checker_many_keys() {
    let mut checker = ReplayChecker::new(10_000, Duration::from_secs(60));
    for i in 0..500u32 {
        checker.add_handshake(&i.to_le_bytes());
    }
    for i in 0..500u32 {
        assert!(checker.check_handshake(&i.to_le_bytes()));
    }
    assert_eq!(checker.stats().total_entries, 500);
}

#[test]
fn test_replay_checker_expiration() {
    let mut checker = ReplayChecker::new(100, Duration::from_millis(50));
    assert!(!checker.check_handshake(b"expire"));
    assert!(checker.check_handshake(b"expire"));
    let start = std::time::Instant::now();
    while start.elapsed() < std::time::Duration::from_millis(100) {}
    assert!(!checker.check_handshake(b"expire"));
}

/// An instant so many milliseconds after the start of a clock.
fn at(millis: u64) -> Instant {
    Clock::instant_after(u128::from(millis) * 1_000_000)
}

#[test]
fn replay_expires_with_its_window() {
    let mut checker = ReplayChecker::new(100, Duration::from_millis(50));
    assert!(!checker.check_and_add_handshake_at(b"expire", at(0)));
    assert!(checker.check_and_add_handshake_at(b"expire", at(20)));
    assert!(checker.check_and_add_handshake_at(b"expire", at(50)));
    assert!(!checker.check_and_add_handshake_at(b"expire", at(51)));
    assert!(checker.check_and_add_handshake_at(b"expire", at(101)));
}

#[test]
fn tls_digests_have_a_window_of_two_minutes_at_least() {
    let mut checker = ReplayChecker::new(100, Duration::from_secs(1));
    checker.add_tls_digest_at(b"digest", at(0));
    assert!(checker.check_tls_digest_at(b"digest", at(120_000)));
    assert!(!checker.check_tls_digest_at(b"digest", at(120_001)));

    let mut longer = ReplayChecker::new(100, Duration::from_secs(300));
    assert!(!longer.check_and_add_tls_digest_at(b"digest", at(0)));
    assert!(longer.check_and_add_tls_digest_at(b"digest", at(300_000)));
    assert!(!longer.check_and_add_tls_digest_at(b"digest", at(300_001)));
}

#[test]
fn checking_a_tls_digest_does_not_add_it() {
    let mut checker = ReplayChecker::new(100, Duration::from_secs(60));
    assert!(!checker.check_tls_digest(b"digest"));
    assert!(!checker.check_tls_digest(b"digest"));
    checker.add_tls_digest(b"digest");
    assert!(checker.check_tls_digest(b"digest"));
    assert!(checker.check_and_add_tls_digest(b"digest"));
    assert!(!checker.check_and_add_handshake(b"digest"));
    let stats = checker.stats();
    assert_eq!(stats.total_checks, 5);
    assert_eq!(stats.total_hits, 2);
    assert_eq!(stats.total_additions, 2);
    assert_eq!(stats.total_entries, 2);
}

#[test]
fn oldest_key_makes_room() {
    // One key for each shard.
    let mut checker = ReplayChecker::new(10, Duration::from_secs(60));
    for i in 0..1_000u32 {
        assert!(!checker.check_and_add_handshake_at(&i.to_le_bytes(), at(u64::from(i))));
    }
    let stats = checker.stats();
    assert_eq!(stats.total_entries, 64);
    assert_eq!(stats.total_queue_len, 64);
    assert!(checker.check_and_add_handshake_at(&999u32.to_le_bytes(), at(1_000)));
}

#[test]
fn long_and_short_keys_are_kept_alike() {
    let mut checker = ReplayChecker::new(6_400, Duration::from_secs(60));
    let short = [7u8; 48];
    let long = [7u8; 49];
    let empty: [u8; 0] = [];
    for key in [&short[..], &long[..], &empty[..]] {
        assert!(!checker.check_and_add_handshake(key));
        assert!(checker.check_and_add_handshake(key));
    }
    assert!(!checker.check_and_add_handshake(&short[..47]));
}

#[test]
fn periodic_cleanup_forgets_expired_keys() {
    let mut checker = ReplayChecker::new(6_400, Duration::from_secs(60));
    for i in 0..10u32 {
        checker.add_handshake_at(&i.to_le_bytes(), at(u64::from(i) * 1_000));
        checker.add_tls_digest_at(&i.to_le_bytes(), at(u64::from(i) * 1_000));
    }
    assert_eq!(checker.cleanup_pass_at(at(64_000)), 4);
    assert_eq!(checker.stats().total_entries, 16);
    assert_eq!(checker.stats().total_cleanups, 1);
    assert_eq!(checker.cleanup_pass_at(at(125_000)), 6 + 5);
    assert_eq!(checker.stats().total_entries, 5);
    assert_eq!(checker.cleanup_pass(), 0);
    assert_eq!(checker.stats().total_cleanups, 3);
}

#[test]
fn empty_window_is_cleaned_out_at_once() {
    let mut checker = ReplayChecker::new(100, Duration::from_secs(0));
    checker.add_tls_digest_at(b"kept for tls", at(0));
    assert_eq!(checker.stats().total_entries, 1);
    assert_eq!(checker.cleanup_pass_at(at(1)), 0);
    assert_eq!(checker.stats().total_entries, 1);
    assert_eq!(checker.stats().window_secs, 0);
}

#[test]
fn cleanup_interval_follows_the_window() {
    let cases = [(0, 1), (1, 1), (2, 1), (3, 1), (4, 2), (59, 29), (60, 30), (61, 30), (3_600, 30)];
    for (window, interval) in cases {
        let checker = ReplayChecker::new(100, Duration::from_secs(window));
        assert_eq!(checker.cleanup_interval(), Duration::from_secs(interval));
        assert_eq!(checker.stats().num_shards, 128);
        assert_eq!(checker.stats().window_secs, window);
    }
}

#[test]
fn window_longer_than_the_readings_of_the_clock_forgets_nothing() {
    // Ten thousand years.
    let mut checker = ReplayChecker::new(100, Duration::from_secs(315_360_000_000));
    assert!(!checker.check_and_add_handshake_at(b"key", at(0)));
    assert!(checker.check_and_add_handshake_at(b"key", at(1_000)));
    assert!(!checker.check_and_add_tls_digest_at(b"key", at(0)));
    assert!(checker.check_tls_digest_at(b"key", at(1_000)));
    assert_eq!(checker.cleanup_pass_at(at(2_000)), 0);
    // A window that no clock reaches back to covers the present alone.
    let mut endless = ReplayChecker::new(100, Duration::from_secs(u64::MAX));
    assert!(!endless.check_and_add_handshake_at(b"key", at(0)));
    assert!(endless.check_and_add_handshake_at(b"key", at(0)));
    assert!(!endless.check_and_add_handshake_at(b"key", at(1)));
}

#[test]
fn replay_is_found_whatever_happens_in_between() {
    let mut checker = ReplayChecker::new(640, Duration::from_secs(60));
    assert!(!checker.check_and_add_handshake_at(b"shown", at(0)));
    checker.add_handshake_at(b"added", at(0));
    assert!(!checker.check_and_add_tls_digest_at(b"shown", at(0)));
    checker.add_tls_digest_at(b"added", at(0));
    for i in 0..9_u64 {
        let other = i.to_le_bytes();
        checker.add_handshake_at(&other, at(i));
        checker.add_tls_digest_at(&other, at(i));
        assert!(checker.check_tls_digest_at(&other, at(i)));
        let _ = checker.cleanup_pass_at(at(i));
    }
    assert!(checker.check_and_add_handshake_at(b"shown", at(60_000)));
    assert!(checker.check_and_add_handshake_at(b"added", at(60_000)));
    assert!(checker.check_and_add_tls_digest_at(b"shown", at(120_000)));
    assert!(checker.check_and_add_tls_digest_at(b"added", at(120_000)));
}

#[test]
fn counts_add_up_and_the_capacity_is_kept() {
    let mut checker = ReplayChecker::new(64, Duration::from_secs(60));
    for i in 0..1_000_u64 {
        let key = (i % 300).to_le_bytes();
        checker.check_and_add_handshake_at(&key, at(i));
        checker.check_and_add_tls_digest_at(&key, at(i));
        checker.check_and_add_handshake_at(&key, at(i));
    }
    let stats = checker.stats();
    assert_eq!(stats.total_checks, 3_000);
    assert!(stats.total_hits >= 1_000);
    assert_eq!(stats.total_hits + stats.total_additions, stats.total_checks);
    assert!(stats.total_entries > 0);
    assert!(stats.total_entries <= 128);
    assert_eq!(stats.total_queue_len, stats.total_entries);
    assert_eq!(stats.num_shards, 128);
    assert_eq!(stats.window_secs, 60);
}

#[test]
fn repeats_and_other_shards_do_not_push_a_key_out() {
    // Each shard keeps one key.
    let mut checker = ReplayChecker::new(100, Duration::from_secs(60));
    checker.add_handshake_at(b"key", at(0));
    checker.add_tls_digest_at(b"key", at(0));
    for millis in 1..50 {
        checker.add_handshake_at(b"key", at(millis));
        assert!(checker.check_and_add_handshake_at(b"key", at(millis)));
        checker.add_tls_digest_at(b"key", at(millis));
        assert!(checker.check_tls_digest_at(b"key", at(millis)));
        assert_eq!(checker.cleanup_pass_at(at(millis)), 0);
    }
    // The time of the first addition counts, not that of the repeats.
    assert!(checker.check_and_add_handshake_at(b"key", at(60_000)));
    assert!(!checker.check_and_add_handshake_at(b"key", at(60_001)));
    assert!(checker.check_and_add_tls_digest_at(b"key", at(120_000)));
    assert!(!checker.check_and_add_tls_digest_at(b"key", at(120_001)));
}

#[test]
fn new_keys_of_the_shard_alone_push_a_key_out() {
    let mut checker = ReplayChecker::new(64, Duration::from_secs(60));
    let mut kept: Vec<u64> = Vec::new();
    for n in 0..1_000_u64 {
        let before = checker.stats().total_entries;
        assert!(!checker.check_and_add_handshake_at(&n.to_le_bytes(), at(0)));
        if checker.stats().total_entries > before {
            kept.push(n);
        }
    }
    // Every shard has got a key by now, and keeps the last one that was put into it.
    assert_eq!(kept.len(), 64);
    assert_eq!(checker.stats().total_entries, 64);
    let found = (0..1_000_u64)
        .rev()
        .take_while(|n| checker.check_and_add_handshake_at(&n.to_le_bytes(), at(1)))
        .count();
    assert!(found > 0);
}

#[test]
fn other_calls_do_not_keep_a_key_alive() {
    let mut checker = ReplayChecker::new(6_400, Duration::from_secs(60));
    assert!(!checker.check_and_add_handshake_at(b"key", at(0)));
    assert!(!checker.check_and_add_tls_digest_at(b"key", at(0)));
    for n in 0..20_u64 {
        let other = n.to_le_bytes();
        checker.add_handshake_at(&other, at(n * 3_000));
        checker.add_tls_digest_at(&other, at(n * 3_000));
        assert!(checker.check_and_add_handshake_at(b"key", at(n * 3_000)));
        assert!(checker.check_tls_digest_at(b"key", at(n * 3_000)));
    }
    assert!(!checker.check_and_add_handshake_at(b"key", at(60_001)));
    assert!(!checker.check_and_add_tls_digest_at(b"key", at(120_001)));
}
