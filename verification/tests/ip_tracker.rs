//! Client addresses.

use relay_core::ip_tracker::{
    CountTable, IpAddr, UserIpTracker, UserMaxUniqueIpsMode, CLEANUP_DRAIN_BATCH_LIMIT,
    MAX_ACTIVE_IP_ENTRIES, USER_IP_TRACKER_SHARDS,
};
use relay_core::table::Table;
use relay_core::time::Duration;

fn ip(last: u32) -> IpAddr {
    IpAddr::V4(0x0a00_0000 + last)
}

fn all_free() -> Vec<bool> {
    vec![true; USER_IP_TRACKER_SHARDS]
}

#[test]
fn nothing_is_taken_from_a_user_without_addresses() {
    let mut queue: CountTable = Table::new();
    assert!(UserIpTracker::pop_one_cleanup(&mut queue).is_none());
    assert!(queue.insert("alice".to_string(), Table::new()).is_none());
    assert!(UserIpTracker::pop_one_cleanup(&mut queue).is_none());
    assert_eq!(queue.len(), 1);
}

#[test]
fn new_tracker_is_empty() {
    let tracker = UserIpTracker::default();
    let stats = tracker.memory_stats();
    assert_eq!(stats.active_users, 0);
    assert_eq!(stats.recent_users, 0);
    assert_eq!(stats.active_entries, 0);
    assert_eq!(stats.recent_entries, 0);
    assert_eq!(stats.cleanup_queue_len, 0);
    assert_eq!(stats.cleanup_deferred_releases, 0);
    assert_eq!(tracker.user_limit("alice"), None);
    assert_eq!(tracker.limit_window(), Duration::from_secs(30));
    assert_eq!(tracker.limit_mode(), UserMaxUniqueIpsMode::ActiveWindow);
}

#[test]
fn modes_are_found_again() {
    for mode in [
        UserMaxUniqueIpsMode::ActiveWindow,
        UserMaxUniqueIpsMode::TimeWindow,
        UserMaxUniqueIpsMode::Combined,
    ] {
        assert_eq!(UserIpTracker::mode_from_u8(UserIpTracker::mode_to_u8(mode)), mode);
    }
    assert_eq!(UserIpTracker::mode_to_u8(UserMaxUniqueIpsMode::Combined), 2);
    assert_eq!(UserIpTracker::mode_from_u8(77), UserMaxUniqueIpsMode::ActiveWindow);
}

#[test]
fn limits_fall_back_to_the_default() {
    let mut tracker = UserIpTracker::new();
    tracker.set_user_limit("alice".to_string(), 3);
    tracker.set_user_limit("bob".to_string(), 0);
    assert_eq!(tracker.user_limit("alice"), Some(3));
    assert_eq!(tracker.user_limit("bob"), None);
    tracker.set_default_limit(8);
    assert_eq!(tracker.user_limit("alice"), Some(3));
    assert_eq!(tracker.user_limit("bob"), Some(8));
    assert_eq!(tracker.user_limit("carol"), Some(8));
    tracker.set_user_limit("alice".to_string(), 5);
    assert_eq!(tracker.user_limit("alice"), Some(5));
    tracker.set_limit_policy(UserMaxUniqueIpsMode::TimeWindow, 0);
    assert_eq!(tracker.limit_window(), Duration::from_secs(1));
    assert_eq!(tracker.limit_mode(), UserMaxUniqueIpsMode::TimeWindow);
}

#[test]
fn users_are_spread_over_the_shards() {
    let mut used = [false; 64];
    for i in 0..1_000 {
        used[UserIpTracker::shard_idx(&format!("user-{i}"))] = true;
    }
    assert!(used.iter().all(|hit| *hit));
    assert_eq!(UserIpTracker::shard_idx("alice"), UserIpTracker::shard_idx("alice"));
}

#[test]
fn counters_stay_in_range() {
    let mut counter = 5;
    UserIpTracker::decrement_counter(&mut counter, 0);
    assert_eq!(counter, 5);
    UserIpTracker::decrement_counter(&mut counter, 3);
    assert_eq!(counter, 2);
    UserIpTracker::decrement_counter(&mut counter, 3);
    assert_eq!(counter, 0);
    assert!(UserIpTracker::try_increment_counter(&mut counter, 1));
    assert!(!UserIpTracker::try_increment_counter(&mut counter, 1));
    assert_eq!(counter, 1);
}

fn table(entries: &[(&str, u32, usize)]) -> CountTable {
    let mut table: CountTable = Table::new();
    for (user, last, count) in entries {
        let user = user.to_string();
        let mut ips = table.remove(&user).unwrap_or(Table::new());
        ips.insert(ip(*last), *count);
        table.insert(user, ips);
    }
    table
}

fn count(table: &CountTable, user: &str, last: u32) -> Option<usize> {
    table
        .get(&user.to_string())
        .and_then(|ips| ips.get(&ip(last)).copied())
}

#[test]
fn cleanup_takes_connections_off() {
    let mut active = table(&[("alice", 1, 5), ("alice", 2, 1), ("bob", 1, 2)]);
    assert_eq!(UserIpTracker::apply_active_cleanup(&mut active, "alice", ip(1), 0), 0);
    assert_eq!(UserIpTracker::apply_active_cleanup(&mut active, "alice", ip(1), 4), 0);
    assert_eq!(count(&active, "alice", 1), Some(1));
    assert_eq!(UserIpTracker::apply_active_cleanup(&mut active, "alice", ip(1), 1), 1);
    assert_eq!(count(&active, "alice", 1), None);
    assert_eq!(UserIpTracker::apply_active_cleanup(&mut active, "alice", ip(9), 1), 0);
    assert_eq!(UserIpTracker::apply_active_cleanup(&mut active, "carol", ip(1), 1), 0);
    assert_eq!(UserIpTracker::apply_active_cleanup(&mut active, "alice", ip(2), 7), 1);
    assert!(!active.contains_key(&"alice".to_string()));
    assert_eq!(count(&active, "bob", 1), Some(2));
}

#[test]
fn queue_is_popped_until_it_is_empty() {
    let mut queue = table(&[("alice", 1, 5), ("alice", 2, 1), ("bob", 1, 2)]);
    let mut popped = Vec::new();
    while let Some((user, address, pending)) = UserIpTracker::pop_one_cleanup(&mut queue) {
        popped.push((user, address, pending));
    }
    popped.sort_by_key(|item| item.2);
    assert_eq!(
        popped,
        vec![
            ("alice".to_string(), ip(2), 1),
            ("bob".to_string(), ip(1), 2),
            ("alice".to_string(), ip(1), 5),
        ]
    );
    assert!(queue.is_empty());
}

#[test]
fn queued_connections_are_closed_by_the_next_drain() {
    let mut tracker = UserIpTracker::new();
    let alice = "alice".to_string();
    for _ in 0..3 {
        assert!(tracker.add_active(alice.clone(), ip(1)));
    }
    assert!(tracker.add_active(alice.clone(), ip(2)));
    assert_eq!(tracker.memory_stats().active_entries, 2);
    assert_eq!(tracker.memory_stats().active_users, 1);

    tracker.enqueue_cleanup(alice.clone(), ip(1));
    tracker.enqueue_cleanup(alice.clone(), ip(1));
    tracker.enqueue_cleanup(alice.clone(), ip(2));
    assert_eq!(tracker.cleanup_queue_len(), 2);
    assert_eq!(tracker.memory_stats().cleanup_deferred_releases, 3);
    assert_eq!(tracker.active_connections(&alice, ip(1)), 3);

    tracker.drain_cleanup_for_user("bob");
    assert_eq!(tracker.cleanup_queue_len(), 2);
    tracker.drain_cleanup_for_user("alice");
    assert_eq!(tracker.cleanup_queue_len(), 0);
    assert_eq!(tracker.active_connections(&alice, ip(1)), 1);
    assert_eq!(tracker.active_connections(&alice, ip(2)), 0);
    assert_eq!(tracker.memory_stats().active_entries, 1);
    assert_eq!(tracker.memory_stats().cleanup_queue_len, 0);
}

#[test]
fn drain_of_everything_takes_a_batch_of_each_shard() {
    let mut tracker = UserIpTracker::new();
    let alice = "alice".to_string();
    let more = CLEANUP_DRAIN_BATCH_LIMIT as u32 + 10;
    for last in 0..more {
        assert!(tracker.add_active(alice.clone(), ip(last)));
        tracker.enqueue_cleanup(alice.clone(), ip(last));
    }
    assert!(tracker.add_active("bob".to_string(), ip(1)));
    tracker.enqueue_cleanup("bob".to_string(), ip(1));
    assert_eq!(tracker.cleanup_queue_len(), u64::from(more) + 1);

    let mut locked = all_free();
    locked[UserIpTracker::shard_idx("alice")] = false;
    tracker.drain_cleanup_queue(&locked);
    assert_eq!(tracker.active_connections(&"bob".to_string(), ip(1)), 0);
    assert_eq!(tracker.cleanup_queue_len(), u64::from(more));

    tracker.drain_cleanup_queue(&all_free());
    assert_eq!(tracker.cleanup_queue_len(), 10);
    assert_eq!(tracker.memory_stats().active_entries, 10);
    tracker.drain_cleanup_shard(UserIpTracker::shard_idx("alice"), false);
    assert_eq!(tracker.cleanup_queue_len(), 10);
    tracker.drain_cleanup_shard(UserIpTracker::shard_idx("alice"), true);
    assert_eq!(tracker.cleanup_queue_len(), 0);
    assert_eq!(tracker.memory_stats().active_entries, 0);
    assert_eq!(tracker.memory_stats().active_users, 0);
    tracker.drain_cleanup_queue(&all_free());
    assert_eq!(tracker.cleanup_queue_len(), 0);
}

#[test]
fn surplus_releases_are_forgiven() {
    let mut tracker = UserIpTracker::new();
    let alice = "alice".to_string();
    assert!(tracker.add_active(alice.clone(), ip(1)));
    for _ in 0..5 {
        tracker.enqueue_cleanup(alice.clone(), ip(1));
    }
    tracker.enqueue_cleanup(alice.clone(), IpAddr::V6(1));
    tracker.drain_cleanup_queue(&all_free());
    assert_eq!(tracker.active_connections(&alice, ip(1)), 0);
    assert_eq!(tracker.memory_stats().active_entries, 0);
    assert_eq!(tracker.cleanup_queue_len(), 0);
}

#[test]
fn pairs_are_limited() {
    let mut tracker = UserIpTracker::new();
    // Many users keep the table of each of them short.
    let per_user = 64u32;
    let users = MAX_ACTIVE_IP_ENTRIES as u32 / per_user;
    for user in 0..users {
        for last in 0..per_user {
            assert!(tracker.add_active(format!("user-{user}"), ip(last)));
        }
    }
    assert!(!tracker.add_active("one more".to_string(), ip(1)));
    assert!(tracker.add_active("user-0".to_string(), ip(0)));
    let stats = tracker.memory_stats();
    assert_eq!(stats.active_cap_rejects, 1);
    assert_eq!(stats.active_entries, MAX_ACTIVE_IP_ENTRIES as usize);
    assert_eq!(stats.active_users, users as usize);
}

#[test]
fn queued_connections_are_counted_by_pair() {
    let mut tracker = UserIpTracker::new();
    let closed = [
        ("alice", ip(1)),
        ("alice", ip(2)),
        ("bob", ip(1)),
        ("alice", ip(1)),
        ("alice", IpAddr::V6(1)),
        ("alice", ip(1)),
        ("bob", ip(1)),
    ];
    for (user, address) in closed {
        tracker.enqueue_cleanup(user.to_string(), address);
    }
    let stats = tracker.memory_stats();
    assert_eq!(stats.cleanup_queue_len, 4);
    assert_eq!(stats.cleanup_deferred_releases, 7);
    assert_eq!(stats.active_entries, 0);
    assert_eq!(stats.active_users, 0);
    assert_eq!(stats.recent_users, 0);

    // What is pending is taken off later, pair by pair.
    for _ in 0..9 {
        for (user, address) in [("alice", ip(1)), ("alice", ip(2)), ("bob", ip(1))] {
            assert!(tracker.add_active(user.to_string(), address));
        }
    }
    tracker.drain_cleanup_queue(&all_free());
    assert_eq!(tracker.active_connections(&"alice".to_string(), ip(1)), 6);
    assert_eq!(tracker.active_connections(&"alice".to_string(), ip(2)), 8);
    assert_eq!(tracker.active_connections(&"bob".to_string(), ip(1)), 7);
}
