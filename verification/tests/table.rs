//! Tables and texts.

use relay_core::ip_tracker::IpAddr;
use relay_core::table::Table;
use relay_core::text::{append_decimal, append_hexadecimal};

#[test]
fn tables_map_keys_to_values() {
    let mut table: Table<String, u32> = Table::new();
    assert!(table.is_empty());
    assert!(table.any_key().is_none());
    assert!(table.pop().is_none());
    assert_eq!(table.insert("a".to_string(), 1), None);
    assert_eq!(table.insert("b".to_string(), 2), None);
    assert_eq!(table.insert("a".to_string(), 3), Some(1));
    assert_eq!(table.len(), 2);
    assert_eq!(table.get(&"a".to_string()), Some(&3));
    assert!(table.contains_key(&"b".to_string()));
    assert!(!table.contains_key(&"c".to_string()));
    assert_eq!(table.remove(&"a".to_string()), Some(3));
    assert_eq!(table.remove(&"a".to_string()), None);
    assert_eq!(table.any_key(), Some(&"b".to_string()));
    assert_eq!(table.pop(), Some(("b".to_string(), 2)));
    assert!(table.is_empty());
}

#[test]
fn tables_keep_track_of_pairs_that_move() {
    let mut table: Table<IpAddr, u32> = Table::new();
    for n in 0..100 {
        assert_eq!(table.insert(IpAddr::V4(n), n), None);
        assert_eq!(table.insert(IpAddr::V6(u128::from(n)), 1_000 + n), None);
    }
    for n in (0..100).step_by(3) {
        assert_eq!(table.remove(&IpAddr::V4(n)), Some(n));
    }
    for n in 0..100 {
        let expected = if n % 3 == 0 { None } else { Some(n) };
        assert_eq!(table.get(&IpAddr::V4(n)).copied(), expected);
        assert_eq!(table.get(&IpAddr::V6(u128::from(n))), Some(&(1_000 + n)));
    }
    let mut left = table.len();
    assert_eq!(left, 166);
    while let Some((ip, _)) = table.pop() {
        left -= 1;
        assert!(!table.contains_key(&ip));
        assert_eq!(table.len(), left);
    }
    assert_eq!(left, 0);
}

#[test]
fn numbers_become_text() {
    for value in [0, 9, 10, 99, 100, 1_234_567_890, u64::MAX] {
        let mut text = "n=".to_string();
        append_decimal(&mut text, value);
        assert_eq!(text, format!("n={value}"));
        let mut text = String::new();
        append_hexadecimal(&mut text, value, 16);
        assert_eq!(text, format!("{value:016x}"));
    }
    let mut text = String::new();
    append_hexadecimal(&mut text, 0xabcd, 2);
    assert_eq!(text, "cd");
}
