use courtyard_core::clock::DateTimeParts;
use courtyard_core::outdir::{format_timestamp_id, timestamp_id_from, OutputRoot};

fn parts(year: i32, month: u32, day: u32, hour: u32, minute: u32, second: u32) -> DateTimeParts {
    DateTimeParts { year, month, day, hour, minute, second }
}

#[test]
fn timestamp_id_is_fixed_width_and_zero_padded() {
    let id = format_timestamp_id(&parts(2025, 1, 1, 0, 5, 12));
    assert_eq!(id.as_str(), "20250101_000512");
    let id = format_timestamp_id(&parts(2026, 2, 11, 10, 30, 31));
    assert_eq!(id.as_str(), "20260211_103031");
}

#[test]
fn timestamp_ids_sort_like_time() {
    let earlier = format_timestamp_id(&parts(2025, 1, 1, 0, 0, 0));
    let later = format_timestamp_id(&parts(2025, 1, 1, 0, 5, 12));
    assert!(earlier.as_str() < later.as_str());
}

#[test]
fn timestamp_id_from_rejects_negative_years() {
    assert!(timestamp_id_from(&parts(-1, 1, 1, 0, 0, 0)).is_none());
    let id = timestamp_id_from(&parts(2025, 1, 1, 0, 0, 0)).expect("year in range");
    assert_eq!(id.as_str(), "20250101_000000");
}

#[test]
fn allocate_then_promote_moves_the_directory() {
    let mut root = OutputRoot::new();
    root.allocate(String::from("20250101_000000"));
    assert!(root.contains("20250101_000000"));
    let final_id = root.promote("20250101_000000", String::from("20250101_000512"), true);
    assert_eq!(final_id.as_str(), "20250101_000512");
    assert!(root.contains("20250101_000512"));
    assert!(!root.contains("20250101_000000"));
}

#[test]
fn failed_rename_keeps_the_staging_identifier_as_final() {
    let mut root = OutputRoot::new();
    root.allocate(String::from("20250101_000000"));
    let final_id = root.promote("20250101_000000", String::from("20250101_000512"), false);
    assert_eq!(final_id.as_str(), "20250101_000000");
    assert!(root.contains("20250101_000000"));
    assert!(!root.contains("20250101_000512"));
}

#[test]
fn discard_removes_the_staging_directory() {
    let mut root = OutputRoot::new();
    root.allocate(String::from("20250101_000000"));
    root.discard("20250101_000000");
    assert!(!root.contains("20250101_000000"));
}

#[test]
fn discard_of_externally_removed_directory_does_not_raise() {
    let mut root = OutputRoot::new();
    root.discard("20250101_000000");
    root.discard("20250101_000000");
    assert!(!root.contains("20250101_000000"));
}

#[test]
fn same_second_promotion_keeps_the_directory() {
    let mut root = OutputRoot::new();
    root.allocate(String::from("20250101_000000"));
    let final_id = root.promote("20250101_000000", String::from("20250101_000000"), true);
    assert_eq!(final_id.as_str(), "20250101_000000");
    assert!(root.contains("20250101_000000"));
}
