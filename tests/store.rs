use ropias::db::{newest_first, ClipboardItem, DbConfig, StoreError, DEFAULT_DB_PATH};

fn row(id: i32, content: &str, at: &str) -> ClipboardItem {
    ClipboardItem::from_row(id, content.to_string(), at.to_string())
}

fn contents(items: &[ClipboardItem]) -> Vec<String> {
    items.iter().map(|i| i.content.clone()).collect()
}

#[test]
fn from_row_keeps_fields_and_is_not_favorite() {
    let item = row(7, "hello", "2024-01-02 03:04:05");
    assert_eq!(item.id, 7);
    assert_eq!(item.content, "hello");
    assert_eq!(item.created_at, "2024-01-02 03:04:05");
    assert!(!item.favorite);
}

#[test]
fn config_points_at_given_path() {
    let config = DbConfig::new(DEFAULT_DB_PATH.to_string());
    assert_eq!(config.path, "clipboard.db");
    assert!(!config.encrypt);
}

#[test]
fn empty_history_lists_nothing() {
    assert!(newest_first(Vec::new()).is_empty());
}

#[test]
fn appends_are_listed_in_reverse() {
    let rows = vec![
        row(1, "c1", "2024-01-01 10:00:00"),
        row(2, "c2", "2024-01-01 10:00:01"),
        row(3, "c3", "2024-01-01 10:00:02"),
    ];
    assert_eq!(contents(&newest_first(rows)), vec!["c3", "c2", "c1"]);
}

#[test]
fn same_second_entries_are_listed_by_id() {
    let rows = vec![
        row(1, "first", "2024-01-01 10:00:00"),
        row(2, "second", "2024-01-01 10:00:00"),
        row(3, "third", "2024-01-01 10:00:00"),
    ];
    let listed = newest_first(rows);
    assert_eq!(contents(&listed), vec!["third", "second", "first"]);
    assert_eq!(listed.iter().map(|i| i.id).collect::<Vec<_>>(), vec![3, 2, 1]);
}

#[test]
fn rows_read_in_any_order_are_sorted() {
    let rows = vec![
        row(2, "b", "2024-01-01 10:00:01"),
        row(5, "e", "2024-03-01 00:00:00"),
        row(1, "a", "2024-01-01 10:00:00"),
        row(4, "d", "2024-02-01 00:00:00"),
        row(3, "c", "2024-01-01 10:00:01"),
    ];
    assert_eq!(contents(&newest_first(rows)), vec!["e", "d", "c", "b", "a"]);
}

#[test]
fn later_stamp_wins_over_larger_id() {
    let rows = vec![row(9, "old", "2024-01-01 09:00:00"), row(2, "new", "2024-01-01 10:00:00")];
    assert_eq!(contents(&newest_first(rows)), vec!["new", "old"]);
}

#[test]
fn longer_stamp_with_same_prefix_is_later() {
    let rows = vec![row(2, "short", "2024-01-01"), row(1, "long", "2024-01-01 00:00:00")];
    assert_eq!(contents(&newest_first(rows)), vec!["long", "short"]);
}

#[test]
fn appended_entry_is_read_first() {
    let mut rows = vec![row(1, "x", "2024-01-01 10:00:00"), row(2, "y", "2024-01-01 10:00:05")];
    rows.push(row(3, "fresh", "2024-01-01 10:00:05"));
    let listed = newest_first(rows);
    assert_eq!(listed[0].content, "fresh");
    assert_eq!(listed.len(), 3);
}

#[test]
fn store_errors_are_distinct() {
    assert_ne!(StoreError::StorageInitError, StoreError::StorageWriteError);
    assert_ne!(StoreError::StorageWriteError, StoreError::StorageReadError);
    assert_ne!(StoreError::StorageInitError, StoreError::StorageReadError);
}
