use aura::date::Date;
use aura::queue::RetryQueue;
use chrono::Datelike;

fn ymd(y: i32, m: u32, d: u32) -> Date {
    let nd = chrono::NaiveDate::from_ymd_opt(y, m, d).unwrap();
    Date::from_days(nd.num_days_from_ce() as i64).unwrap()
}

const NOW: i64 = 1_700_000_000;

#[test]
fn test_upsert_same_key_increments() {
    let mut q = RetryQueue::new();
    let date = ymd(2026, 2, 2);
    q.upsert_item("ramp", 1, date, Some("first"), NOW);
    q.upsert_item("ramp", 1, date, Some("second"), NOW + 60);
    let item = q.get_by_ramp_id("ramp").unwrap();
    assert_eq!(item.error_count, 2);
    assert_eq!(item.last_error_msg.as_deref(), Some("second"));
    assert_eq!(item.last_attempt_at, NOW + 60);
}

#[test]
fn test_upsert_changed_key_resets_count() {
    // When the transaction's date (or currency) was edited, the old wait
    // condition no longer applies and the error count starts over.
    let mut q = RetryQueue::new();
    q.upsert_item("ramp", 1, ymd(2026, 2, 2), Some("first"), NOW);
    q.upsert_item("ramp", 1, ymd(2026, 2, 2), Some("second"), NOW);
    assert_eq!(q.get_by_ramp_id("ramp").unwrap().error_count, 2);

    q.upsert_item("ramp", 1, ymd(2026, 2, 3), Some("moved"), NOW);
    let item = q.get_by_ramp_id("ramp").unwrap();
    assert_eq!(item.error_count, 1);
    assert_eq!(item.date, ymd(2026, 2, 3));
}

#[test]
fn test_remove_by_ramp_id_is_idempotent() {
    let mut q = RetryQueue::new();
    q.upsert_item("ramp", 1, ymd(2026, 2, 2), None, NOW);
    q.remove_by_ramp_id("ramp");
    assert!(q.is_empty());
    // Removing again, or removing something never queued, changes nothing.
    q.remove_by_ramp_id("ramp");
    q.remove_by_ramp_id("never-there");
    assert!(q.is_empty());
}

#[test]
fn test_remove_by_rate_key_is_idempotent() {
    let mut q = RetryQueue::new();
    let date = ymd(2026, 2, 2);
    q.upsert_item("a", 1, date, None, NOW);
    q.upsert_item("b", 2, date, None, NOW);
    q.remove_by_rate_key(1, date);
    assert!(q.get_by_ramp_id("a").is_none());
    assert!(q.get_by_ramp_id("b").is_some());
    // No match left: a further removal is a no-op.
    q.remove_by_rate_key(1, date);
    assert!(q.get_by_ramp_id("b").is_some());
}

#[test]
fn test_increment_error_by_rate_key_targets_key_only() {
    let mut q = RetryQueue::new();
    let date = ymd(2026, 2, 2);
    q.upsert_item("a", 1, date, None, NOW);
    q.upsert_item("b", 1, date, None, NOW);
    q.upsert_item("c", 2, date, None, NOW);
    q.increment_error_by_rate_key(1, date, "still missing", NOW + 60);
    assert_eq!(q.get_by_ramp_id("a").unwrap().error_count, 2);
    assert_eq!(q.get_by_ramp_id("b").unwrap().error_count, 2);
    assert_eq!(q.get_by_ramp_id("c").unwrap().error_count, 1);
    assert_eq!(
        q.get_by_ramp_id("a").unwrap().last_error_msg.as_deref(),
        Some("still missing")
    );
}
