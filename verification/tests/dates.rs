use aura::date::{Date, MAX_DAY_NUMBER, MIN_DAY_NUMBER};
use chrono::Datelike;

fn ymd(y: i32, m: u32, d: u32) -> Date {
    let nd = chrono::NaiveDate::from_ymd_opt(y, m, d).unwrap();
    Date::from_days(nd.num_days_from_ce() as i64).unwrap()
}

#[test]
fn test_is_weekend() {
    assert!(ymd(2026, 2, 7).is_weekend()); // Saturday
    assert!(ymd(2026, 2, 8).is_weekend()); // Sunday
    assert!(!ymd(2026, 2, 9).is_weekend()); // Monday
    assert!(!ymd(2026, 2, 6).is_weekend()); // Friday
}

#[test]
fn test_weekend_agrees_with_calendar() {
    // The day-number convention must agree with the calendar across a range
    // of dates.
    let start = chrono::NaiveDate::from_ymd_opt(2023, 12, 25).unwrap();
    for offset in 0..400 {
        let nd = start + chrono::Duration::days(offset);
        let date = Date::from_days(nd.num_days_from_ce() as i64).unwrap();
        let expected = matches!(nd.weekday(), chrono::Weekday::Sat | chrono::Weekday::Sun);
        assert_eq!(date.is_weekend(), expected, "mismatch on {nd}");
    }
}

#[test]
fn test_previous_business_day() {
    // Monday steps back across the weekend to Friday.
    assert_eq!(ymd(2026, 2, 9).previous_business_day(), ymd(2026, 2, 6));
    // Sunday and Saturday both land on Friday.
    assert_eq!(ymd(2026, 2, 8).previous_business_day(), ymd(2026, 2, 6));
    assert_eq!(ymd(2026, 2, 7).previous_business_day(), ymd(2026, 2, 6));
    // A midweek day steps back one day.
    assert_eq!(ymd(2026, 2, 4).previous_business_day(), ymd(2026, 2, 3));
}

#[test]
fn test_from_days_range() {
    assert!(Date::from_days(MIN_DAY_NUMBER - 1).is_none());
    assert!(Date::from_days(MIN_DAY_NUMBER).is_some());
    assert!(Date::from_days(MAX_DAY_NUMBER).is_some());
    assert!(Date::from_days(MAX_DAY_NUMBER + 1).is_none());
}
