use aura::convert::{convert, convert_amount};
use aura::errors::RateError;
use aura::rates::{RateMap, RATE_SCALE};

fn map_of(entries: &[(&str, u64)]) -> RateMap {
    let mut m = RateMap::new();
    for (symbol, rate) in entries {
        m.insert(symbol, *rate);
    }
    m
}

#[test]
fn test_convert_identity_same_symbol() {
    // Same-symbol conversion returns the amount unchanged, whatever the
    // rate value is.
    let m = map_of(&[("USD", RATE_SCALE), ("XXX", 37)]);
    assert_eq!(convert(&m, 12345, "USD", "USD"), Ok(12345));
    assert_eq!(convert(&m, 12345, "XXX", "XXX"), Ok(12345));
    assert_eq!(convert(&m, 0, "USD", "USD"), Ok(0));
}

#[test]
fn test_convert_exact_values() {
    let m = map_of(&[("USD", RATE_SCALE), ("EUR", 850_000)]);
    // 100.00 USD at 0.85 EUR/USD is 85.00 EUR.
    assert_eq!(convert(&m, 10_000, "USD", "EUR"), Ok(8_500));
    // 100.00 EUR back at the same rates: 10000 / 0.85 = 11764.70..,
    // rounded half-up to 11765 hundredths.
    assert_eq!(convert(&m, 10_000, "EUR", "USD"), Ok(11_765));
}

#[test]
fn test_convert_rounds_half_up() {
    // 1 hundredth at a ratio of exactly one half rounds up to 1.
    let m = map_of(&[("A", 2_000_000), ("B", 1_000_000)]);
    assert_eq!(convert(&m, 1, "A", "B"), Ok(1));
    // A ratio of one third rounds down to 0.
    let m3 = map_of(&[("A", 3_000_000), ("B", 1_000_000)]);
    assert_eq!(convert(&m3, 1, "A", "B"), Ok(0));
}

#[test]
fn test_convert_round_trip_within_one_unit() {
    // Converting to the higher-rated currency and back lands within one
    // hundredth of the original amount.
    let m = map_of(&[("USD", RATE_SCALE), ("MYR", 4_742_400)]);
    let amounts: [u64; 6] = [1, 3, 99, 10_000, 123_456, 999_999_999];
    for amt in amounts {
        let there = convert(&m, amt, "USD", "MYR").unwrap();
        let back = convert(&m, there, "MYR", "USD").unwrap();
        assert!(
            back == amt || back == amt + 1,
            "round trip of {amt} came back as {back}"
        );
    }
}

#[test]
fn test_convert_missing_rate() {
    let m = map_of(&[("USD", RATE_SCALE)]);
    match convert(&m, 100, "USD", "GBP") {
        Err(RateError::MissingRate(s)) => assert_eq!(s, "GBP"),
        other => panic!("expected a missing-rate error, got {other:?}"),
    }
    match convert(&m, 100, "GBP", "USD") {
        Err(RateError::MissingRate(s)) => assert_eq!(s, "GBP"),
        other => panic!("expected a missing-rate error, got {other:?}"),
    }
}

#[test]
fn test_convert_amount_out_of_range() {
    let m = map_of(&[("TINY", 1), ("HUGE", u64::MAX)]);
    match convert(&m, u64::MAX, "TINY", "HUGE") {
        Err(RateError::AmountOutOfRange) => {}
        other => panic!("expected an out-of-range error, got {other:?}"),
    }
}

#[test]
fn test_convert_amount_direct() {
    // amount * rate_to / rate_from with half-up rounding.
    assert_eq!(convert_amount(10, 4, 6), Some(15));
    assert_eq!(convert_amount(1, 2, 1), Some(1)); // 0.5 rounds up
    assert_eq!(convert_amount(1, 3, 1), Some(0)); // 0.33 rounds down
    assert_eq!(convert_amount(0, 5, 9), Some(0));
    assert_eq!(convert_amount(u64::MAX, 1, 2), None);
}
