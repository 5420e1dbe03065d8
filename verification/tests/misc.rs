use aura::errors::{CryptoAssetError, CryptoExchangeError, RateError};
use aura::tracker::{get_db_url, require_update, AppConfig, SysTracker};

const NOW: i64 = 1_700_000_000;
const HOUR: i64 = 3_600;

#[test]
fn test_from_string() {
    let err = String::from("custom error");
    let crypto_exchange_err = CryptoExchangeError::from(err);
    assert_eq!(
        crypto_exchange_err,
        CryptoExchangeError::Other("custom error".to_string())
    );
}

#[test]
fn test_from_crypto_asset_error() {
    let err = CryptoAssetError::AssetNotFound("BTC".to_string());
    assert_eq!(
        CryptoExchangeError::from(err),
        CryptoExchangeError::AssetNotFound("BTC".to_string())
    );
    let err = CryptoAssetError::Other("oops".to_string());
    assert_eq!(
        CryptoExchangeError::from(err),
        CryptoExchangeError::Other("oops".to_string())
    );
}

#[test]
fn test_rate_error_text() {
    assert_eq!(
        RateError::Provider("timed out".to_string()).text(),
        "timed out"
    );
    assert_eq!(
        RateError::MissingRate("GBP".to_string()).text(),
        "missing rate for symbol"
    );
    assert_eq!(RateError::UnknownCurrency(7).text(), "unknown currency");
    assert_eq!(RateError::AmountOutOfRange.text(), "amount out of range");
}

#[test]
fn test_require_update_none() {
    assert!(require_update(None, NOW, HOUR));
}

#[test]
fn test_require_update_expired() {
    assert!(require_update(Some(NOW - 2 * HOUR), NOW, HOUR));
}

#[test]
fn test_require_update_not_expired() {
    assert!(!require_update(Some(NOW - HOUR / 2), NOW, HOUR));
}

#[test]
fn test_get_last_updated_at() {
    let mut tracker = SysTracker::new();
    tracker.update_last_updated_at("fiat", NOW - 23 * HOUR);
    let t = tracker.get_last_updated_at("fiat").unwrap();
    assert_eq!(t, NOW - 23 * HOUR);
    assert!(t > NOW - 24 * HOUR);
}

#[test]
fn test_tracker_overwrites_name() {
    let mut tracker = SysTracker::new();
    tracker.update_last_updated_at("fiat", NOW - 25 * HOUR);
    tracker.update_last_updated_at("fiat", NOW);
    assert_eq!(tracker.get_last_updated_at("fiat"), Some(NOW));
}

#[test]
fn test_no_updated_status() {
    let tracker = SysTracker::new();
    assert!(tracker.get_last_updated_at("table_no_updated_status").is_none());
}

#[test]
fn test_get_db_url() {
    let dev = AppConfig { env: "dev".to_string() };
    assert_eq!(get_db_url("/data", &dev), "sqlite:/data/aura_dev.sqlite");
    let prod = AppConfig { env: "prod".to_string() };
    assert_eq!(get_db_url("/data", &prod), "sqlite:/data/aura.sqlite");
    let other = AppConfig { env: "".to_string() };
    assert_eq!(get_db_url("/data", &other), "sqlite:/data/aura.sqlite");
}
