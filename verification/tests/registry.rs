use aura::fiat::{Currency, FiatRegistry};
use aura::settings::{CreateUserSettings, SettingsError, SettingsStore, UpdateUserSettings};

fn sample_currencies() -> Vec<Currency> {
    vec![
        Currency { name: "United States Dollar".to_string(), symbol: "USD".to_string() },
        Currency { name: "Euro".to_string(), symbol: "EUR".to_string() },
    ]
}

fn registry() -> FiatRegistry {
    let mut r = FiatRegistry::new();
    r.update_currencies(&sample_currencies());
    r
}

#[test]
fn test_update_currencies() {
    let mut r = FiatRegistry::new();
    let written = r.update_currencies(&sample_currencies());
    assert_eq!(written, 2);
    assert!(r.get_fiat_by_symbol("USD").is_some());
    assert!(r.get_fiat_by_symbol("EUR").is_some());
}

#[test]
fn test_update_currencies_keeps_ids() {
    let mut r = registry();
    let usd_before = r.get_fiat_by_symbol("USD").unwrap().id;
    // A second refresh with a renamed entry keeps the identifier.
    let refreshed = vec![Currency {
        name: "US Dollar".to_string(),
        symbol: "USD".to_string(),
    }];
    r.update_currencies(&refreshed);
    let usd = r.get_fiat_by_symbol("USD").unwrap();
    assert_eq!(usd.id, usd_before);
    assert_eq!(usd.name, "US Dollar");
}

#[test]
fn test_get_fiat_by_id() {
    let r = registry();
    let first = r.get_fiat_by_id(1).unwrap();
    assert_eq!(first.symbol, "USD");
    assert!(r.get_fiat_by_id(42).is_none());
}

#[test]
fn test_get_fiat_by_symbol() {
    let r = registry();
    let usd = r.get_fiat_by_symbol("USD").unwrap();
    assert_eq!(usd.name, "United States Dollar");
    assert!(r.get_fiat_by_symbol("GBP").is_none());
}

#[test]
fn test_ensure_exists() {
    let r = registry();
    let mut store = SettingsStore::new();
    let settings = store.ensure_exists(&r).unwrap();
    assert_eq!(settings.locale, "en");
    assert_eq!(settings.fiat.symbol, "USD");

    // A second call returns the existing record unchanged.
    let again = store.ensure_exists(&r).unwrap();
    assert_eq!(again.id, settings.id);
    assert_eq!(again.default_fiat_id, settings.default_fiat_id);
}

#[test]
fn test_ensure_exists_without_dollar() {
    let r = FiatRegistry::new();
    let mut store = SettingsStore::new();
    match store.ensure_exists(&r) {
        Err(SettingsError::UnknownSymbol(sym)) => assert_eq!(sym, "USD"),
        other => panic!("expected an unknown-symbol error, got {other:?}"),
    }
}

#[test]
fn test_create() {
    let r = registry();
    let mut store = SettingsStore::new();
    let settings = store
        .create(
            CreateUserSettings { locale: "en".to_string(), default_fiat_id: 1 },
            &r,
        )
        .unwrap();
    assert_eq!(settings.id, 1);
    assert_eq!(settings.fiat.symbol, "USD");
}

#[test]
fn test_create_with_unknown_currency() {
    let r = registry();
    let mut store = SettingsStore::new();
    match store.create(
        CreateUserSettings { locale: "en".to_string(), default_fiat_id: 42 },
        &r,
    ) {
        Err(SettingsError::UnknownCurrency(id)) => assert_eq!(id, 42),
        other => panic!("expected an unknown-currency error, got {other:?}"),
    }
}

#[test]
fn test_get() {
    let r = registry();
    let mut store = SettingsStore::new();
    assert!(store.get().is_none());
    store
        .create(
            CreateUserSettings { locale: "en".to_string(), default_fiat_id: 1 },
            &r,
        )
        .unwrap();
    let s = store.get().unwrap();
    assert_eq!(s.fiat.symbol, "USD");
}

#[test]
fn test_update_settings() {
    let r = registry();
    let eur_id = r.get_fiat_by_symbol("EUR").unwrap().id;
    let mut store = SettingsStore::new();
    store
        .create(
            CreateUserSettings { locale: "en".to_string(), default_fiat_id: 1 },
            &r,
        )
        .unwrap();
    let updated = store
        .update(
            UpdateUserSettings { locale: None, default_fiat_id: Some(eur_id) },
            &r,
        )
        .unwrap();
    assert_eq!(updated.locale, "en");
    assert_eq!(updated.fiat.symbol, "EUR");
}

#[test]
fn test_get_all_fiat() {
    let r = registry();
    let all = r.get_all_fiat();
    assert_eq!(all.len(), 2);
    assert_eq!(all[0].symbol, "USD");
    assert_eq!(all[1].symbol, "EUR");
}

#[test]
fn test_update_currencies_last_listing_wins() {
    let mut r = FiatRegistry::new();
    let listed = vec![
        Currency { name: "Dollar".to_string(), symbol: "USD".to_string() },
        Currency { name: "United States Dollar".to_string(), symbol: "USD".to_string() },
    ];
    r.update_currencies(&listed);
    let usd = r.get_fiat_by_symbol("USD").unwrap();
    assert_eq!(usd.name, "United States Dollar");
    assert!(r.get_all_fiat().len() == 1);
}
