use aura::date::Date;
use aura::fiat::Currency;
use aura::ledger::{CreateFiatRamp, FiatRamp, FiatRampService, RampKind};
use aura::rates::RATE_SCALE;
use aura::resolver::{ProviderRates, RateEngine};
use aura::rates::RateMap;
use chrono::Datelike;

fn ymd(y: i32, m: u32, d: u32) -> Date {
    let nd = chrono::NaiveDate::from_ymd_opt(y, m, d).unwrap();
    Date::from_days(nd.num_days_from_ce() as i64).unwrap()
}

const NOW: i64 = 1_700_000_000;

fn engine_with(symbols: &[(&str, &str)]) -> RateEngine {
    let mut engine = RateEngine::new();
    let currencies: Vec<Currency> = symbols
        .iter()
        .map(|(symbol, name)| Currency {
            name: name.to_string(),
            symbol: symbol.to_string(),
        })
        .collect();
    engine.fiats.update_currencies(&currencies);
    engine
}

fn ramp(id: &str, fiat_id: i64, amount: u64, date: Date, kind: RampKind) -> FiatRamp {
    // The create shape carries everything but the id, which the caller's
    // store assigns.
    let create = CreateFiatRamp {
        fiat_id,
        fiat_amount: amount,
        ramp_date: date,
        via_exchange: "test".to_string(),
        kind,
    };
    FiatRamp {
        id: id.to_string(),
        fiat_id: create.fiat_id,
        fiat_amount: create.fiat_amount,
        ramp_date: create.ramp_date,
        kind: create.kind,
        via_exchange: create.via_exchange,
    }
}

#[test]
fn test_fiat_ramp_view() {
    let mut engine = engine_with(&[("USD", "US Dollar"), ("EUR", "Euro")]);
    let usd = engine.fiats.get_fiat_by_symbol("USD").unwrap().clone();
    let eur_id = engine.fiats.get_fiat_by_symbol("EUR").unwrap().id;
    let date = ymd(2023, 10, 25);

    // A rate snapshot based on EUR for that date: 1 EUR = 1.05 USD.
    let response = ProviderRates {
        date,
        rates: {
            let mut m = RateMap::new();
            m.insert("USD", 1_050_000);
            m
        },
    };
    engine
        .resolve_with_response(eur_id, date, None, Ok(response), NOW)
        .unwrap();

    // A 100.00 EUR deposit reported in USD converts through the snapshot.
    let deposit = ramp("ramp-eur", eur_id, 10_000, date, RampKind::Deposit);
    let view =
        FiatRampService::conversion_view(&deposit, &engine.snapshots, &engine.fiats, &usd)
            .unwrap();
    assert_eq!(view.to_fiat_symbol, "USD");
    assert_eq!(view.from_fiat_symbol, "EUR");
    assert_eq!(view.conversion_rate, Some(1_050_000));
    assert_eq!(view.converted_amount, Some(10_500));

    // A ramp already in the reporting currency converts by identity, with
    // no snapshot needed.
    let withdraw = ramp("ramp-usd", usd.id, 5_000, date, RampKind::Withdraw);
    let view_usd =
        FiatRampService::conversion_view(&withdraw, &engine.snapshots, &engine.fiats, &usd)
            .unwrap();
    assert_eq!(view_usd.to_fiat_symbol, "USD");
    assert_eq!(view_usd.from_fiat_symbol, "USD");
    assert_eq!(view_usd.conversion_rate, Some(RATE_SCALE));
    assert_eq!(view_usd.converted_amount, Some(5_000));
}

#[test]
fn test_fiat_ramp_view_estimated() {
    let mut engine = engine_with(&[("USD", "US Dollar"), ("EUR", "Euro")]);
    let usd = engine.fiats.get_fiat_by_symbol("USD").unwrap().clone();
    let eur_id = engine.fiats.get_fiat_by_symbol("EUR").unwrap().id;
    let date = ymd(2026, 2, 9); // Monday

    // Sunday's data for a Monday request: a retryable estimate.
    let response = ProviderRates {
        date: ymd(2026, 2, 8),
        rates: {
            let mut m = RateMap::new();
            m.insert("USD", 1_100_000);
            m
        },
    };
    engine
        .resolve_with_response(eur_id, date, None, Ok(response), NOW)
        .unwrap();

    let deposit = ramp("ramp-est", eur_id, 10_000, date, RampKind::Deposit);
    let view =
        FiatRampService::conversion_view(&deposit, &engine.snapshots, &engine.fiats, &usd)
            .unwrap();
    assert!(view.is_estimated);
    assert!(!view.is_non_working_day);
    assert_eq!(view.converted_amount, Some(11_000));
}

#[test]
fn test_view_without_snapshot_has_no_amount() {
    let engine = engine_with(&[("USD", "US Dollar"), ("EUR", "Euro")]);
    let usd = engine.fiats.get_fiat_by_symbol("USD").unwrap().clone();
    let eur_id = engine.fiats.get_fiat_by_symbol("EUR").unwrap().id;
    let deposit = ramp("ramp-none", eur_id, 10_000, ymd(2026, 2, 2), RampKind::Deposit);
    let view =
        FiatRampService::conversion_view(&deposit, &engine.snapshots, &engine.fiats, &usd)
            .unwrap();
    assert_eq!(view.conversion_rate, None);
    assert_eq!(view.converted_amount, None);
    assert!(!view.is_estimated);
}

#[test]
fn test_get_summary() {
    let mut engine = engine_with(&[("USD", "US Dollar"), ("EUR", "Euro")]);
    let usd = engine.fiats.get_fiat_by_symbol("USD").unwrap().clone();
    let eur_id = engine.fiats.get_fiat_by_symbol("EUR").unwrap().id;
    let date = ymd(2023, 10, 25);
    let response = ProviderRates {
        date,
        rates: {
            let mut m = RateMap::new();
            m.insert("USD", 1_050_000);
            m
        },
    };
    engine
        .resolve_with_response(eur_id, date, None, Ok(response), NOW)
        .unwrap();

    let ramps = vec![
        ramp("r1", eur_id, 10_000, date, RampKind::Deposit),
        ramp("r2", usd.id, 5_000, date, RampKind::Deposit),
        ramp("r3", usd.id, 2_500, date, RampKind::Withdraw),
    ];
    let views: Vec<_> = ramps
        .iter()
        .map(|r| {
            FiatRampService::conversion_view(r, &engine.snapshots, &engine.fiats, &usd).unwrap()
        })
        .collect();
    let summary = FiatRampService::get_summary(&views, &usd);
    assert_eq!(summary.total_deposit, 15_500); // 10500 converted + 5000 identity
    assert_eq!(summary.total_withdraw, 2_500);
    assert_eq!(summary.fiat_symbol, "USD");
}
