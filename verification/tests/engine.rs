use aura::classify::{determine_rate_status, NonWorkingDayReason};
use aura::date::Date;
use aura::errors::RateError;
use aura::fiat::Currency;
use aura::queue::MAX_RETRIES;
use aura::rates::{RateMap, RATE_SCALE};
use aura::resolver::{ProviderRates, RateEngine, ResolveStep};
use chrono::Datelike;

fn ymd(y: i32, m: u32, d: u32) -> Date {
    let nd = chrono::NaiveDate::from_ymd_opt(y, m, d).unwrap();
    Date::from_days(nd.num_days_from_ce() as i64).unwrap()
}

fn provider_rates(date: Date, entries: &[(&str, u64)]) -> ProviderRates {
    let mut rates = RateMap::new();
    for (symbol, rate) in entries {
        rates.insert(symbol, *rate);
    }
    ProviderRates { date, rates }
}

/// An engine with USD and EUR registered, as the provider would list them.
fn setup() -> RateEngine {
    let mut engine = RateEngine::new();
    let currencies = vec![
        Currency { name: "United States Dollar".to_string(), symbol: "USD".to_string() },
        Currency { name: "Euro".to_string(), symbol: "EUR".to_string() },
    ];
    engine.fiats.update_currencies(&currencies);
    engine
}

fn usd_id(engine: &RateEngine) -> i64 {
    engine.fiats.get_fiat_by_symbol("USD").unwrap().id
}

const NOW: i64 = 1_700_000_000;

#[test]
fn test_get_rate() {
    let mut engine = setup();
    let id = usd_id(&engine);
    let date = ymd(2026, 2, 1);

    // Nothing cached: the resolver asks for a fetch, naming the symbol.
    let step = engine.resolve_cached(id, date, None, NOW).unwrap();
    let symbol = match step {
        ResolveStep::NeedsFetch(s) => s,
        ResolveStep::Resolved(_) => panic!("nothing is stored yet"),
    };
    assert_eq!(symbol, "USD");

    // The provider answers for the exact requested date.
    let response = provider_rates(date, &[("EUR", 850_000), ("MYR", 4_742_400)]);
    let rate = engine
        .resolve_with_response(id, date, None, Ok(response), NOW)
        .unwrap();

    // The base currency's own rate of one is added.
    assert_eq!(rate.rates.get("USD"), Some(RATE_SCALE));
    assert_eq!(rate.rates.get("EUR"), Some(850_000));
    assert_eq!(rate.rates.get("MYR"), Some(4_742_400));
    assert!(!rate.is_estimated);
}

#[test]
fn test_get_rate_fallback() {
    // Requested: 2026-02-07 (Saturday). Provider returns 2026-02-06
    // (Friday), the previous business day.
    let mut engine = setup();
    let id = usd_id(&engine);
    let request_date = ymd(2026, 2, 7);
    let ramp_id = "test-ramp-id".to_string();

    match engine
        .resolve_cached(id, request_date, Some(&ramp_id), NOW)
        .unwrap()
    {
        ResolveStep::NeedsFetch(_) => {}
        ResolveStep::Resolved(_) => panic!("nothing is stored yet"),
    }
    let response = provider_rates(ymd(2026, 2, 6), &[("EUR", 850_000)]);
    let rate = engine
        .resolve_with_response(id, request_date, Some(&ramp_id), Ok(response), NOW)
        .unwrap();

    // Estimated and marked as a non-working day, blamed on the weekend.
    assert!(rate.is_estimated);
    assert!(rate.is_non_working_day);
    assert_eq!(rate.non_working_day_reason, Some(NonWorkingDayReason::Weekend));
    assert_eq!(rate.non_working_day_reason.unwrap().text(), "weekend");
    // The snapshot is stored under the requested date.
    assert_eq!(rate.date, request_date);
    // Non-working days are not queued.
    assert!(engine.queue.is_empty());
}

#[test]
fn test_get_rate_too_old() {
    // Requested: 2026-02-03 (Tuesday). Provider returns 2026-02-01
    // (Sunday): a two-day gap not explained by the previous business day.
    let mut engine = setup();
    let id = usd_id(&engine);
    let request_date = ymd(2026, 2, 3);
    let ramp_id = "test-ramp-old".to_string();

    let response = provider_rates(ymd(2026, 2, 1), &[("EUR", 850_000)]);
    let rate = engine
        .resolve_with_response(id, request_date, Some(&ramp_id), Ok(response), NOW)
        .unwrap();

    assert!(rate.is_estimated);
    assert!(rate.is_non_working_day);
    assert_eq!(
        rate.non_working_day_reason.unwrap().text(),
        "exchange closed"
    );
    // Treated as closed and terminal: nothing queued.
    assert!(engine.queue.is_empty());
}

#[test]
fn test_process_missing_rates() {
    let mut engine = setup();
    let eur_id = engine.fiats.get_fiat_by_symbol("EUR").unwrap().id;
    let date = ymd(2026, 2, 2);
    let ramp_id = "test-process-ramp".to_string();

    // Seed a queue entry waiting on (EUR, 2026-02-02).
    engine
        .queue
        .upsert_item(&ramp_id, eur_id, date, Some("seed"), NOW);
    assert!(!engine.queue.is_empty());

    // The sweep selects the key, and the provider now answers exactly.
    let pending = engine.queue.pending_rate_keys();
    assert_eq!(pending.len(), 1);
    let responses = pending
        .into_iter()
        .map(|key| {
            (
                key,
                Ok(provider_rates(key.date, &[("USD", 1_100_000)])),
            )
        })
        .collect();
    engine.process_missing_rates(responses, NOW);

    // The queue is drained and the stored rate is exact.
    assert!(engine.queue.is_empty());
    let rate = engine.snapshots.get(eur_id, date).unwrap();
    assert!(!rate.is_estimated);
    assert_eq!(rate.rates.get("EUR"), Some(RATE_SCALE));
    assert_eq!(rate.rates.get("USD"), Some(1_100_000));
}

#[test]
fn test_resolve_cached_never_fetches_twice() {
    // Once a snapshot exists for a key, resolving it again answers from
    // the store and never asks for a fetch.
    let mut engine = setup();
    let id = usd_id(&engine);
    let date = ymd(2026, 2, 2);
    let response = provider_rates(date, &[("EUR", 850_000)]);
    engine
        .resolve_with_response(id, date, None, Ok(response), NOW)
        .unwrap();

    for _ in 0..3 {
        match engine.resolve_cached(id, date, None, NOW).unwrap() {
            ResolveStep::Resolved(snap) => {
                assert!(!snap.is_estimated);
                assert_eq!(snap.date, date);
            }
            ResolveStep::NeedsFetch(_) => panic!("the stored snapshot must be used"),
        }
    }
}

#[test]
fn test_exact_snapshot_settles_queue_entry() {
    // A transaction resolving against an exact snapshot has its queue
    // entry removed.
    let mut engine = setup();
    let id = usd_id(&engine);
    let date = ymd(2026, 2, 2);
    let ramp_id = "settled-ramp".to_string();
    engine
        .queue
        .upsert_item(&ramp_id, id, date, Some("seed"), NOW);
    let response = provider_rates(date, &[("EUR", 850_000)]);
    engine
        .resolve_with_response(id, date, None, Ok(response), NOW)
        .unwrap();
    match engine.resolve_cached(id, date, Some(&ramp_id), NOW).unwrap() {
        ResolveStep::Resolved(_) => {}
        ResolveStep::NeedsFetch(_) => panic!("the stored snapshot must be used"),
    }
    assert!(engine.queue.get_by_ramp_id(&ramp_id).is_none());
}

#[test]
fn test_estimated_snapshot_requeues_transaction() {
    // A retry-eligible estimate keeps serving callers but puts the
    // transaction back on the queue.
    let mut engine = setup();
    let id = usd_id(&engine);
    // Monday request answered with Sunday's data: a one-day gap that the
    // business-day calendar does not explain, so it stays retryable.
    let request_date = ymd(2026, 2, 9);
    let response = provider_rates(ymd(2026, 2, 8), &[("EUR", 850_000)]);
    let rate = engine
        .resolve_with_response(id, request_date, None, Ok(response), NOW)
        .unwrap();
    assert!(rate.is_estimated);
    assert!(!rate.is_non_working_day);

    let ramp_id = "estimated-ramp".to_string();
    match engine
        .resolve_cached(id, request_date, Some(&ramp_id), NOW)
        .unwrap()
    {
        ResolveStep::Resolved(snap) => assert!(snap.is_estimated),
        ResolveStep::NeedsFetch(_) => panic!("the stored snapshot must be used"),
    }
    let item = engine.queue.get_by_ramp_id(&ramp_id).unwrap();
    assert_eq!(item.error_count, 1);
    assert_eq!(item.last_error_msg.as_deref(), Some("Using estimated rate"));
}

#[test]
fn test_retry_entry_error_count_increments() {
    // A one-day lag unexplained by the calendar queues the transaction,
    // and every unresolved reconciliation pass counts one more error.
    let mut engine = setup();
    let id = usd_id(&engine);
    let request_date = ymd(2026, 2, 9); // Monday
    let ramp_id = "retry-ramp".to_string();

    let response = provider_rates(ymd(2026, 2, 8), &[("EUR", 850_000)]);
    engine
        .resolve_with_response(id, request_date, Some(&ramp_id), Ok(response), NOW)
        .unwrap();
    let item = engine.queue.get_by_ramp_id(&ramp_id).unwrap();
    assert_eq!(item.error_count, 1);
    assert_eq!(
        item.last_error_msg.as_deref(),
        Some("Fallback: 1 day difference")
    );

    // Two sweeps, each still getting the lagging answer.
    for expected in [2u32, 3] {
        let responses = vec![(
            aura::store::RateKey { base_fiat_id: id, date: request_date },
            Ok(provider_rates(ymd(2026, 2, 8), &[("EUR", 850_000)])),
        )];
        engine.process_missing_rates(responses, NOW);
        let item = engine.queue.get_by_ramp_id(&ramp_id).unwrap();
        assert_eq!(item.error_count, expected);
    }
}

#[test]
fn test_weekday_previous_business_day_is_public_holiday() {
    // A Wednesday request answered with Tuesday's rates matches the
    // previous business day, so the gap counts as a public holiday and is
    // terminal.
    let mut engine = setup();
    let id = usd_id(&engine);
    let request_date = ymd(2026, 2, 4); // Wednesday
    let ramp_id = "holiday-ramp".to_string();
    let response = provider_rates(ymd(2026, 2, 3), &[("EUR", 850_000)]);
    let rate = engine
        .resolve_with_response(id, request_date, Some(&ramp_id), Ok(response), NOW)
        .unwrap();
    assert!(rate.is_estimated);
    assert!(rate.is_non_working_day);
    assert_eq!(rate.non_working_day_reason.unwrap().text(), "public_holiday");
    assert!(engine.queue.is_empty());
}

#[test]
fn test_max_retries_excludes_entry_but_keeps_it() {
    // An entry at the retry ceiling is left out of the next sweep's
    // selection but stays in the queue.
    let mut engine = setup();
    let id = usd_id(&engine);
    let date = ymd(2026, 2, 9);
    let ramp_id = "exhausted-ramp".to_string();
    for _ in 0..MAX_RETRIES {
        engine
            .queue
            .upsert_item(&ramp_id, id, date, Some("still failing"), NOW);
    }
    let item = engine.queue.get_by_ramp_id(&ramp_id).unwrap();
    assert_eq!(item.error_count, MAX_RETRIES);

    assert!(engine.queue.pending_rate_keys().is_empty());
    assert!(engine.queue.get_by_ramp_id(&ramp_id).is_some());
}

#[test]
fn test_exact_reconciliation_clears_shared_key_only() {
    // Transactions sharing the reconciled key are all cleared; an
    // unrelated entry stays untouched.
    let mut engine = setup();
    let id = usd_id(&engine);
    let date = ymd(2026, 2, 2);
    let other_date = ymd(2026, 2, 3);
    let first = "shared-ramp-1".to_string();
    let second = "shared-ramp-2".to_string();
    let unrelated = "unrelated-ramp".to_string();
    engine.queue.upsert_item(&first, id, date, None, NOW);
    engine.queue.upsert_item(&second, id, date, None, NOW);
    engine.queue.upsert_item(&unrelated, id, other_date, None, NOW);

    let response = provider_rates(date, &[("EUR", 850_000)]);
    engine.reconcile_with_response(id, date, Ok(response), NOW);

    assert!(engine.queue.get_by_ramp_id(&first).is_none());
    assert!(engine.queue.get_by_ramp_id(&second).is_none());
    let kept = engine.queue.get_by_ramp_id(&unrelated).unwrap();
    assert_eq!(kept.error_count, 1);
}

#[test]
fn test_provider_failure_is_queued_and_surfaced() {
    let mut engine = setup();
    let id = usd_id(&engine);
    let date = ymd(2026, 2, 2);
    let ramp_id = "failing-ramp".to_string();
    let result = engine.resolve_with_response(
        id,
        date,
        Some(&ramp_id),
        Err("connection timed out".to_string()),
        NOW,
    );
    match result {
        Err(RateError::Provider(msg)) => assert_eq!(msg, "connection timed out"),
        other => panic!("expected a provider error, got {other:?}"),
    }
    // The failure is recorded, not stored as a snapshot.
    assert!(engine.snapshots.get(id, date).is_none());
    let item = engine.queue.get_by_ramp_id(&ramp_id).unwrap();
    assert_eq!(item.error_count, 1);
    assert_eq!(item.last_error_msg.as_deref(), Some("connection timed out"));
}

#[test]
fn test_unknown_currency_is_rejected() {
    let mut engine = setup();
    let date = ymd(2026, 2, 2);
    match engine.resolve_cached(999, date, None, NOW) {
        Err(RateError::UnknownCurrency(id)) => assert_eq!(id, 999),
        other => panic!("expected an unknown-currency error, got {other:?}"),
    }
}

#[test]
fn test_snapshot_upsert_keeps_one_per_key() {
    // Re-resolving a key replaces the snapshot instead of adding one: an
    // estimated snapshot is upgraded in place once exact data arrives.
    let mut engine = setup();
    let id = usd_id(&engine);
    let date = ymd(2026, 2, 9); // Monday
    let lagging = provider_rates(ymd(2026, 2, 8), &[("EUR", 850_000)]);
    engine
        .resolve_with_response(id, date, None, Ok(lagging), NOW)
        .unwrap();
    assert_eq!(engine.snapshots.record_count(), 1);
    assert!(engine.snapshots.get(id, date).unwrap().is_estimated);

    let exact = provider_rates(date, &[("EUR", 860_000)]);
    engine.reconcile_with_response(id, date, Ok(exact), NOW);
    assert_eq!(engine.snapshots.record_count(), 1);
    let snap = engine.snapshots.get(id, date).unwrap();
    assert!(!snap.is_estimated);
    assert_eq!(snap.rates.get("EUR"), Some(860_000));
}

#[test]
fn test_determine_rate_status_table() {
    // The decision table, row by row, first match wins.
    let exact = determine_rate_status(0, false, None);
    assert!(!exact.is_estimated && !exact.is_non_working_day && !exact.should_retry);
    assert_eq!(exact.reason, None);

    let weekend = determine_rate_status(1, true, Some(NonWorkingDayReason::Weekend));
    assert!(weekend.is_estimated && weekend.is_non_working_day && !weekend.should_retry);
    assert_eq!(weekend.reason, Some(NonWorkingDayReason::Weekend));

    let holiday = determine_rate_status(1, true, Some(NonWorkingDayReason::PublicHoliday));
    assert_eq!(holiday.reason, Some(NonWorkingDayReason::PublicHoliday));
    assert!(!holiday.should_retry);

    let lag = determine_rate_status(1, false, None);
    assert!(lag.is_estimated && !lag.is_non_working_day && lag.should_retry);
    assert_eq!(lag.reason, None);

    let closed = determine_rate_status(3, false, None);
    assert!(closed.is_estimated && closed.is_non_working_day && !closed.should_retry);
    assert_eq!(closed.reason, Some(NonWorkingDayReason::ExchangeClosed));
}
