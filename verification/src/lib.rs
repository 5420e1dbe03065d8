//! Exchange-rate resolution and reconciliation engine.
//!
//! The library resolves, for a (base currency, calendar date) pair, an
//! authoritative conversion-rate snapshot. A provider only reliably publishes
//! business-day data, so a response for a requested date may carry an earlier
//! reported date; the engine classifies such responses as exact, estimated, or
//! explained by a non-working day, persists at most one snapshot per
//! (currency, date) key, and keeps a bounded-retry queue of unresolved
//! requests that a periodic sweep revisits.

pub mod date;
pub mod classify;
pub mod convert;
pub mod text;
pub mod rates;
pub mod store;
pub mod queue;
pub mod errors;
pub mod fiat;
pub mod resolver;
pub mod ledger;
pub mod settings;
pub mod tracker;
pub mod pagination;

pub use classify::NonWorkingDayReason;
pub use classify::RateStatus;
pub use date::Date;
pub use errors::RateError;
pub use ledger::FiatRampService;
pub use ledger::RampKind;
pub use resolver::ProviderRates;
pub use resolver::RateEngine;
pub use resolver::ResolveStep;
pub use store::FiatExchangeRate;
pub use store::RateKey;
