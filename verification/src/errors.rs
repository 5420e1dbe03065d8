//! Error types of the library.

use vstd::prelude::*;

verus! {

/// Why a rate resolution or a conversion failed.
#[derive(Debug, PartialEq, Eq)]
pub enum RateError {
    /// The provider call failed: network, timeout, or an unusable response.
    Provider(String),
    /// A symbol is absent from a rate mapping.
    MissingRate(String),
    /// No currency is registered under this identifier.
    UnknownCurrency(i64),
    /// The converted amount does not fit the numeric range.
    AmountOutOfRange,
}

impl RateError {
    /// A short display text for the error.
    pub fn text(&self) -> (r: String)
        ensures
            self is Provider ==> r@ == self->Provider_0@,
            self is MissingRate ==> r@ == "missing rate for symbol"@,
            self is UnknownCurrency ==> r@ == "unknown currency"@,
            self is AmountOutOfRange ==> r@ == "amount out of range"@,
    {
        match self {
            RateError::Provider(m) => m.clone(),
            RateError::MissingRate(_) => "missing rate for symbol".to_owned(),
            RateError::UnknownCurrency(_) => "unknown currency".to_owned(),
            RateError::AmountOutOfRange => "amount out of range".to_owned(),
        }
    }
}

/// Why a crypto-asset lookup failed.
#[derive(Debug, PartialEq, Eq)]
pub enum CryptoAssetError {
    AssetNotFound(String),
    Other(String),
}

/// Why a crypto-exchange call failed.
#[derive(Debug, PartialEq, Eq)]
pub enum CryptoExchangeError {
    Network(String),
    RateLimitExceeded,
    AssetNotFound(String),
    ApiError(String),
    Other(String),
}

impl From<CryptoAssetError> for CryptoExchangeError {
    fn from(err: CryptoAssetError) -> (r: Self) {
        match err {
            CryptoAssetError::AssetNotFound(msg) => CryptoExchangeError::AssetNotFound(msg),
            CryptoAssetError::Other(msg) => CryptoExchangeError::Other(msg),
        }
    }
}

impl vstd::std_specs::convert::FromSpecImpl<CryptoAssetError> for CryptoExchangeError {
    open spec fn obeys_from_spec() -> bool {
        true
    }

    open spec fn from_spec(err: CryptoAssetError) -> Self {
        match err {
            CryptoAssetError::AssetNotFound(msg) => CryptoExchangeError::AssetNotFound(msg),
            CryptoAssetError::Other(msg) => CryptoExchangeError::Other(msg),
        }
    }
}

impl From<String> for CryptoExchangeError {
    fn from(err: String) -> (r: Self) {
        CryptoExchangeError::Other(err)
    }
}

impl vstd::std_specs::convert::FromSpecImpl<String> for CryptoExchangeError {
    open spec fn obeys_from_spec() -> bool {
        true
    }

    open spec fn from_spec(err: String) -> Self {
        CryptoExchangeError::Other(err)
    }
}

} // verus!
