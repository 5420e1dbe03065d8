//! The ledger's read side: fiat ramps (deposits and withdrawals) and the
//! per-ramp conversion view that joins a ramp against the snapshot store
//! and the reporting currency.

use vstd::prelude::*;

use crate::classify::NonWorkingDayReason;
use crate::convert::convert;
use crate::convert::spec_convert;
use crate::date::Date;
use crate::fiat::Fiat;
use crate::fiat::FiatRegistry;
use crate::rates::RATE_SCALE;
use crate::resolver::rate_key;
use crate::store::SnapshotStore;

verus! {

/// Whether a ramp put money in or took it out.
#[derive(Clone, Copy, PartialEq, Eq, Structural, Debug)]
pub enum RampKind {
    Deposit,
    Withdraw,
}

/// A deposit or withdrawal: an amount of some currency on some date.
/// Amounts are in hundredths of the currency unit.
#[derive(Debug)]
pub struct FiatRamp {
    pub id: String,
    pub fiat_id: i64,
    pub fiat_amount: u64,
    pub ramp_date: Date,
    pub kind: RampKind,
    pub via_exchange: String,
}

/// The fields needed to create a ramp; the store assigns the id.
#[derive(Debug)]
pub struct CreateFiatRamp {
    pub fiat_id: i64,
    pub fiat_amount: u64,
    pub ramp_date: Date,
    pub via_exchange: String,
    pub kind: RampKind,
}

/// A partial update of a ramp; absent fields keep their value.
#[derive(Debug)]
pub struct UpdateFiatRamp {
    pub id: String,
    pub fiat_id: Option<i64>,
    pub fiat_amount: Option<u64>,
    pub ramp_date: Option<Date>,
    pub kind: Option<RampKind>,
    pub via_exchange: Option<String>,
}

/// One ramp joined against the snapshot store and the reporting currency:
/// the converted amount, the applicable rate, and the staleness flags of
/// the snapshot used.
#[derive(Debug)]
pub struct FiatRampWithConversionView {
    pub fiat_ramp_id: String,
    pub from_fiat_id: i64,
    pub from_fiat_symbol: String,
    pub from_fiat_name: String,
    pub to_fiat_id: i64,
    pub to_fiat_symbol: String,
    pub to_fiat_name: String,
    pub conversion_rate: Option<u64>,
    pub ramp_date: Date,
    pub fiat_amount: u64,
    pub kind: RampKind,
    pub via_exchange: String,
    pub is_estimated: bool,
    pub is_non_working_day: bool,
    pub non_working_day_reason: Option<NonWorkingDayReason>,
    pub converted_amount: Option<u64>,
}

/// The totals of a converted ledger, reported in one currency.
#[derive(Debug)]
pub struct FiatRampSummary {
    pub total_deposit: u128,
    pub total_withdraw: u128,
    pub fiat_symbol: String,
    pub fiat_name: String,
}

/// The ledger's service: the pure read-side computations over ramps.
#[derive(Debug)]
pub struct FiatRampService {}

impl FiatRampService {
    /// Builds the conversion view of one ramp against the snapshot store,
    /// reporting in `to_fiat`. A ramp already in the reporting currency
    /// converts by identity, without consulting the store. Otherwise the
    /// snapshot under the ramp's (currency, date) key supplies the rate and
    /// the staleness flags; a missing snapshot or symbol leaves the
    /// converted amount empty. A ramp whose currency is not registered has
    /// no view.
    pub fn conversion_view(
        ramp: &FiatRamp,
        snapshots: &SnapshotStore,
        registry: &FiatRegistry,
        to_fiat: &Fiat,
    ) -> (r: Option<FiatRampWithConversionView>)
        requires
            snapshots.wf(),
            registry.wf(),
        ensures
            r is None <==> !registry@.contains_key(ramp.fiat_id),
            match r {
                None => true,
                Some(view) => {
                    &&& view.fiat_ramp_id@ == ramp.id@
                    &&& view.from_fiat_id == ramp.fiat_id
                    &&& view.from_fiat_symbol@ == registry@[ramp.fiat_id].symbol
                    &&& view.from_fiat_name@ == registry@[ramp.fiat_id].name
                    &&& view.to_fiat_id == to_fiat.id
                    &&& view.to_fiat_symbol@ == to_fiat.symbol@
                    &&& view.to_fiat_name@ == to_fiat.name@
                    &&& view.ramp_date == ramp.ramp_date
                    &&& view.fiat_amount == ramp.fiat_amount
                    &&& view.kind == ramp.kind
                    &&& view.via_exchange@ == ramp.via_exchange@
                    &&& if to_fiat.id == ramp.fiat_id {
                        &&& view.conversion_rate == Some(RATE_SCALE)
                        &&& view.converted_amount == Some(ramp.fiat_amount)
                        &&& !view.is_estimated
                        &&& !view.is_non_working_day
                        &&& view.non_working_day_reason is None
                    } else if !snapshots@.contains_key(rate_key(ramp.fiat_id, ramp.ramp_date)) {
                        &&& view.conversion_rate is None
                        &&& view.converted_amount is None
                        &&& !view.is_estimated
                        &&& !view.is_non_working_day
                        &&& view.non_working_day_reason is None
                    } else {
                        let sm = snapshots@[rate_key(ramp.fiat_id, ramp.ramp_date)];
                        let from_sym = registry@[ramp.fiat_id].symbol;
                        let to_sym = to_fiat.symbol@;
                        &&& view.is_estimated == sm.is_estimated
                        &&& view.is_non_working_day == sm.is_non_working_day
                        &&& view.non_working_day_reason == sm.non_working_day_reason
                        &&& match view.conversion_rate {
                            Some(rt) => sm.rates.contains_key(to_sym) && rt == sm.rates[to_sym],
                            None => !sm.rates.contains_key(to_sym),
                        }
                        &&& match view.converted_amount {
                            Some(v) => sm.rates.contains_key(from_sym) && sm.rates.contains_key(
                                to_sym,
                            ) && v == spec_convert(
                                sm.rates,
                                ramp.fiat_amount as int,
                                from_sym,
                                to_sym,
                            ),
                            None => !sm.rates.contains_key(from_sym) || !sm.rates.contains_key(
                                to_sym,
                            ) || spec_convert(
                                sm.rates,
                                ramp.fiat_amount as int,
                                from_sym,
                                to_sym,
                            ) > u64::MAX,
                        }
                    }
                },
            },
    {
        let from_fiat = match registry.get_fiat_by_id(ramp.fiat_id) {
            Some(f) => f.clone(),
            None => {
                return None;
            },
        };
        if to_fiat.id == ramp.fiat_id {
            return Some(
                FiatRampWithConversionView {
                    fiat_ramp_id: ramp.id.clone(),
                    from_fiat_id: ramp.fiat_id,
                    from_fiat_symbol: from_fiat.symbol,
                    from_fiat_name: from_fiat.name,
                    to_fiat_id: to_fiat.id,
                    to_fiat_symbol: to_fiat.symbol.clone(),
                    to_fiat_name: to_fiat.name.clone(),
                    conversion_rate: Some(RATE_SCALE),
                    ramp_date: ramp.ramp_date,
                    fiat_amount: ramp.fiat_amount,
                    kind: ramp.kind,
                    via_exchange: ramp.via_exchange.clone(),
                    is_estimated: false,
                    is_non_working_day: false,
                    non_working_day_reason: None,
                    converted_amount: Some(ramp.fiat_amount),
                },
            );
        }
        match snapshots.get(ramp.fiat_id, ramp.ramp_date) {
            None => Some(
                FiatRampWithConversionView {
                    fiat_ramp_id: ramp.id.clone(),
                    from_fiat_id: ramp.fiat_id,
                    from_fiat_symbol: from_fiat.symbol,
                    from_fiat_name: from_fiat.name,
                    to_fiat_id: to_fiat.id,
                    to_fiat_symbol: to_fiat.symbol.clone(),
                    to_fiat_name: to_fiat.name.clone(),
                    conversion_rate: None,
                    ramp_date: ramp.ramp_date,
                    fiat_amount: ramp.fiat_amount,
                    kind: ramp.kind,
                    via_exchange: ramp.via_exchange.clone(),
                    is_estimated: false,
                    is_non_working_day: false,
                    non_working_day_reason: None,
                    converted_amount: None,
                },
            ),
            Some(snap) => {
                let conversion_rate = snap.rates.get(to_fiat.symbol.as_str());
                let converted_amount = match convert(
                    &snap.rates,
                    ramp.fiat_amount,
                    from_fiat.symbol.as_str(),
                    to_fiat.symbol.as_str(),
                ) {
                    Ok(v) => Some(v),
                    Err(_) => None,
                };
                Some(
                    FiatRampWithConversionView {
                        fiat_ramp_id: ramp.id.clone(),
                        from_fiat_id: ramp.fiat_id,
                        from_fiat_symbol: from_fiat.symbol,
                        from_fiat_name: from_fiat.name,
                        to_fiat_id: to_fiat.id,
                        to_fiat_symbol: to_fiat.symbol.clone(),
                        to_fiat_name: to_fiat.name.clone(),
                        conversion_rate,
                        ramp_date: ramp.ramp_date,
                        fiat_amount: ramp.fiat_amount,
                        kind: ramp.kind,
                        via_exchange: ramp.via_exchange.clone(),
                        is_estimated: snap.is_estimated,
                        is_non_working_day: snap.is_non_working_day,
                        non_working_day_reason: snap.non_working_day_reason,
                        converted_amount,
                    },
                )
            },
        }
    }

    /// The converted amounts of a view sequence's prefix, summed for one
    /// ramp kind; a ramp without a converted amount counts as zero.
    pub open spec fn spec_total(s: Seq<FiatRampWithConversionView>, kind: RampKind) -> int
        decreases s.len(),
    {
        if s.len() == 0 {
            0
        } else {
            Self::spec_total(s.drop_last(), kind) + (if s.last().kind == kind {
                match s.last().converted_amount {
                    Some(v) => v as int,
                    None => 0,
                }
            } else {
                0
            })
        }
    }

    /// Sums the converted amounts of the deposit views and of the withdraw
    /// views, reported in the given currency.
    pub fn get_summary(views: &Vec<FiatRampWithConversionView>, reporting: &Fiat) -> (r:
        FiatRampSummary)
        requires
            views@.len() <= 0xffff_ffff,
        ensures
            r.total_deposit == Self::spec_total(views@, RampKind::Deposit),
            r.total_withdraw == Self::spec_total(views@, RampKind::Withdraw),
            r.fiat_symbol@ == reporting.symbol@,
            r.fiat_name@ == reporting.name@,
    {
        let mut total_deposit: u128 = 0;
        let mut total_withdraw: u128 = 0;
        let n = views.len();
        let mut i: usize = 0;
        while i < n
            invariant
                n == views@.len(),
                n <= 0xffff_ffff,
                i <= n,
                total_deposit == Self::spec_total(views@.take(i as int), RampKind::Deposit),
                total_withdraw == Self::spec_total(views@.take(i as int), RampKind::Withdraw),
                total_deposit <= i * 0x1_0000_0000_0000_0000,
                total_withdraw <= i * 0x1_0000_0000_0000_0000,
            decreases n - i,
        {
            let amount: u64 = match views[i].converted_amount {
                Some(v) => v,
                None => 0,
            };
            proof {
                assert(views@.take(i + 1).drop_last() =~= views@.take(i as int));
                assert(views@.take(i + 1).last() == views@[i as int]);
                assert((i + 1) * 0x1_0000_0000_0000_0000 == i * 0x1_0000_0000_0000_0000
                    + 0x1_0000_0000_0000_0000) by (nonlinear_arith);
                assert(i * 0x1_0000_0000_0000_0000 <= 0xffff_ffff * 0x1_0000_0000_0000_0000)
                    by (nonlinear_arith)
                    requires i <= 0xffff_ffff;
            }
            match views[i].kind {
                RampKind::Deposit => {
                    total_deposit = total_deposit + amount as u128;
                },
                RampKind::Withdraw => {
                    total_withdraw = total_withdraw + amount as u128;
                },
            }
            i = i + 1;
        }
        proof {
            assert(views@.take(n as int) =~= views@);
        }
        FiatRampSummary {
            total_deposit,
            total_withdraw,
            fiat_symbol: reporting.symbol.clone(),
            fiat_name: reporting.name.clone(),
        }
    }
}

} // verus!
