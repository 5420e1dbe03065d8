//! Fixed-point conversion arithmetic: amounts in hundredths, rates as
//! integer fixed-point values on a common scale, with round-half-up
//! division.

use vstd::prelude::*;

use vstd::arithmetic::div_mod::lemma_fundamental_div_mod;
use vstd::arithmetic::div_mod::lemma_fundamental_div_mod_converse;

use crate::errors::RateError;
use crate::rates::RateMap;

verus! {

/// The quotient n / d rounded to the nearest integer, halves away from
/// zero, for nonnegative n and positive d.
pub open spec fn round_half_up_div(n: int, d: int) -> int
    recommends
        n >= 0,
        d >= 1,
{
    (2 * n + d) / (2 * d)
}

/// A converted amount: `amount` units scaled by the ratio of the target
/// rate to the source rate, rounded half-up to a whole unit.
pub open spec fn spec_convert_amount(amount: int, rate_from: int, rate_to: int) -> int
    recommends
        amount >= 0,
        rate_from >= 1,
{
    round_half_up_div(amount * rate_to, rate_from)
}

/// Rounding half-up is floor division plus a carry decided by doubling the
/// remainder.
proof fn lemma_round_half_up_from_div_mod(n: int, d: int, q: int, rem: int)
    requires
        d >= 1,
        n >= 0,
        n == q * d + rem,
        0 <= rem < d,
    ensures
        round_half_up_div(n, d) == q + if 2 * rem >= d { 1int } else { 0int },
{
    assert(2 * n + d == q * (2 * d) + (2 * rem + d)) by (nonlinear_arith)
        requires n == q * d + rem;
    if 2 * rem >= d {
        assert(2 * n + d == (q + 1) * (2 * d) + (2 * rem - d)) by (nonlinear_arith)
            requires n == q * d + rem;
        lemma_fundamental_div_mod_converse(2 * n + d, 2 * d, q + 1, 2 * rem - d);
    } else {
        lemma_fundamental_div_mod_converse(2 * n + d, 2 * d, q, 2 * rem + d);
    }
}

/// Converting with equal source and target rates returns the amount
/// unchanged: the rounded quotient of `amount * r` by `r` is `amount`.
pub proof fn lemma_convert_same_rate(amount: int, rate: int)
    requires
        amount >= 0,
        rate >= 1,
    ensures
        spec_convert_amount(amount, rate, rate) == amount,
{
    assert(amount * rate == amount * rate + 0);
    lemma_round_half_up_from_div_mod(amount * rate, rate, amount, 0);
    assert(amount * rate >= 0) by (nonlinear_arith)
        requires amount >= 0, rate >= 1;
}

/// Converting an amount to a currency with the higher rate and back again
/// lands within one rounding unit: the round trip returns the amount or the
/// amount plus one.
pub proof fn lemma_convert_round_trip(amount: int, rate_from: int, rate_to: int)
    requires
        amount >= 0,
        1 <= rate_from <= rate_to,
    ensures
        amount <= spec_convert_amount(
            spec_convert_amount(amount, rate_from, rate_to),
            rate_to,
            rate_from,
        ) <= amount + 1,
{
    let a = amount;
    let f = rate_from;
    let t = rate_to;
    let y = round_half_up_div(a * t, f);
    let z = round_half_up_div(y * f, t);

    assert(a * t >= 0) by (nonlinear_arith)
        requires a >= 0, t >= 1;

    lemma_fundamental_div_mod(2 * (a * t) + f, 2 * f);
    let r1 = (2 * (a * t) + f) % (2 * f);
    assert(2 * (a * t) + f == (2 * f) * y + r1);
    assert(0 <= r1 < 2 * f);

    // y >= 0, so y * f >= 0 and the second rounding is well formed.
    assert(y >= 0) by (nonlinear_arith)
        requires 2 * (a * t) + f == (2 * f) * y + r1, 0 <= r1 < 2 * f, a * t >= 0, f >= 1;

    assert(y * f >= 0) by (nonlinear_arith)
        requires y >= 0, f >= 1;

    lemma_fundamental_div_mod(2 * (y * f) + t, 2 * t);
    let r2 = (2 * (y * f) + t) % (2 * t);
    assert(2 * (y * f) + t == (2 * t) * z + r2);
    assert(0 <= r2 < 2 * t);

    // Upper bound: z <= a + 1.
    assert(z <= a + 1) by (nonlinear_arith)
        requires
            2 * (a * t) + f == (2 * f) * y + r1,
            0 <= r1 < 2 * f,
            2 * (y * f) + t == (2 * t) * z + r2,
            0 <= r2 < 2 * t,
            1 <= f <= t,
            a >= 0;

    // Lower bound: a <= z.
    assert(a <= z) by (nonlinear_arith)
        requires
            2 * (a * t) + f == (2 * f) * y + r1,
            0 <= r1 < 2 * f,
            2 * (y * f) + t == (2 * t) * z + r2,
            0 <= r2 < 2 * t,
            1 <= f <= t,
            a >= 0;
}

/// Converts `amount` by the ratio `rate_to / rate_from`, rounding half-up,
/// or returns `None` when the exact result does not fit the return type.
pub fn convert_amount(amount: u64, rate_from: u64, rate_to: u64) -> (r: Option<u64>)
    requires
        rate_from >= 1,
    ensures
        (r is Some) == (spec_convert_amount(amount as int, rate_from as int, rate_to as int)
            <= u64::MAX),
        r is Some ==> r->0 == spec_convert_amount(
            amount as int,
            rate_from as int,
            rate_to as int,
        ),
{
    proof {
        assert((amount as int) * (rate_to as int) <= (u64::MAX as int) * (u64::MAX as int))
            by (nonlinear_arith)
            requires 0 <= (amount as int) <= u64::MAX as int, 0 <= (rate_to as int) <= u64::MAX as int;
    }
    let n: u128 = (amount as u128) * (rate_to as u128);
    let d: u128 = rate_from as u128;
    let q: u128 = n / d;
    let rem: u128 = n % d;
    proof {
        lemma_fundamental_div_mod(n as int, d as int);
        assert(q as int <= n as int) by (nonlinear_arith)
            requires
                n as int == (d as int) * (q as int) + (rem as int),
                0 <= (rem as int) < (d as int),
                d as int >= 1,
                n as int >= 0;
        lemma_round_half_up_from_div_mod(n as int, d as int, q as int, rem as int);
    }
    let rounded: u128 = q + (if 2 * rem >= d { 1 } else { 0 });
    if rounded <= u64::MAX as u128 {
        Some(rounded as u64)
    } else {
        None
    }
}

/// What `convert` returns on a rate mapping, when both symbols are held:
/// the amount scaled by the ratio of the two rates, rounded half-up.
pub open spec fn spec_convert(
    rates: Map<Seq<char>, u64>,
    amount: int,
    from: Seq<char>,
    to: Seq<char>,
) -> int
    recommends
        rates.contains_key(from),
        rates.contains_key(to),
        rates[from] >= 1,
{
    spec_convert_amount(amount, rates[from] as int, rates[to] as int)
}

/// Converts an amount of hundredths from one currency to another using a
/// rate mapping: exactly `amount * rates[to] / rates[from]`, rounded
/// half-up to a whole hundredth. Fails with the missing symbol when either
/// symbol is absent, and rejects a result beyond the numeric range.
pub fn convert(rates: &RateMap, amount: u64, from: &str, to: &str) -> (r: Result<u64, RateError>)
    requires
        rates.wf(),
    ensures
        match r {
            Ok(v) => {
                &&& rates@.contains_key(from@)
                &&& rates@.contains_key(to@)
                &&& v == spec_convert(rates@, amount as int, from@, to@)
                &&& spec_convert(rates@, amount as int, from@, to@) <= u64::MAX
            },
            Err(RateError::MissingRate(s)) => {
                &&& !rates@.contains_key(from@) || !rates@.contains_key(to@)
                &&& (s@ == from@ || s@ == to@)
                &&& !rates@.contains_key(s@)
            },
            Err(RateError::AmountOutOfRange) => {
                &&& rates@.contains_key(from@)
                &&& rates@.contains_key(to@)
                &&& spec_convert(rates@, amount as int, from@, to@) > u64::MAX
            },
            _ => false,
        },
{
    let rate_from = match rates.get(from) {
        Some(v) => v,
        None => {
            return Err(RateError::MissingRate(from.to_owned()));
        },
    };
    let rate_to = match rates.get(to) {
        Some(v) => v,
        None => {
            return Err(RateError::MissingRate(to.to_owned()));
        },
    };
    match convert_amount(amount, rate_from, rate_to) {
        Some(v) => Ok(v),
        None => Err(RateError::AmountOutOfRange),
    }
}

/// Converting an amount into a symbol with the higher rate and back again
/// through the same mapping lands within one rounding unit: the round trip
/// returns the amount or the amount plus one hundredth.
pub proof fn lemma_convert_round_trip_on_map(
    rates: Map<Seq<char>, u64>,
    amount: int,
    from: Seq<char>,
    to: Seq<char>,
)
    requires
        rates.contains_key(from),
        rates.contains_key(to),
        1 <= rates[from] <= rates[to],
        amount >= 0,
    ensures
        amount <= spec_convert(rates, spec_convert(rates, amount, from, to), to, from) <= amount
            + 1,
{
    lemma_convert_round_trip(amount, rates[from] as int, rates[to] as int);
}

/// Converting between one and the same symbol returns the amount
/// unchanged, whatever rate the mapping holds for it.
pub proof fn lemma_convert_identity(
    rates: Map<Seq<char>, u64>,
    amount: int,
    symbol: Seq<char>,
)
    requires
        rates.contains_key(symbol),
        rates[symbol] >= 1,
        amount >= 0,
    ensures
        spec_convert(rates, amount, symbol, symbol) == amount,
{
    lemma_convert_same_rate(amount, rates[symbol] as int);
}

} // verus!
