//! Prices, values and the conversion between token amounts and dollar values.

use crate::fixed_point::{
    checked, div_bits, frac_unit, fx_checked_add, fx_checked_div, fx_checked_mul, fx_checked_sub,
    spec_div, spec_mul,
};
use crate::state::{MarginfiError, OraclePriceType, PriceBias, EXP_10_LEN};
use vstd::prelude::*;

verus! {

/// A price and its confidence interval, both as fixed-point bits.
#[derive(PartialEq, Eq, Structural, Clone, Copy, Debug)]
pub struct OraclePriceWithConfidence {
    pub price: i128,
    pub confidence: i128,
}

/// What an oracle reports for a bank: its real-time and its time-weighted price.
#[derive(PartialEq, Eq, Structural, Clone, Copy, Debug)]
pub struct PriceFeed {
    pub real_time: OraclePriceWithConfidence,
    pub time_weighted: OraclePriceWithConfidence,
}

/// The reading of the given type.
pub open spec fn feed_reading(feed: PriceFeed, price_type: OraclePriceType) -> OraclePriceWithConfidence {
    match price_type {
        OraclePriceType::RealTime => feed.real_time,
        OraclePriceType::TimeWeighted => feed.time_weighted,
    }
}

impl PriceFeed {
    /// The price and confidence of the given type.
    pub fn get_price_and_confidence_of_type(&self, price_type: OraclePriceType) -> (r:
        OraclePriceWithConfidence)
        ensures
            r == feed_reading(*self, price_type),
    {
        match price_type {
            OraclePriceType::RealTime => self.real_time,
            OraclePriceType::TimeWeighted => self.time_weighted,
        }
    }
}

/// The price moved by its confidence: down for `Low`, up for `High`; `MathError` on overflow.
pub open spec fn spec_apply_price_bias(price: OraclePriceWithConfidence, bias: PriceBias) -> Result<
    i128,
    MarginfiError,
> {
    let r = match bias {
        PriceBias::Low => checked(price.price - price.confidence),
        PriceBias::High => checked(price.price + price.confidence),
    };
    match r {
        Some(v) => Ok(v),
        None => Err(MarginfiError::MathError),
    }
}

/// Moves a price by its confidence interval: `price - confidence` for `Low`, `price +
/// confidence` for `High`.
pub fn apply_price_bias(price: OraclePriceWithConfidence, bias: PriceBias) -> (r: Result<
    i128,
    MarginfiError,
>)
    ensures
        r == spec_apply_price_bias(price, bias),
{
    let p = match bias {
        PriceBias::Low => fx_checked_sub(price.price, price.confidence),
        PriceBias::High => fx_checked_add(price.price, price.confidence),
    };
    match p {
        Some(v) => Ok(v),
        None => Err(MarginfiError::MathError),
    }
}

/// `10^n`.
pub open spec fn pow10(n: nat) -> nat
    decreases n,
{
    if n == 0 {
        1
    } else {
        10 * pow10((n - 1) as nat)
    }
}

/// Bits of the fixed-point number `10^decimals`.
pub open spec fn exp10_bits(decimals: u8) -> int {
    pow10(decimals as nat) * frac_unit()
}

/// The fixed-point number `10^decimals`, for `decimals` below 24.
pub fn exp_10_i80f48(decimals: u8) -> (r: i128)
    requires
        decimals < EXP_10_LEN,
    ensures
        r == exp10_bits(decimals),
        r > 0,
{
    reveal_with_fuel(pow10, 24);
    match decimals {
        0 => 281474976710656,
        1 => 2814749767106560,
        2 => 28147497671065600,
        3 => 281474976710656000,
        4 => 2814749767106560000,
        5 => 28147497671065600000,
        6 => 281474976710656000000,
        7 => 2814749767106560000000,
        8 => 28147497671065600000000,
        9 => 281474976710656000000000,
        10 => 2814749767106560000000000,
        11 => 28147497671065600000000000,
        12 => 281474976710656000000000000,
        13 => 2814749767106560000000000000,
        14 => 28147497671065600000000000000,
        15 => 281474976710656000000000000000,
        16 => 2814749767106560000000000000000,
        17 => 28147497671065600000000000000000,
        18 => 281474976710656000000000000000000,
        19 => 2814749767106560000000000000000000,
        20 => 28147497671065600000000000000000000,
        21 => 281474976710656000000000000000000000,
        22 => 2814749767106560000000000000000000000,
        23 => 28147497671065600000000000000000000000,
        _ => 28147497671065600000000000000000000000,
    }
}

/// Result of `calc_value`: `None` when the weighting overflows (where the computation stops),
/// otherwise the value or the arithmetic error.
pub open spec fn spec_calc_value(amount: i128, price: i128, mint_decimals: u8, weight: Option<
    i128,
>) -> Option<Result<i128, MarginfiError>> {
    if amount == 0 {
        Some(Ok(0))
    } else if mint_decimals >= EXP_10_LEN {
        None
    } else {
        let weighted = match weight {
            Some(w) => spec_mul(amount, w),
            None => Some(amount),
        };
        match weighted {
            None => None,
            Some(wa) => Some(
                match spec_mul(wa, price) {
                    None => Err(MarginfiError::MathError),
                    Some(p) => match checked(div_bits(p as int, exp10_bits(mint_decimals))) {
                        None => Err(MarginfiError::MathError),
                        Some(v) => Ok(v),
                    },
                },
            ),
        }
    }
}

/// Calculate the value of an asset, given its quantity with a decimal exponent, and a price
/// with a decimal exponent, and an optional weight: `amount * weight * price / 10^decimals`.
/// A zero amount is worth zero whatever the other inputs.
pub fn calc_value(amount: i128, price: i128, mint_decimals: u8, weight: Option<i128>) -> (r:
    Result<i128, MarginfiError>)
    requires
        spec_calc_value(amount, price, mint_decimals, weight) is Some,
    ensures
        r == spec_calc_value(amount, price, mint_decimals, weight)->0,
{
    if amount == 0 {
        return Ok(0);
    }
    let scaling_factor = exp_10_i80f48(mint_decimals);
    let weighted_asset_amount = match weight {
        Some(w) => fx_checked_mul(amount, w).unwrap(),
        None => amount,
    };
    let product = match fx_checked_mul(weighted_asset_amount, price) {
        Some(p) => p,
        None => return Err(MarginfiError::MathError),
    };
    match fx_checked_div(product, scaling_factor) {
        Some(v) => Ok(v),
        None => Err(MarginfiError::MathError),
    }
}

/// Result of `calc_amount`.
pub open spec fn spec_calc_amount(value: i128, price: i128, mint_decimals: u8) -> Result<
    i128,
    MarginfiError,
>
    recommends
        mint_decimals < EXP_10_LEN,
{
    match checked(crate::fixed_point::mul_bits(value as int, exp10_bits(mint_decimals))) {
        None => Err(MarginfiError::MathError),
        Some(q) => match spec_div(q, price) {
            None => Err(MarginfiError::MathError),
            Some(a) => Ok(a),
        },
    }
}

/// The token amount worth `value` at `price`: `value * 10^decimals / price`; `MathError` on
/// overflow or a zero price.
pub fn calc_amount(value: i128, price: i128, mint_decimals: u8) -> (r: Result<i128, MarginfiError>)
    requires
        mint_decimals < EXP_10_LEN,
    ensures
        r == spec_calc_amount(value, price, mint_decimals),
{
    let scaling_factor = exp_10_i80f48(mint_decimals);
    let qt = match fx_checked_mul(value, scaling_factor) {
        Some(q) => q,
        None => return Err(MarginfiError::MathError),
    };
    match fx_checked_div(qt, price) {
        Some(a) => Ok(a),
        None => Err(MarginfiError::MathError),
    }
}

} // verus!
