//! Signed fixed-point numbers with 48 fractional bits (`I80F48`).
//!
//! Every fixed-point value of the library is carried as its raw bits, an `i128`: the number
//! that bits `b` stand for is `b / 2^48`. Addition and subtraction are plain checked integer
//! operations on the bits; multiplication, division, rounding and the conversion to `u64` are
//! done by the `fixed` crate, whose behaviour on the bits is stated below.

use vstd::prelude::*;

verus! {

/// `2^48`, the bits of the fixed-point number one.
pub const ONE_BITS: i128 = 0x1_0000_0000_0000;

/// The bits of `2^48`, as a mathematical integer.
pub open spec fn frac_unit() -> int {
    0x1_0000_0000_0000
}

/// Whether `x` can be held by an `i128`.
pub open spec fn fits_i128(x: int) -> bool {
    i128::MIN <= x <= i128::MAX
}

/// Division rounded towards zero.
pub open spec fn trunc_div(n: int, d: int) -> int
    recommends
        d != 0,
{
    if n >= 0 {
        if d > 0 {
            n / d
        } else {
            -(n / (-d))
        }
    } else {
        if d > 0 {
            -((-n) / d)
        } else {
            (-n) / (-d)
        }
    }
}

/// Exact bits of the product of two fixed-point numbers: the wide product shifted right by the
/// fractional width, which rounds towards negative infinity.
pub open spec fn mul_bits(a: int, b: int) -> int {
    (a * b) / frac_unit()
}

/// Exact bits of the quotient of two fixed-point numbers: the dividend widened by the fractional
/// width, divided with rounding towards zero.
pub open spec fn div_bits(a: int, b: int) -> int
    recommends
        b != 0,
{
    trunc_div(a * frac_unit(), b)
}

/// Bits of the largest integer not above `a`.
pub open spec fn floor_bits(a: int) -> int {
    (a / frac_unit()) * frac_unit()
}

/// Bits of the smallest integer not below `a`.
pub open spec fn ceil_bits(a: int) -> int {
    if a % frac_unit() == 0 {
        a
    } else {
        floor_bits(a) + frac_unit()
    }
}

/// What a checked operation returns when its exact result is `x`.
pub open spec fn checked(x: int) -> Option<i128> {
    if fits_i128(x) {
        Some(x as i128)
    } else {
        None
    }
}

/// Checked product `a * b` (`I80F48::checked_mul`).
pub open spec fn spec_mul(a: i128, b: i128) -> Option<i128> {
    checked(mul_bits(a as int, b as int))
}

/// Checked quotient `a / b` (`I80F48::checked_div`): `None` when `b` is zero or on overflow.
pub open spec fn spec_div(a: i128, b: i128) -> Option<i128> {
    if b == 0 {
        None
    } else {
        checked(div_bits(a as int, b as int))
    }
}

/// `fixed::types::I80F48::checked_mul`, on raw bits: the 256-bit product shifted right by 48,
/// `None` when that does not fit in 128 bits.
#[verifier::external_body]
pub(crate) fn fx_checked_mul(a: i128, b: i128) -> (r: Option<i128>)
    ensures
        r == spec_mul(a, b),
{
    fixed::types::I80F48::from_bits(a).checked_mul(fixed::types::I80F48::from_bits(b)).map(
        fixed::types::I80F48::to_bits,
    )
}

/// `fixed::types::I80F48::checked_div`, on raw bits: `None` for a zero divisor; otherwise the
/// dividend shifted left by 48 and divided with truncation, `None` when that does not fit.
#[verifier::external_body]
pub(crate) fn fx_checked_div(a: i128, b: i128) -> (r: Option<i128>)
    ensures
        r == spec_div(a, b),
{
    fixed::types::I80F48::from_bits(a).checked_div(fixed::types::I80F48::from_bits(b)).map(
        fixed::types::I80F48::to_bits,
    )
}

/// `fixed::types::I80F48::checked_floor`, on raw bits. With 80 integer bits the floor always
/// fits, so the crate always returns `Some`.
#[verifier::external_body]
pub(crate) fn fx_checked_floor(a: i128) -> (r: Option<i128>)
    ensures
        r == checked(floor_bits(a as int)),
{
    fixed::types::I80F48::from_bits(a).checked_floor().map(fixed::types::I80F48::to_bits)
}

/// `fixed::types::I80F48::checked_ceil`, on raw bits: the value itself when it is an integer,
/// else the floor plus one, `None` when that overflows.
#[verifier::external_body]
pub(crate) fn fx_checked_ceil(a: i128) -> (r: Option<i128>)
    ensures
        r == checked(ceil_bits(a as int)),
{
    fixed::types::I80F48::from_bits(a).checked_ceil().map(fixed::types::I80F48::to_bits)
}

/// The integer part of a fixed-point number as a `u64` (rounding towards negative infinity),
/// `None` when it does not fit.
pub open spec fn to_u64(a: i128) -> Option<u64> {
    if 0 <= (a as int) / frac_unit() <= u64::MAX {
        Some(((a as int) / frac_unit()) as u64)
    } else {
        None
    }
}

/// `fixed::types::I80F48::checked_to_num::<u64>`: the fractional bits are discarded (rounding
/// towards negative infinity) and `None` is returned when the integer does not fit in `u64`.
#[verifier::external_body]
pub(crate) fn fx_checked_to_u64(a: i128) -> (r: Option<u64>)
    ensures
        r == to_u64(a),
{
    fixed::types::I80F48::from_bits(a).checked_to_num::<u64>()
}

/// Bits of the fixed-point number equal to the integer `n` (`I80F48::from_num(n)`).
pub fn fx_from_u64(n: u64) -> (r: i128)
    ensures
        r == n * frac_unit(),
{
    assert(n * frac_unit() <= u64::MAX * frac_unit()) by (nonlinear_arith)
        requires
            n <= u64::MAX,
    ;
    (n as i128) * ONE_BITS
}

/// Checked sum (`I80F48::checked_add`): the bits add, `None` on overflow.
pub fn fx_checked_add(a: i128, b: i128) -> (r: Option<i128>)
    ensures
        r == checked(a + b),
{
    a.checked_add(b)
}

/// Checked difference (`I80F48::checked_sub`): the bits subtract, `None` on overflow.
pub fn fx_checked_sub(a: i128, b: i128) -> (r: Option<i128>)
    ensures
        r == checked(a - b),
{
    a.checked_sub(b)
}

/// The larger of two fixed-point numbers.
pub fn fx_max(a: i128, b: i128) -> (r: i128)
    ensures
        r == if a >= b { a } else { b },
{
    if a >= b {
        a
    } else {
        b
    }
}

/// The smaller of two fixed-point numbers.
pub fn fx_min(a: i128, b: i128) -> (r: i128)
    ensures
        r == if a <= b { a } else { b },
{
    if a <= b {
        a
    } else {
        b
    }
}

} // verus!
