//! Scalar arithmetic for the engine.
//!
//! Every scalar the engine touches is an IEEE-754 binary64 value carried as
//! its 64-bit encoding (a `u64` bit pattern). The arithmetic itself is done
//! by `rustc_apfloat`, a software implementation of IEEE-754 binary64 with
//! round-to-nearest-even; each operation is wrapped once here, and its result
//! is given a name (an uninterpreted function of the operand bits) that the
//! rest of the library's contracts are written over. Sign manipulation and
//! classification read the encoding directly and are verified bit logic.

use rustc_apfloat::Float;
use vstd::prelude::*;

verus! {

/// Bit encoding of +0.0.
pub const B_ZERO: u64 = 0x0000000000000000;
/// Bit encoding of -0.0.
pub const B_NEG_ZERO: u64 = 0x8000000000000000;
/// Bit encoding of 1.0.
pub const B_ONE: u64 = 0x3FF0000000000000;
/// Bit encoding of 2.0.
pub const B_TWO: u64 = 0x4000000000000000;
/// Bit encoding of 0.5.
pub const B_HALF: u64 = 0x3FE0000000000000;
/// Bit encoding of positive infinity.
pub const B_INF: u64 = 0x7FF0000000000000;
/// Bit encoding of negative infinity.
pub const B_NEG_INF: u64 = 0xFFF0000000000000;
/// Bit encoding of the canonical quiet NaN.
pub const B_QNAN: u64 = 0x7FF8000000000000;
/// Mask of the sign bit.
pub const SIGN_MASK: u64 = 0x8000000000000000;
/// Mask of the 52 significand bits.
pub const MANT_MASK: u64 = 0x000FFFFFFFFFFFFF;

/// The sum of the doubles encoded by `a` and `b`, as an encoding.
pub uninterp spec fn fp_add(a: u64, b: u64) -> u64;

/// The difference of the doubles encoded by `a` and `b`, as an encoding.
pub uninterp spec fn fp_sub(a: u64, b: u64) -> u64;

/// The product of the doubles encoded by `a` and `b`, as an encoding.
pub uninterp spec fn fp_mul(a: u64, b: u64) -> u64;

/// The quotient of the doubles encoded by `a` and `b`, as an encoding.
pub uninterp spec fn fp_div(a: u64, b: u64) -> u64;

/// Whether the double encoded by `a` compares less than the one encoded by
/// `b` (false whenever either is a NaN).
pub uninterp spec fn fp_lt(a: u64, b: u64) -> bool;

/// The encoding of the double nearest to the integer `n`.
pub uninterp spec fn fp_of_int(n: int) -> u64;

/// The integer nearest to the double encoded by `x`, saturated to 64 bits.
pub uninterp spec fn fp_round_int(x: u64) -> i64;

/// Relies on `rustc_apfloat::ieee::Double`'s `Add`: IEEE binary64 addition,
/// round to nearest even, on the encodings.
#[verifier::external_body]
pub(crate) fn add_bits(a: u64, b: u64) -> (r: u64)
    ensures
        r == fp_add(a, b),
{
    let x = rustc_apfloat::ieee::Double::from_bits(a as u128);
    let y = rustc_apfloat::ieee::Double::from_bits(b as u128);
    rustc_apfloat::Float::to_bits((x + y).value) as u64
}

/// Relies on `rustc_apfloat::ieee::Double`'s `Sub`: IEEE binary64
/// subtraction, round to nearest even, on the encodings.
#[verifier::external_body]
pub(crate) fn sub_bits(a: u64, b: u64) -> (r: u64)
    ensures
        r == fp_sub(a, b),
{
    let x = rustc_apfloat::ieee::Double::from_bits(a as u128);
    let y = rustc_apfloat::ieee::Double::from_bits(b as u128);
    rustc_apfloat::Float::to_bits((x - y).value) as u64
}

/// Relies on `rustc_apfloat::ieee::Double`'s `Mul`: IEEE binary64
/// multiplication, round to nearest even, on the encodings.
#[verifier::external_body]
pub(crate) fn mul_bits(a: u64, b: u64) -> (r: u64)
    ensures
        r == fp_mul(a, b),
{
    let x = rustc_apfloat::ieee::Double::from_bits(a as u128);
    let y = rustc_apfloat::ieee::Double::from_bits(b as u128);
    rustc_apfloat::Float::to_bits((x * y).value) as u64
}

/// Relies on `rustc_apfloat::ieee::Double`'s `Div`: IEEE binary64 division,
/// round to nearest even, on the encodings.
#[verifier::external_body]
pub(crate) fn div_bits(a: u64, b: u64) -> (r: u64)
    ensures
        r == fp_div(a, b),
{
    let x = rustc_apfloat::ieee::Double::from_bits(a as u128);
    let y = rustc_apfloat::ieee::Double::from_bits(b as u128);
    rustc_apfloat::Float::to_bits((x / y).value) as u64
}

/// Relies on `rustc_apfloat::ieee::Double`'s `PartialOrd`: the IEEE `<`
/// comparison on the encodings, false when either operand is a NaN.
#[verifier::external_body]
pub(crate) fn lt_bits(a: u64, b: u64) -> (r: bool)
    ensures
        r == fp_lt(a, b),
{
    let x = rustc_apfloat::ieee::Double::from_bits(a as u128);
    let y = rustc_apfloat::ieee::Double::from_bits(b as u128);
    x < y
}

/// Relies on `rustc_apfloat::Float::from_i128_r`: the signed integer `n`
/// converted to the nearest double, as an encoding.
#[verifier::external_body]
pub(crate) fn of_int_bits(n: i64) -> (r: u64)
    ensures
        r == fp_of_int(n as int),
{
    let v = rustc_apfloat::ieee::Double::from_i128_r(
        n as i128,
        rustc_apfloat::Round::NearestTiesToEven,
    );
    rustc_apfloat::Float::to_bits(v.value) as u64
}

/// Relies on `rustc_apfloat::Float::to_i128_r`: the double encoded by `x`
/// rounded to the nearest 64-bit integer; out-of-range inputs saturate and
/// a NaN yields zero.
#[verifier::external_body]
pub(crate) fn round_int_bits(x: u64) -> (r: i64)
    ensures
        r == fp_round_int(x),
{
    let v = rustc_apfloat::ieee::Double::from_bits(x as u128);
    let mut exact = false;
    let s = rustc_apfloat::Float::to_i128_r(
        v,
        64,
        rustc_apfloat::Round::NearestTiesToEven,
        &mut exact,
    );
    s.value as i64
}

/// Whether `x` encodes a NaN: exponent field all ones, significand nonzero.
pub open spec fn fp_is_nan(x: u64) -> bool {
    (x >> 52) & 0x7FF == 0x7FF && x & MANT_MASK != 0
}

/// The encoding of the negation of the double encoded by `x`: the sign bit
/// flipped.
pub open spec fn fp_neg(x: u64) -> u64 {
    x ^ SIGN_MASK
}

/// The encoding of the absolute value of the double encoded by `x`: the sign
/// bit cleared.
pub open spec fn fp_abs(x: u64) -> u64 {
    x & 0x7FFFFFFFFFFFFFFF
}

/// Whether the sign bit of `x` is set.
pub open spec fn fp_is_sign_neg(x: u64) -> bool {
    x >> 63 == 1
}

pub fn is_nan_bits(x: u64) -> (r: bool)
    ensures
        r == fp_is_nan(x),
{
    (x >> 52) & 0x7FF == 0x7FF && x & MANT_MASK != 0
}

pub fn neg_bits(x: u64) -> (r: u64)
    ensures
        r == fp_neg(x),
{
    x ^ SIGN_MASK
}

pub fn abs_bits(x: u64) -> (r: u64)
    ensures
        r == fp_abs(x),
{
    x & 0x7FFFFFFFFFFFFFFF
}

pub fn is_sign_neg_bits(x: u64) -> (r: bool)
    ensures
        r == fp_is_sign_neg(x),
{
    x >> 63 == 1
}

} // verus!
