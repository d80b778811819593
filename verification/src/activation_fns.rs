//! The three activation nonlinearities and their derivatives, as scalar
//! functions on binary64 encodings.
//!
//! Each has a value function `fx` and a derivative function `dx`; the
//! derivative is always evaluated at the pre-activation input. The sigmoid
//! and the hyperbolic tangent are built on the verified exponential of
//! `scalar`.

use crate::fp::{
    abs_bits, add_bits, div_bits, fp_abs, fp_add, fp_div, fp_is_nan, fp_is_sign_neg, fp_lt, fp_mul,
    fp_neg, fp_sub, is_nan_bits, is_sign_neg_bits, lt_bits, mul_bits, neg_bits, sub_bits, B_ONE,
    B_QNAN, B_TWO, B_ZERO, SIGN_MASK,
};
use crate::scalar::{exp_bits, fp_exp};
use vstd::prelude::*;

verus! {

/// The rectifier: `x` where `0 < x`, else zero.
pub open spec fn relu_fx(x: u64) -> u64 {
    if fp_lt(B_ZERO, x) {
        x
    } else {
        B_ZERO
    }
}

/// The rectifier's derivative: one where `0 < x`, else zero.
pub open spec fn relu_dx(x: u64) -> u64 {
    if fp_lt(B_ZERO, x) {
        B_ONE
    } else {
        B_ZERO
    }
}

/// The sigmoid: `1 / (1 + exp(-x))`.
pub open spec fn sigmoid_fx(x: u64) -> u64 {
    fp_div(B_ONE, fp_add(B_ONE, fp_exp(fp_neg(x))))
}

/// The sigmoid's derivative: `s (1 - s)` at `s = sigmoid(x)`.
pub open spec fn sigmoid_dx(x: u64) -> u64 {
    fp_mul(sigmoid_fx(x), fp_sub(B_ONE, sigmoid_fx(x)))
}

/// The hyperbolic tangent, computed as `1 - 2 / (exp(2 |x|) + 1)` with the
/// sign of `x` restored; NaN stays NaN.
pub open spec fn tanh_fx(x: u64) -> u64 {
    if fp_is_nan(x) {
        B_QNAN
    } else {
        let t = fp_exp(fp_mul(B_TWO, fp_abs(x)));
        let r = fp_sub(B_ONE, fp_div(B_TWO, fp_add(t, B_ONE)));
        if fp_is_sign_neg(x) {
            r ^ SIGN_MASK
        } else {
            r
        }
    }
}

/// The hyperbolic tangent's derivative: `1 - tanh(x)^2`.
pub open spec fn tanh_dx(x: u64) -> u64 {
    fp_sub(B_ONE, fp_mul(tanh_fx(x), tanh_fx(x)))
}

pub fn relu_fx_bits(x: u64) -> (o: u64)
    ensures
        o == relu_fx(x),
{
    if lt_bits(B_ZERO, x) {
        x
    } else {
        B_ZERO
    }
}

pub fn relu_dx_bits(x: u64) -> (o: u64)
    ensures
        o == relu_dx(x),
{
    if lt_bits(B_ZERO, x) {
        B_ONE
    } else {
        B_ZERO
    }
}

pub fn sigmoid_fx_bits(x: u64) -> (o: u64)
    ensures
        o == sigmoid_fx(x),
{
    div_bits(B_ONE, add_bits(B_ONE, exp_bits(neg_bits(x))))
}

pub fn sigmoid_dx_bits(x: u64) -> (o: u64)
    ensures
        o == sigmoid_dx(x),
{
    let s: u64 = sigmoid_fx_bits(x);
    mul_bits(s, sub_bits(B_ONE, s))
}

pub fn tanh_fx_bits(x: u64) -> (o: u64)
    ensures
        o == tanh_fx(x),
{
    if is_nan_bits(x) {
        return B_QNAN;
    }
    let t: u64 = exp_bits(mul_bits(B_TWO, abs_bits(x)));
    let r: u64 = sub_bits(B_ONE, div_bits(B_TWO, add_bits(t, B_ONE)));
    if is_sign_neg_bits(x) {
        r ^ SIGN_MASK
    } else {
        r
    }
}

pub fn tanh_dx_bits(x: u64) -> (o: u64)
    ensures
        o == tanh_dx(x),
{
    let t: u64 = tanh_fx_bits(x);
    sub_bits(B_ONE, mul_bits(t, t))
}

} // verus!
