//! The two loss functions: mean squared error and binary cross-entropy.
//!
//! Each has a scalar value `fx` over a prediction vector and a target
//! vector, and a gradient `dx` with respect to the prediction. Both demand
//! equal-length, nonempty vectors. Sums run left to right from zero, and the
//! mean divides at the end, so every contract pins the exact accumulation
//! order. For binary cross-entropy the caller keeps predictions strictly
//! inside (0, 1); outside that the logarithms and quotients saturate the
//! IEEE way (infinities and NaNs), which the contracts carry faithfully.

use crate::fp::{
    add_bits, div_bits, fp_add, fp_div, fp_mul, fp_of_int, fp_sub, mul_bits, of_int_bits, sub_bits,
    B_ONE, B_TWO, B_ZERO,
};
use crate::scalar::{fp_log10, log10_bits};
use vstd::prelude::*;

verus! {

/// Which loss a network trains against.
#[derive(Clone, Copy, PartialEq, Eq, Structural, Debug)]
pub enum NuralNetworkLossKind {
    BinaryCrossEntropy,
    Mse,
}

/// The squared-error sum of the first `n` components: each step adds
/// `(actual - predicted)^2`.
pub open spec fn mse_sum(predicted: Seq<u64>, actual: Seq<u64>, n: int) -> u64
    decreases n,
{
    if n <= 0 {
        B_ZERO
    } else {
        let d = fp_sub(actual[n - 1], predicted[n - 1]);
        fp_add(mse_sum(predicted, actual, n - 1), fp_mul(d, d))
    }
}

/// Mean squared error: the squared-error sum divided by the length.
pub open spec fn mse_fx_spec(predicted: Seq<u64>, actual: Seq<u64>) -> u64 {
    fp_div(mse_sum(predicted, actual, predicted.len() as int), fp_of_int(predicted.len() as int))
}

/// The gradient of mean squared error: `(predicted - actual) * 2 / n`
/// componentwise.
pub open spec fn mse_dx_spec(predicted: Seq<u64>, actual: Seq<u64>) -> Seq<u64> {
    Seq::new(
        predicted.len(),
        |i: int|
            fp_div(
                fp_mul(fp_sub(predicted[i], actual[i]), B_TWO),
                fp_of_int(predicted.len() as int),
            ),
    )
}

/// The cross-entropy sum of the first `n` components: each step subtracts
/// `actual * log10(predicted)` and `(1 - actual) * log10(1 - predicted)`.
pub open spec fn bce_sum(predicted: Seq<u64>, actual: Seq<u64>, n: int) -> u64
    decreases n,
{
    if n <= 0 {
        B_ZERO
    } else {
        let p = predicted[n - 1];
        let a = actual[n - 1];
        fp_sub(
            fp_sub(bce_sum(predicted, actual, n - 1), fp_mul(a, fp_log10(p))),
            fp_mul(fp_sub(B_ONE, a), fp_log10(fp_sub(B_ONE, p))),
        )
    }
}

/// Binary cross-entropy: the cross-entropy sum divided by the length.
pub open spec fn bce_fx_spec(predicted: Seq<u64>, actual: Seq<u64>) -> u64 {
    fp_div(bce_sum(predicted, actual, predicted.len() as int), fp_of_int(predicted.len() as int))
}

/// The gradient of binary cross-entropy:
/// `((1 - actual)/(1 - predicted) - actual/predicted) / n` componentwise.
pub open spec fn bce_dx_spec(predicted: Seq<u64>, actual: Seq<u64>) -> Seq<u64> {
    Seq::new(
        predicted.len(),
        |i: int|
            fp_div(
                fp_sub(
                    fp_div(fp_sub(B_ONE, actual[i]), fp_sub(B_ONE, predicted[i])),
                    fp_div(actual[i], predicted[i]),
                ),
                fp_of_int(predicted.len() as int),
            ),
    )
}

/// The chosen loss's value.
pub open spec fn loss_fx_spec(kind: NuralNetworkLossKind, predicted: Seq<u64>, actual: Seq<u64>) -> u64 {
    match kind {
        NuralNetworkLossKind::BinaryCrossEntropy => bce_fx_spec(predicted, actual),
        NuralNetworkLossKind::Mse => mse_fx_spec(predicted, actual),
    }
}

/// The chosen loss's gradient.
pub open spec fn loss_dx_spec(
    kind: NuralNetworkLossKind,
    predicted: Seq<u64>,
    actual: Seq<u64>,
) -> Seq<u64> {
    match kind {
        NuralNetworkLossKind::BinaryCrossEntropy => bce_dx_spec(predicted, actual),
        NuralNetworkLossKind::Mse => mse_dx_spec(predicted, actual),
    }
}

/// The value of the chosen loss on a prediction and a target.
pub fn loss_fx(kind: NuralNetworkLossKind, predicted: &Vec<u64>, actual: &Vec<u64>) -> (r: u64)
    requires
        predicted@.len() == actual@.len(),
        1 <= predicted@.len() <= 0x7FFF_FFFF_FFFF_FFFF,
    ensures
        r == loss_fx_spec(kind, predicted@, actual@),
{
    let n: usize = predicted.len();
    let mut acc: u64 = B_ZERO;
    match kind {
        NuralNetworkLossKind::Mse => {
            let mut i: usize = 0;
            while i < n
                invariant
                    n == predicted@.len(),
                    n == actual@.len(),
                    0 <= i <= n,
                    acc == mse_sum(predicted@, actual@, i as int),
                decreases n - i,
            {
                let d: u64 = sub_bits(actual[i], predicted[i]);
                acc = add_bits(acc, mul_bits(d, d));
                i = i + 1;
            }
        },
        NuralNetworkLossKind::BinaryCrossEntropy => {
            let mut i: usize = 0;
            while i < n
                invariant
                    n == predicted@.len(),
                    n == actual@.len(),
                    0 <= i <= n,
                    acc == bce_sum(predicted@, actual@, i as int),
                decreases n - i,
            {
                let p: u64 = predicted[i];
                let a: u64 = actual[i];
                acc = sub_bits(
                    sub_bits(acc, mul_bits(a, log10_bits(p))),
                    mul_bits(sub_bits(B_ONE, a), log10_bits(sub_bits(B_ONE, p))),
                );
                i = i + 1;
            }
        },
    }
    div_bits(acc, of_int_bits(n as i64))
}

/// The gradient of the chosen loss on a prediction and a target.
pub fn loss_dx(kind: NuralNetworkLossKind, predicted: &Vec<u64>, actual: &Vec<u64>) -> (r: Vec<u64>)
    requires
        predicted@.len() == actual@.len(),
        1 <= predicted@.len() <= 0x7FFF_FFFF_FFFF_FFFF,
    ensures
        r@ == loss_dx_spec(kind, predicted@, actual@),
{
    let n: usize = predicted.len();
    let nf: u64 = of_int_bits(n as i64);
    let mut out: Vec<u64> = Vec::new();
    match kind {
        NuralNetworkLossKind::Mse => {
            let mut i: usize = 0;
            while i < n
                invariant
                    n == predicted@.len(),
                    n == actual@.len(),
                    nf == fp_of_int(n as int),
                    0 <= i <= n,
                    out@.len() == i,
                    forall|j: int|
                        0 <= j < i ==> out@[j] == fp_div(
                            fp_mul(fp_sub(predicted@[j], actual@[j]), B_TWO),
                            fp_of_int(n as int),
                        ),
                decreases n - i,
            {
                out.push(div_bits(mul_bits(sub_bits(predicted[i], actual[i]), B_TWO), nf));
                i = i + 1;
            }
            proof {
                assert(out@ =~= mse_dx_spec(predicted@, actual@));
            }
        },
        NuralNetworkLossKind::BinaryCrossEntropy => {
            let mut i: usize = 0;
            while i < n
                invariant
                    n == predicted@.len(),
                    n == actual@.len(),
                    nf == fp_of_int(n as int),
                    0 <= i <= n,
                    out@.len() == i,
                    forall|j: int|
                        0 <= j < i ==> out@[j] == fp_div(
                            fp_sub(
                                fp_div(fp_sub(B_ONE, actual@[j]), fp_sub(B_ONE, predicted@[j])),
                                fp_div(actual@[j], predicted@[j]),
                            ),
                            fp_of_int(n as int),
                        ),
                decreases n - i,
            {
                let p: u64 = predicted[i];
                let a: u64 = actual[i];
                out.push(
                    div_bits(
                        sub_bits(
                            div_bits(sub_bits(B_ONE, a), sub_bits(B_ONE, p)),
                            div_bits(a, p),
                        ),
                        nf,
                    ),
                );
                i = i + 1;
            }
            proof {
                assert(out@ =~= bce_dx_spec(predicted@, actual@));
            }
        },
    }
    out
}

} // verus!
