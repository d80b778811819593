//! The softmax layer.
//!
//! Stateless: the forward pass divides each component's exponential by the
//! sum of all of them (no rescaling of large inputs is attempted, so
//! components far above 700 overflow the exponential the IEEE way); the
//! backward pass applies the softmax Jacobian `diag(s) - s s^T`, built from
//! the forward output `s`, to the incoming gradient.

use crate::fp::{add_bits, div_bits, fp_add, fp_div, fp_mul, fp_sub, mul_bits, sub_bits, B_ZERO};
use crate::scalar::{exp_bits, fp_exp};
use vstd::prelude::*;

verus! {

/// A stateless softmax layer.
pub struct SoftmaxLayer {
}

/// The componentwise exponential of the input.
pub open spec fn exp_seq(input: Seq<u64>) -> Seq<u64> {
    Seq::new(input.len(), |i: int| fp_exp(input[i]))
}

/// The left-to-right sum of the first `n` components, from zero.
pub open spec fn seq_sum(s: Seq<u64>, n: int) -> u64
    decreases n,
{
    if n <= 0 {
        B_ZERO
    } else {
        fp_add(seq_sum(s, n - 1), s[n - 1])
    }
}

/// The forward pass: each exponential over the sum of all exponentials.
pub open spec fn softmax_forward_spec(input: Seq<u64>) -> Seq<u64> {
    let exps = exp_seq(input);
    let total = seq_sum(exps, input.len() as int);
    Seq::new(input.len(), |i: int| fp_div(exps[i], total))
}

/// Row `i` of the softmax Jacobian `diag(s) - s s^T`.
pub open spec fn softmax_jacobian_row(s: Seq<u64>, i: int) -> Seq<u64> {
    Seq::new(
        s.len(),
        |j: int|
            fp_sub(
                if i == j {
                    s[i]
                } else {
                    B_ZERO
                },
                fp_mul(s[i], s[j]),
            ),
    )
}

/// The running dot product of a Jacobian row with the gradient: component
/// `k-1` last.
pub open spec fn jac_dot_prefix(s: Seq<u64>, og: Seq<u64>, i: int, k: int) -> u64
    decreases k,
{
    if k <= 0 {
        B_ZERO
    } else {
        fp_add(jac_dot_prefix(s, og, i, k - 1), fp_mul(softmax_jacobian_row(s, i)[k - 1], og[k - 1]))
    }
}

/// The backward pass: the Jacobian of the forward output applied to the
/// incoming gradient.
pub open spec fn softmax_backward_spec(output: Seq<u64>, output_gradient: Seq<u64>) -> Seq<u64> {
    Seq::new(output.len(), |i: int| jac_dot_prefix(output, output_gradient, i, output.len() as int))
}

impl SoftmaxLayer {
    /// A softmax layer.
    pub fn new() -> (r: SoftmaxLayer) {
        SoftmaxLayer {  }
    }

    /// The normalized exponentials of the input.
    pub fn forward(&self, input: &Vec<u64>) -> (out: Vec<u64>)
        ensures
            out@ == softmax_forward_spec(input@),
    {
        let n: usize = input.len();
        let mut exps: Vec<u64> = Vec::new();
        let mut i: usize = 0;
        while i < n
            invariant
                n == input@.len(),
                0 <= i <= n,
                exps@.len() == i,
                forall|j: int| 0 <= j < i ==> exps@[j] == fp_exp(input@[j]),
            decreases n - i,
        {
            exps.push(exp_bits(input[i]));
            i = i + 1;
        }
        proof {
            assert(exps@ =~= exp_seq(input@));
        }
        let mut total: u64 = B_ZERO;
        let mut i: usize = 0;
        while i < n
            invariant
                n == exps@.len(),
                exps@ == exp_seq(input@),
                n == input@.len(),
                0 <= i <= n,
                total == seq_sum(exps@, i as int),
            decreases n - i,
        {
            total = add_bits(total, exps[i]);
            i = i + 1;
        }
        let mut out: Vec<u64> = Vec::new();
        let mut i: usize = 0;
        while i < n
            invariant
                n == exps@.len(),
                exps@ == exp_seq(input@),
                n == input@.len(),
                total == seq_sum(exps@, n as int),
                0 <= i <= n,
                out@.len() == i,
                forall|j: int| 0 <= j < i ==> out@[j] == fp_div(exps@[j], total),
            decreases n - i,
        {
            out.push(div_bits(exps[i], total));
            i = i + 1;
        }
        proof {
            assert(out@ =~= softmax_forward_spec(input@));
        }
        out
    }

    /// The Jacobian of the forward output, applied to the incoming
    /// gradient; the layer has no state to change.
    pub fn backward(
        &mut self,
        _input: &Vec<u64>,
        output: &Vec<u64>,
        output_gradient: &Vec<u64>,
        _learning_rate: u64,
    ) -> (r: Vec<u64>)
        requires
            output@.len() == output_gradient@.len(),
        ensures
            r@ == softmax_backward_spec(output@, output_gradient@),
    {
        let n: usize = output.len();
        let mut out: Vec<u64> = Vec::new();
        let mut i: usize = 0;
        while i < n
            invariant
                n == output@.len(),
                n == output_gradient@.len(),
                0 <= i <= n,
                out@.len() == i,
                forall|a: int|
                    0 <= a < i ==> out@[a] == jac_dot_prefix(
                        output@,
                        output_gradient@,
                        a,
                        n as int,
                    ),
            decreases n - i,
        {
            let mut acc: u64 = B_ZERO;
            let mut k: usize = 0;
            while k < n
                invariant
                    n == output@.len(),
                    n == output_gradient@.len(),
                    0 <= i < n,
                    0 <= k <= n,
                    acc == jac_dot_prefix(output@, output_gradient@, i as int, k as int),
                decreases n - k,
            {
                let diag: u64 = if i == k {
                    output[i]
                } else {
                    B_ZERO
                };
                let entry: u64 = sub_bits(diag, mul_bits(output[i], output[k]));
                proof {
                    assert(softmax_jacobian_row(output@, i as int)[k as int] == entry);
                }
                acc = add_bits(acc, mul_bits(entry, output_gradient[k]));
                k = k + 1;
            }
            out.push(acc);
            i = i + 1;
        }
        proof {
            assert(out@ =~= softmax_backward_spec(output@, output_gradient@));
        }
        out
    }
}

} // verus!
