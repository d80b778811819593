//! The elementwise activation layer.
//!
//! It owns only its kind, chosen at construction and never changed. The
//! forward pass maps the kind's nonlinearity over the input; the backward
//! pass multiplies the kind's derivative, taken at the forward input, into
//! the incoming gradient, and trains nothing.

use crate::activation_fns::{
    relu_dx, relu_dx_bits, relu_fx, relu_fx_bits, sigmoid_dx, sigmoid_dx_bits, sigmoid_fx,
    sigmoid_fx_bits, tanh_dx, tanh_dx_bits, tanh_fx, tanh_fx_bits,
};
use crate::fp::fp_mul;
use vstd::prelude::*;

verus! {

/// The available nonlinearities.
#[derive(Clone, Copy, PartialEq, Eq, Structural, Debug)]
pub enum ActivationLayerKind {
    ReLu,
    Sigmoid,
    Tanh,
}

/// An elementwise activation layer.
pub struct ActivationLayer {
    pub kind: ActivationLayerKind,
}

/// The kind's value function applied to one scalar encoding.
pub open spec fn act_fx(kind: ActivationLayerKind, x: u64) -> u64 {
    match kind {
        ActivationLayerKind::ReLu => relu_fx(x),
        ActivationLayerKind::Sigmoid => sigmoid_fx(x),
        ActivationLayerKind::Tanh => tanh_fx(x),
    }
}

/// The kind's derivative applied to one scalar encoding.
pub open spec fn act_dx(kind: ActivationLayerKind, x: u64) -> u64 {
    match kind {
        ActivationLayerKind::ReLu => relu_dx(x),
        ActivationLayerKind::Sigmoid => sigmoid_dx(x),
        ActivationLayerKind::Tanh => tanh_dx(x),
    }
}

/// The forward pass: the value function mapped over the input.
pub open spec fn act_forward_spec(kind: ActivationLayerKind, input: Seq<u64>) -> Seq<u64> {
    Seq::new(input.len(), |i: int| act_fx(kind, input[i]))
}

/// The backward pass: the derivative at each forward input, times the
/// incoming gradient component.
pub open spec fn act_backward_spec(
    kind: ActivationLayerKind,
    input: Seq<u64>,
    output_gradient: Seq<u64>,
) -> Seq<u64> {
    Seq::new(input.len(), |i: int| fp_mul(act_dx(kind, input[i]), output_gradient[i]))
}

fn act_fx_bits(kind: ActivationLayerKind, x: u64) -> (r: u64)
    ensures
        r == act_fx(kind, x),
{
    match kind {
        ActivationLayerKind::ReLu => relu_fx_bits(x),
        ActivationLayerKind::Sigmoid => sigmoid_fx_bits(x),
        ActivationLayerKind::Tanh => tanh_fx_bits(x),
    }
}

fn act_dx_bits(kind: ActivationLayerKind, x: u64) -> (r: u64)
    ensures
        r == act_dx(kind, x),
{
    match kind {
        ActivationLayerKind::ReLu => relu_dx_bits(x),
        ActivationLayerKind::Sigmoid => sigmoid_dx_bits(x),
        ActivationLayerKind::Tanh => tanh_dx_bits(x),
    }
}

impl ActivationLayer {
    /// A layer of the given kind.
    pub fn new(kind: ActivationLayerKind) -> (r: ActivationLayer)
        ensures
            r.kind == kind,
    {
        ActivationLayer { kind }
    }

    /// The nonlinearity mapped over the input.
    pub fn forward(&self, input: &Vec<u64>) -> (out: Vec<u64>)
        ensures
            out@ == act_forward_spec(self.kind, input@),
    {
        let n: usize = input.len();
        let mut out: Vec<u64> = Vec::new();
        let mut i: usize = 0;
        while i < n
            invariant
                n == input@.len(),
                0 <= i <= n,
                out@.len() == i,
                forall|j: int| 0 <= j < i ==> out@[j] == act_fx(self.kind, input@[j]),
            decreases n - i,
        {
            out.push(act_fx_bits(self.kind, input[i]));
            i = i + 1;
        }
        proof {
            assert(out@ =~= act_forward_spec(self.kind, input@));
        }
        out
    }

    /// The derivative at each forward input multiplied into the incoming
    /// gradient; the layer itself does not change.
    pub fn backward(
        &mut self,
        input: &Vec<u64>,
        _output: &Vec<u64>,
        output_gradient: &Vec<u64>,
        _learning_rate: u64,
    ) -> (r: Vec<u64>)
        requires
            input@.len() == output_gradient@.len(),
        ensures
            final(self).kind == old(self).kind,
            r@ == act_backward_spec(old(self).kind, input@, output_gradient@),
    {
        let n: usize = input.len();
        let mut out: Vec<u64> = Vec::new();
        let mut i: usize = 0;
        while i < n
            invariant
                n == input@.len(),
                n == output_gradient@.len(),
                0 <= i <= n,
                out@.len() == i,
                forall|j: int|
                    0 <= j < i ==> out@[j] == fp_mul(
                        act_dx(self.kind, input@[j]),
                        output_gradient@[j],
                    ),
            decreases n - i,
        {
            out.push(crate::fp::mul_bits(act_dx_bits(self.kind, input[i]), output_gradient[i]));
            i = i + 1;
        }
        proof {
            assert(out@ =~= act_backward_spec(self.kind, input@, output_gradient@));
        }
        out
    }
}

} // verus!
