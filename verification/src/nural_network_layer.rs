//! The closed set of layer variants and their common face.
//!
//! A layer is one of: a learnable transform, an elementwise activation, a
//! softmax. The sum type carries the forward and backward dispatch, a model
//! view for the contracts, and the shape bookkeeping the network uses to
//! accept or refuse an input: which input widths a layer takes, and which
//! output width it produces.

use crate::activation_layer::{act_backward_spec, act_forward_spec, ActivationLayer, ActivationLayerKind};
use crate::matrix::{model_rows, model_wf};
use crate::softmax_layer::{softmax_backward_spec, softmax_forward_spec, SoftmaxLayer};
use crate::transform_layer::{
    transform_backward_model, transform_forward_model, transform_input_gradient, transform_wf,
    TransformLayer, TransformModel,
};
use vstd::prelude::*;

verus! {

/// A layer of the network: one of the closed set of variants.
pub enum NuralNetworkLayer {
    Activation(ActivationLayer),
    Softmax(SoftmaxLayer),
    Transform(TransformLayer),
}

/// The mathematical shadow of a layer.
pub enum LayerModel {
    Activation(ActivationLayerKind),
    Softmax,
    Transform(TransformModel),
}

impl View for NuralNetworkLayer {
    type V = LayerModel;

    open spec fn view(&self) -> LayerModel {
        match self {
            NuralNetworkLayer::Activation(a) => LayerModel::Activation(a.kind),
            NuralNetworkLayer::Softmax(_) => LayerModel::Softmax,
            NuralNetworkLayer::Transform(t) => LayerModel::Transform(t@),
        }
    }
}

/// The models of a sequence of layers, in order.
pub open spec fn layer_views(layers: Seq<NuralNetworkLayer>) -> Seq<LayerModel> {
    Seq::new(layers.len(), |i: int| layers[i]@)
}

/// Well-formedness: only the transform carries shape obligations.
pub open spec fn layer_wf(l: LayerModel) -> bool {
    match l {
        LayerModel::Transform(t) => transform_wf(t),
        _ => true,
    }
}

/// Whether the layer accepts an input of width `n`.
pub open spec fn layer_in_ok(l: LayerModel, n: int) -> bool {
    match l {
        LayerModel::Transform(t) => n == t.weights.cols,
        _ => true,
    }
}

/// The output width the layer produces from an input of width `n`.
pub open spec fn layer_out_len(l: LayerModel, n: int) -> int {
    match l {
        LayerModel::Transform(t) => model_rows(t.weights),
        _ => n,
    }
}

/// The layer's forward pass.
pub open spec fn layer_forward_model(l: LayerModel, input: Seq<u64>) -> Seq<u64> {
    match l {
        LayerModel::Activation(k) => act_forward_spec(k, input),
        LayerModel::Softmax => softmax_forward_spec(input),
        LayerModel::Transform(t) => transform_forward_model(t, input),
    }
}

/// The layer after one backward step: only the transform changes.
pub open spec fn layer_backward_model(
    l: LayerModel,
    input: Seq<u64>,
    output: Seq<u64>,
    output_gradient: Seq<u64>,
    lr: u64,
) -> LayerModel {
    match l {
        LayerModel::Transform(t) => LayerModel::Transform(
            transform_backward_model(t, input, output_gradient, lr),
        ),
        _ => l,
    }
}

/// The gradient a backward step hands to the preceding layer.
pub open spec fn layer_gradient_model(
    l: LayerModel,
    input: Seq<u64>,
    output: Seq<u64>,
    output_gradient: Seq<u64>,
) -> Seq<u64> {
    match l {
        LayerModel::Activation(k) => act_backward_spec(k, input, output_gradient),
        LayerModel::Softmax => softmax_backward_spec(output, output_gradient),
        LayerModel::Transform(t) => transform_input_gradient(t.weights, output_gradient),
    }
}

/// Whether two layers agree in variant and in every shape the network
/// bookkeeping reads: a backward step never changes this.
pub open spec fn same_shape_layer(a: LayerModel, b: LayerModel) -> bool {
    match (a, b) {
        (LayerModel::Activation(k1), LayerModel::Activation(k2)) => true,
        (LayerModel::Softmax, LayerModel::Softmax) => true,
        (LayerModel::Transform(t1), LayerModel::Transform(t2)) => {
            &&& t1.weights.cols == t2.weights.cols
            &&& t1.weights.data.len() == t2.weights.data.len()
            &&& t1.bias.cols == t2.bias.cols
            &&& t1.bias.data.len() == t2.bias.data.len()
        },
        _ => false,
    }
}

/// Shape agreement carries every fact the bookkeeping needs from one layer
/// to the other.
pub proof fn lemma_same_shape_props(a: LayerModel, b: LayerModel, n: int)
    requires
        same_shape_layer(a, b),
    ensures
        layer_wf(a) == layer_wf(b),
        layer_in_ok(a, n) == layer_in_ok(b, n),
        layer_out_len(a, n) == layer_out_len(b, n),
{
}

/// A backward step leaves a layer's shape unchanged.
pub proof fn lemma_backward_same_shape(
    l: LayerModel,
    input: Seq<u64>,
    output: Seq<u64>,
    output_gradient: Seq<u64>,
    lr: u64,
)
    ensures
        same_shape_layer(l, layer_backward_model(l, input, output, output_gradient, lr)),
{
}

/// A forward pass produces exactly the width the bookkeeping says.
pub proof fn lemma_layer_forward_len(l: LayerModel, input: Seq<u64>)
    requires
        layer_wf(l),
    ensures
        layer_forward_model(l, input).len() == layer_out_len(l, input.len() as int),
{
    match l {
        LayerModel::Activation(k) => {
            assert(act_forward_spec(k, input).len() == input.len());
        },
        LayerModel::Softmax => {
            assert(softmax_forward_spec(input).len() == input.len());
        },
        LayerModel::Transform(t) => {
            assert(model_rows(t.weights) >= 0) by (nonlinear_arith)
                requires
                    model_wf(t.weights),
                    model_rows(t.weights) == t.weights.data.len() as int / t.weights.cols,
            ;
            assert(transform_forward_model(t, input).len() == model_rows(t.weights));
        },
    }
}

impl NuralNetworkLayer {
    /// Whether the layer passes its well-formedness check.
    pub fn well_formed(&self) -> (b: bool)
        ensures
            b == layer_wf(self@),
    {
        match self {
            NuralNetworkLayer::Transform(t) => {
                let w_ok: bool = 1 <= t.weights.cols && t.weights.cols <= t.weights.data.len()
                    && t.weights.data.len() % t.weights.cols == 0;
                let b_ok: bool = t.bias.cols == 1 && 1 <= t.bias.data.len();
                if w_ok && b_ok {
                    t.bias.data.len() / t.bias.cols == t.weights.data.len() / t.weights.cols
                } else {
                    false
                }
            },
            _ => true,
        }
    }

    /// The output width the layer produces from an input of width `n`.
    pub fn out_dim(&self, n: usize) -> (m: usize)
        requires
            layer_wf(self@),
        ensures
            m as int == layer_out_len(self@, n as int),
    {
        match self {
            NuralNetworkLayer::Transform(t) => t.weights.rows(),
            _ => n,
        }
    }

    /// Whether the layer accepts an input of width `n`.
    pub fn in_dim_ok(&self, n: usize) -> (b: bool)
        ensures
            b == layer_in_ok(self@, n as int),
    {
        match self {
            NuralNetworkLayer::Transform(t) => t.weights.cols == n,
            _ => true,
        }
    }

    /// The layer's forward pass on an input it accepts.
    pub fn forward(&self, input: &Vec<u64>) -> (out: Vec<u64>)
        requires
            layer_wf(self@),
            layer_in_ok(self@, input@.len() as int),
        ensures
            out@ == layer_forward_model(self@, input@),
            out@.len() == layer_out_len(self@, input@.len() as int),
    {
        match self {
            NuralNetworkLayer::Activation(a) => a.forward(input),
            NuralNetworkLayer::Softmax(s) => s.forward(input),
            NuralNetworkLayer::Transform(t) => t.forward(input),
        }
    }

    /// The layer's backward pass: fed its own forward input, its own
    /// forward output, the incoming gradient and the learning rate; updates
    /// any trainable state and returns the gradient for the preceding
    /// layer.
    pub fn backward(
        &mut self,
        input: &Vec<u64>,
        output: &Vec<u64>,
        output_gradient: &Vec<u64>,
        learning_rate: u64,
    ) -> (r: Vec<u64>)
        requires
            layer_wf(old(self)@),
            layer_in_ok(old(self)@, input@.len() as int),
            output@.len() == layer_out_len(old(self)@, input@.len() as int),
            output_gradient@.len() == output@.len(),
        ensures
            final(self)@ == layer_backward_model(
                old(self)@,
                input@,
                output@,
                output_gradient@,
                learning_rate,
            ),
            r@ == layer_gradient_model(old(self)@, input@, output@, output_gradient@),
            r@.len() == input@.len(),
    {
        match self {
            NuralNetworkLayer::Activation(a) => a.backward(
                input,
                output,
                output_gradient,
                learning_rate,
            ),
            NuralNetworkLayer::Softmax(s) => s.backward(
                input,
                output,
                output_gradient,
                learning_rate,
            ),
            NuralNetworkLayer::Transform(t) => t.backward(
                input,
                output,
                output_gradient,
                learning_rate,
            ),
        }
    }
}

} // verus!
