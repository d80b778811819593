//! The learnable affine layer.
//!
//! It owns a weight matrix (outputs x inputs) and a bias column (outputs x
//! 1). The forward pass is `weights . input + bias`. The backward pass
//! follows plain stochastic gradient descent, one sample at a time: the
//! weight gradient is the outer product of the incoming gradient with the
//! forward input, the input gradient is the transposed weights applied to
//! the incoming gradient, and both parameter matrices step against their
//! gradients scaled by the learning rate.

use crate::fp::{fp_add, fp_mul, B_ZERO};
use crate::matrix::{
    dot_prefix, dot_seq, model_col, model_row, model_rows, model_wf, outer_flat, seq_scale,
    seq_zip_sub, MatModel, Matrix,
};
use crate::rng::{rng_state_after, weight_seq, WeightRng};
use vstd::prelude::*;

verus! {

/// The learnable affine layer: a bias column and a weight matrix.
pub struct TransformLayer {
    pub bias: Matrix,
    pub weights: Matrix,
}

/// The mathematical shadow of a transform layer.
pub struct TransformModel {
    pub bias: MatModel,
    pub weights: MatModel,
}

impl View for TransformLayer {
    type V = TransformModel;

    open spec fn view(&self) -> TransformModel {
        TransformModel { bias: self.bias@, weights: self.weights@ }
    }
}

/// Shape sanity: both matrices well formed, the bias a single column with
/// one entry per weight row.
pub open spec fn transform_wf(l: TransformModel) -> bool {
    model_wf(l.weights) && model_wf(l.bias) && l.bias.cols == 1 && model_rows(l.bias)
        == model_rows(l.weights)
}

/// The forward pass: each output is the row's dot product with the input,
/// plus the row's bias.
pub open spec fn transform_forward_model(l: TransformModel, input: Seq<u64>) -> Seq<u64> {
    Seq::new(
        model_rows(l.weights) as nat,
        |i: int| fp_add(dot_seq(model_row(l.weights, i), input), l.bias.data[i]),
    )
}

/// The layer after one gradient step: weights minus the scaled outer
/// product, bias minus the scaled incoming gradient.
pub open spec fn transform_backward_model(
    l: TransformModel,
    input: Seq<u64>,
    og: Seq<u64>,
    lr: u64,
) -> TransformModel {
    TransformModel {
        weights: MatModel {
            cols: l.weights.cols,
            data: seq_zip_sub(l.weights.data, seq_scale(outer_flat(og, input), lr)),
        },
        bias: MatModel { cols: l.bias.cols, data: seq_zip_sub(l.bias.data, seq_scale(og, lr)) },
    }
}

/// The gradient handed to the preceding layer: the transposed weights
/// applied to the incoming gradient.
pub open spec fn transform_input_gradient(w: MatModel, og: Seq<u64>) -> Seq<u64> {
    Seq::new(w.cols as nat, |j: int| dot_seq(model_col(w, j), og))
}

impl TransformLayer {
    /// Shape sanity of the owned matrices.
    pub open spec fn wf(&self) -> bool {
        transform_wf(self@)
    }

    /// A fresh layer mapping `inputs` components to `outputs` components,
    /// bias first and weights second drawn from the given generator.
    pub fn new(inputs: usize, outputs: usize, rng: &mut WeightRng) -> (r: TransformLayer)
        requires
            1 <= inputs,
            1 <= outputs,
            outputs * inputs <= usize::MAX,
        ensures
            r.wf(),
            r.weights@.cols == inputs,
            model_rows(r.weights@) == outputs,
            r.bias.data@ == weight_seq(old(rng).state, outputs as nat),
            r.weights.data@ == weight_seq(
                rng_state_after(old(rng).state, outputs as nat),
                (outputs * inputs) as nat,
            ),
            final(rng).state == rng_state_after(
                rng_state_after(old(rng).state, outputs as nat),
                (outputs * inputs) as nat,
            ),
    {
        proof {
            assert(outputs * 1 == outputs) by (nonlinear_arith);
        }
        let bias: Matrix = Matrix::rnd(outputs, 1, rng);
        let weights: Matrix = Matrix::rnd(outputs, inputs, rng);
        proof {
            assert(model_rows(weights@) == outputs && model_rows(bias@) == outputs)
                by (nonlinear_arith)
                requires
                    weights@.data.len() == outputs * inputs,
                    weights@.cols == inputs,
                    bias@.data.len() == outputs * 1,
                    bias@.cols == 1,
                    inputs >= 1,
                    outputs >= 1,
            ;
        }
        TransformLayer { bias, weights }
    }

    /// `weights . input + bias`, computed through the matrix algebra.
    pub fn forward(&self, input: &Vec<u64>) -> (out: Vec<u64>)
        requires
            self.wf(),
            input@.len() == self.weights@.cols,
        ensures
            out@ == transform_forward_model(self@, input@),
            out@.len() == model_rows(self.weights@),
    {
        let wlen: usize = self.weights.data.len();
        proof {
            assert(model_rows(self.weights@) * 1 <= usize::MAX && model_rows(self.weights@) >= 1)
                by (nonlinear_arith)
                requires
                    model_wf(self.weights@),
                    self.weights@.data.len() <= usize::MAX,
                    model_rows(self.weights@) == self.weights@.data.len() as int
                        / self.weights@.cols,
            ;
        }
        let col: Matrix = Matrix::from(input).transpose();
        proof {
            assert(col.data@ =~= input@);
            assert(col.spec_rows() == input@.len());
        }
        let product: Matrix = self.weights.mul(&col);
        proof {
            assert(col.col_seq(0) =~= input@);
            assert(model_rows(self.bias@) == self.bias@.data.len()) by (nonlinear_arith)
                requires
                    model_wf(self.bias@),
                    self.bias@.cols == 1,
            ;
        }
        let out: Matrix = product.add(&self.bias);
        proof {
            assert forall|i: int|
                0 <= i < model_rows(self.weights@) implies out.data@[i] == fp_add(
                dot_seq(model_row(self.weights@, i), input@),
                self.bias.data@[i],
            ) by {
                assert(product.data@[i * 1 + 0] == dot_seq(
                    self.weights.row_seq(i),
                    col.col_seq(0),
                ));
                assert(i * 1 + 0 == i) by (nonlinear_arith);
                assert(self.weights.row_seq(i) == model_row(self.weights@, i));
            }
            assert(out.data@ =~= transform_forward_model(self@, input@));
        }
        out.data
    }

    /// One stochastic-gradient step: update the weights and the bias, hand
    /// back the gradient for the preceding layer.
    pub fn backward(
        &mut self,
        input: &Vec<u64>,
        _output: &Vec<u64>,
        output_gradient: &Vec<u64>,
        learning_rate: u64,
    ) -> (r: Vec<u64>)
        requires
            old(self).wf(),
            input@.len() == old(self).weights@.cols,
            output_gradient@.len() == model_rows(old(self).weights@),
        ensures
            final(self).wf(),
            final(self)@ == transform_backward_model(
                old(self)@,
                input@,
                output_gradient@,
                learning_rate,
            ),
            r@ == transform_input_gradient(old(self).weights@, output_gradient@),
            r@.len() == old(self).weights@.cols,
    {
        let ghost w0 = self.weights@;
        let ghost b0 = self.bias@;
        let outs: usize = self.weights.rows();
        let ins: usize = self.weights.cols;
        let wlen: usize = self.weights.data.len();
        proof {
            assert(outs * ins == self.weights@.data.len() && outs >= 1 && model_rows(self.bias@)
                == self.bias@.data.len()) by (nonlinear_arith)
                requires
                    model_wf(self.weights@),
                    model_wf(self.bias@),
                    self.bias@.cols == 1,
                    outs == model_rows(self.weights@),
                    ins == self.weights@.cols,
                    model_rows(self.bias@) == model_rows(self.weights@),
            ;
            assert(outs * ins <= usize::MAX);
        }
        let og_mx: Matrix = Matrix::from(output_gradient).transpose();
        proof {
            assert(og_mx.data@ =~= output_gradient@);
            assert(og_mx.spec_rows() == outs);
        }
        let input_row: Matrix = Matrix::from(input);
        let wg: Matrix = og_mx.mul(&input_row);
        proof {
            assert forall|idx: int| 0 <= idx < outs * ins implies wg.data@[idx] == outer_flat(
                output_gradient@,
                input@,
            )[idx] by {
                let i = idx / (ins as int);
                let j = idx % (ins as int);
                assert(0 <= i < outs && 0 <= j < ins && i * (ins as int) + j == idx)
                    by (nonlinear_arith)
                    requires
                        ins >= 1,
                        0 <= idx < outs * ins,
                        i == idx / (ins as int),
                        j == idx % (ins as int),
                ;
                assert(wg.data@[i * (ins as int) + j] == dot_seq(
                    og_mx.row_seq(i),
                    input_row.col_seq(j),
                ));
                assert(og_mx.row_seq(i) =~= seq![output_gradient@[i]]);
                assert(input_row.col_seq(j) =~= seq![input@[j]]);
                assert(dot_prefix(seq![output_gradient@[i]], seq![input@[j]], 0) == B_ZERO);
                assert(dot_seq(seq![output_gradient@[i]], seq![input@[j]]) == fp_add(
                    B_ZERO,
                    fp_mul(output_gradient@[i], input@[j]),
                ));
            }
            assert(wg.data@ =~= outer_flat(output_gradient@, input@));
        }
        let wt: Matrix = self.weights.transpose();
        let ig: Matrix = wt.mul(&og_mx);
        proof {
            assert(og_mx.col_seq(0) =~= output_gradient@);
            assert(wt.spec_rows() == ins && ig.data@.len() == ins) by (nonlinear_arith)
                requires
                    wt.data@.len() == outs * ins,
                    wt.cols == outs,
                    outs >= 1,
                    ins >= 1,
                    wt.spec_rows() == wt.data@.len() as int / (wt.cols as int),
                    ig.data@.len() == wt.spec_rows() * 1,
            ;
            assert forall|j: int| 0 <= j < ins implies ig.data@[j] == dot_seq(
                model_col(w0, j),
                output_gradient@,
            ) by {
                assert((j + 1) * (outs as int) <= wt.data@.len() && 0 <= j * (outs as int) && (j
                    + 1) * (outs as int) == j * (outs as int) + outs) by (nonlinear_arith)
                    requires
                        wt.data@.len() == outs * ins,
                        outs >= 1,
                        0 <= j < ins,
                ;
                assert(ig.data@[j * 1 + 0] == dot_seq(wt.row_seq(j), og_mx.col_seq(0)));
                assert(j * 1 + 0 == j) by (nonlinear_arith);
                assert forall|k: int| 0 <= k < outs implies wt.row_seq(j)[k] == model_col(w0, j)[k]
                    by {
                    assert(j * (outs as int) + k < wt.data@.len() && 0 <= j * (outs as int))
                        by (nonlinear_arith)
                        requires
                            0 <= j < ins,
                            0 <= k < outs,
                            wt.data@.len() == outs * ins,
                            outs >= 1,
                    ;
                    assert(wt.row_seq(j)[k] == wt.entry(j, k));
                    assert(wt.entry(j, k) == self.weights.entry(k, j));
                }
                assert(wt.row_seq(j) =~= model_col(w0, j));
            }
        }
        let new_weights: Matrix = self.weights.sub(&wg.scale(learning_rate));
        let new_bias: Matrix = self.bias.sub(&og_mx.scale(learning_rate));
        self.weights = new_weights;
        self.bias = new_bias;
        proof {
            assert(self.weights@.data =~= seq_zip_sub(
                w0.data,
                seq_scale(outer_flat(output_gradient@, input@), learning_rate),
            ));
            assert(self.bias@.data =~= seq_zip_sub(b0.data, seq_scale(output_gradient@, learning_rate)));
            assert(self@ == transform_backward_model(
                TransformModel { bias: b0, weights: w0 },
                input@,
                output_gradient@,
                learning_rate,
            ));
        }
        proof {
            assert(ig.data@ =~= transform_input_gradient(w0, output_gradient@));
        }
        ig.data
    }
}

} // verus!
