//! The network: an ordered stack of layers, a learning rate, a loss kind.
//!
//! The forward pass produces one activation vector per layer boundary, the
//! input at index zero; prediction reads the last of them. Training runs
//! plain stochastic gradient descent: per epoch, per sample in the given
//! order, one forward pass, the loss gradient at the last activation, then
//! a backward walk over the layers in reverse, each layer fed its own
//! forward input and output, the incoming gradient and the learning rate.
//! Nothing is validated at construction; an input of the wrong width is
//! refused when a pass first meets it.
//!
//! Every contract below is stated against the recursive model functions
//! `len_at`, `outputs_at`, `backward_state`, `epoch_state` and
//! `epochs_state`, which pin the exact arithmetic of a training run.

use crate::fp::{add_bits, div_bits, fp_add, fp_div, fp_of_int, of_int_bits, B_ZERO};
use crate::loss_fns::{loss_dx, loss_dx_spec, loss_fx, loss_fx_spec, NuralNetworkLossKind};
use crate::nural_network_layer::{
    layer_backward_model, layer_forward_model, layer_gradient_model, layer_in_ok, layer_out_len,
    layer_views, layer_wf, lemma_backward_same_shape, lemma_layer_forward_len,
    lemma_same_shape_props, same_shape_layer, LayerModel, NuralNetworkLayer,
};
use vstd::prelude::*;

verus! {

/// The ways a pass can be refused.
#[derive(Clone, Copy, PartialEq, Eq, Structural, Debug)]
pub enum NuralError {
    ShapeMismatch,
    MalformedModel,
}

/// A feed-forward network.
pub struct NuralNetwork {
    pub layers: Vec<NuralNetworkLayer>,
    pub learning_rate: u64,
    pub loss_kind: NuralNetworkLossKind,
}

/// Every layer is well formed.
pub open spec fn net_wf(layers: Seq<LayerModel>) -> bool {
    forall|i: int| 0 <= i < layers.len() ==> layer_wf(#[trigger] layers[i])
}

/// The width of the activation vector after the first `i` layers, starting
/// from an input of width `n`.
pub open spec fn len_at(layers: Seq<LayerModel>, n: int, i: int) -> int
    decreases i,
{
    if i <= 0 {
        n
    } else {
        layer_out_len(layers[i - 1], len_at(layers, n, i - 1))
    }
}

/// Whether every layer accepts the width the one before it produces.
pub open spec fn shapes_ok(layers: Seq<LayerModel>, n: int) -> bool {
    forall|k: int|
        0 <= k < layers.len() ==> layer_in_ok(#[trigger] layers[k], len_at(layers, n, k))
}

/// The width of the network's final output for an input of width `n`.
pub open spec fn net_out_len(layers: Seq<LayerModel>, n: int) -> int {
    len_at(layers, n, layers.len() as int)
}

/// The activation vector after the first `i` layers.
pub open spec fn outputs_at(layers: Seq<LayerModel>, input: Seq<u64>, i: int) -> Seq<u64>
    decreases i,
{
    if i <= 0 {
        input
    } else {
        layer_forward_model(layers[i - 1], outputs_at(layers, input, i - 1))
    }
}

/// The layer stack and the running gradient after the backward walk has
/// processed layers `len-1` down to `j`, on the forward pass recorded from
/// `layers0` and `input`.
pub open spec fn backward_state(
    layers0: Seq<LayerModel>,
    input: Seq<u64>,
    grad0: Seq<u64>,
    lr: u64,
    j: int,
) -> (Seq<LayerModel>, Seq<u64>)
    decreases layers0.len() as int - j,
{
    if j >= layers0.len() {
        (layers0, grad0)
    } else {
        let (ls, g) = backward_state(layers0, input, grad0, lr, j + 1);
        let inp = outputs_at(layers0, input, j);
        let outp = outputs_at(layers0, input, j + 1);
        (
            ls.update(j, layer_backward_model(ls[j], inp, outp, g, lr)),
            layer_gradient_model(ls[j], inp, outp, g),
        )
    }
}

/// The layer stack after training on one sample: forward pass, loss
/// gradient at the last activation, full backward walk.
pub open spec fn sample_step(
    layers: Seq<LayerModel>,
    lr: u64,
    kind: NuralNetworkLossKind,
    input: Seq<u64>,
    target: Seq<u64>,
) -> Seq<LayerModel> {
    let out = outputs_at(layers, input, layers.len() as int);
    backward_state(layers, input, loss_dx_spec(kind, out, target), lr, 0).0
}

/// The layer stack and the accumulated epoch error after the first `s`
/// samples of one epoch.
pub open spec fn epoch_state(
    layers: Seq<LayerModel>,
    lr: u64,
    kind: NuralNetworkLossKind,
    data: Seq<(Vec<u64>, Vec<u64>)>,
    s: int,
) -> (Seq<LayerModel>, u64)
    decreases s,
{
    if s <= 0 {
        (layers, B_ZERO)
    } else {
        let (ls, e) = epoch_state(layers, lr, kind, data, s - 1);
        let input = data[s - 1].0@;
        let target = data[s - 1].1@;
        let out = outputs_at(ls, input, ls.len() as int);
        (sample_step(ls, lr, kind, input, target), fp_add(e, loss_fx_spec(kind, out, target)))
    }
}

/// The layer stack and the reported mean losses after the first `e`
/// epochs.
pub open spec fn epochs_state(
    layers: Seq<LayerModel>,
    lr: u64,
    kind: NuralNetworkLossKind,
    data: Seq<(Vec<u64>, Vec<u64>)>,
    e: int,
) -> (Seq<LayerModel>, Seq<u64>)
    decreases e,
{
    if e <= 0 {
        (layers, Seq::empty())
    } else {
        let (ls, losses) = epochs_state(layers, lr, kind, data, e - 1);
        let (ls2, err) = epoch_state(ls, lr, kind, data, data.len() as int);
        (ls2, losses.push(fp_div(err, fp_of_int(data.len() as int))))
    }
}

/// A training sample the network can run: the input fits the first layer,
/// the target fits the final output, and the output is nonempty (so the
/// mean loss divides by a positive count).
pub open spec fn sample_ok(layers: Seq<LayerModel>, in_len: int, target_len: int) -> bool {
    &&& shapes_ok(layers, in_len)
    &&& target_len == net_out_len(layers, in_len)
    &&& 1 <= target_len <= 0x7FFF_FFFF_FFFF_FFFF
}

/// Pointwise shape agreement of two stacks.
pub open spec fn same_shapes(a: Seq<LayerModel>, b: Seq<LayerModel>) -> bool {
    a.len() == b.len() && forall|i: int|
        0 <= i < a.len() ==> same_shape_layer(a[i], #[trigger] b[i])
}

/// Shape agreement carries the per-stage widths across.
pub proof fn lemma_same_shapes_len_at(a: Seq<LayerModel>, b: Seq<LayerModel>, n: int, i: int)
    requires
        same_shapes(a, b),
        0 <= i <= a.len(),
    ensures
        len_at(a, n, i) == len_at(b, n, i),
    decreases i,
{
    if i > 0 {
        lemma_same_shapes_len_at(a, b, n, i - 1);
        lemma_same_shape_props(a[i - 1], b[i - 1], len_at(a, n, i - 1));
    }
}

/// Shape agreement carries acceptance, well-formedness and the output
/// width across.
pub proof fn lemma_same_shapes_props(a: Seq<LayerModel>, b: Seq<LayerModel>, n: int)
    requires
        same_shapes(a, b),
    ensures
        shapes_ok(a, n) == shapes_ok(b, n),
        net_out_len(a, n) == net_out_len(b, n),
        net_wf(a) == net_wf(b),
{
    assert forall|k: int| 0 <= k < a.len() implies layer_in_ok(#[trigger] a[k], len_at(a, n, k))
        == layer_in_ok(b[k], len_at(b, n, k)) by {
        lemma_same_shapes_len_at(a, b, n, k);
        lemma_same_shape_props(a[k], b[k], len_at(a, n, k));
    }
    lemma_same_shapes_len_at(a, b, n, a.len() as int);
    assert forall|i: int| 0 <= i < a.len() implies layer_wf(#[trigger] a[i]) == layer_wf(
        b[i],
    ) by {
        lemma_same_shape_props(a[i], b[i], 0);
    }
    assert(net_wf(a) ==> net_wf(b));
    assert(net_wf(b) ==> net_wf(a));
    assert(shapes_ok(a, n) ==> shapes_ok(b, n));
    assert(shapes_ok(b, n) ==> shapes_ok(a, n));
}

/// A backward walk leaves every layer's shape unchanged.
pub proof fn lemma_backward_state_shapes(
    layers0: Seq<LayerModel>,
    input: Seq<u64>,
    grad0: Seq<u64>,
    lr: u64,
    j: int,
)
    requires
        0 <= j <= layers0.len(),
    ensures
        backward_state(layers0, input, grad0, lr, j).0.len() == layers0.len(),
        same_shapes(layers0, backward_state(layers0, input, grad0, lr, j).0),
    decreases layers0.len() as int - j,
{
    if j >= layers0.len() {
        assert forall|i: int| 0 <= i < layers0.len() implies same_shape_layer(
            layers0[i],
            #[trigger] layers0[i],
        ) by {}
    } else {
        lemma_backward_state_shapes(layers0, input, grad0, lr, j + 1);
        let (ls, g) = backward_state(layers0, input, grad0, lr, j + 1);
        let inp = outputs_at(layers0, input, j);
        let outp = outputs_at(layers0, input, j + 1);
        lemma_backward_same_shape(ls[j], inp, outp, g, lr);
        let fin = ls.update(j, layer_backward_model(ls[j], inp, outp, g, lr));
        assert forall|i: int| 0 <= i < layers0.len() implies same_shape_layer(
            layers0[i],
            #[trigger] fin[i],
        ) by {
            if i != j {
                assert(fin[i] == ls[i]);
            }
        }
    }
}

/// One training sample leaves every layer's shape unchanged.
pub proof fn lemma_sample_step_shapes(
    layers: Seq<LayerModel>,
    lr: u64,
    kind: NuralNetworkLossKind,
    input: Seq<u64>,
    target: Seq<u64>,
)
    ensures
        sample_step(layers, lr, kind, input, target).len() == layers.len(),
        same_shapes(layers, sample_step(layers, lr, kind, input, target)),
{
    let out = outputs_at(layers, input, layers.len() as int);
    lemma_backward_state_shapes(layers, input, loss_dx_spec(kind, out, target), lr, 0);
}

/// Shape agreement is transitive.
pub proof fn lemma_same_shapes_trans(a: Seq<LayerModel>, b: Seq<LayerModel>, c: Seq<LayerModel>)
    requires
        same_shapes(a, b),
        same_shapes(b, c),
    ensures
        same_shapes(a, c),
{
    assert forall|i: int| 0 <= i < a.len() implies same_shape_layer(a[i], #[trigger] c[i]) by {
        assert(same_shape_layer(a[i], b[i]));
        assert(same_shape_layer(b[i], c[i]));
    }
}

/// An epoch prefix leaves every layer's shape unchanged.
pub proof fn lemma_epoch_state_shapes(
    layers: Seq<LayerModel>,
    lr: u64,
    kind: NuralNetworkLossKind,
    data: Seq<(Vec<u64>, Vec<u64>)>,
    s: int,
)
    requires
        0 <= s,
    ensures
        epoch_state(layers, lr, kind, data, s).0.len() == layers.len(),
        same_shapes(layers, epoch_state(layers, lr, kind, data, s).0),
    decreases s,
{
    if s <= 0 {
        assert forall|i: int| 0 <= i < layers.len() implies same_shape_layer(
            layers[i],
            #[trigger] layers[i],
        ) by {}
    } else {
        lemma_epoch_state_shapes(layers, lr, kind, data, s - 1);
        let (ls, e) = epoch_state(layers, lr, kind, data, s - 1);
        lemma_sample_step_shapes(ls, lr, kind, data[s - 1].0@, data[s - 1].1@);
        lemma_same_shapes_trans(layers, ls, epoch_state(layers, lr, kind, data, s).0);
    }
}

/// A sequence of epochs leaves every layer's shape unchanged.
pub proof fn lemma_epochs_state_shapes(
    layers: Seq<LayerModel>,
    lr: u64,
    kind: NuralNetworkLossKind,
    data: Seq<(Vec<u64>, Vec<u64>)>,
    e: int,
)
    requires
        0 <= e,
    ensures
        epochs_state(layers, lr, kind, data, e).0.len() == layers.len(),
        same_shapes(layers, epochs_state(layers, lr, kind, data, e).0),
    decreases e,
{
    if e <= 0 {
        assert forall|i: int| 0 <= i < layers.len() implies same_shape_layer(
            layers[i],
            #[trigger] layers[i],
        ) by {}
    } else {
        lemma_epochs_state_shapes(layers, lr, kind, data, e - 1);
        let (ls, _losses) = epochs_state(layers, lr, kind, data, e - 1);
        lemma_epoch_state_shapes(ls, lr, kind, data, data.len() as int);
        lemma_same_shapes_trans(layers, ls, epochs_state(layers, lr, kind, data, e).0);
    }
}

fn copy_vec(v: &Vec<u64>) -> (r: Vec<u64>)
    ensures
        r@ == v@,
{
    let n: usize = v.len();
    let mut r: Vec<u64> = Vec::new();
    let mut i: usize = 0;
    while i < n
        invariant
            n == v@.len(),
            0 <= i <= n,
            r@.len() == i,
            forall|j: int| 0 <= j < i ==> r@[j] == v@[j],
        decreases n - i,
    {
        r.push(v[i]);
        i = i + 1;
    }
    proof {
        assert(r@ =~= v@);
    }
    r
}

impl NuralNetwork {
    /// Every layer well formed.
    pub open spec fn wf(&self) -> bool {
        net_wf(layer_views(self.layers@))
    }

    /// A network over the given stack, learning rate and loss kind; nothing
    /// about adjacent shapes is validated here.
    pub fn new(
        layers: Vec<NuralNetworkLayer>,
        learning_rate: u64,
        loss_kind: NuralNetworkLossKind,
    ) -> (r: NuralNetwork)
        ensures
            r.layers@ == layers@,
            r.learning_rate == learning_rate,
            r.loss_kind == loss_kind,
    {
        NuralNetwork { layers, learning_rate, loss_kind }
    }

    /// Whether every layer passes its well-formedness check.
    pub fn is_well_formed(&self) -> (b: bool)
        ensures
            b == self.wf(),
    {
        let n: usize = self.layers.len();
        let mut ok: bool = true;
        let mut i: usize = 0;
        while i < n
            invariant
                n == self.layers@.len(),
                0 <= i <= n,
                ok == (forall|k: int|
                    0 <= k < i ==> layer_wf(#[trigger] layer_views(self.layers@)[k])),
            decreases n - i,
        {
            let this_ok: bool = self.layers[i].well_formed();
            proof {
                assert(layer_views(self.layers@)[i as int] == self.layers@[i as int]@);
            }
            ok = ok && this_ok;
            i = i + 1;
        }
        ok
    }

    /// Whether a training pair fits this network: the input is accepted by
    /// every layer in turn, and the target has the final output's width, at
    /// least one component of it.
    pub fn check_sample_dims(&self, input_len: usize, target_len: usize) -> (b: bool)
        requires
            self.wf(),
        ensures
            b == sample_ok(layer_views(self.layers@), input_len as int, target_len as int),
    {
        let ghost lv = layer_views(self.layers@);
        let n: usize = self.layers.len();
        let mut cur: usize = input_len;
        let mut ok: bool = true;
        let mut i: usize = 0;
        while i < n
            invariant
                self.wf(),
                lv == layer_views(self.layers@),
                n == self.layers@.len(),
                0 <= i <= n,
                cur as int == len_at(lv, input_len as int, i as int),
                ok == (forall|k: int|
                    0 <= k < i ==> layer_in_ok(#[trigger] lv[k], len_at(lv, input_len as int, k))),
            decreases n - i,
        {
            proof {
                assert(lv[i as int] == self.layers@[i as int]@);
                assert(layer_wf(lv[i as int]));
            }
            let this_ok: bool = self.layers[i].in_dim_ok(cur);
            let ghost was_ok = ok;
            ok = ok && this_ok;
            proof {
                if was_ok && this_ok {
                    assert forall|k: int|
                        0 <= k < i + 1 implies layer_in_ok(
                        #[trigger] lv[k],
                        len_at(lv, input_len as int, k),
                    ) by {}
                } else if !was_ok {
                    let bad = choose|k: int|
                        0 <= k < i && !layer_in_ok(
                            #[trigger] lv[k],
                            len_at(lv, input_len as int, k),
                        );
                    assert(!layer_in_ok(lv[bad], len_at(lv, input_len as int, bad)));
                } else {
                    assert(!layer_in_ok(lv[i as int], len_at(lv, input_len as int, i as int)));
                }
            }
            cur = self.layers[i].out_dim(cur);
            i = i + 1;
        }
        proof {
            assert(ok == shapes_ok(lv, input_len as int));
            assert(cur as int == net_out_len(lv, input_len as int));
        }
        ok && target_len == cur && 1 <= target_len && target_len as u64 <= 0x7FFF_FFFF_FFFF_FFFF
    }

    /// The full forward pass: one activation vector per layer boundary, the
    /// input included at index zero. Refused, with `ShapeMismatch`, exactly
    /// when some layer will not take the width reaching it.
    pub fn forward(&self, input: &Vec<u64>) -> (r: Result<Vec<Vec<u64>>, NuralError>)
        requires
            self.wf(),
        ensures
            (r is Ok) == shapes_ok(layer_views(self.layers@), input@.len() as int),
            (r is Err ==> r->Err_0 == NuralError::ShapeMismatch),
            (r is Ok ==> (r->Ok_0)@.len() == self.layers@.len() + 1),
            (r is Ok ==> forall|k: int|
                0 <= k <= self.layers@.len() ==> (r->Ok_0)@[k]@ == outputs_at(
                    layer_views(self.layers@),
                    input@,
                    k,
                )),
    {
        let ghost lv = layer_views(self.layers@);
        let ghost n0 = input@.len() as int;
        let n_layers: usize = self.layers.len();
        let mut outputs: Vec<Vec<u64>> = Vec::new();
        outputs.push(copy_vec(input));
        let mut i: usize = 0;
        while i < n_layers
            invariant
                self.wf(),
                lv == layer_views(self.layers@),
                n0 == input@.len() as int,
                n_layers == self.layers@.len(),
                0 <= i <= n_layers,
                outputs@.len() == i + 1,
                forall|k: int| 0 <= k <= i ==> (#[trigger] outputs@[k])@ == outputs_at(lv, input@, k),
                forall|k: int| 0 <= k < i ==> layer_in_ok(#[trigger] lv[k], len_at(lv, n0, k)),
                outputs@[i as int]@.len() == len_at(lv, n0, i as int),
            decreases n_layers - i,
        {
            let ok: bool = self.layers[i].in_dim_ok(outputs[i].len());
            if !ok {
                proof {
                    assert(!layer_in_ok(lv[i as int], len_at(lv, n0, i as int)));
                    assert(!shapes_ok(lv, n0));
                }
                return Err(NuralError::ShapeMismatch);
            }
            let next: Vec<u64> = self.layers[i].forward(&outputs[i]);
            proof {
                lemma_layer_forward_len(lv[i as int], outputs@[i as int]@);
            }
            outputs.push(next);
            i = i + 1;
        }
        proof {
            assert(shapes_ok(lv, n0));
        }
        Ok(outputs)
    }

    /// The final forward output; pure. Refused exactly as `forward` is.
    pub fn predict(&self, input: &Vec<u64>) -> (r: Result<Vec<u64>, NuralError>)
        requires
            self.wf(),
        ensures
            (r is Ok) == shapes_ok(layer_views(self.layers@), input@.len() as int),
            (r is Err ==> r->Err_0 == NuralError::ShapeMismatch),
            (r is Ok ==> (r->Ok_0)@ == outputs_at(
                layer_views(self.layers@),
                input@,
                self.layers@.len() as int,
            )),
    {
        match self.forward(input) {
            Ok(mut outs) => {
                let last: usize = outs.len() - 1;
                let out: Vec<u64> = outs.remove(last);
                Ok(out)
            },
            Err(e) => Err(e),
        }
    }

    /// Train on the samples, in the given order, for the given number of
    /// epochs; every sample must fit the network's shapes. Returns the mean
    /// loss of each epoch, in epoch order.
    pub fn train(&mut self, data: &Vec<(Vec<u64>, Vec<u64>)>, epochs: usize) -> (losses: Vec<u64>)
        requires
            old(self).wf(),
            epochs >= 1 ==> forall|s: int|
                0 <= s < data@.len() ==> sample_ok(
                    layer_views(old(self).layers@),
                    (#[trigger] data@[s]).0@.len() as int,
                    data@[s].1@.len() as int,
                ),
            data@.len() <= 0x7FFF_FFFF_FFFF_FFFF,
        ensures
            final(self).wf(),
            final(self).learning_rate == old(self).learning_rate,
            final(self).loss_kind == old(self).loss_kind,
            layer_views(final(self).layers@) == epochs_state(
                layer_views(old(self).layers@),
                old(self).learning_rate,
                old(self).loss_kind,
                data@,
                epochs as int,
            ).0,
            losses@ == epochs_state(
                layer_views(old(self).layers@),
                old(self).learning_rate,
                old(self).loss_kind,
                data@,
                epochs as int,
            ).1,
            losses@.len() == epochs,
    {
        let ghost lv0 = layer_views(old(self).layers@);
        let ghost lr = self.learning_rate;
        let ghost kind = self.loss_kind;
        let n_samples: usize = data.len();
        let n_layers: usize = self.layers.len();
        let mut losses: Vec<u64> = Vec::new();
        let mut e: usize = 0;
        while e < epochs
            invariant
                n_samples == data@.len(),
                data@.len() <= 0x7FFF_FFFF_FFFF_FFFF,
                n_layers == self.layers@.len(),
                lr == self.learning_rate,
                kind == self.loss_kind,
                lv0.len() == n_layers,
                0 <= e <= epochs,
                epochs >= 1 ==> forall|s: int|
                    0 <= s < data@.len() ==> sample_ok(
                        lv0,
                        (#[trigger] data@[s]).0@.len() as int,
                        data@[s].1@.len() as int,
                    ),
                layer_views(self.layers@) == epochs_state(lv0, lr, kind, data@, e as int).0,
                same_shapes(lv0, layer_views(self.layers@)),
                net_wf(lv0),
                net_wf(layer_views(self.layers@)),
                losses@ == epochs_state(lv0, lr, kind, data@, e as int).1,
                losses@.len() == e,
            decreases epochs - e,
        {
            let ghost epoch_start = layer_views(self.layers@);
            proof {
                assert(forall|s: int|
                    0 <= s < data@.len() ==> sample_ok(
                        lv0,
                        (#[trigger] data@[s]).0@.len() as int,
                        data@[s].1@.len() as int,
                    ));
            }
            let mut err: u64 = B_ZERO;
            let mut s: usize = 0;
            while s < n_samples
                invariant
                    n_samples == data@.len(),
                    data@.len() <= 0x7FFF_FFFF_FFFF_FFFF,
                    n_layers == self.layers@.len(),
                    lr == self.learning_rate,
                    kind == self.loss_kind,
                    lv0.len() == n_layers,
                    0 <= s <= n_samples,
                    forall|q: int|
                        0 <= q < data@.len() ==> sample_ok(
                            lv0,
                            (#[trigger] data@[q]).0@.len() as int,
                            data@[q].1@.len() as int,
                        ),
                    layer_views(self.layers@) == epoch_state(epoch_start, lr, kind, data@, s as int).0,
                    err == epoch_state(epoch_start, lr, kind, data@, s as int).1,
                    same_shapes(lv0, epoch_start),
                    same_shapes(lv0, layer_views(self.layers@)),
                    net_wf(lv0),
                    net_wf(layer_views(self.layers@)),
                decreases n_samples - s,
            {
                let ghost sample_start = layer_views(self.layers@);
                let ghost input_s = data@[s as int].0@;
                let ghost target_s = data@[s as int].1@;
                proof {
                    lemma_same_shapes_props(lv0, sample_start, input_s.len() as int);
                }
                let outs: Vec<Vec<u64>> = match self.forward(&data[s].0) {
                    Ok(o) => o,
                    Err(_) => {
                        // every sample was required to fit, so the pass
                        // cannot be refused
                        proof {
                            assert(false);
                        }
                        return Vec::new();
                    },
                };
                let target: &Vec<u64> = &data[s].1;
                proof {
                    lemma_same_shapes_len_at(lv0, sample_start, input_s.len() as int, n_layers as int);
                    lemma_outputs_len(sample_start, input_s, n_layers as int);
                    assert(outs@[n_layers as int]@.len() == net_out_len(sample_start, input_s.len() as int));
                }
                let fx: u64 = loss_fx(self.loss_kind, &outs[n_layers], target);
                err = add_bits(err, fx);
                let mut gradient: Vec<u64> = loss_dx(self.loss_kind, &outs[n_layers], target);
                let ghost grad0 = gradient@;
                let mut j: usize = n_layers;
                proof {
                    assert(backward_state(sample_start, input_s, grad0, lr, n_layers as int)
                        == (sample_start, grad0));
                }
                while j > 0
                    invariant
                        n_samples == data@.len(),
                        n_layers == self.layers@.len(),
                        lr == self.learning_rate,
                        kind == self.loss_kind,
                        lv0.len() == n_layers,
                        0 <= j <= n_layers,
                        0 <= (s as int) < data@.len(),
                        input_s == data@[s as int].0@,
                        sample_start.len() == n_layers,
                        shapes_ok(sample_start, input_s.len() as int),
                        net_wf(sample_start),
                        same_shapes(lv0, sample_start),
                        outs@.len() == n_layers + 1,
                        forall|k: int|
                            0 <= k <= n_layers ==> (#[trigger] outs@[k])@ == outputs_at(
                                sample_start,
                                input_s,
                                k,
                            ),
                        layer_views(self.layers@) == backward_state(
                            sample_start,
                            input_s,
                            grad0,
                            lr,
                            j as int,
                        ).0,
                        gradient@ == backward_state(sample_start, input_s, grad0, lr, j as int).1,
                        gradient@.len() == len_at(sample_start, input_s.len() as int, j as int),
                    decreases j,
                {
                    let jm1: usize = j - 1;
                    let ghost pre = backward_state(sample_start, input_s, grad0, lr, j as int);
                    proof {
                        lemma_backward_state_shapes(sample_start, input_s, grad0, lr, j as int);
                        lemma_same_shapes_len_at(
                            sample_start,
                            pre.0,
                            input_s.len() as int,
                            jm1 as int,
                        );
                        lemma_same_shapes_len_at(
                            sample_start,
                            pre.0,
                            input_s.len() as int,
                            j as int,
                        );
                        lemma_same_shape_props(
                            sample_start[jm1 as int],
                            pre.0[jm1 as int],
                            len_at(sample_start, input_s.len() as int, jm1 as int),
                        );
                        assert(outs@[jm1 as int]@.len() == len_at(
                            sample_start,
                            input_s.len() as int,
                            jm1 as int,
                        )) by {
                            lemma_outputs_len(sample_start, input_s, jm1 as int);
                        }
                        assert(outs@[j as int]@.len() == len_at(
                            sample_start,
                            input_s.len() as int,
                            j as int,
                        )) by {
                            lemma_outputs_len(sample_start, input_s, j as int);
                        }
                    }
                    let mut layer: NuralNetworkLayer = self.layers.remove(jm1);
                    let g2: Vec<u64> = layer.backward(
                        &outs[jm1],
                        &outs[j],
                        &gradient,
                        self.learning_rate,
                    );
                    self.layers.insert(jm1, layer);
                    gradient = g2;
                    proof {
                        assert(layer_views(self.layers@) =~= pre.0.update(
                            jm1 as int,
                            layer_backward_model(
                                pre.0[jm1 as int],
                                outputs_at(sample_start, input_s, jm1 as int),
                                outputs_at(sample_start, input_s, j as int),
                                pre.1,
                                lr,
                            ),
                        ));
                    }
                    j = jm1;
                }
                proof {
                    assert(layer_views(self.layers@) == sample_step(
                        sample_start,
                        lr,
                        kind,
                        input_s,
                        target_s,
                    ));
                    assert(epoch_state(epoch_start, lr, kind, data@, s as int + 1).0
                        == layer_views(self.layers@));
                    lemma_sample_step_shapes(sample_start, lr, kind, input_s, target_s);
                    lemma_same_shapes_trans(
                        lv0,
                        sample_start,
                        layer_views(self.layers@),
                    );
                    lemma_same_shapes_props(lv0, layer_views(self.layers@), 0);
                }
                s = s + 1;
            }
            losses.push(div_bits(err, of_int_bits(n_samples as i64)));
            e = e + 1;
        }
        losses
    }
}

/// The activation after `i` layers has the width the bookkeeping says.
pub proof fn lemma_outputs_len(layers: Seq<LayerModel>, input: Seq<u64>, i: int)
    requires
        net_wf(layers),
        0 <= i <= layers.len(),
    ensures
        outputs_at(layers, input, i).len() == len_at(layers, input.len() as int, i),
    decreases i,
{
    if i > 0 {
        lemma_outputs_len(layers, input, i - 1);
        lemma_layer_forward_len(layers[i - 1], outputs_at(layers, input, i - 1));
    }
}

} // verus!
