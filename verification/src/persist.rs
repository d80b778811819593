//! The persisted model format.
//!
//! A network is stored as a self-describing compact binary image: the
//! loss-kind tag, the learning-rate scalar, the layer count, then one tag
//! plus payload per layer. A transform's payload is the bias shape and
//! values followed by the weight shape and values; an activation's payload
//! is its kind tag; a softmax has none. Counts and scalars are 64-bit
//! little-endian; scalars are the binary64 encodings themselves, so a
//! stored model reloads bit for bit. Decoding validates every tag and
//! every shape, refuses trailing bytes, and the round-trip law below
//! proves that decoding an encoded network gives back exactly that
//! network.

use crate::activation_layer::{ActivationLayer, ActivationLayerKind};
use crate::loss_fns::NuralNetworkLossKind;
use crate::matrix::{model_rows, model_wf, MatModel, Matrix};
use crate::nural_network::{net_wf, NuralError, NuralNetwork};
use crate::nural_network_layer::{layer_views, layer_wf, LayerModel, NuralNetworkLayer};
use crate::softmax_layer::SoftmaxLayer;
use crate::transform_layer::{transform_wf, TransformLayer, TransformModel};
use vstd::prelude::*;

verus! {

/// The eight little-endian bytes of a 64-bit word.
pub open spec fn u64le(x: u64) -> Seq<u8> {
    seq![
        (x & 0xFF) as u8,
        ((x >> 8) & 0xFF) as u8,
        ((x >> 16) & 0xFF) as u8,
        ((x >> 24) & 0xFF) as u8,
        ((x >> 32) & 0xFF) as u8,
        ((x >> 40) & 0xFF) as u8,
        ((x >> 48) & 0xFF) as u8,
        ((x >> 56) & 0xFF) as u8,
    ]
}

/// A buffer of 64-bit words, each in little-endian bytes.
pub open spec fn enc_vals(data: Seq<u64>) -> Seq<u8>
    decreases data.len(),
{
    if data.len() == 0 {
        Seq::empty()
    } else {
        u64le(data[0]) + enc_vals(data.drop_first())
    }
}

/// A matrix: row count, column count, then the values.
pub open spec fn enc_matrix(m: MatModel) -> Seq<u8> {
    u64le(model_rows(m) as u64) + u64le(m.cols as u64) + enc_vals(m.data)
}

/// The tag of an activation kind.
pub open spec fn act_tag(k: ActivationLayerKind) -> u8 {
    match k {
        ActivationLayerKind::ReLu => 0u8,
        ActivationLayerKind::Sigmoid => 1u8,
        ActivationLayerKind::Tanh => 2u8,
    }
}

/// The tag of a loss kind.
pub open spec fn loss_tag(k: NuralNetworkLossKind) -> u8 {
    match k {
        NuralNetworkLossKind::BinaryCrossEntropy => 0u8,
        NuralNetworkLossKind::Mse => 1u8,
    }
}

/// One layer: its tag, then its payload.
pub open spec fn enc_layer(l: LayerModel) -> Seq<u8> {
    match l {
        LayerModel::Transform(t) => seq![0u8] + enc_matrix(t.bias) + enc_matrix(t.weights),
        LayerModel::Activation(k) => seq![1u8, act_tag(k)],
        LayerModel::Softmax => seq![2u8],
    }
}

/// The layers in order.
pub open spec fn enc_layers(ls: Seq<LayerModel>) -> Seq<u8>
    decreases ls.len(),
{
    if ls.len() == 0 {
        Seq::empty()
    } else {
        enc_layer(ls[0]) + enc_layers(ls.drop_first())
    }
}

/// The whole image: loss tag, learning rate, layer count, layers.
pub open spec fn enc_net(kind: NuralNetworkLossKind, lr: u64, ls: Seq<LayerModel>) -> Seq<u8> {
    seq![loss_tag(kind)] + u64le(lr) + u64le(ls.len() as u64) + enc_layers(ls)
}

/// Eight little-endian bytes read back as a 64-bit word, if they are
/// there.
pub open spec fn dec_u64(b: Seq<u8>, pos: int) -> Option<u64> {
    if 0 <= pos && pos + 8 <= b.len() {
        Some(
            (b[pos] as u64) | ((b[pos + 1] as u64) << 8) | ((b[pos + 2] as u64) << 16) | ((b[pos
                + 3] as u64) << 24) | ((b[pos + 4] as u64) << 32) | ((b[pos + 5] as u64) << 40) | ((
            b[pos + 6] as u64) << 48) | ((b[pos + 7] as u64) << 56),
        )
    } else {
        None
    }
}

/// `count` words read back in order, with the position after them.
pub open spec fn dec_vals(b: Seq<u8>, pos: int, count: int) -> Option<(Seq<u64>, int)>
    decreases count,
{
    if count <= 0 {
        Some((Seq::empty(), pos))
    } else {
        match dec_u64(b, pos) {
            Some(x) => match dec_vals(b, pos + 8, count - 1) {
                Some((rest, end)) => Some((seq![x] + rest, end)),
                None => None,
            },
            None => None,
        }
    }
}

/// A matrix read back: shape, validity of the shape against the buffer,
/// then the values; yields a well-formed model and the position after it.
pub open spec fn dec_matrix(b: Seq<u8>, pos: int) -> Option<(MatModel, int)> {
    match dec_u64(b, pos) {
        Some(rows) => match dec_u64(b, pos + 8) {
            Some(cols) => {
                let avail = (b.len() - pos - 16) / 8;
                if 1 <= rows && 1 <= cols && rows <= avail && cols <= avail && cols <= avail / (
                rows as int) {
                    match dec_vals(b, pos + 16, rows as int * cols as int) {
                        Some((data, end)) => Some(
                            (MatModel { cols: cols as int, data }, end),
                        ),
                        None => None,
                    }
                } else {
                    None
                }
            },
            None => None,
        },
        None => None,
    }
}

/// One layer read back: tag, payload, shape checks for a transform.
pub open spec fn dec_layer(b: Seq<u8>, pos: int) -> Option<(LayerModel, int)> {
    if 0 <= pos && pos < b.len() {
        if b[pos] == 0u8 {
            match dec_matrix(b, pos + 1) {
                Some((bias, p2)) => match dec_matrix(b, p2) {
                    Some((weights, p3)) => {
                        let t = TransformModel { bias, weights };
                        if transform_wf(t) {
                            Some((LayerModel::Transform(t), p3))
                        } else {
                            None
                        }
                    },
                    None => None,
                },
                None => None,
            }
        } else if b[pos] == 1u8 {
            if pos + 1 < b.len() {
                if b[pos + 1] == 0u8 {
                    Some((LayerModel::Activation(ActivationLayerKind::ReLu), pos + 2))
                } else if b[pos + 1] == 1u8 {
                    Some((LayerModel::Activation(ActivationLayerKind::Sigmoid), pos + 2))
                } else if b[pos + 1] == 2u8 {
                    Some((LayerModel::Activation(ActivationLayerKind::Tanh), pos + 2))
                } else {
                    None
                }
            } else {
                None
            }
        } else if b[pos] == 2u8 {
            Some((LayerModel::Softmax, pos + 1))
        } else {
            None
        }
    } else {
        None
    }
}

/// `count` layers read back in order.
pub open spec fn dec_layers(b: Seq<u8>, pos: int, count: int) -> Option<(Seq<LayerModel>, int)>
    decreases count,
{
    if count <= 0 {
        Some((Seq::empty(), pos))
    } else {
        match dec_layer(b, pos) {
            Some((l, p2)) => match dec_layers(b, p2, count - 1) {
                Some((rest, end)) => Some((seq![l] + rest, end)),
                None => None,
            },
            None => None,
        }
    }
}

/// A whole image read back: loss tag, learning rate, layer count, layers,
/// and nothing after them.
pub open spec fn dec_net(b: Seq<u8>) -> Option<(NuralNetworkLossKind, u64, Seq<LayerModel>)> {
    if b.len() < 1 {
        None
    } else {
        let kind = if b[0] == 0u8 {
            Some(NuralNetworkLossKind::BinaryCrossEntropy)
        } else if b[0] == 1u8 {
            Some(NuralNetworkLossKind::Mse)
        } else {
            None
        };
        match kind {
            Some(k) => match dec_u64(b, 1) {
                Some(lr) => match dec_u64(b, 9) {
                    Some(count) => {
                        if count <= b.len() {
                            match dec_layers(b, 17, count as int) {
                                Some((ls, end)) => {
                                    if end == b.len() {
                                        Some((k, lr, ls))
                                    } else {
                                        None
                                    }
                                },
                                None => None,
                            }
                        } else {
                            None
                        }
                    },
                    None => None,
                },
                None => None,
            },
            None => None,
        }
    }
}

/// Reading eight freshly written little-endian bytes gives the word back.
pub proof fn lemma_u64le_roundtrip(b: Seq<u8>, pos: int, x: u64)
    requires
        0 <= pos,
        pos + 8 <= b.len(),
        b.subrange(pos, pos + 8) == u64le(x),
    ensures
        dec_u64(b, pos) == Some(x),
{
    assert(b[pos] == u64le(x)[0] && b[pos + 1] == u64le(x)[1] && b[pos + 2] == u64le(x)[2] && b[pos
        + 3] == u64le(x)[3] && b[pos + 4] == u64le(x)[4] && b[pos + 5] == u64le(x)[5] && b[pos + 6]
        == u64le(x)[6] && b[pos + 7] == u64le(x)[7]) by {
        assert(b.subrange(pos, pos + 8)[0] == b[pos]);
        assert(b.subrange(pos, pos + 8)[1] == b[pos + 1]);
        assert(b.subrange(pos, pos + 8)[2] == b[pos + 2]);
        assert(b.subrange(pos, pos + 8)[3] == b[pos + 3]);
        assert(b.subrange(pos, pos + 8)[4] == b[pos + 4]);
        assert(b.subrange(pos, pos + 8)[5] == b[pos + 5]);
        assert(b.subrange(pos, pos + 8)[6] == b[pos + 6]);
        assert(b.subrange(pos, pos + 8)[7] == b[pos + 7]);
    }
    assert(((x & 0xFF) as u8 as u64) | ((((x >> 8) & 0xFF) as u8 as u64) << 8) | ((((x >> 16)
        & 0xFF) as u8 as u64) << 16) | ((((x >> 24) & 0xFF) as u8 as u64) << 24) | ((((x >> 32)
        & 0xFF) as u8 as u64) << 32) | ((((x >> 40) & 0xFF) as u8 as u64) << 40) | ((((x >> 48)
        & 0xFF) as u8 as u64) << 48) | ((((x >> 56) & 0xFF) as u8 as u64) << 56) == x)
        by (bit_vector);
}

/// Reading back a freshly written value buffer gives the values and lands
/// just after them.
pub proof fn lemma_vals_roundtrip(b: Seq<u8>, pos: int, data: Seq<u64>)
    requires
        0 <= pos,
        pos + 8 * data.len() <= b.len(),
        b.subrange(pos, pos + 8 * data.len()) == enc_vals(data),
    ensures
        dec_vals(b, pos, data.len() as int) == Some((data, pos + 8 * data.len())),
    decreases data.len(),
{
    if data.len() == 0 {
        assert(dec_vals(b, pos, 0) == Some((Seq::<u64>::empty(), pos)));
        assert(data =~= Seq::<u64>::empty());
    } else {
        let n = data.len() as int;
        assert(enc_vals(data) == u64le(data[0]) + enc_vals(data.drop_first()));
        assert(enc_vals(data).len() == 8 * n) by {
            lemma_enc_vals_len(data);
        }
        assert(b.subrange(pos, pos + 8) =~= u64le(data[0])) by {
            assert forall|i: int| 0 <= i < 8 implies #[trigger] b.subrange(pos, pos + 8)[i] == u64le(
                data[0],
            )[i] by {
                assert(b.subrange(pos, pos + 8 * n)[i] == b[pos + i]);
                assert((u64le(data[0]) + enc_vals(data.drop_first()))[i] == u64le(data[0])[i]);
            }
        }
        lemma_u64le_roundtrip(b, pos, data[0]);
        assert(b.subrange(pos + 8, pos + 8 + 8 * (n - 1)) =~= enc_vals(data.drop_first())) by {
            lemma_enc_vals_len(data.drop_first());
            assert forall|i: int| 0 <= i < 8 * (n - 1) implies #[trigger] b.subrange(
                pos + 8,
                pos + 8 + 8 * (n - 1),
            )[i] == enc_vals(data.drop_first())[i] by {
                assert(b.subrange(pos, pos + 8 * n)[8 + i] == b[pos + 8 + i]);
                assert((u64le(data[0]) + enc_vals(data.drop_first()))[8 + i] == enc_vals(
                    data.drop_first(),
                )[i]);
            }
        }
        lemma_vals_roundtrip(b, pos + 8, data.drop_first());
        assert(seq![data[0]] + data.drop_first() =~= data);
    }
}

/// A value buffer takes eight bytes per word.
pub proof fn lemma_enc_vals_len(data: Seq<u64>)
    ensures
        enc_vals(data).len() == 8 * data.len(),
    decreases data.len(),
{
    if data.len() > 0 {
        lemma_enc_vals_len(data.drop_first());
    }
}

/// A matrix image takes sixteen bytes of shape plus its values.
pub proof fn lemma_enc_matrix_len(m: MatModel)
    ensures
        enc_matrix(m).len() == 16 + 8 * m.data.len(),
{
    lemma_enc_vals_len(m.data);
}

/// Reading back a freshly written well-formed matrix gives it back and
/// lands just after it.
pub proof fn lemma_matrix_roundtrip(b: Seq<u8>, pos: int, m: MatModel)
    requires
        0 <= pos,
        model_wf(m),
        m.data.len() <= 0xFFFF_FFFF,
        pos + enc_matrix(m).len() <= b.len(),
        b.subrange(pos, pos + enc_matrix(m).len()) == enc_matrix(m),
    ensures
        dec_matrix(b, pos) == Some((m, pos + enc_matrix(m).len())),
{
    let rows = model_rows(m);
    let cols = m.cols;
    lemma_enc_matrix_len(m);
    let total = 16 + 8 * m.data.len();
    assert(rows * cols == m.data.len() && 1 <= rows && 1 <= cols && rows <= m.data.len() && cols
        <= m.data.len()) by (nonlinear_arith)
        requires
            model_wf(m),
            rows == m.data.len() as int / m.cols,
            cols == m.cols,
    ;
    assert(b.subrange(pos, pos + 8) =~= u64le(rows as u64)) by {
        assert forall|i: int| 0 <= i < 8 implies #[trigger] b.subrange(pos, pos + 8)[i] == u64le(
            rows as u64,
        )[i] by {
            assert(b.subrange(pos, pos + total)[i] == b[pos + i]);
        }
    }
    lemma_u64le_roundtrip(b, pos, rows as u64);
    assert(b.subrange(pos + 8, pos + 16) =~= u64le(cols as u64)) by {
        assert forall|i: int| 0 <= i < 8 implies #[trigger] b.subrange(pos + 8, pos + 16)[i] == u64le(
            cols as u64,
        )[i] by {
            assert(b.subrange(pos, pos + total)[8 + i] == b[pos + 8 + i]);
        }
    }
    lemma_u64le_roundtrip(b, pos + 8, cols as u64);
    let avail = (b.len() - pos - 16) / 8;
    assert(rows <= avail && cols <= avail && cols <= avail / rows) by (nonlinear_arith)
        requires
            rows * cols == m.data.len(),
            1 <= rows,
            1 <= cols,
            avail == (b.len() - pos - 16) / 8,
            pos + 16 + 8 * m.data.len() <= b.len(),
    ;
    assert(b.subrange(pos + 16, pos + 16 + 8 * m.data.len()) =~= enc_vals(m.data)) by {
        lemma_enc_vals_len(m.data);
        assert forall|i: int| 0 <= i < 8 * m.data.len() implies #[trigger] b.subrange(
            pos + 16,
            pos + 16 + 8 * m.data.len(),
        )[i] == enc_vals(m.data)[i] by {
            assert(b.subrange(pos, pos + total)[16 + i] == b[pos + 16 + i]);
        }
    }
    lemma_vals_roundtrip(b, pos + 16, m.data);
    assert(rows as int * cols as int == m.data.len());
    assert(MatModel { cols: cols as int, data: m.data } == m);
}

/// A layer image's length, and that reading a freshly written well-formed
/// layer gives it back.
pub proof fn lemma_layer_roundtrip(b: Seq<u8>, pos: int, l: LayerModel)
    requires
        0 <= pos,
        layer_wf(l),
        layer_small(l),
        pos + enc_layer(l).len() <= b.len(),
        b.subrange(pos, pos + enc_layer(l).len()) == enc_layer(l),
    ensures
        dec_layer(b, pos) == Some((l, pos + enc_layer(l).len())),
{
    let total = enc_layer(l).len();
    match l {
        LayerModel::Transform(t) => {
            lemma_enc_matrix_len(t.bias);
            lemma_enc_matrix_len(t.weights);
            assert(b[pos] == enc_layer(l)[0]) by {
                assert(b.subrange(pos, pos + total)[0] == b[pos]);
            }
            let bl = enc_matrix(t.bias).len();
            let wl = enc_matrix(t.weights).len();
            assert(b.subrange(pos + 1, pos + 1 + bl) =~= enc_matrix(t.bias)) by {
                assert forall|i: int| 0 <= i < bl implies #[trigger] b.subrange(pos + 1, pos + 1 + bl)[i]
                    == enc_matrix(t.bias)[i] by {
                    assert(b.subrange(pos, pos + total)[1 + i] == b[pos + 1 + i]);
                    assert((seq![0u8] + enc_matrix(t.bias) + enc_matrix(t.weights))[1 + i]
                        == enc_matrix(t.bias)[i]);
                }
            }
            lemma_matrix_roundtrip(b, pos + 1, t.bias);
            assert(b.subrange(pos + 1 + bl, pos + 1 + bl + wl) =~= enc_matrix(t.weights)) by {
                assert forall|i: int| 0 <= i < wl implies #[trigger] b.subrange(
                    pos + 1 + bl,
                    pos + 1 + bl + wl,
                )[i] == enc_matrix(t.weights)[i] by {
                    assert(b.subrange(pos, pos + total)[1 + bl + i] == b[pos + 1 + bl + i]);
                    assert((seq![0u8] + enc_matrix(t.bias) + enc_matrix(t.weights))[1 + bl + i]
                        == enc_matrix(t.weights)[i]);
                }
            }
            lemma_matrix_roundtrip(b, pos + 1 + bl, t.weights);
        },
        LayerModel::Activation(k) => {
            assert(b[pos] == enc_layer(l)[0] && b[pos + 1] == enc_layer(l)[1]) by {
                assert(b.subrange(pos, pos + total)[0] == b[pos]);
                assert(b.subrange(pos, pos + total)[1] == b[pos + 1]);
            }
        },
        LayerModel::Softmax => {
            assert(b[pos] == enc_layer(l)[0]) by {
                assert(b.subrange(pos, pos + total)[0] == b[pos]);
            }
        },
    }
}

/// A size bound under which a layer's matrices certainly fit a byte
/// buffer's index range.
pub open spec fn layer_small(l: LayerModel) -> bool {
    match l {
        LayerModel::Transform(t) => t.bias.data.len() <= 0xFFFF_FFFF && t.weights.data.len()
            <= 0xFFFF_FFFF,
        _ => true,
    }
}

/// Reading back freshly written layers gives them back in order.
pub proof fn lemma_layers_roundtrip(b: Seq<u8>, pos: int, ls: Seq<LayerModel>)
    requires
        0 <= pos,
        net_wf(ls),
        forall|i: int| 0 <= i < ls.len() ==> layer_small(#[trigger] ls[i]),
        pos + enc_layers(ls).len() <= b.len(),
        b.subrange(pos, pos + enc_layers(ls).len()) == enc_layers(ls),
    ensures
        dec_layers(b, pos, ls.len() as int) == Some((ls, pos + enc_layers(ls).len())),
    decreases ls.len(),
{
    if ls.len() == 0 {
        assert(ls =~= Seq::<LayerModel>::empty());
    } else {
        let total = enc_layers(ls).len();
        let hl = enc_layer(ls[0]).len();
        let tail = ls.drop_first();
        assert(enc_layers(ls) == enc_layer(ls[0]) + enc_layers(tail));
        assert(b.subrange(pos, pos + hl) =~= enc_layer(ls[0])) by {
            assert forall|i: int| 0 <= i < hl implies #[trigger] b.subrange(pos, pos + hl)[i] == enc_layer(
                ls[0],
            )[i] by {
                assert(b.subrange(pos, pos + total)[i] == b[pos + i]);
                assert((enc_layer(ls[0]) + enc_layers(tail))[i] == enc_layer(ls[0])[i]);
            }
        }
        assert(layer_wf(ls[0]) && layer_small(ls[0]));
        lemma_layer_roundtrip(b, pos, ls[0]);
        assert(net_wf(tail) && (forall|i: int|
            0 <= i < tail.len() ==> layer_small(#[trigger] tail[i]))) by {
            assert forall|i: int| 0 <= i < tail.len() implies layer_wf(#[trigger] tail[i])
                && layer_small(tail[i]) by {
                assert(tail[i] == ls[i + 1]);
            }
        }
        assert(b.subrange(pos + hl, pos + hl + enc_layers(tail).len()) =~= enc_layers(tail)) by {
            assert forall|i: int| 0 <= i < enc_layers(tail).len() implies #[trigger] b.subrange(
                pos + hl,
                pos + hl + enc_layers(tail).len(),
            )[i] == enc_layers(tail)[i] by {
                assert(b.subrange(pos, pos + total)[hl + i] == b[pos + hl + i]);
                assert((enc_layer(ls[0]) + enc_layers(tail))[hl + i] == enc_layers(tail)[i]);
            }
        }
        lemma_layers_roundtrip(b, pos + hl, tail);
        assert(seq![ls[0]] + tail =~= ls);
    }
}

/// The round-trip law of the format: decoding the image of a well-formed
/// network yields exactly its loss kind, learning rate and layers.
pub proof fn lemma_net_roundtrip(kind: NuralNetworkLossKind, lr: u64, ls: Seq<LayerModel>)
    requires
        net_wf(ls),
        forall|i: int| 0 <= i < ls.len() ==> layer_small(#[trigger] ls[i]),
        ls.len() <= 0xFFFF_FFFF,
    ensures
        dec_net(enc_net(kind, lr, ls)) == Some((kind, lr, ls)),
{
    let b = enc_net(kind, lr, ls);
    assert(b.len() == 17 + enc_layers(ls).len());
    assert(b[0] == loss_tag(kind));
    assert(b.subrange(1, 9) =~= u64le(lr));
    lemma_u64le_roundtrip(b, 1, lr);
    assert(b.subrange(9, 17) =~= u64le(ls.len() as u64));
    lemma_u64le_roundtrip(b, 9, ls.len() as u64);
    lemma_enc_layers_len(ls);
    assert(b.subrange(17, 17 + enc_layers(ls).len() as int) =~= enc_layers(ls));
    lemma_layers_roundtrip(b, 17, ls);
}

/// Each layer image takes at least one byte, so a count never exceeds the
/// image's length.
pub proof fn lemma_enc_layers_len(ls: Seq<LayerModel>)
    ensures
        enc_layers(ls).len() >= ls.len(),
    decreases ls.len(),
{
    if ls.len() > 0 {
        lemma_enc_layers_len(ls.drop_first());
        match ls[0] {
            LayerModel::Transform(t) => {
                lemma_enc_matrix_len(t.bias);
                lemma_enc_matrix_len(t.weights);
            },
            _ => {},
        }
    }
}


/// Appending one value extends a value buffer by its eight bytes.
pub proof fn lemma_enc_vals_snoc(data: Seq<u64>, x: u64)
    ensures
        enc_vals(data.push(x)) == enc_vals(data) + u64le(x),
    decreases data.len(),
{
    reveal_with_fuel(enc_vals, 3);
    if data.len() == 0 {
        assert(data.push(x).drop_first() =~= Seq::<u64>::empty());
        assert(data.push(x)[0] == x);
        assert(enc_vals(data.push(x)) == u64le(x) + Seq::<u8>::empty());
        assert(u64le(x) + Seq::<u8>::empty() =~= Seq::<u8>::empty() + u64le(x));
        assert(enc_vals(data) == Seq::<u8>::empty());
    } else {
        assert(data.push(x)[0] == data[0]);
        assert(data.push(x).drop_first() =~= data.drop_first().push(x));
        lemma_enc_vals_snoc(data.drop_first(), x);
        assert(enc_vals(data.push(x)) == u64le(data[0]) + (enc_vals(data.drop_first())
            + u64le(x)));
        assert(u64le(data[0]) + (enc_vals(data.drop_first()) + u64le(x)) =~= (u64le(data[0])
            + enc_vals(data.drop_first())) + u64le(x));
    }
}

/// Appending one layer extends a layer buffer by its image.
pub proof fn lemma_enc_layers_snoc(ls: Seq<LayerModel>, l: LayerModel)
    ensures
        enc_layers(ls.push(l)) == enc_layers(ls) + enc_layer(l),
    decreases ls.len(),
{
    reveal_with_fuel(enc_layers, 3);
    if ls.len() == 0 {
        assert(ls.push(l).drop_first() =~= Seq::<LayerModel>::empty());
        assert(ls.push(l)[0] == l);
        assert(enc_layers(ls.push(l)) == enc_layer(l) + Seq::<u8>::empty());
        assert(enc_layer(l) + Seq::<u8>::empty() =~= Seq::<u8>::empty() + enc_layer(l));
        assert(enc_layers(ls) == Seq::<u8>::empty());
    } else {
        assert(ls.push(l)[0] == ls[0]);
        assert(ls.push(l).drop_first() =~= ls.drop_first().push(l));
        lemma_enc_layers_snoc(ls.drop_first(), l);
        assert(enc_layers(ls.push(l)) == enc_layer(ls[0]) + (enc_layers(ls.drop_first())
            + enc_layer(l)));
        assert(enc_layer(ls[0]) + (enc_layers(ls.drop_first()) + enc_layer(l)) =~= (enc_layer(
            ls[0],
        ) + enc_layers(ls.drop_first())) + enc_layer(l));
    }
}

fn push_u64le(out: &mut Vec<u8>, x: u64)
    ensures
        final(out)@ == old(out)@ + u64le(x),
{
    assert(x & 0xFF < 256 && (x >> 8) & 0xFF < 256 && (x >> 16) & 0xFF < 256 && (x >> 24) & 0xFF
        < 256 && (x >> 32) & 0xFF < 256 && (x >> 40) & 0xFF < 256 && (x >> 48) & 0xFF < 256 && (x
        >> 56) & 0xFF < 256) by (bit_vector);
    out.push((x & 0xFF) as u8);
    out.push(((x >> 8) & 0xFF) as u8);
    out.push(((x >> 16) & 0xFF) as u8);
    out.push(((x >> 24) & 0xFF) as u8);
    out.push(((x >> 32) & 0xFF) as u8);
    out.push(((x >> 40) & 0xFF) as u8);
    out.push(((x >> 48) & 0xFF) as u8);
    out.push(((x >> 56) & 0xFF) as u8);
    proof {
        assert(out@ =~= old(out)@ + u64le(x));
    }
}

fn push_matrix(out: &mut Vec<u8>, m: &Matrix)
    requires
        model_wf(m@),
    ensures
        final(out)@ == old(out)@ + enc_matrix(m@),
{
    let rows: usize = m.rows();
    push_u64le(out, rows as u64);
    push_u64le(out, m.cols as u64);
    let n: usize = m.data.len();
    let ghost head = old(out)@ + u64le(rows as u64) + u64le(m.cols as u64);
    let mut i: usize = 0;
    while i < n
        invariant
            n == m.data@.len(),
            0 <= i <= n,
            out@ == head + enc_vals(m.data@.take(i as int)),
        decreases n - i,
    {
        proof {
            lemma_enc_vals_snoc(m.data@.take(i as int), m.data@[i as int]);
            assert(m.data@.take(i as int).push(m.data@[i as int]) =~= m.data@.take(i + 1));
        }
        push_u64le(out, m.data[i]);
        i = i + 1;
    }
    proof {
        assert(m.data@.take(n as int) =~= m.data@);
        assert(out@ =~= old(out)@ + enc_matrix(m@));
    }
}

impl NuralNetwork {
    /// The network's binary image, exactly as the format above describes
    /// it.
    pub fn to_bytes(&self) -> (r: Vec<u8>)
        requires
            self.wf(),
        ensures
            r@ == enc_net(self.loss_kind, self.learning_rate, layer_views(self.layers@)),
    {
        let mut out: Vec<u8> = Vec::new();
        let tag: u8 = match self.loss_kind {
            NuralNetworkLossKind::BinaryCrossEntropy => 0u8,
            NuralNetworkLossKind::Mse => 1u8,
        };
        out.push(tag);
        push_u64le(&mut out, self.learning_rate);
        push_u64le(&mut out, self.layers.len() as u64);
        let ghost head = seq![loss_tag(self.loss_kind)] + u64le(self.learning_rate) + u64le(
            self.layers@.len() as u64,
        );
        proof {
            assert(out@ =~= head + enc_layers(layer_views(self.layers@).take(0)));
        }
        let n: usize = self.layers.len();
        let mut i: usize = 0;
        while i < n
            invariant
                self.wf(),
                n == self.layers@.len(),
                0 <= i <= n,
                out@ == head + enc_layers(layer_views(self.layers@).take(i as int)),
            decreases n - i,
        {
            let ghost lv = layer_views(self.layers@);
            proof {
                lemma_enc_layers_snoc(lv.take(i as int), lv[i as int]);
                assert(lv.take(i as int).push(lv[i as int]) =~= lv.take(i + 1));
            }
            match &self.layers[i] {
                NuralNetworkLayer::Transform(t) => {
                    out.push(0u8);
                    push_matrix(&mut out, &t.bias);
                    push_matrix(&mut out, &t.weights);
                    proof {
                        assert(out@ =~= head + enc_layers(lv.take(i + 1)));
                    }
                },
                NuralNetworkLayer::Activation(a) => {
                    out.push(1u8);
                    let ktag: u8 = match a.kind {
                        ActivationLayerKind::ReLu => 0u8,
                        ActivationLayerKind::Sigmoid => 1u8,
                        ActivationLayerKind::Tanh => 2u8,
                    };
                    out.push(ktag);
                    proof {
                        assert(enc_layer(lv[i as int]) =~= seq![1u8, act_tag(a.kind)]);
                        assert(out@ =~= head + enc_layers(lv.take(i + 1)));
                    }
                },
                NuralNetworkLayer::Softmax(_) => {
                    out.push(2u8);
                    proof {
                        assert(enc_layer(lv[i as int]) =~= seq![2u8]);
                        assert(out@ =~= head + enc_layers(lv.take(i + 1)));
                    }
                },
            }
            i = i + 1;
        }
        proof {
            assert(layer_views(self.layers@).take(n as int) =~= layer_views(self.layers@));
            assert(out@ =~= enc_net(self.loss_kind, self.learning_rate, layer_views(self.layers@)));
        }
        out
    }
}

fn read_u64(b: &Vec<u8>, pos: usize) -> (r: Option<u64>)
    ensures
        r == dec_u64(b@, pos as int),
{
    if b.len() >= 8 && pos <= b.len() - 8 {
        let v: u64 = (b[pos] as u64) | ((b[pos + 1] as u64) << 8) | ((b[pos + 2] as u64) << 16) | ((
        b[pos + 3] as u64) << 24) | ((b[pos + 4] as u64) << 32) | ((b[pos + 5] as u64) << 40) | ((
        b[pos + 6] as u64) << 48) | ((b[pos + 7] as u64) << 56);
        Some(v)
    } else {
        None
    }
}

fn read_matrix(b: &Vec<u8>, pos: usize) -> (r: Option<(Matrix, usize)>)
    ensures
        (r is Some) == (dec_matrix(b@, pos as int) is Some),
        (r is Some ==> dec_matrix(b@, pos as int) == Some(
            ((r->Some_0.0)@, r->Some_0.1 as int),
        )),
        (r is Some ==> model_wf((r->Some_0.0)@) && r->Some_0.1 <= b@.len()),
{
    let blen: usize = b.len();
    let rows64: u64 = match read_u64(b, pos) {
        Some(v) => v,
        None => {
            return None;
        },
    };
    proof {
        assert(pos + 8 <= b@.len());
    }
    let cols64: u64 = match read_u64(b, pos + 8) {
        Some(v) => v,
        None => {
            return None;
        },
    };
    proof {
        assert(pos + 16 <= b@.len());
    }
    let avail: usize = (b.len() - (pos + 16)) / 8;
    if !(1 <= rows64 && 1 <= cols64 && rows64 <= avail as u64 && cols64 <= avail as u64 && cols64
        <= (avail as u64) / rows64) {
        return None;
    }
    let rows: usize = rows64 as usize;
    let cols: usize = cols64 as usize;
    proof {
        assert(rows * cols <= avail) by (nonlinear_arith)
            requires
                1 <= rows,
                1 <= cols,
                rows <= avail,
                cols as int <= avail as int / (rows as int),
        ;
    }
    let count: usize = rows * cols;
    proof {
        assert(8 * count <= b@.len() - pos - 16) by (nonlinear_arith)
            requires
                count <= avail,
                avail == (b@.len() - pos - 16) as int / 8,
                pos + 16 <= b@.len(),
        ;
    }
    let mut vals: Vec<u64> = Vec::new();
    let mut cur: usize = pos + 16;
    let mut i: usize = 0;
    while i < count
        invariant
            0 <= i <= count,
            vals@.len() == i,
            cur == pos + 16 + 8 * i,
            cur <= usize::MAX,
            pos + 16 + 8 * count <= b@.len(),
            b@.len() <= usize::MAX,
            dec_vals(b@, pos + 16, count as int) == (match dec_vals(
                b@,
                cur as int,
                count as int - i,
            ) {
                Some((rest, end)) => Some::<(Seq<u64>, int)>((vals@ + rest, end)),
                None => None::<(Seq<u64>, int)>,
            }),
        decreases count - i,
    {
        let x: u64 = match read_u64(b, cur) {
            Some(v) => v,
            None => {
                // the shape guard bounded the value bytes, so the read
                // cannot run out
                proof {
                    assert(false);
                }
                return None;
            },
        };
        proof {
            assert(dec_vals(b@, cur as int, count as int - i) == (match dec_vals(
                b@,
                cur as int + 8,
                count as int - i - 1,
            ) {
                Some((rest, end)) => Some::<(Seq<u64>, int)>((seq![x] + rest, end)),
                None => None::<(Seq<u64>, int)>,
            }));
            assert(forall|rest: Seq<u64>| vals@ + (seq![x] + rest) =~= (vals@.push(x)) + rest);
        }
        vals.push(x);
        cur = cur + 8;
        i = i + 1;
    }
    proof {
        assert(dec_vals(b@, cur as int, 0) == Some::<(Seq<u64>, int)>((Seq::empty(), cur as int)));
        assert(vals@ + Seq::<u64>::empty() =~= vals@);
        assert((rows * cols) as int % (cols as int) == 0 && rows * cols >= cols)
            by (nonlinear_arith)
            requires
                1 <= rows,
                1 <= cols,
        ;
    }
    Some((Matrix { cols, data: vals }, cur))
}


fn read_layer(b: &Vec<u8>, pos: usize) -> (r: Option<(NuralNetworkLayer, usize)>)
    ensures
        (r is Some) == (dec_layer(b@, pos as int) is Some),
        (r is Some ==> dec_layer(b@, pos as int) == Some(
            ((r->Some_0.0)@, r->Some_0.1 as int),
        )),
        (r is Some ==> layer_wf((r->Some_0.0)@) && r->Some_0.1 <= b@.len()),
{
    let blen: usize = b.len();
    if pos >= blen {
        return None;
    }
    let tag: u8 = b[pos];
    if tag == 0u8 {
        let pair = match read_matrix(b, pos + 1) {
            Some(v) => v,
            None => {
                return None;
            },
        };
        let bias: Matrix = pair.0;
        let p2: usize = pair.1;
        let pair2 = match read_matrix(b, p2) {
            Some(v) => v,
            None => {
                return None;
            },
        };
        let weights: Matrix = pair2.0;
        let p3: usize = pair2.1;
        let bias_rows: usize = bias.rows();
        let w_rows: usize = weights.rows();
        if !(bias.cols == 1 && bias_rows == w_rows) {
            return None;
        }
        Some((NuralNetworkLayer::Transform(TransformLayer { bias, weights }), p3))
    } else if tag == 1u8 {
        if pos + 1 < blen {
            let k: u8 = b[pos + 1];
            if k == 0u8 {
                Some(
                    (
                        NuralNetworkLayer::Activation(
                            ActivationLayer::new(ActivationLayerKind::ReLu),
                        ),
                        pos + 2,
                    ),
                )
            } else if k == 1u8 {
                Some(
                    (
                        NuralNetworkLayer::Activation(
                            ActivationLayer::new(ActivationLayerKind::Sigmoid),
                        ),
                        pos + 2,
                    ),
                )
            } else if k == 2u8 {
                Some(
                    (
                        NuralNetworkLayer::Activation(
                            ActivationLayer::new(ActivationLayerKind::Tanh),
                        ),
                        pos + 2,
                    ),
                )
            } else {
                None
            }
        } else {
            None
        }
    } else if tag == 2u8 {
        Some((NuralNetworkLayer::Softmax(SoftmaxLayer::new()), pos + 1))
    } else {
        None
    }
}

impl NuralNetwork {
    /// A network read back from a binary image; refused, with
    /// `MalformedModel`, exactly when the image does not parse.
    pub fn from_bytes(bytes: &Vec<u8>) -> (r: Result<NuralNetwork, NuralError>)
        ensures
            (r is Ok) == (dec_net(bytes@) is Some),
            (r is Err ==> r->Err_0 == NuralError::MalformedModel),
            (r is Ok ==> dec_net(bytes@) == Some(
                (
                    (r->Ok_0).loss_kind,
                    (r->Ok_0).learning_rate,
                    layer_views((r->Ok_0).layers@),
                ),
            )),
            (r is Ok ==> (r->Ok_0).wf()),
    {
        let blen: usize = bytes.len();
        if blen < 1 {
            return Err(NuralError::MalformedModel);
        }
        let kind: NuralNetworkLossKind = if bytes[0] == 0u8 {
            NuralNetworkLossKind::BinaryCrossEntropy
        } else if bytes[0] == 1u8 {
            NuralNetworkLossKind::Mse
        } else {
            return Err(NuralError::MalformedModel);
        };
        let lr: u64 = match read_u64(bytes, 1) {
            Some(v) => v,
            None => {
                return Err(NuralError::MalformedModel);
            },
        };
        let count64: u64 = match read_u64(bytes, 9) {
            Some(v) => v,
            None => {
                return Err(NuralError::MalformedModel);
            },
        };
        if !(count64 <= blen as u64) {
            return Err(NuralError::MalformedModel);
        }
        let count: usize = count64 as usize;
        let mut layers: Vec<NuralNetworkLayer> = Vec::new();
        let mut cur: usize = 17;
        let mut i: usize = 0;
        proof {
            assert(layer_views(layers@) =~= Seq::<LayerModel>::empty());
        }
        while i < count
            invariant
                blen == bytes@.len(),
                blen >= 17,
                0 <= i <= count,
                cur <= blen,
                layers@.len() == i,
                net_wf(layer_views(layers@)),
                dec_u64(bytes@, 1) == Some(lr),
                dec_u64(bytes@, 9) == Some(count64),
                count64 as int == count as int,
                count64 <= bytes@.len(),
                ((bytes@[0] == 0u8 && kind == NuralNetworkLossKind::BinaryCrossEntropy) || (
                bytes@[0] == 1u8 && kind == NuralNetworkLossKind::Mse)),
                dec_layers(bytes@, 17, count as int) == (match dec_layers(
                    bytes@,
                    cur as int,
                    count as int - i,
                ) {
                    Some((rest, end)) => Some::<(Seq<LayerModel>, int)>(
                        (layer_views(layers@) + rest, end),
                    ),
                    None => None::<(Seq<LayerModel>, int)>,
                }),
            decreases count - i,
        {
            let pair = match read_layer(bytes, cur) {
                Some(v) => v,
                None => {
                    proof {
                        assert(dec_layers(bytes@, cur as int, count as int - i) is None);
                        assert(dec_layers(bytes@, 17, count as int) is None);
                        assert(bytes@[0] == 0u8 || bytes@[0] == 1u8);
                        assert(dec_u64(bytes@, 1) == Some(lr));
                        assert(dec_u64(bytes@, 9) == Some(count64));
                        assert(count64 as int == count as int);
                        assert(count64 <= bytes@.len());
                        assert(dec_layers(bytes@, 17, count64 as int) is None);
                        assert(dec_net(bytes@) is None);
                    }
                    return Err(NuralError::MalformedModel);
                },
            };
            let layer: NuralNetworkLayer = pair.0;
            let p2: usize = pair.1;
            proof {
                let lseq = layer_views(layers@);
                assert(dec_layers(bytes@, cur as int, count as int - i) == (match dec_layers(
                    bytes@,
                    p2 as int,
                    count as int - i - 1,
                ) {
                    Some((rest, end)) => Some::<(Seq<LayerModel>, int)>(
                        (seq![layer@] + rest, end),
                    ),
                    None => None::<(Seq<LayerModel>, int)>,
                }));
                assert(forall|rest: Seq<LayerModel>|
                    lseq + (seq![layer@] + rest) =~= (lseq + seq![layer@]) + rest);
            }
            let ghost old_layers = layers@;
            layers.push(layer);
            proof {
                assert(layer_views(layers@) =~= layer_views(old_layers) + seq![layers@[i as int]@]);
                assert forall|k: int|
                    0 <= k < layer_views(layers@).len() implies layer_wf(
                    #[trigger] layer_views(layers@)[k],
                ) by {
                    if k < i {
                        assert(layer_views(layers@)[k] == layer_views(old_layers)[k]);
                    }
                }
            }
            cur = p2;
            i = i + 1;
        }
        proof {
            assert(dec_layers(bytes@, cur as int, 0) == Some::<(Seq<LayerModel>, int)>(
                (Seq::empty(), cur as int),
            ));
            assert(layer_views(layers@) + Seq::<LayerModel>::empty() =~= layer_views(layers@));
        }
        if cur != blen {
            return Err(NuralError::MalformedModel);
        }
        Ok(NuralNetwork { layers, learning_rate: lr, loss_kind: kind })
    }
}

} // verus!
