use nural::activation_layer::{ActivationLayer, ActivationLayerKind};
use nural::loss_fns::NuralNetworkLossKind;
use nural::matrix::Matrix;
use nural::nural_network::{NuralError, NuralNetwork};
use nural::nural_network_layer::NuralNetworkLayer;
use nural::rng::WeightRng;
use nural::softmax_layer::SoftmaxLayer;
use nural::transform_layer::TransformLayer;

fn bits(v: &[f64]) -> Vec<u64> {
    v.iter().map(|x| x.to_bits()).collect()
}

fn floats(v: &[u64]) -> Vec<f64> {
    v.iter().map(|b| f64::from_bits(*b)).collect()
}

fn xor_data() -> Vec<(Vec<u64>, Vec<u64>)> {
    vec![
        (bits(&[0.0, 0.0]), bits(&[1.0, 0.0])),
        (bits(&[0.0, 1.0]), bits(&[0.0, 1.0])),
        (bits(&[1.0, 0.0]), bits(&[0.0, 1.0])),
        (bits(&[1.0, 1.0]), bits(&[1.0, 0.0])),
    ]
}

fn xor_network(seed: u64) -> NuralNetwork {
    let mut rng = WeightRng::new(seed);
    NuralNetwork::new(
        vec![
            NuralNetworkLayer::Transform(TransformLayer::new(2, 3, &mut rng)),
            NuralNetworkLayer::Activation(ActivationLayer::new(ActivationLayerKind::Tanh)),
            NuralNetworkLayer::Transform(TransformLayer::new(3, 2, &mut rng)),
            NuralNetworkLayer::Activation(ActivationLayer::new(ActivationLayerKind::Tanh)),
        ],
        0.1f64.to_bits(),
        NuralNetworkLossKind::Mse,
    )
}

#[test]
fn predict_refuses_an_input_of_the_wrong_width() {
    let net = xor_network(7);
    assert_eq!(net.predict(&bits(&[0.0, 1.0, 0.5])), Err(NuralError::ShapeMismatch));
    assert_eq!(net.predict(&bits(&[0.0])), Err(NuralError::ShapeMismatch));
    assert_eq!(net.predict(&bits(&[])), Err(NuralError::ShapeMismatch));
    assert!(net.predict(&bits(&[0.0, 1.0])).is_ok());
}

#[test]
fn mismatched_inner_dimensions_fail_between_layers() {
    let mut rng = WeightRng::new(3);
    // 2 -> 3 feeding a layer that wants 4 inputs
    let net = NuralNetwork::new(
        vec![
            NuralNetworkLayer::Transform(TransformLayer::new(2, 3, &mut rng)),
            NuralNetworkLayer::Transform(TransformLayer::new(4, 2, &mut rng)),
        ],
        0.1f64.to_bits(),
        NuralNetworkLossKind::Mse,
    );
    assert_eq!(net.predict(&bits(&[0.0, 1.0])), Err(NuralError::ShapeMismatch));
}

#[test]
fn forward_keeps_one_vector_per_layer_boundary() {
    let net = xor_network(9);
    let input = bits(&[1.0, 0.0]);
    let outs = net.forward(&input).unwrap();
    assert_eq!(outs.len(), 5);
    assert_eq!(outs[0], input);
    assert_eq!(outs[1].len(), 3);
    assert_eq!(outs[2].len(), 3);
    assert_eq!(outs[3].len(), 2);
    assert_eq!(outs[4].len(), 2);
    // predict is the last boundary
    assert_eq!(net.predict(&input).unwrap(), outs[4]);
}

#[test]
fn a_network_with_no_layers_echoes_its_input() {
    let net = NuralNetwork::new(Vec::new(), 0.1f64.to_bits(), NuralNetworkLossKind::Mse);
    let input = bits(&[0.25, -1.5]);
    assert_eq!(net.predict(&input).unwrap(), input);
}

#[test]
fn activation_layers_apply_elementwise() {
    let net = NuralNetwork::new(
        vec![NuralNetworkLayer::Activation(ActivationLayer::new(ActivationLayerKind::ReLu))],
        0.1f64.to_bits(),
        NuralNetworkLossKind::Mse,
    );
    let out = floats(&net.predict(&bits(&[-2.0, 3.0, 0.0])).unwrap());
    assert_eq!(out, vec![0.0, 3.0, 0.0]);
}

#[test]
fn softmax_layer_runs_in_a_network() {
    let net = NuralNetwork::new(
        vec![NuralNetworkLayer::Softmax(SoftmaxLayer::new())],
        0.1f64.to_bits(),
        NuralNetworkLossKind::Mse,
    );
    let out = floats(&net.predict(&bits(&[0.0, 0.0])).unwrap());
    assert!((out[0] - 0.5).abs() < 1e-12 && (out[1] - 0.5).abs() < 1e-12);
}

#[test]
fn training_returns_one_mean_loss_per_epoch_and_learns() {
    let mut net = xor_network(12345);
    let data = xor_data();
    let losses = net.train(&data, 50);
    assert_eq!(losses.len(), 50);
    let first = f64::from_bits(losses[0]);
    let last = f64::from_bits(losses[49]);
    assert!(first.is_finite() && last.is_finite());
    assert!(last < first, "loss went from {first} to {last}");
}

#[test]
fn xor_training_makes_the_right_coordinate_dominant() {
    let mut net = xor_network(12345);
    let data = xor_data();
    net.train(&data, 1000);
    let mut right: usize = 0;
    for (input, target) in &data {
        let out = floats(&net.predict(input).unwrap());
        let t = floats(target);
        let predicted_hot = if out[0] >= out[1] { 0 } else { 1 };
        let actual_hot = if t[0] >= t[1] { 0 } else { 1 };
        if predicted_hot == actual_hot {
            right += 1;
        }
    }
    assert!(right >= 3, "only {right} of 4 patterns dominant after training");
}

#[test]
fn training_does_not_change_layer_shapes() {
    let mut net = xor_network(77);
    let data = xor_data();
    net.train(&data, 3);
    let out = net.predict(&bits(&[1.0, 1.0])).unwrap();
    assert_eq!(out.len(), 2);
}

#[test]
fn a_hand_built_affine_layer_computes_exactly() {
    // one output: 2*x0 + (-1)*x1 + 0.5
    let layer = TransformLayer {
        bias: Matrix { cols: 1, data: bits(&[0.5]) },
        weights: Matrix { cols: 2, data: bits(&[2.0, -1.0]) },
    };
    let net = NuralNetwork::new(
        vec![NuralNetworkLayer::Transform(layer)],
        0.1f64.to_bits(),
        NuralNetworkLossKind::Mse,
    );
    let out = floats(&net.predict(&bits(&[3.0, 4.0])).unwrap());
    assert_eq!(out, vec![2.0 * 3.0 + -1.0 * 4.0 + 0.5]);
}

#[test]
fn a_perfect_prediction_reports_zero_loss_and_learns_nothing() {
    let layer = TransformLayer {
        bias: Matrix { cols: 1, data: bits(&[0.5]) },
        weights: Matrix { cols: 2, data: bits(&[2.0, -1.0]) },
    };
    let mut net = NuralNetwork::new(
        vec![NuralNetworkLayer::Transform(layer)],
        0.1f64.to_bits(),
        NuralNetworkLossKind::Mse,
    );
    let data = vec![(bits(&[3.0, 4.0]), bits(&[2.5]))];
    let losses = net.train(&data, 2);
    assert_eq!(floats(&losses), vec![0.0, 0.0]);
    let out = floats(&net.predict(&bits(&[3.0, 4.0])).unwrap());
    assert_eq!(out, vec![2.5]);
}
