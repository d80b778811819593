use nural::activation_layer::{ActivationLayer, ActivationLayerKind};
use nural::loss_fns::NuralNetworkLossKind;
use nural::nural_network::{NuralError, NuralNetwork};
use nural::nural_network_layer::NuralNetworkLayer;
use nural::rng::WeightRng;
use nural::softmax_layer::SoftmaxLayer;
use nural::transform_layer::TransformLayer;

fn bits(v: &[f64]) -> Vec<u64> {
    v.iter().map(|x| x.to_bits()).collect()
}

fn every_kind_network(seed: u64, loss: NuralNetworkLossKind) -> NuralNetwork {
    let mut rng = WeightRng::new(seed);
    NuralNetwork::new(
        vec![
            NuralNetworkLayer::Transform(TransformLayer::new(3, 4, &mut rng)),
            NuralNetworkLayer::Activation(ActivationLayer::new(ActivationLayerKind::Tanh)),
            NuralNetworkLayer::Transform(TransformLayer::new(4, 2, &mut rng)),
            NuralNetworkLayer::Activation(ActivationLayer::new(ActivationLayerKind::Sigmoid)),
            NuralNetworkLayer::Activation(ActivationLayer::new(ActivationLayerKind::ReLu)),
            NuralNetworkLayer::Softmax(SoftmaxLayer::new()),
        ],
        0.05f64.to_bits(),
        loss,
    )
}

#[test]
fn reloaded_network_predicts_bit_for_bit() {
    for (seed, loss) in [
        (1u64, NuralNetworkLossKind::Mse),
        (2u64, NuralNetworkLossKind::BinaryCrossEntropy),
    ] {
        let net = every_kind_network(seed, loss);
        let image = net.to_bytes();
        let back = NuralNetwork::from_bytes(&image).unwrap();
        for input in [
            bits(&[0.0, 0.5, 1.0]),
            bits(&[-1.0, 0.25, 0.75]),
            bits(&[0.125, -0.5, 2.0]),
        ] {
            assert_eq!(net.predict(&input).unwrap(), back.predict(&input).unwrap());
        }
    }
}

#[test]
fn reloading_a_trained_network_keeps_its_parameters() {
    let mut rng = WeightRng::new(31);
    let mut net = NuralNetwork::new(
        vec![
            NuralNetworkLayer::Transform(TransformLayer::new(2, 3, &mut rng)),
            NuralNetworkLayer::Activation(ActivationLayer::new(ActivationLayerKind::Tanh)),
            NuralNetworkLayer::Transform(TransformLayer::new(3, 2, &mut rng)),
            NuralNetworkLayer::Activation(ActivationLayer::new(ActivationLayerKind::Tanh)),
        ],
        0.1f64.to_bits(),
        NuralNetworkLossKind::Mse,
    );
    let data = vec![
        (bits(&[0.0, 0.0]), bits(&[1.0, 0.0])),
        (bits(&[1.0, 1.0]), bits(&[0.0, 1.0])),
    ];
    net.train(&data, 25);
    let back = NuralNetwork::from_bytes(&net.to_bytes()).unwrap();
    let input = bits(&[1.0, 0.0]);
    assert_eq!(net.predict(&input).unwrap(), back.predict(&input).unwrap());
}

#[test]
fn image_round_trip_is_byte_identical() {
    let net = every_kind_network(5, NuralNetworkLossKind::Mse);
    let image = net.to_bytes();
    let back = NuralNetwork::from_bytes(&image).unwrap();
    assert_eq!(back.to_bytes(), image);
}

#[test]
fn truncated_images_are_refused() {
    let net = every_kind_network(6, NuralNetworkLossKind::Mse);
    let image = net.to_bytes();
    for cut in [0, 1, 5, 17, image.len() / 2, image.len() - 1] {
        let broken: Vec<u8> = image[..cut].to_vec();
        match NuralNetwork::from_bytes(&broken) {
            Err(e) => assert_eq!(e, NuralError::MalformedModel),
            Ok(_) => panic!("length {cut} was accepted"),
        }
    }
}

#[test]
fn trailing_bytes_are_refused() {
    let net = every_kind_network(8, NuralNetworkLossKind::Mse);
    let mut image = net.to_bytes();
    image.push(0);
    match NuralNetwork::from_bytes(&image) {
        Err(e) => assert_eq!(e, NuralError::MalformedModel),
        Ok(_) => panic!("trailing byte was accepted"),
    }
}

#[test]
fn unknown_tags_are_refused() {
    let net = every_kind_network(9, NuralNetworkLossKind::Mse);
    let image = net.to_bytes();

    let mut bad_loss = image.clone();
    bad_loss[0] = 9;
    assert!(NuralNetwork::from_bytes(&bad_loss).is_err());

    let mut bad_layer = image.clone();
    bad_layer[17] = 7;
    assert!(NuralNetwork::from_bytes(&bad_layer).is_err());
}

#[test]
fn an_empty_network_round_trips_too() {
    let net = NuralNetwork::new(Vec::new(), 0.25f64.to_bits(), NuralNetworkLossKind::Mse);
    let back = NuralNetwork::from_bytes(&net.to_bytes()).unwrap();
    assert_eq!(back.learning_rate, 0.25f64.to_bits());
    assert_eq!(back.layers.len(), 0);
}
