use nural::loss_fns::{loss_dx, loss_fx, NuralNetworkLossKind};
use nural::softmax_layer::SoftmaxLayer;

fn bits(v: &[f64]) -> Vec<u64> {
    v.iter().map(|x| x.to_bits()).collect()
}

fn floats(v: &[u64]) -> Vec<f64> {
    v.iter().map(|b| f64::from_bits(*b)).collect()
}

#[test]
fn mse_of_a_vector_against_itself_is_zero() {
    for v in [
        vec![0.0, 1.0, -2.5],
        vec![3.25],
        vec![1e-8, 7.0, -0.125, 9.5],
    ] {
        let x = bits(&v);
        let fx = loss_fx(NuralNetworkLossKind::Mse, &x, &x);
        assert_eq!(f64::from_bits(fx), 0.0);
    }
}

#[test]
fn mse_gradient_of_a_vector_against_itself_is_the_zero_vector() {
    let x = bits(&[0.5, -1.5, 2.0]);
    let dx = loss_dx(NuralNetworkLossKind::Mse, &x, &x);
    for g in floats(&dx) {
        assert_eq!(g, 0.0);
    }
}

#[test]
fn mse_has_its_textbook_value() {
    // mean((actual - predicted)^2) over (1,2) vs (0,4): ((0-1)^2+(4-2)^2)/2
    let p = bits(&[1.0, 2.0]);
    let a = bits(&[0.0, 4.0]);
    let fx = loss_fx(NuralNetworkLossKind::Mse, &p, &a);
    assert_eq!(f64::from_bits(fx), 2.5);
    // gradient: 2 (p - a) / n
    let dx = loss_dx(NuralNetworkLossKind::Mse, &p, &a);
    assert_eq!(floats(&dx), vec![1.0, -2.0]);
}

#[test]
fn bce_is_nonnegative_for_predictions_inside_zero_one() {
    let targets = bits(&[1.0, 0.0, 1.0]);
    for preds in [
        vec![0.9, 0.1, 0.8],
        vec![0.5, 0.5, 0.5],
        vec![0.01, 0.99, 0.3],
        vec![0.9999, 0.0001, 0.6],
    ] {
        let p = bits(&preds);
        let fx = f64::from_bits(loss_fx(NuralNetworkLossKind::BinaryCrossEntropy, &p, &targets));
        assert!(fx >= 0.0, "loss {fx} for {preds:?}");
    }
}

#[test]
fn bce_gradient_matches_its_formula() {
    let p = bits(&[0.8, 0.3]);
    let a = bits(&[1.0, 0.0]);
    let dx = floats(&loss_dx(NuralNetworkLossKind::BinaryCrossEntropy, &p, &a));
    let want0 = ((1.0 - 1.0) / (1.0 - 0.8) - 1.0 / 0.8) / 2.0;
    let want1 = ((1.0 - 0.0) / (1.0 - 0.3) - 0.0 / 0.3) / 2.0;
    assert!((dx[0] - want0).abs() < 1e-12);
    assert!((dx[1] - want1).abs() < 1e-12);
}

#[test]
fn softmax_output_sums_to_one() {
    let layer = SoftmaxLayer::new();
    for v in [
        vec![0.0, 0.0],
        vec![1.0, 2.0, 3.0],
        vec![-5.0, 0.0, 5.0],
        vec![100.0, 100.5, 99.5],
        vec![0.25],
        vec![-700.0, 0.0, 700.0 / 2.0],
    ] {
        let out = floats(&layer.forward(&bits(&v)));
        let sum: f64 = out.iter().sum();
        assert!((sum - 1.0).abs() < 1e-9, "softmax({v:?}) sums to {sum}");
    }
}

#[test]
fn softmax_backward_applies_the_jacobian() {
    let mut layer = SoftmaxLayer::new();
    let input = bits(&[1.0, 2.0]);
    let out_bits = layer.forward(&input);
    let s = floats(&out_bits);
    let grad = bits(&[0.25, -0.75]);
    let got = floats(&layer.backward(&input, &out_bits, &grad, 0.0f64.to_bits()));
    // diag(s) - s s^T applied to the gradient
    let want0 = (s[0] - s[0] * s[0]) * 0.25 + (0.0 - s[0] * s[1]) * (-0.75);
    let want1 = (0.0 - s[1] * s[0]) * 0.25 + (s[1] - s[1] * s[1]) * (-0.75);
    assert!((got[0] - want0).abs() < 1e-12);
    assert!((got[1] - want1).abs() < 1e-12);
}
