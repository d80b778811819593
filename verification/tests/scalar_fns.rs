use nural::activation_fns::{
    relu_dx_bits, relu_fx_bits, sigmoid_dx_bits, sigmoid_fx_bits, tanh_dx_bits, tanh_fx_bits,
};
use nural::scalar::{exp_bits, ln_bits, log10_bits};

fn close(a: f64, b: f64, tol: f64) -> bool {
    if b == 0.0 {
        a.abs() <= tol
    } else {
        ((a - b) / b).abs() <= tol
    }
}

#[test]
fn exp_matches_the_library_exponential() {
    for x in [0.0f64, 1.0, -1.0, 0.5, -0.5, 3.25, -3.25, 10.0, -10.0, 50.0, -50.0, 0.001] {
        let got = f64::from_bits(exp_bits(x.to_bits()));
        assert!(close(got, x.exp(), 1e-13), "exp({x}) gave {got}");
    }
}

#[test]
fn exp_saturates_far_out() {
    assert_eq!(f64::from_bits(exp_bits(1000.0f64.to_bits())), f64::INFINITY);
    assert_eq!(f64::from_bits(exp_bits((-1000.0f64).to_bits())), 0.0);
    assert!(f64::from_bits(exp_bits(f64::NAN.to_bits())).is_nan());
}

#[test]
fn exp_of_zero_is_exactly_one() {
    assert_eq!(f64::from_bits(exp_bits(0.0f64.to_bits())), 1.0);
    assert_eq!(f64::from_bits(exp_bits((-0.0f64).to_bits())), 1.0);
}

#[test]
fn ln_matches_the_library_logarithm() {
    for x in [1.0f64, 2.0, 0.5, 10.0, 0.1, 123.456, 1e-10, 1e10, 0.9999, 2.718281828459045] {
        let got = f64::from_bits(ln_bits(x.to_bits()));
        assert!(close(got, x.ln(), 1e-12), "ln({x}) gave {got} want {}", x.ln());
    }
    assert_eq!(f64::from_bits(ln_bits(0.0f64.to_bits())), f64::NEG_INFINITY);
    assert!(f64::from_bits(ln_bits((-1.0f64).to_bits())).is_nan());
    assert_eq!(f64::from_bits(ln_bits(f64::INFINITY.to_bits())), f64::INFINITY);
}

#[test]
fn log10_matches_the_library_logarithm() {
    for x in [1.0f64, 10.0, 100.0, 0.1, 3.5, 0.25] {
        let got = f64::from_bits(log10_bits(x.to_bits()));
        assert!(close(got, x.log10(), 1e-12), "log10({x}) gave {got}");
    }
}

#[test]
fn sigmoid_of_zero_is_exactly_half() {
    assert_eq!(f64::from_bits(sigmoid_fx_bits(0.0f64.to_bits())), 0.5);
}

#[test]
fn sigmoid_stays_strictly_inside_zero_one() {
    // Above roughly x = 36.7 the denominator 1 + exp(-x) rounds to exactly 1
    // in binary64 and the sigmoid saturates to 1.0, so the open interval
    // holds only below that rounding boundary.
    for x in [-700.0f64, -36.0, -5.0, -1.0, -1e-9, 0.0, 1e-9, 1.0, 5.0, 36.0] {
        let s = f64::from_bits(sigmoid_fx_bits(x.to_bits()));
        assert!(s > 0.0 && s < 1.0, "sigmoid({x}) = {s} left (0,1)");
    }
}

#[test]
fn sigmoid_matches_its_definition() {
    for x in [-3.0f64, -0.5, 0.25, 2.0, 7.5] {
        let s = f64::from_bits(sigmoid_fx_bits(x.to_bits()));
        assert!(close(s, 1.0 / (1.0 + (-x).exp()), 1e-12));
        let d = f64::from_bits(sigmoid_dx_bits(x.to_bits()));
        assert!(close(d, s * (1.0 - s), 1e-12));
    }
}

#[test]
fn tanh_of_zero_is_exactly_zero() {
    assert_eq!(f64::from_bits(tanh_fx_bits(0.0f64.to_bits())), 0.0);
}

#[test]
fn tanh_matches_the_library_tangent() {
    for x in [-5.0f64, -1.0, -0.25, 0.1, 0.5, 1.0, 3.0, 20.0] {
        let t = f64::from_bits(tanh_fx_bits(x.to_bits()));
        assert!(close(t, x.tanh(), 1e-11), "tanh({x}) gave {t}");
        let d = f64::from_bits(tanh_dx_bits(x.to_bits()));
        assert!(close(d, 1.0 - x.tanh() * x.tanh(), 1e-9));
    }
}

#[test]
fn relu_keeps_positives_and_zeroes_the_rest() {
    assert_eq!(f64::from_bits(relu_fx_bits((-5.0f64).to_bits())), 0.0);
    assert_eq!(f64::from_bits(relu_fx_bits(5.0f64.to_bits())), 5.0);
    assert_eq!(f64::from_bits(relu_fx_bits(0.0f64.to_bits())), 0.0);
    assert_eq!(f64::from_bits(relu_dx_bits(3.0f64.to_bits())), 1.0);
    assert_eq!(f64::from_bits(relu_dx_bits((-3.0f64).to_bits())), 0.0);
}
