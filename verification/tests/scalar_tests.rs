use perceptron::activation::Activation;
use perceptron::cost::Cost;
use perceptron::fx::{fx_add, fx_div, fx_exp, fx_ln, fx_mul, fx_sigmoid, fx_sub, fx_tanh, Fx};

const SCALE: f64 = 4294967296.0;

fn to_fx(x: f64) -> Fx {
    Fx::from_raw((x * SCALE).round() as i64)
}

fn to_f64(v: Fx) -> f64 {
    v.to_raw() as f64 / SCALE
}

#[test]
fn add_sub_mul_div_exact() {
    assert_eq!(fx_add(to_fx(1.5), to_fx(2.25)), to_fx(3.75));
    assert_eq!(fx_sub(to_fx(1.5), to_fx(2.25)), to_fx(-0.75));
    assert_eq!(fx_mul(to_fx(1.5), to_fx(2.0)), to_fx(3.0));
    assert_eq!(fx_mul(to_fx(-1.5), to_fx(2.0)), to_fx(-3.0));
    assert_eq!(fx_div(to_fx(3.0), to_fx(2.0)), to_fx(1.5));
    assert_eq!(fx_div(to_fx(-3.0), to_fx(2.0)), to_fx(-1.5));
}

#[test]
fn saturation_at_the_ends() {
    let top = Fx::from_raw(i64::MAX);
    assert_eq!(fx_add(top, Fx::one()).to_raw(), i64::MAX);
    let bottom = Fx::from_raw(i64::MIN);
    assert_eq!(fx_sub(bottom, Fx::one()).to_raw(), i64::MIN);
    assert_eq!(fx_div(Fx::one(), Fx::zero()).to_raw(), i64::MAX);
    assert_eq!(fx_div(to_fx(-1.0), Fx::zero()).to_raw(), i64::MIN);
    assert_eq!(fx_div(Fx::zero(), Fx::zero()).to_raw(), 0);
}

#[test]
fn exp_and_ln_reference_values() {
    assert_eq!(fx_exp(Fx::zero()), Fx::one());
    assert_eq!(fx_ln(Fx::one()).to_raw(), 0);
    assert!((to_f64(fx_exp(Fx::one())) - 1.0f64.exp()).abs() < 1e-8);
    assert!((to_f64(fx_exp(to_fx(-5.0))) - (-5.0f64).exp()).abs() < 1e-8);
    assert!((to_f64(fx_exp(to_fx(10.0))) - 10.0f64.exp()).abs() < 1e-3);
    assert!((to_f64(fx_ln(to_fx(2.0))) - 2.0f64.ln()).abs() < 1e-8);
    assert!((to_f64(fx_ln(to_fx(0.001))) - 0.001f64.ln()).abs() < 1e-7);
    assert!((to_f64(fx_ln(to_fx(1234.5))) - 1234.5f64.ln()).abs() < 1e-7);
    // ln saturates below zero instead of failing
    assert_eq!(fx_ln(Fx::zero()).to_raw(), i64::MIN);
    assert_eq!(fx_ln(to_fx(-1.0)).to_raw(), i64::MIN);
}

#[test]
fn sigmoid_and_tanh_reference_values() {
    assert_eq!(fx_sigmoid(Fx::zero()), to_fx(0.5));
    assert_eq!(fx_tanh(Fx::zero()).to_raw(), 0);
    assert!((to_f64(fx_sigmoid(to_fx(2.0))) - 1.0 / (1.0 + (-2.0f64).exp())).abs() < 1e-8);
    assert!((to_f64(fx_sigmoid(to_fx(-30.0))) - 0.0).abs() < 1e-8);
    assert!((to_f64(fx_tanh(to_fx(1.0))) - 1.0f64.tanh()).abs() < 1e-8);
    assert!((to_f64(fx_tanh(to_fx(-20.0))) + 1.0).abs() < 1e-8);
}

fn check_activation_derivative(a: Activation, x: f64, h: f64) {
    let f_plus = to_f64(a.calculate(to_fx(x + h)));
    let f_minus = to_f64(a.calculate(to_fx(x - h)));
    let estimate = (f_plus - f_minus) / (2.0 * h);
    let derivative = to_f64(a.calculate_derivative(to_fx(x)));
    assert!(
        (derivative - estimate).abs() < 1e-4,
        "{:?} at {}: derivative {} vs estimate {}",
        a,
        x,
        derivative,
        estimate
    );
}

#[test]
fn activation_derivatives_match_finite_differences() {
    let h = 0.0009765625; // 2^-10
    for a in [Activation::Sigmoid, Activation::Tanh, Activation::ReLU] {
        let mut i = 0;
        while i <= 79 {
            // samples across [-10, 10] that avoid the ReLU kink at zero
            let x = -9.875 + 0.25 * i as f64;
            check_activation_derivative(a, x, h);
            i += 1;
        }
    }
}

fn check_cost_derivative(c: Cost, target: f64, output: f64, h: f64) {
    let f_plus = to_f64(c.calculate_single(to_fx(target), to_fx(output + h)));
    let f_minus = to_f64(c.calculate_single(to_fx(target), to_fx(output - h)));
    let estimate = (f_plus - f_minus) / (2.0 * h);
    let derivative = to_f64(c.calculate_derivative(to_fx(target), to_fx(output)));
    assert!(
        (derivative - estimate).abs() < 1e-4,
        "{:?} at t={} o={}: derivative {} vs estimate {}",
        c,
        target,
        output,
        derivative,
        estimate
    );
}

#[test]
fn cost_derivatives_match_finite_differences() {
    let h = 0.00006103515625; // 2^-14
    for c in [Cost::MeanSquaredError, Cost::CrossEntropy] {
        for t in [0.0, 0.5, 1.0] {
            let mut o = 0.05;
            while o < 0.96 {
                check_cost_derivative(c, t, o, h);
                o += 0.05;
            }
        }
    }
}

#[test]
fn cost_reference_values() {
    // mean squared error: half of (target - output)^2, per element
    let mse = Cost::MeanSquaredError;
    assert_eq!(mse.calculate_single(to_fx(1.0), to_fx(0.5)), to_fx(0.125));
    assert_eq!(mse.calculate_derivative(to_fx(1.0), to_fx(0.5)), to_fx(-0.5));
    // cross entropy derivative: (o - t) / (o (1 - o))
    let ce = Cost::CrossEntropy;
    assert_eq!(ce.calculate_derivative(to_fx(0.0), to_fx(0.5)), to_fx(2.0));
    let expected = -(0.25f64.ln());
    assert!((to_f64(ce.calculate_single(to_fx(1.0), to_fx(0.25))) - expected).abs() < 1e-8);
    // the vector form is the sum of the single-pair costs
    let targets = vec![to_fx(1.0), to_fx(0.0)];
    let outputs = vec![to_fx(0.5), to_fx(0.25)];
    let whole = mse.calculate(&targets, &outputs);
    let parts = fx_add(
        mse.calculate_single(targets[0], outputs[0]),
        mse.calculate_single(targets[1], outputs[1]),
    );
    assert_eq!(whole, parts);
}

#[test]
fn relu_is_exact() {
    let relu = Activation::ReLU;
    assert_eq!(relu.calculate(to_fx(2.5)), to_fx(2.5));
    assert_eq!(relu.calculate(to_fx(-2.5)).to_raw(), 0);
    assert_eq!(relu.calculate_derivative(to_fx(2.5)), Fx::one());
    assert_eq!(relu.calculate_derivative(to_fx(-2.5)).to_raw(), 0);
    assert_eq!(relu.calculate_derivative(Fx::zero()).to_raw(), 0);
}
