use perceptron::fx::Fx;
use perceptron::network::Network;
use perceptron::sampler::Sampler;
use perceptron::trainer::{DataPoint, DataSet, TrainingContext};

const SCALE: f64 = 4294967296.0;

fn to_fx(x: f64) -> Fx {
    Fx::from_raw((x * SCALE).round() as i64)
}

fn to_f64(v: Fx) -> f64 {
    v.to_raw() as f64 / SCALE
}

fn sigmoid(x: f64) -> f64 {
    1.0 / (1.0 + (-x).exp())
}

#[test]
fn one_pass_matches_hand_computed_backpropagation() {
    let mut sampler = Sampler::from_seed(31);
    let sizes = vec![1usize, 1, 1];
    let network = Network::new(&sizes, &mut sampler);
    let data = DataSet::new(vec![vec![to_fx(0.8)]], vec![vec![to_fx(1.0)]]);
    let mut context = TrainingContext::new(network, data);

    // pin the parameters to known values
    let (w1, b1, w2, b2) = (0.5, 0.1, -0.7, 0.2);
    context.network.layers[0].weights[0][0] = to_fx(w1);
    context.network.layers[0].biases[0] = to_fx(b1);
    context.network.layers[1].weights[0][0] = to_fx(w2);
    context.network.layers[1].biases[0] = to_fx(b2);

    let (x, t) = (0.8, 1.0);
    let point = DataPoint::new(vec![to_fx(x)], vec![to_fx(t)]);
    context.update_gradients(&point).unwrap();

    // the textbook formulas for a 1-1-1 sigmoid network under the
    // half-squared-error cost
    let z1 = x * w1 + b1;
    let a1 = sigmoid(z1);
    let z2 = a1 * w2 + b2;
    let a2 = sigmoid(z2);
    let delta2 = (a2 - t) * a2 * (1.0 - a2);
    let delta1 = w2 * delta2 * a1 * (1.0 - a1);

    let tol = 1e-6;
    let first = &context.network.layers[0];
    let second = &context.network.layers[1];
    assert!((to_f64(second.cost_gradient_weights[0][0]) - a1 * delta2).abs() < tol);
    assert!((to_f64(second.cost_gradient_biases[0]) - delta2).abs() < tol);
    assert!((to_f64(first.cost_gradient_weights[0][0]) - x * delta1).abs() < tol);
    assert!((to_f64(first.cost_gradient_biases[0]) - delta1).abs() < tol);

    // the scratch state recorded the same pass
    assert!((to_f64(context.layer_data[0].weighted_inputs[0]) - z1).abs() < tol);
    assert!((to_f64(context.layer_data[0].activations[0]) - a1).abs() < tol);
    assert!((to_f64(context.layer_data[1].activations[0]) - a2).abs() < tol);
    assert!((to_f64(context.layer_data[1].node_values[0]) - delta2).abs() < tol);
    assert!((to_f64(context.layer_data[0].node_values[0]) - delta1).abs() < tol);
}

#[test]
fn structural_accessors_delimit_the_hidden_layers() {
    let mut sampler = Sampler::from_seed(32);
    let sizes = vec![2usize, 5, 4, 3];
    let network = Network::new(&sizes, &mut sampler);
    assert_eq!(network.get_input_layer().nodes_in, 2);
    assert_eq!(network.get_input_layer().nodes_out, 5);
    assert_eq!(network.get_output_layer().nodes_in, 4);
    assert_eq!(network.get_output_layer().nodes_out, 3);
    let hidden = network.get_hidden_layers();
    assert_eq!(hidden.len(), 1);
    assert_eq!(hidden[0].nodes_in, 5);
    assert_eq!(hidden[0].nodes_out, 4);

    let two = vec![3usize, 2];
    let mut sampler2 = Sampler::from_seed(33);
    let shallow = Network::new(&two, &mut sampler2);
    assert_eq!(shallow.layers.len(), 1);
}
