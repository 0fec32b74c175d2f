use perceptron::fx::Fx;
use perceptron::layer::{Layer, LayerError};
use perceptron::network::Network;
use perceptron::sampler::Sampler;
use perceptron::trainer::LayerData;

const SCALE: f64 = 4294967296.0;

fn to_fx(x: f64) -> Fx {
    Fx::from_raw((x * SCALE).round() as i64)
}

#[test]
fn network_shapes_follow_topology() {
    let mut sampler = Sampler::from_seed(1);
    let sizes = vec![4usize, 3, 2];
    let network = Network::new(&sizes, &mut sampler);
    assert_eq!(network.layers.len(), 2);
    assert_eq!(network.layers[0].nodes_in, 4);
    assert_eq!(network.layers[0].nodes_out, 3);
    assert_eq!(network.layers[1].nodes_in, 3);
    assert_eq!(network.layers[1].nodes_out, 2);
    assert_eq!(network.layers[0].weights.len(), 3);
    assert_eq!(network.layers[0].weights[0].len(), 4);
}

#[test]
fn initial_weights_lie_in_the_unit_range() {
    let mut sampler = Sampler::from_seed(2);
    let layer = Layer::new(5, 4, &mut sampler);
    let unit = 4294967296i64;
    for row in &layer.weights {
        for w in row {
            assert!(-unit <= w.to_raw() && w.to_raw() < unit);
        }
    }
    for b in &layer.biases {
        assert!(-unit <= b.to_raw() && b.to_raw() < unit);
    }
    for row in &layer.cost_gradient_weights {
        for g in row {
            assert_eq!(g.to_raw(), 0);
        }
    }
}

#[test]
fn same_seed_reproduces_the_network_and_seeds_differ() {
    let mut s1 = Sampler::from_seed(77);
    let mut s2 = Sampler::from_seed(77);
    let a = Layer::new(3, 3, &mut s1);
    let b = Layer::new(3, 3, &mut s2);
    assert_eq!(a.weights, b.weights);
    assert_eq!(a.biases, b.biases);
    let mut s3 = Sampler::from_seed(78);
    let c = Layer::new(3, 3, &mut s3);
    assert!(a.weights != c.weights || a.biases != c.biases);
}

#[test]
fn size_mismatch_carries_actual_and_expected() {
    let mut sampler = Sampler::from_seed(3);
    let sizes = vec![3usize, 2];
    let network = Network::new(&sizes, &mut sampler);
    let short = vec![to_fx(0.5), to_fx(0.5)];
    match network.calculate_outputs(&short) {
        Ok(_) => panic!("a two-wide input must not pass a three-wide layer"),
        Err(e) => assert_eq!(e, LayerError::SizeMismatch(2, 3)),
    }
    let long = vec![to_fx(0.1), to_fx(0.2), to_fx(0.3), to_fx(0.4)];
    match network.calculate_outputs(&long) {
        Ok(_) => panic!("a four-wide input must not pass a three-wide layer"),
        Err(e) => assert_eq!(e, LayerError::SizeMismatch(4, 3)),
    }
    let exact = vec![to_fx(0.1), to_fx(0.2), to_fx(0.3)];
    assert!(network.calculate_outputs(&exact).is_ok());
}

#[test]
fn single_layer_network_equals_its_layer() {
    let mut sampler = Sampler::from_seed(4);
    let sizes = vec![4usize, 3];
    let network = Network::new(&sizes, &mut sampler);
    let inputs = vec![to_fx(0.25), to_fx(-0.5), to_fx(0.75), to_fx(1.0)];
    let from_network = network.calculate_outputs(&inputs).unwrap();
    let from_layer = network.layers[0].calculate_outputs(&inputs).unwrap();
    assert_eq!(from_network, from_layer);
}

#[test]
fn training_outputs_agree_with_inference() {
    let mut sampler = Sampler::from_seed(5);
    let layer = Layer::new(3, 2, &mut sampler);
    let inputs = vec![to_fx(0.3), to_fx(-0.2), to_fx(0.9)];
    let mut data = LayerData::new(&layer);
    let trained = layer.calculate_training_outputs(&inputs, &mut data);
    let inferred = layer.calculate_outputs(&inputs).unwrap();
    assert_eq!(trained, inferred);
    assert_eq!(data.activations, inferred);
    assert_eq!(data.inputs, inputs);
    assert_eq!(data.weighted_inputs.len(), 2);
}

#[test]
fn gradient_accumulation_doubles_without_reset() {
    let mut s1 = Sampler::from_seed(6);
    let mut s2 = Sampler::from_seed(6);
    let mut once = Layer::new(2, 2, &mut s1);
    let mut twice = Layer::new(2, 2, &mut s2);
    let data = LayerData {
        inputs: vec![to_fx(0.5), to_fx(-0.25)],
        weighted_inputs: vec![to_fx(0.1), to_fx(0.2)],
        activations: vec![to_fx(0.5), to_fx(0.6)],
        node_values: vec![to_fx(0.125), to_fx(-0.375)],
    };
    once.update_gradients(&data);
    twice.update_gradients(&data);
    twice.update_gradients(&data);
    for i in 0..2 {
        for j in 0..2 {
            assert_eq!(
                twice.cost_gradient_weights[i][j].to_raw(),
                2 * once.cost_gradient_weights[i][j].to_raw()
            );
        }
        assert_eq!(
            twice.cost_gradient_biases[i].to_raw(),
            2 * once.cost_gradient_biases[i].to_raw()
        );
    }
}

#[test]
fn apply_after_reset_is_a_noop() {
    let mut sampler = Sampler::from_seed(7);
    let mut layer = Layer::new(2, 2, &mut sampler);
    let data = LayerData {
        inputs: vec![to_fx(0.5), to_fx(-0.25)],
        weighted_inputs: vec![to_fx(0.1), to_fx(0.2)],
        activations: vec![to_fx(0.5), to_fx(0.6)],
        node_values: vec![to_fx(0.125), to_fx(-0.375)],
    };
    layer.update_gradients(&data);
    layer.apply_gradients(to_fx(0.5));
    layer.reset_gradients();
    let weights_before = layer.weights.clone();
    let biases_before = layer.biases.clone();
    layer.apply_gradients(to_fx(0.5));
    assert_eq!(layer.weights, weights_before);
    assert_eq!(layer.biases, biases_before);
}

#[test]
fn apply_gradients_moves_against_the_accumulator() {
    let mut sampler = Sampler::from_seed(8);
    let mut layer = Layer::new(1, 1, &mut sampler);
    let w0 = layer.weights[0][0].to_raw();
    let b0 = layer.biases[0].to_raw();
    let data = LayerData {
        inputs: vec![to_fx(1.0)],
        weighted_inputs: vec![to_fx(0.0)],
        activations: vec![to_fx(0.5)],
        node_values: vec![to_fx(0.5)],
    };
    layer.update_gradients(&data);
    layer.apply_gradients(to_fx(1.0));
    // gradient contribution is 1.0 * 0.5; the update subtracts it
    assert_eq!(layer.weights[0][0].to_raw(), w0 - to_fx(0.5).to_raw());
    assert_eq!(layer.biases[0].to_raw(), b0 - to_fx(0.5).to_raw());
}
