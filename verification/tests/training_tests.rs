use perceptron::fx::Fx;
use perceptron::layer::LayerError;
use perceptron::network::Network;
use perceptron::sampler::Sampler;
use perceptron::trainer::{DataPoint, DataSet, TrainingContext};

const SCALE: f64 = 4294967296.0;

fn to_fx(x: f64) -> Fx {
    Fx::from_raw((x * SCALE).round() as i64)
}

fn to_f64(v: Fx) -> f64 {
    v.to_raw() as f64 / SCALE
}

fn xor_inputs() -> Vec<Vec<Fx>> {
    vec![
        vec![to_fx(0.0), to_fx(0.0)],
        vec![to_fx(0.0), to_fx(1.0)],
        vec![to_fx(1.0), to_fx(0.0)],
        vec![to_fx(1.0), to_fx(1.0)],
    ]
}

fn xor_targets() -> Vec<Vec<Fx>> {
    vec![
        vec![to_fx(0.0)],
        vec![to_fx(1.0)],
        vec![to_fx(1.0)],
        vec![to_fx(0.0)],
    ]
}

fn average_cost(context: &TrainingContext) -> f64 {
    let mut total = 0.0;
    for point in &context.data.points {
        let cost = context
            .network
            .calculate_cost(&point.inputs, &point.targets)
            .unwrap();
        total += to_f64(cost);
    }
    total / context.data.points.len() as f64
}

#[test]
fn dataset_zips_inputs_and_targets() {
    let data = DataSet::new(xor_inputs(), xor_targets());
    assert_eq!(data.points.len(), 4);
    assert_eq!(data.points[1].inputs, vec![to_fx(0.0), to_fx(1.0)]);
    assert_eq!(data.points[1].targets, vec![to_fx(1.0)]);
}

#[test]
fn select_random_returns_a_member() {
    let data = DataSet::new(xor_inputs(), xor_targets());
    let mut sampler = Sampler::from_seed(21);
    for _ in 0..20 {
        let point = data.select_random(&mut sampler);
        let found = data
            .points
            .iter()
            .any(|p| p.inputs == point.inputs && p.targets == point.targets);
        assert!(found);
    }
}

#[test]
fn data_point_holds_its_vectors() {
    let point = DataPoint::new(vec![to_fx(1.0)], vec![to_fx(0.5)]);
    assert_eq!(point.inputs, vec![to_fx(1.0)]);
    assert_eq!(point.targets, vec![to_fx(0.5)]);
}

#[test]
fn calculate_cost_propagates_size_mismatch() {
    let mut sampler = Sampler::from_seed(22);
    let sizes = vec![2usize, 1];
    let network = Network::new(&sizes, &mut sampler);
    let bad = vec![to_fx(0.5)];
    let targets = vec![to_fx(1.0)];
    match network.calculate_cost(&bad, &targets) {
        Ok(_) => panic!("a one-wide input must not pass a two-wide layer"),
        Err(e) => assert_eq!(e, LayerError::SizeMismatch(1, 2)),
    }
}

#[test]
fn one_training_pass_accumulates_gradients() {
    let mut sampler = Sampler::from_seed(23);
    let sizes = vec![2usize, 2, 1];
    let network = Network::new(&sizes, &mut sampler);
    let data = DataSet::new(xor_inputs(), xor_targets());
    let mut context = TrainingContext::new(network, data);
    let point = DataPoint::new(vec![to_fx(1.0), to_fx(0.0)], vec![to_fx(1.0)]);
    context.update_gradients(&point).unwrap();
    let any_nonzero = context.network.layers.iter().any(|l| {
        l.cost_gradient_weights
            .iter()
            .any(|row| row.iter().any(|g| g.to_raw() != 0))
    });
    assert!(any_nonzero);
    // the scratch state recorded the pass
    assert_eq!(context.layer_data.len(), 2);
    assert_eq!(context.layer_data[0].inputs, point.inputs);
    assert_eq!(context.layer_data[1].node_values.len(), 1);
}

#[test]
fn training_lowers_the_cost_on_one_point() {
    let mut sampler = Sampler::from_seed(24);
    let sizes = vec![2usize, 2, 1];
    let network = Network::new(&sizes, &mut sampler);
    let data = DataSet::new(
        vec![vec![to_fx(1.0), to_fx(0.0)]],
        vec![vec![to_fx(1.0)]],
    );
    let mut context = TrainingContext::new(network, data);
    let before = average_cost(&context);
    context.train(200, to_fx(1.0), &mut sampler);
    let after = average_cost(&context);
    assert!(after < before, "cost went from {} to {}", before, after);
    assert!(after < 0.01);
}

#[test]
fn train_leaves_accumulators_zero() {
    let mut sampler = Sampler::from_seed(25);
    let sizes = vec![2usize, 3, 1];
    let network = Network::new(&sizes, &mut sampler);
    let data = DataSet::new(xor_inputs(), xor_targets());
    let mut context = TrainingContext::new(network, data);
    context.train(3, to_fx(1.0), &mut sampler);
    for layer in &context.network.layers {
        for row in &layer.cost_gradient_weights {
            for g in row {
                assert_eq!(g.to_raw(), 0);
            }
        }
        for g in &layer.cost_gradient_biases {
            assert_eq!(g.to_raw(), 0);
        }
    }
}

#[test]
fn xor_training_converges() {
    let mut sampler = Sampler::from_seed(11);
    let sizes = vec![2usize, 3, 1];
    let network = Network::new(&sizes, &mut sampler);
    let data = DataSet::new(xor_inputs(), xor_targets());
    let mut context = TrainingContext::new(network, data);
    let mut costs: Vec<f64> = Vec::new();
    costs.push(average_cost(&context));
    for _ in 0..100 {
        context.train(100, to_fx(3.0), &mut sampler);
        costs.push(average_cost(&context));
    }
    let last = costs[costs.len() - 1];
    assert!(last < 0.05, "final average cost {}", last);
    for c in 1..costs.len() {
        assert!(
            costs[c] <= costs[c - 1] + 0.01,
            "cost rose from {} to {} at checkpoint {}",
            costs[c - 1],
            costs[c],
            c
        );
    }
}
