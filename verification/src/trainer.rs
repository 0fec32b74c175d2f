//! Training support: per-layer scratch state for one forward/backward pass,
//! the dataset of input/target pairs, and the context that drives epochs of
//! stochastic gradient descent.

use crate::fx::{all_zero, copy_vec, vals, zeros, Fx};
use crate::layer::Layer;
use crate::network::{
    gradients_accumulated_s, gradients_applied_s, gradients_cleared_s, gradients_reset_s,
    pass_recorded_s, Network,
};
use crate::sampler::Sampler;
use vstd::prelude::*;

verus! {

/// Per-layer scratch state captured by a training forward pass and consumed
/// by the backward pass: the layer's input vector, the pre-activation sums,
/// the activated outputs, and the backpropagated error signal per output
/// node.
pub struct LayerData {
    pub inputs: Vec<Fx>,
    pub weighted_inputs: Vec<Fx>,
    pub activations: Vec<Fx>,
    pub node_values: Vec<Fx>,
}

impl LayerData {
    /// Fresh scratch state shaped for one layer: empty inputs and zeroed
    /// buffers of the layer's output width.
    pub fn new(layer: &Layer) -> (r: LayerData)
        ensures
            r.inputs@.len() == 0,
            r.weighted_inputs@.len() == layer.nodes_out,
            r.activations@.len() == layer.nodes_out,
            r.node_values@.len() == layer.nodes_out,
            all_zero(r.weighted_inputs@),
            all_zero(r.activations@),
            all_zero(r.node_values@),
    {
        LayerData {
            inputs: Vec::new(),
            weighted_inputs: zeros(layer.nodes_out),
            activations: zeros(layer.nodes_out),
            node_values: zeros(layer.nodes_out),
        }
    }
    /// A fresh copy of this scratch state.
    pub fn duplicate(&self) -> (r: LayerData)
        ensures
            r.inputs@ == self.inputs@,
            r.weighted_inputs@ == self.weighted_inputs@,
            r.activations@ == self.activations@,
            r.node_values@ == self.node_values@,
    {
        LayerData {
            inputs: copy_vec(&self.inputs),
            weighted_inputs: copy_vec(&self.weighted_inputs),
            activations: copy_vec(&self.activations),
            node_values: copy_vec(&self.node_values),
        }
    }
}

/// One training example: an input vector and its target vector.
pub struct DataPoint {
    pub inputs: Vec<Fx>,
    pub targets: Vec<Fx>,
}

impl DataPoint {
    /// A training example from its input and target vectors.
    pub fn new(inputs: Vec<Fx>, targets: Vec<Fx>) -> (r: DataPoint)
        ensures
            r.inputs@ == inputs@,
            r.targets@ == targets@,
    {
        DataPoint { inputs, targets }
    }

    /// A fresh copy of this example.
    pub fn duplicate(&self) -> (r: DataPoint)
        ensures
            r.inputs@ == self.inputs@,
            r.targets@ == self.targets@,
    {
        DataPoint { inputs: copy_vec(&self.inputs), targets: copy_vec(&self.targets) }
    }
}

/// An ordered collection of training examples, sampled from with
/// replacement during training.
pub struct DataSet {
    pub points: Vec<DataPoint>,
}

impl DataSet {
    /// Zips parallel input and target sequences into a dataset. The two
    /// sequences must have equal length.
    pub fn new(inputs: Vec<Vec<Fx>>, targets: Vec<Vec<Fx>>) -> (r: DataSet)
        requires
            inputs@.len() == targets@.len(),
        ensures
            r.points@.len() == inputs@.len(),
            forall|i: int|
                0 <= i < inputs@.len() ==> (#[trigger] r.points@[i]).inputs@ == inputs@[i]@
                    && r.points@[i].targets@ == targets@[i]@,
    {
        let mut points: Vec<DataPoint> = Vec::new();
        let mut i: usize = 0;
        while i < inputs.len()
            invariant
                inputs@.len() == targets@.len(),
                i <= inputs@.len(),
                points@.len() == i,
                forall|p: int|
                    0 <= p < i ==> (#[trigger] points@[p]).inputs@ == inputs@[p]@
                        && points@[p].targets@ == targets@[p]@,
            decreases inputs@.len() - i,
        {
            points.push(
                DataPoint { inputs: copy_vec(&inputs[i]), targets: copy_vec(&targets[i]) },
            );
            i = i + 1;
        }
        DataSet { points }
    }

    /// A uniformly sampled example. The dataset must not be empty.
    pub fn select_random<'a>(&'a self, sampler: &mut Sampler) -> (r: &'a DataPoint)
        requires
            self.points@.len() > 0,
        ensures
            exists|i: int| 0 <= i < self.points@.len() && *r == self.points@[i],
    {
        let index = sampler.next_index(self.points.len());
        &self.points[index]
    }
}

/// One stochastic-gradient-descent step on a layer sequence, for the
/// example with raw inputs `xs` and raw targets `ts` at raw learning rate
/// `lr`: one full forward/backward pass accumulates the gradients, they are
/// applied, and the accumulators are reset. The intermediate layer states
/// are existentially quantified; each stage is the exact relation that the
/// corresponding verified function ensures.
pub open spec fn sgd_step_s(gl: Seq<Layer>, xs: Seq<int>, ts: Seq<int>, lr: int, fl: Seq<
    Layer,
>) -> bool {
    exists|mid1: Seq<Layer>, mid2: Seq<Layer>|
        gradients_accumulated_s(gl, xs, ts, mid1) && #[trigger] gradients_applied_s(mid1, lr, mid2)
            && gradients_reset_s(mid2, fl)
}

/// A whole training run over `points` as a fold of single steps: `picks`
/// names the index sampled at each epoch, and `fl` is the layer sequence
/// after stepping once per pick, in order, starting from `gl`.
pub open spec fn sgd_trace_s(
    gl: Seq<Layer>,
    points: Seq<DataPoint>,
    picks: Seq<int>,
    lr: int,
    fl: Seq<Layer>,
) -> bool
    decreases picks.len(),
{
    if picks.len() == 0 {
        fl == gl
    } else {
        exists|mid: Seq<Layer>|
            #[trigger] sgd_step_s(
                gl,
                vals(points[picks[0]].inputs@),
                vals(points[picks[0]].targets@),
                lr,
                mid,
            ) && sgd_trace_s(mid, points, picks.drop_first(), lr, fl)
    }
}

/// Extending a training trace by one step at its end appends the step's
/// pick to the trace.
pub proof fn lemma_sgd_trace_snoc(
    gl: Seq<Layer>,
    points: Seq<DataPoint>,
    picks: Seq<int>,
    index: int,
    lr: int,
    cur: Seq<Layer>,
    next: Seq<Layer>,
)
    requires
        sgd_trace_s(gl, points, picks, lr, cur),
        0 <= index < points.len(),
        sgd_step_s(cur, vals(points[index].inputs@), vals(points[index].targets@), lr, next),
    ensures
        sgd_trace_s(gl, points, picks.push(index), lr, next),
    decreases picks.len(),
{
    let extended = picks.push(index);
    assert(extended[0] == if picks.len() == 0 {
        index
    } else {
        picks[0]
    });
    if picks.len() == 0 {
        assert(cur == gl);
        assert(extended.drop_first() =~= Seq::<int>::empty());
        assert(sgd_trace_s(next, points, extended.drop_first(), lr, next));
    } else {
        let mid = choose|mid: Seq<Layer>|
            #[trigger] sgd_step_s(
                gl,
                vals(points[picks[0]].inputs@),
                vals(points[picks[0]].targets@),
                lr,
                mid,
            ) && sgd_trace_s(mid, points, picks.drop_first(), lr, cur);
        lemma_sgd_trace_snoc(mid, points, picks.drop_first(), index, lr, cur, next);
        assert(extended.drop_first() =~= picks.drop_first().push(index));
        assert(sgd_step_s(
            gl,
            vals(points[extended[0]].inputs@),
            vals(points[extended[0]].targets@),
            lr,
            mid,
        ) && sgd_trace_s(mid, points, extended.drop_first(), lr, next));
    }
}

/// Drives epoch-based stochastic gradient descent: owns the network, one
/// scratch structure per layer, and the dataset.
pub struct TrainingContext {
    pub network: Network,
    pub layer_data: Vec<LayerData>,
    pub data: DataSet,
}

impl TrainingContext {
    /// Every example's widths agree with the network's input and output
    /// widths.
    pub open spec fn compatible(&self) -> bool {
        forall|i: int|
            0 <= i < self.data.points@.len() ==> (#[trigger] self.data.points@[i]).inputs@.len()
                == self.network.input_width() && self.data.points@[i].targets@.len()
                == self.network.output_width()
    }

    /// A context over a network and a dataset, with one scratch structure
    /// per layer, shaped from that layer.
    pub fn new(network: Network, data: DataSet) -> (r: TrainingContext)
        requires
            network.wf(),
        ensures
            r.network == network,
            r.data == data,
            r.layer_data@.len() == network.layers@.len(),
            forall|i: int|
                0 <= i < network.layers@.len() ==> (#[trigger] r.layer_data@[
                    i
                ]).weighted_inputs@.len() == network.layers@[i].nodes_out && r.layer_data@[
                    i
                ].activations@.len() == network.layers@[i].nodes_out && r.layer_data@[
                    i
                ].node_values@.len() == network.layers@[i].nodes_out && r.layer_data@[
                    i
                ].inputs@.len() == 0,
    {
        let mut layer_data: Vec<LayerData> = Vec::new();
        let mut i: usize = 0;
        while i < network.layers.len()
            invariant
                i <= network.layers@.len(),
                layer_data@.len() == i,
                forall|p: int|
                    0 <= p < i ==> (#[trigger] layer_data@[p]).weighted_inputs@.len()
                        == network.layers@[p].nodes_out && layer_data@[p].activations@.len()
                        == network.layers@[p].nodes_out && layer_data@[p].node_values@.len()
                        == network.layers@[p].nodes_out && layer_data@[p].inputs@.len() == 0,
            decreases network.layers@.len() - i,
        {
            layer_data.push(LayerData::new(&network.layers[i]));
            i = i + 1;
        }
        TrainingContext { network, layer_data, data }
    }

    /// One full forward and backward pass for a single example, accumulating
    /// every layer's gradients into the context's scratch state. Fails with
    /// `SizeMismatch`, touching nothing, exactly when the example's input
    /// width disagrees with the network's.
    #[verifier::rlimit(100)]
    #[verifier::spinoff_prover]
    pub fn update_gradients(&mut self, point: &DataPoint) -> (r: Result<
        (),
        crate::layer::LayerError,
    >)
        requires
            old(self).network.wf(),
            point.targets@.len() == old(self).network.output_width(),
        ensures
            final(self).data == old(self).data,
            final(self).network.layers@.len() == old(self).network.layers@.len(),
            match r {
                Ok(()) => {
                    &&& point.inputs@.len() == old(self).network.input_width()
                    &&& final(self).network.wf()
                    &&& gradients_accumulated_s(
                        old(self).network.layers@,
                        vals(point.inputs@),
                        vals(point.targets@),
                        final(self).network.layers@,
                    )
                    &&& pass_recorded_s(
                        old(self).network.layers@,
                        vals(point.inputs@),
                        vals(point.targets@),
                        final(self).layer_data@,
                    )
                },
                Err(e) => {
                    &&& point.inputs@.len() != old(self).network.input_width()
                    &&& e == crate::layer::LayerError::SizeMismatch(
                        point.inputs@.len() as usize,
                        old(self).network.layers@[0].nodes_in,
                    )
                    &&& *final(self) == *old(self)
                },
            },
    {
        self.network.update_all_gradients(&point.inputs, &point.targets, &mut self.layer_data)
    }

    /// Trains for the given number of epochs. Each epoch samples one example
    /// uniformly with replacement, runs one full forward and backward pass
    /// for it, and immediately applies the accumulated gradients scaled by
    /// the learning rate and resets the accumulators: plain per-example
    /// stochastic gradient descent. The dataset must be non-empty and every
    /// example must match the network's widths.
    ///
    /// Which examples are drawn is up to the sampler, so the contract
    /// quantifies over the draws: some sequence of `epochs` in-range indices
    /// exists whose fold of single SGD steps — accumulate, apply, reset,
    /// each the exact relation of the corresponding verified function —
    /// takes the old layers to the final ones. After at least one epoch
    /// every accumulator is zero, since each epoch ends with a reset.
    #[verifier::rlimit(100)]
    #[verifier::spinoff_prover]
    pub fn train(&mut self, epochs: u32, learning_rate: Fx, sampler: &mut Sampler)
        requires
            old(self).network.wf(),
            old(self).compatible(),
            old(self).data.points@.len() > 0,
        ensures
            final(self).network.wf(),
            final(self).compatible(),
            final(self).data == old(self).data,
            final(self).network.layers@.len() == old(self).network.layers@.len(),
            forall|k: int|
                0 <= k < old(self).network.layers@.len() ==> (#[trigger] final(self).network.layers@[k]).same_shape(&old(self).network.layers@[k]),
            epochs >= 1 ==> gradients_cleared_s(final(self).network.layers@),
            exists|picks: Seq<int>|
                picks.len() == epochs && (forall|q: int|
                    0 <= q < picks.len() ==> 0 <= #[trigger] picks[q] < old(
                        self,
                    ).data.points@.len()) && #[trigger] sgd_trace_s(
                    old(self).network.layers@,
                    old(self).data.points@,
                    picks,
                    learning_rate.raw as int,
                    final(self).network.layers@,
                ),
    {
        let ghost g0 = self.network.layers@;
        let ghost pts = self.data.points@;
        let ghost mut picks = Seq::<int>::empty();
        let mut e: u32 = 0;
        while e < epochs
            invariant
                e <= epochs,
                self.network.wf(),
                self.compatible(),
                self.data == old(self).data,
                self.data.points@ == pts,
                pts.len() > 0,
                g0 == old(self).network.layers@,
                self.network.layers@.len() == g0.len(),
                forall|k: int|
                    0 <= k < g0.len() ==> (#[trigger] self.network.layers@[k]).same_shape(&g0[k]),
                picks.len() == e as int,
                forall|q: int| 0 <= q < picks.len() ==> 0 <= #[trigger] picks[q] < pts.len(),
                sgd_trace_s(g0, pts, picks, learning_rate.raw as int, self.network.layers@),
                e >= 1 ==> gradients_cleared_s(self.network.layers@),
            decreases epochs - e,
        {
            let index = sampler.next_index(self.data.points.len());
            let point = self.data.points[index].duplicate();
            let ghost before = self.network.layers@;
            let r = self.network.update_all_gradients(
                &point.inputs,
                &point.targets,
                &mut self.layer_data,
            );
            let ghost mid1 = self.network.layers@;
            match r {
                Ok(()) => {},
                Err(_) => {
                    proof {
                        assert(false);
                    }
                },
            }
            self.network.apply_all_gradients(learning_rate);
            let ghost mid2 = self.network.layers@;
            self.network.reset_all_gradients();
            proof {
                let lr = learning_rate.raw as int;
                let xs = vals(pts[index as int].inputs@);
                let ts = vals(pts[index as int].targets@);
                assert(vals(point.inputs@) == xs);
                assert(vals(point.targets@) == ts);
                assert(gradients_accumulated_s(before, xs, ts, mid1));
                assert(gradients_applied_s(mid1, lr, mid2));
                assert(gradients_reset_s(mid2, self.network.layers@));
                assert(sgd_step_s(before, xs, ts, lr, self.network.layers@));
                lemma_sgd_trace_snoc(
                    g0,
                    pts,
                    picks,
                    index as int,
                    lr,
                    before,
                    self.network.layers@,
                );
                picks = picks.push(index as int);
            }
            e = e + 1;
        }
        proof {
            assert(sgd_trace_s(
                old(self).network.layers@,
                old(self).data.points@,
                picks,
                learning_rate.raw as int,
                self.network.layers@,
            ));
        }
    }
}

} // verus!
