//! A feedforward network: an ordered sequence of layers with matching
//! widths, forward composition, cost evaluation, and the orchestration of
//! one full forward/backward gradient pass.

use crate::activation::{act_deriv_s, Activation};
use crate::cost::{cost_sum_s, Cost};
use crate::fx::{all_zero, copy_vec, fx_add_s, fx_mul_s, fx_sub_s, vals, Fx};
use crate::layer::{
    all_unit, all_unit_rows, all_zero_rows, back_dot_s, out_delta_s, Layer, LayerError,
};
use crate::sampler::Sampler;
use crate::trainer::LayerData;
use vstd::prelude::*;

verus! {

/// A feedforward network. Layer 0 is closest to the input; adjacent layers
/// agree on their shared width.
pub struct Network {
    pub layers: Vec<Layer>,
}

/// The composition of the layers' forward passes: the outputs of feeding
/// `xs` through each layer of `layers` in order.
pub open spec fn net_outputs_s(layers: Seq<Layer>, xs: Seq<int>) -> Seq<int>
    decreases layers.len(),
{
    if layers.len() == 0 {
        xs
    } else {
        net_outputs_s(layers.drop_first(), layers[0].outputs_s(xs))
    }
}

/// Feeding a vector through a chain extended by one layer feeds the chain's
/// result through that layer.
pub proof fn lemma_net_snoc(layers: Seq<Layer>, l: Layer, xs: Seq<int>)
    ensures
        net_outputs_s(layers.push(l), xs) == l.outputs_s(net_outputs_s(layers, xs)),
    decreases layers.len(),
{
    let s = layers.push(l);
    if layers.len() == 0 {
        assert(s[0] == l);
        assert(s.drop_first() =~= Seq::<Layer>::empty());
        assert(net_outputs_s(s, xs) == net_outputs_s(s.drop_first(), s[0].outputs_s(xs)));
        assert(net_outputs_s(s.drop_first(), l.outputs_s(xs)) == l.outputs_s(xs));
        assert(net_outputs_s(layers, xs) == xs);
    } else {
        assert(s[0] == layers[0]);
        assert(s.drop_first() =~= layers.drop_first().push(l));
        assert(net_outputs_s(s, xs) == net_outputs_s(s.drop_first(), s[0].outputs_s(xs)));
        lemma_net_snoc(layers.drop_first(), l, layers[0].outputs_s(xs));
        assert(net_outputs_s(layers, xs) == net_outputs_s(
            layers.drop_first(),
            layers[0].outputs_s(xs),
        ));
    }
}

/// Single-layer network law: a network whose topology has no hidden layer
/// computes exactly what its one layer computes; its forward pass coincides
/// with the layer's own on every input.
pub proof fn lemma_single_layer_network(n: Network, xs: Seq<int>)
    requires
        n.layers@.len() == 1,
    ensures
        net_outputs_s(n.layers@, xs) == n.layers@[0].outputs_s(xs),
{
    assert(n.layers@.drop_first() =~= Seq::<Layer>::empty());
    assert(net_outputs_s(n.layers@, xs) == net_outputs_s(
        n.layers@.drop_first(),
        n.layers@[0].outputs_s(xs),
    ));
}

/// The vector entering layer `k`: the inputs fed through the first `k`
/// layers.
pub open spec fn acts_into(layers: Seq<Layer>, xs: Seq<int>, k: int) -> Seq<int> {
    net_outputs_s(layers.subrange(0, k), xs)
}

/// The pre-activation sums of layer `k` during a pass on `xs`.
pub open spec fn zs_at(layers: Seq<Layer>, xs: Seq<int>, k: int) -> Seq<int> {
    Seq::new(layers[k].nodes_out as nat, |i: int| layers[k].z_s(acts_into(layers, xs, k), i))
}

/// The backpropagated error signal of layer `k` during a pass on `xs` with
/// targets `ts`: the output layer combines the cost and activation
/// derivatives; every earlier layer folds the next layer's weights against
/// the next layer's signal.
pub open spec fn delta_s(layers: Seq<Layer>, xs: Seq<int>, ts: Seq<int>, k: int) -> Seq<int>
    decreases layers.len() - k,
{
    if k >= layers.len() - 1 {
        Seq::new(
            layers[k].nodes_out as nat,
            |i: int|
                out_delta_s(
                    layers[k],
                    ts[i],
                    acts_into(layers, xs, k + 1)[i],
                    zs_at(layers, xs, k)[i],
                ),
        )
    } else {
        Seq::new(
            layers[k].nodes_out as nat,
            |i: int|
                fx_mul_s(
                    back_dot_s(
                        layers[k + 1],
                        delta_s(layers, xs, ts, k + 1),
                        i,
                        layers[k + 1].nodes_out as nat,
                    ),
                    act_deriv_s(layers[k].activation, zs_at(layers, xs, k)[i]),
                ),
        )
    }
}

/// One layer's scratch state records a pass on `xs` correctly at position
/// `k`: its inputs are the vector entering layer `k`, its weighted inputs
/// the layer's pre-activation sums, and its activations the vector leaving
/// the layer.
pub open spec fn captured_s(layers: Seq<Layer>, xs: Seq<int>, d: LayerData, k: int) -> bool {
    &&& d.inputs@.len() == layers[k].nodes_in
    &&& vals(d.inputs@) == acts_into(layers, xs, k)
    &&& d.weighted_inputs@.len() == layers[k].nodes_out
    &&& forall|i: int|
        0 <= i < layers[k].nodes_out ==> (#[trigger] d.weighted_inputs@[i]).raw == zs_at(
            layers,
            xs,
            k,
        )[i]
    &&& d.activations@.len() == layers[k].nodes_out
    &&& vals(d.activations@) == acts_into(layers, xs, k + 1)
}

/// The layers of `fl` are those of `gl` after one accumulation of the pass
/// on `xs` with targets `ts`: parameters untouched, every gradient
/// accumulator grown by its contribution.
pub open spec fn gradients_accumulated_s(
    gl: Seq<Layer>,
    xs: Seq<int>,
    ts: Seq<int>,
    fl: Seq<Layer>,
) -> bool {
    &&& fl.len() == gl.len()
    &&& forall|k: int| 0 <= k < gl.len() ==> (#[trigger] fl[k]).same_parameters(&gl[k])
    &&& forall|k: int, i: int, j: int|
        0 <= k < gl.len() && 0 <= i < gl[k].nodes_out && 0 <= j < gl[k].nodes_in ==> (#[trigger] fl[
            k
        ].cost_gradient_weights@[i]@[j]).raw == fx_add_s(
            gl[k].cost_gradient_weights@[i]@[j].raw as int,
            fx_mul_s(acts_into(gl, xs, k)[j], delta_s(gl, xs, ts, k)[i]),
        )
    &&& forall|k: int, i: int|
        0 <= k < gl.len() && 0 <= i < gl[k].nodes_out ==> (#[trigger] fl[k].cost_gradient_biases@[
            i
        ]).raw == fx_add_s(
            gl[k].cost_gradient_biases@[i].raw as int,
            delta_s(gl, xs, ts, k)[i],
        )
}

/// The layers of `fl` are those of `gl` after one application of the
/// accumulated gradients scaled by the raw learning rate `lr`: shapes and
/// accumulators untouched, every weight and bias moved against its
/// accumulator.
pub open spec fn gradients_applied_s(gl: Seq<Layer>, lr: int, fl: Seq<Layer>) -> bool {
    &&& fl.len() == gl.len()
    &&& forall|k: int|
        0 <= k < gl.len() ==> (#[trigger] fl[k]).same_shape(&gl[k]) && fl[
            k
        ].cost_gradient_weights@ == gl[k].cost_gradient_weights@ && fl[k].cost_gradient_biases@
            == gl[k].cost_gradient_biases@
    &&& forall|k: int, i: int, j: int|
        0 <= k < gl.len() && 0 <= i < gl[k].nodes_out && 0 <= j < gl[k].nodes_in ==> (#[trigger] fl[
            k
        ].weights@[i]@[j]).raw == fx_sub_s(
            gl[k].weights@[i]@[j].raw as int,
            fx_mul_s(lr, gl[k].cost_gradient_weights@[i]@[j].raw as int),
        )
    &&& forall|k: int, i: int|
        0 <= k < gl.len() && 0 <= i < gl[k].nodes_out ==> (#[trigger] fl[k].biases@[i]).raw
            == fx_sub_s(
            gl[k].biases@[i].raw as int,
            fx_mul_s(lr, gl[k].cost_gradient_biases@[i].raw as int),
        )
}

/// Every layer's gradient accumulators consist only of zero scalars.
pub open spec fn gradients_cleared_s(fl: Seq<Layer>) -> bool {
    forall|k: int|
        0 <= k < fl.len() ==> all_zero_rows((#[trigger] fl[k]).cost_gradient_weights@) && all_zero(
            fl[k].cost_gradient_biases@,
        )
}

/// The layers of `fl` are those of `gl` after a reset of the accumulators:
/// parameters untouched, every accumulator zero.
pub open spec fn gradients_reset_s(gl: Seq<Layer>, fl: Seq<Layer>) -> bool {
    &&& fl.len() == gl.len()
    &&& forall|k: int| 0 <= k < gl.len() ==> (#[trigger] fl[k]).same_parameters(&gl[k])
    &&& gradients_cleared_s(fl)
}

/// The scratch sequence `sc` records the pass on `xs` with targets `ts`:
/// one entry per layer, each capturing its forward state and holding its
/// backpropagated error signal.
pub open spec fn pass_recorded_s(gl: Seq<Layer>, xs: Seq<int>, ts: Seq<int>, sc: Seq<
    LayerData,
>) -> bool {
    &&& sc.len() == gl.len()
    &&& forall|k: int| 0 <= k < gl.len() ==> captured_s(gl, xs, #[trigger] sc[k], k)
    &&& forall|k: int|
        0 <= k < gl.len() ==> vals((#[trigger] sc[k]).node_values@) == delta_s(gl, xs, ts, k)
}

impl Network {
    /// Shape well-formedness: at least one layer, every layer well-formed,
    /// and adjacent widths agreeing.
    pub open spec fn wf(&self) -> bool {
        &&& self.layers@.len() >= 1
        &&& forall|i: int| 0 <= i < self.layers@.len() ==> (#[trigger] self.layers@[i]).wf()
        &&& forall|i: int|
            0 < i < self.layers@.len() ==> (#[trigger] self.layers@[i]).nodes_in
                == self.layers@[i - 1].nodes_out
    }

    /// The width of the input the network expects.
    pub open spec fn input_width(&self) -> int {
        self.layers@[0].nodes_in as int
    }

    /// The width of the network's output.
    pub open spec fn output_width(&self) -> int {
        self.layers@[self.layers@.len() - 1].nodes_out as int
    }

    /// Builds a network from a topology: one layer per adjacent pair of
    /// widths, freshly initialised from the injected sampler.
    pub fn new(layer_sizes: &Vec<usize>, sampler: &mut Sampler) -> (r: Network)
        requires
            layer_sizes@.len() >= 2,
            forall|i: int| 0 <= i < layer_sizes@.len() ==> #[trigger] layer_sizes@[i] >= 1,
        ensures
            r.wf(),
            r.layers@.len() == layer_sizes@.len() - 1,
            forall|i: int|
                0 <= i < r.layers@.len() ==> (#[trigger] r.layers@[i]).nodes_in == layer_sizes@[i]
                    && r.layers@[i].nodes_out == layer_sizes@[i + 1],
            forall|i: int|
                0 <= i < r.layers@.len() ==> all_unit_rows((#[trigger] r.layers@[i]).weights@)
                    && all_unit(r.layers@[i].biases@) && all_zero_rows(
                    r.layers@[i].cost_gradient_weights@,
                ) && all_zero(r.layers@[i].cost_gradient_biases@) && r.layers@[i].activation
                    == Activation::Sigmoid && r.layers@[i].cost == Cost::MeanSquaredError,
    {
        let mut layers: Vec<Layer> = Vec::new();
        let mut i: usize = 0;
        while i < layer_sizes.len() - 1
            invariant
                layer_sizes@.len() >= 2,
                i <= layer_sizes@.len() - 1,
                layers@.len() == i,
                forall|p: int|
                    0 <= p < i ==> (#[trigger] layers@[p]).nodes_in == layer_sizes@[p]
                        && layers@[p].nodes_out == layer_sizes@[p + 1],
                forall|p: int| 0 <= p < i ==> (#[trigger] layers@[p]).wf(),
                forall|p: int|
                    0 <= p < i ==> all_unit_rows((#[trigger] layers@[p]).weights@) && all_unit(
                        layers@[p].biases@,
                    ) && all_zero_rows(layers@[p].cost_gradient_weights@) && all_zero(
                        layers@[p].cost_gradient_biases@,
                    ) && layers@[p].activation == Activation::Sigmoid && layers@[p].cost
                        == Cost::MeanSquaredError,
            decreases layer_sizes@.len() - i,
        {
            layers.push(Layer::new(layer_sizes[i], layer_sizes[i + 1], sampler));
            i = i + 1;
        }
        Network { layers }
    }

    /// The inference forward pass: the inputs folded through every layer in
    /// order. Fails with the first layer's `SizeMismatch` when the input
    /// width disagrees with the network's input width, and only then.
    pub fn calculate_outputs(&self, inputs: &Vec<Fx>) -> (r: Result<Vec<Fx>, LayerError>)
        requires
            self.wf(),
        ensures
            match r {
                Ok(out) => inputs@.len() == self.input_width() && out@.len()
                    == self.output_width() && vals(out@) == net_outputs_s(
                    self.layers@,
                    vals(inputs@),
                ),
                Err(e) => inputs@.len() != self.input_width() && e == LayerError::SizeMismatch(
                    inputs@.len() as usize,
                    self.layers@[0].nodes_in,
                ),
            },
    {
        let n = self.layers.len();
        let mut outputs = copy_vec(inputs);
        proof {
            assert(self.layers@.subrange(0, 0) =~= Seq::<Layer>::empty());
        }
        let mut k: usize = 0;
        while k < n
            invariant
                self.wf(),
                n == self.layers@.len(),
                k <= n,
                k > 0 ==> inputs@.len() == self.input_width(),
                k > 0 ==> outputs@.len() == self.layers@[k - 1].nodes_out,
                k == 0 ==> outputs@ == inputs@,
                vals(outputs@) == acts_into(self.layers@, vals(inputs@), k as int),
            decreases n - k,
        {
            let r = self.layers[k].calculate_outputs(&outputs);
            match r {
                Ok(next) => {
                    proof {
                        assert(self.layers@.subrange(0, k + 1) =~= self.layers@.subrange(
                            0,
                            k as int,
                        ).push(self.layers@[k as int]));
                        lemma_net_snoc(
                            self.layers@.subrange(0, k as int),
                            self.layers@[k as int],
                            vals(inputs@),
                        );
                        assert(vals(next@).len() == self.layers@[k as int].nodes_out);
                    }
                    outputs = next;
                },
                Err(e) => {
                    proof {
                        if k > 0 {
                            assert(outputs@.len() == self.layers@[k as int].nodes_in);
                            assert(false);
                        }
                    }
                    return Err(e);
                },
            }
            k = k + 1;
        }
        proof {
            assert(self.layers@.subrange(0, n as int) =~= self.layers@);
        }
        Ok(outputs)
    }

    /// The total cost of one input/target pair: the outputs of a forward
    /// pass scored against the targets by the output layer's cost function.
    /// Propagates the forward pass's `SizeMismatch`.
    pub fn calculate_cost(&self, inputs: &Vec<Fx>, targets: &Vec<Fx>) -> (r: Result<
        Fx,
        LayerError,
    >)
        requires
            self.wf(),
            targets@.len() == self.output_width(),
        ensures
            match r {
                Ok(c) => inputs@.len() == self.input_width() && c.raw == cost_sum_s(
                    self.layers@[self.layers@.len() - 1].cost,
                    vals(targets@),
                    net_outputs_s(self.layers@, vals(inputs@)),
                    targets@.len() as nat,
                ),
                Err(e) => inputs@.len() != self.input_width() && e == LayerError::SizeMismatch(
                    inputs@.len() as usize,
                    self.layers@[0].nodes_in,
                ),
            },
    {
        let outputs = match self.calculate_outputs(inputs) {
            Ok(out) => out,
            Err(e) => {
                return Err(e);
            },
        };
        let output_layer = &self.layers[self.layers.len() - 1];
        proof {
            assert(outputs@.len() == vals(outputs@).len());
            assert(vals(outputs@).len() == net_outputs_s(self.layers@, vals(inputs@)).len());
        }
        Ok(output_layer.cost.calculate(targets, &outputs))
    }

    /// One full forward and backward pass for a single input/target pair.
    /// The forward pass is captured per layer into `scratch`; the error
    /// signal is computed at the output layer from the cost and activation
    /// derivatives and propagated backward through every hidden layer using
    /// the following layer's weights; then every layer accumulates its
    /// gradient contributions. Weights and biases themselves do not move.
    /// Fails with `SizeMismatch`, touching nothing, exactly when the input
    /// width disagrees with the network's input width.
    #[verifier::rlimit(100)]
    #[verifier::spinoff_prover]
    pub fn update_all_gradients(
        &mut self,
        inputs: &Vec<Fx>,
        targets: &Vec<Fx>,
        scratch: &mut Vec<LayerData>,
    ) -> (r: Result<(), LayerError>)
        requires
            old(self).wf(),
            targets@.len() == old(self).output_width(),
        ensures
            match r {
                Ok(()) => {
                    &&& inputs@.len() == old(self).input_width()
                    &&& final(self).wf()
                    &&& gradients_accumulated_s(
                        old(self).layers@,
                        vals(inputs@),
                        vals(targets@),
                        final(self).layers@,
                    )
                    &&& pass_recorded_s(
                        old(self).layers@,
                        vals(inputs@),
                        vals(targets@),
                        final(scratch)@,
                    )
                },
                Err(e) => {
                    &&& inputs@.len() != old(self).input_width()
                    &&& e == LayerError::SizeMismatch(
                        inputs@.len() as usize,
                        old(self).layers@[0].nodes_in,
                    )
                    &&& *final(self) == *old(self)
                    &&& *final(scratch) == *old(scratch)
                },
            },
    {
        if inputs.len() != self.layers[0].nodes_in {
            return Err(LayerError::SizeMismatch(inputs.len(), self.layers[0].nodes_in));
        }
        let ghost gl = self.layers@;
        let ghost xs = vals(inputs@);
        let ghost ts = vals(targets@);
        let n = self.layers.len();
        let mut datas: Vec<LayerData> = Vec::new();
        let mut x = copy_vec(inputs);
        proof {
            assert(gl.subrange(0, 0) =~= Seq::<Layer>::empty());
        }
        let mut k: usize = 0;
        while k < n
            invariant
                self.wf(),
                self.layers@ == gl,
                n == gl.len(),
                inputs@.len() == gl[0].nodes_in,
                xs == vals(inputs@),
                k <= n,
                datas@.len() == k,
                x@.len() == (if k < n {
                    gl[k as int].nodes_in as int
                } else {
                    gl[n - 1].nodes_out as int
                }),
                vals(x@) == acts_into(gl, xs, k as int),
                forall|p: int| 0 <= p < k ==> captured_s(gl, xs, #[trigger] datas@[p], p),
                forall|p: int| 0 <= p < k ==> (#[trigger] datas@[p]).node_values@.len() == 0,
            decreases n - k,
        {
            let mut ld = LayerData {
                inputs: Vec::new(),
                weighted_inputs: Vec::new(),
                activations: Vec::new(),
                node_values: Vec::new(),
            };
            let out = self.layers[k].calculate_training_outputs(&x, &mut ld);
            proof {
                assert(gl.subrange(0, k + 1) =~= gl.subrange(0, k as int).push(gl[k as int]));
                lemma_net_snoc(gl.subrange(0, k as int), gl[k as int], xs);
                assert(vals(out@).len() == out@.len());
                assert(vals(out@).len() == gl[k as int].nodes_out);
            }
            datas.push(ld);
            x = out;
            k = k + 1;
        }
        let last = n - 1;
        let mut out_ld = datas[last].duplicate();
        self.layers[last].calculate_output_layer_node_values(&mut out_ld, targets);
        datas.set(last, out_ld);
        proof {
            assert forall|i: int|
                0 <= i < gl[last as int].nodes_out implies vals(
                datas@[last as int].node_values@,
            )[i] == delta_s(gl, xs, ts, last as int)[i] by {
                assert(datas@[last as int].node_values@[i].raw == out_delta_s(
                    gl[last as int],
                    ts[i],
                    acts_into(gl, xs, last as int + 1)[i],
                    zs_at(gl, xs, last as int)[i],
                ));
            }
            assert(vals(datas@[last as int].node_values@) =~= delta_s(gl, xs, ts, last as int));
        }
        let mut m: usize = last;
        while m > 0
            invariant
                self.wf(),
                self.layers@ == gl,
                n == gl.len(),
                last == n - 1,
                m <= last,
                xs == vals(inputs@),
                ts == vals(targets@),
                datas@.len() == n,
                forall|p: int| 0 <= p < n ==> captured_s(gl, xs, #[trigger] datas@[p], p),
                forall|p: int|
                    m <= p < n ==> vals((#[trigger] datas@[p]).node_values@) == delta_s(
                        gl,
                        xs,
                        ts,
                        p,
                    ),
            decreases m,
        {
            m = m - 1;
            let mut hid_ld = datas[m].duplicate();
            self.layers[m].calculate_hidden_layer_node_values(
                &mut hid_ld,
                &self.layers[m + 1],
                &datas[m + 1].node_values,
            );
            datas.set(m, hid_ld);
            proof {
                assert forall|i: int|
                    0 <= i < gl[m as int].nodes_out implies vals(
                    datas@[m as int].node_values@,
                )[i] == delta_s(gl, xs, ts, m as int)[i] by {
                    assert(datas@[m as int].node_values@[i].raw == fx_mul_s(
                        back_dot_s(
                            gl[m as int + 1],
                            delta_s(gl, xs, ts, m as int + 1),
                            i,
                            gl[m as int + 1].nodes_out as nat,
                        ),
                        act_deriv_s(gl[m as int].activation, zs_at(gl, xs, m as int)[i]),
                    ));
                }
                assert(vals(datas@[m as int].node_values@) =~= delta_s(gl, xs, ts, m as int));
            }
        }
        let mut k3: usize = 0;
        while k3 < n
            invariant
                n == gl.len(),
                self.layers@.len() == n,
                xs == vals(inputs@),
                ts == vals(targets@),
                k3 <= n,
                datas@.len() == n,
                forall|p: int| 0 <= p < n ==> captured_s(gl, xs, #[trigger] datas@[p], p),
                forall|p: int|
                    0 <= p < n ==> vals((#[trigger] datas@[p]).node_values@) == delta_s(
                        gl,
                        xs,
                        ts,
                        p,
                    ),
                forall|p: int| 0 <= p < n ==> (#[trigger] gl[p]).wf(),
                forall|p: int| k3 <= p < n ==> self.layers@[p] == gl[p],
                forall|p: int|
                    0 <= p < k3 ==> (#[trigger] self.layers@[p]).same_parameters(&gl[p])
                        && self.layers@[p].wf(),
                forall|p: int, i: int, j: int|
                    0 <= p < k3 && 0 <= i < gl[p].nodes_out && 0 <= j < gl[p].nodes_in ==> (
                    #[trigger] self.layers@[p].cost_gradient_weights@[i]@[j]).raw == fx_add_s(
                        gl[p].cost_gradient_weights@[i]@[j].raw as int,
                        fx_mul_s(acts_into(gl, xs, p)[j], delta_s(gl, xs, ts, p)[i]),
                    ),
                forall|p: int, i: int|
                    0 <= p < k3 && 0 <= i < gl[p].nodes_out ==> (#[trigger] self.layers@[
                        p
                    ].cost_gradient_biases@[i]).raw == fx_add_s(
                        gl[p].cost_gradient_biases@[i].raw as int,
                        delta_s(gl, xs, ts, p)[i],
                    ),
            decreases n - k3,
        {
            let ghost before = self.layers@;
            let mut l = self.layers.remove(k3);
            proof {
                assert(l == gl[k3 as int]);
                assert(gl[k3 as int].wf());
            }
            l.update_gradients(&datas[k3]);
            self.layers.insert(k3, l);
            proof {
                assert(self.layers@ =~= before.update(k3 as int, l));
            }
            k3 = k3 + 1;
        }
        proof {
            assert(self.wf());
        }
        *scratch = datas;
        Ok(())
    }

    /// Applies every layer's accumulated gradients, scaled by the learning
    /// rate. The accumulators are left as they are.
    #[verifier::rlimit(100)]
    #[verifier::spinoff_prover]
    pub fn apply_all_gradients(&mut self, learning_rate: Fx)
        requires
            old(self).wf(),
        ensures
            final(self).wf(),
            gradients_applied_s(old(self).layers@, learning_rate.raw as int, final(self).layers@),
    {
        let ghost gl = self.layers@;
        let n = self.layers.len();
        let mut k: usize = 0;
        while k < n
            invariant
                n == gl.len(),
                self.layers@.len() == n,
                k <= n,
                forall|p: int| k <= p < n ==> self.layers@[p] == gl[p],
                forall|p: int|
                    0 <= p < k ==> (#[trigger] self.layers@[p]).wf() && self.layers@[p].same_shape(
                        &gl[p],
                    ) && self.layers@[p].cost_gradient_weights@ == gl[p].cost_gradient_weights@
                        && self.layers@[p].cost_gradient_biases@ == gl[p].cost_gradient_biases@,
                forall|p: int, i: int, j: int|
                    0 <= p < k && 0 <= i < gl[p].nodes_out && 0 <= j < gl[p].nodes_in ==> (
                    #[trigger] self.layers@[p].weights@[i]@[j]).raw == fx_sub_s(
                        gl[p].weights@[i]@[j].raw as int,
                        fx_mul_s(
                            learning_rate.raw as int,
                            gl[p].cost_gradient_weights@[i]@[j].raw as int,
                        ),
                    ),
                forall|p: int, i: int|
                    0 <= p < k && 0 <= i < gl[p].nodes_out ==> (#[trigger] self.layers@[p].biases@[
                        i
                    ]).raw == fx_sub_s(
                        gl[p].biases@[i].raw as int,
                        fx_mul_s(
                            learning_rate.raw as int,
                            gl[p].cost_gradient_biases@[i].raw as int,
                        ),
                    ),
                forall|p: int| 0 <= p < n ==> (#[trigger] gl[p]).wf(),
            decreases n - k,
        {
            let ghost before = self.layers@;
            let mut l = self.layers.remove(k);
            proof {
                assert(l == gl[k as int]);
                assert(gl[k as int].wf());
            }
            l.apply_gradients(learning_rate);
            self.layers.insert(k, l);
            proof {
                assert(self.layers@ =~= before.update(k as int, l));
            }
            k = k + 1;
        }
    }

    /// Clears every layer's gradient accumulators to zero, leaving weights
    /// and biases as they are.
    #[verifier::rlimit(100)]
    #[verifier::spinoff_prover]
    pub fn reset_all_gradients(&mut self)
        requires
            old(self).wf(),
        ensures
            final(self).wf(),
            gradients_reset_s(old(self).layers@, final(self).layers@),
    {
        let ghost gl = self.layers@;
        let n = self.layers.len();
        let mut k: usize = 0;
        while k < n
            invariant
                n == gl.len(),
                self.layers@.len() == n,
                k <= n,
                forall|p: int| k <= p < n ==> self.layers@[p] == gl[p],
                forall|p: int|
                    0 <= p < k ==> (#[trigger] self.layers@[p]).wf()
                        && self.layers@[p].same_parameters(&gl[p]) && all_zero_rows(
                        self.layers@[p].cost_gradient_weights@,
                    ) && all_zero(self.layers@[p].cost_gradient_biases@),
                forall|p: int| 0 <= p < n ==> (#[trigger] gl[p]).wf(),
            decreases n - k,
        {
            let ghost before = self.layers@;
            let mut l = self.layers.remove(k);
            proof {
                assert(l == gl[k as int]);
                assert(gl[k as int].wf());
            }
            l.reset_gradients();
            self.layers.insert(k, l);
            proof {
                assert(self.layers@ =~= before.update(k as int, l));
            }
            k = k + 1;
        }
    }

    /// The layer closest to the output. The network must have at least two
    /// layers for the structural accessors, as a one-layer network has no
    /// hidden part to delimit.
    pub fn get_output_layer(&self) -> (r: &Layer)
        requires
            self.layers@.len() >= 2,
        ensures
            *r == self.layers@[self.layers@.len() - 1],
    {
        &self.layers[self.layers.len() - 1]
    }

    /// The layer closest to the input.
    pub fn get_input_layer(&self) -> (r: &Layer)
        requires
            self.layers@.len() >= 2,
        ensures
            *r == self.layers@[0],
    {
        &self.layers[0]
    }

    /// The layers strictly between the input layer and the output layer, in
    /// order.
    pub fn get_hidden_layers(&self) -> (r: Vec<&Layer>)
        requires
            self.layers@.len() >= 2,
        ensures
            r@.len() == self.layers@.len() - 2,
            forall|i: int| 0 <= i < r@.len() ==> *(#[trigger] r@[i]) == self.layers@[i + 1],
    {
        let mut r: Vec<&Layer> = Vec::new();
        let mut i: usize = 1;
        while i < self.layers.len() - 1
            invariant
                self.layers@.len() >= 2,
                1 <= i <= self.layers@.len() - 1,
                r@.len() == i - 1,
                forall|p: int| 0 <= p < r@.len() ==> *(#[trigger] r@[p]) == self.layers@[p + 1],
            decreases self.layers@.len() - i,
        {
            r.push(&self.layers[i]);
            i = i + 1;
        }
        r
    }
}

} // verus!
