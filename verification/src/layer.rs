//! A fully connected layer: weights, biases and per-layer gradient
//! accumulators, with forward evaluation, backward error propagation and
//! gradient accumulation/application.
//!
//! Sign convention: the accumulators hold the raw gradient of the cost, and
//! `apply_gradients` subtracts the scaled accumulator from each weight and
//! bias, so an apply step moves the parameters in the descent direction.

use crate::activation::{act_deriv_s, act_s, Activation};
use crate::cost::{cost_deriv_s, cost_single_s, Cost};
use crate::fx::{
    all_zero, copy_vec, fx_add, fx_add_s, fx_mul, fx_mul_s, fx_sub, fx_sub_s, vals, zeros, Fx,
    FX_ONE,
};
use crate::sampler::Sampler;
use crate::trainer::LayerData;
use vstd::prelude::*;

verus! {

/// A failure of a forward pass.
#[derive(Clone, Copy, PartialEq, Eq, Structural, Debug)]
pub enum LayerError {
    /// The input vector's length (first field) disagrees with the width the
    /// layer expects (second field).
    SizeMismatch(usize, usize),
}

/// A fully connected layer. Row `i` of `weights` holds the incoming weights
/// of output node `i`; the gradient fields accumulate contributions across
/// training examples until they are applied and reset.
pub struct Layer {
    pub nodes_in: usize,
    pub nodes_out: usize,
    pub weights: Vec<Vec<Fx>>,
    pub biases: Vec<Fx>,
    pub cost_gradient_weights: Vec<Vec<Fx>>,
    pub cost_gradient_biases: Vec<Fx>,
    pub activation: Activation,
    pub cost: Cost,
}

/// Every scalar of the sequence lies in the unit interval `[-1, 1)`.
pub open spec fn all_unit(s: Seq<Fx>) -> bool {
    forall|i: int|
        0 <= i < s.len() ==> -(FX_ONE as int) <= (#[trigger] s[i]).raw && s[i].raw < FX_ONE
}

/// Every row of the matrix consists only of unit-interval scalars.
pub open spec fn all_unit_rows(m: Seq<Vec<Fx>>) -> bool {
    forall|i: int| 0 <= i < m.len() ==> all_unit((#[trigger] m[i])@)
}

/// Every row of the matrix consists only of zero scalars.
pub open spec fn all_zero_rows(m: Seq<Vec<Fx>>) -> bool {
    forall|i: int| 0 <= i < m.len() ==> all_zero((#[trigger] m[i])@)
}

/// The fixed-point dot product of the first `n` entries of two raw-word
/// sequences, accumulated left to right.
pub open spec fn dot_s(xs: Seq<int>, ws: Seq<int>, n: nat) -> int
    decreases n,
{
    if n == 0 {
        0
    } else {
        fx_add_s(dot_s(xs, ws, (n - 1) as nat), fx_mul_s(xs[n - 1], ws[n - 1]))
    }
}

/// The backward dot product for node `i` of a layer: the next layer's
/// column `i` against the next layer's node values, over its first `n`
/// output nodes.
pub open spec fn back_dot_s(next: Layer, nvs: Seq<int>, i: int, n: nat) -> int
    decreases n,
{
    if n == 0 {
        0
    } else {
        fx_add_s(
            back_dot_s(next, nvs, i, (n - 1) as nat),
            fx_mul_s(next.weights@[n - 1]@[i].raw as int, nvs[n - 1]),
        )
    }
}

/// The output-layer error signal of one node: the cost derivative at its
/// activation times the activation derivative at its pre-activation sum.
pub open spec fn out_delta_s(l: Layer, t: int, a: int, z: int) -> int {
    fx_mul_s(cost_deriv_s(l.cost, t, a), act_deriv_s(l.activation, z))
}

impl Layer {
    /// Shape well-formedness: the matrices and vectors all agree with the
    /// declared widths.
    pub open spec fn wf(&self) -> bool {
        &&& self.weights@.len() == self.nodes_out
        &&& forall|i: int|
            0 <= i < self.weights@.len() ==> (#[trigger] self.weights@[i])@.len() == self.nodes_in
        &&& self.biases@.len() == self.nodes_out
        &&& self.cost_gradient_weights@.len() == self.nodes_out
        &&& forall|i: int|
            0 <= i < self.cost_gradient_weights@.len() ==> (#[trigger] self.cost_gradient_weights@[
                i
            ])@.len() == self.nodes_in
        &&& self.cost_gradient_biases@.len() == self.nodes_out
    }

    /// The two layers have the same shape and the same weights, biases,
    /// activation and cost; only the gradient accumulators may differ.
    pub open spec fn same_parameters(&self, other: &Layer) -> bool {
        &&& self.nodes_in == other.nodes_in
        &&& self.nodes_out == other.nodes_out
        &&& self.weights@ == other.weights@
        &&& self.biases@ == other.biases@
        &&& self.activation == other.activation
        &&& self.cost == other.cost
    }

    /// The two layers have the same shape and configuration; weights,
    /// biases and accumulators may differ.
    pub open spec fn same_shape(&self, other: &Layer) -> bool {
        &&& self.nodes_in == other.nodes_in
        &&& self.nodes_out == other.nodes_out
        &&& self.activation == other.activation
        &&& self.cost == other.cost
    }

    /// The pre-activation sum of output node `i` on the raw input sequence
    /// `xs`.
    pub open spec fn z_s(&self, xs: Seq<int>, i: int) -> int {
        fx_add_s(
            dot_s(xs, vals(self.weights@[i]@), self.nodes_in as nat),
            self.biases@[i].raw as int,
        )
    }

    /// The activated output of node `i` on the raw input sequence `xs`.
    pub open spec fn out_s(&self, xs: Seq<int>, i: int) -> int {
        act_s(self.activation, self.z_s(xs, i))
    }

    /// The layer's whole output vector on the raw input sequence `xs`.
    pub open spec fn outputs_s(&self, xs: Seq<int>) -> Seq<int> {
        Seq::new(self.nodes_out as nat, |i: int| self.out_s(xs, i))
    }

    /// A fresh layer: weights and biases drawn uniformly from `[-1, 1)` by
    /// the injected sampler, zeroed gradient accumulators, and the default
    /// `Sigmoid` activation and `MeanSquaredError` cost.
    pub fn new(nodes_in: usize, nodes_out: usize, sampler: &mut Sampler) -> (r: Layer)
        ensures
            r.wf(),
            r.nodes_in == nodes_in,
            r.nodes_out == nodes_out,
            all_unit_rows(r.weights@),
            all_unit(r.biases@),
            all_zero_rows(r.cost_gradient_weights@),
            all_zero(r.cost_gradient_biases@),
            r.activation == Activation::Sigmoid,
            r.cost == Cost::MeanSquaredError,
    {
        let mut weights: Vec<Vec<Fx>> = Vec::new();
        let mut i: usize = 0;
        while i < nodes_out
            invariant
                i <= nodes_out,
                weights@.len() == i,
                forall|p: int|
                    0 <= p < i ==> (#[trigger] weights@[p])@.len() == nodes_in,
                all_unit_rows(weights@),
            decreases nodes_out - i,
        {
            let mut row: Vec<Fx> = Vec::new();
            let mut j: usize = 0;
            while j < nodes_in
                invariant
                    j <= nodes_in,
                    row@.len() == j,
                    all_unit(row@),
                decreases nodes_in - j,
            {
                row.push(Fx { raw: sampler.next_in_range(-FX_ONE, FX_ONE) });
                j = j + 1;
            }
            weights.push(row);
            i = i + 1;
        }
        let mut biases: Vec<Fx> = Vec::new();
        let mut i: usize = 0;
        while i < nodes_out
            invariant
                i <= nodes_out,
                biases@.len() == i,
                all_unit(biases@),
            decreases nodes_out - i,
        {
            biases.push(Fx { raw: sampler.next_in_range(-FX_ONE, FX_ONE) });
            i = i + 1;
        }
        let mut gradient_weights: Vec<Vec<Fx>> = Vec::new();
        let mut i: usize = 0;
        while i < nodes_out
            invariant
                i <= nodes_out,
                gradient_weights@.len() == i,
                forall|p: int|
                    0 <= p < i ==> (#[trigger] gradient_weights@[p])@.len() == nodes_in,
                all_zero_rows(gradient_weights@),
            decreases nodes_out - i,
        {
            gradient_weights.push(zeros(nodes_in));
            i = i + 1;
        }
        Layer {
            nodes_in,
            nodes_out,
            weights,
            biases,
            cost_gradient_weights: gradient_weights,
            cost_gradient_biases: zeros(nodes_out),
            activation: Activation::Sigmoid,
            cost: Cost::MeanSquaredError,
        }
    }

    /// The inference forward pass: for each output node, the weighted sum of
    /// the inputs plus the bias, activated. Fails with `SizeMismatch` when
    /// the input width disagrees with `nodes_in`, and only then.
    pub fn calculate_outputs(&self, inputs: &Vec<Fx>) -> (r: Result<Vec<Fx>, LayerError>)
        requires
            self.wf(),
        ensures
            match r {
                Ok(out) => inputs@.len() == self.nodes_in && vals(out@) == self.outputs_s(
                    vals(inputs@),
                ),
                Err(e) => inputs@.len() != self.nodes_in && e == LayerError::SizeMismatch(
                    inputs@.len() as usize,
                    self.nodes_in,
                ),
            },
    {
        if inputs.len() != self.nodes_in {
            return Err(LayerError::SizeMismatch(inputs.len(), self.nodes_in));
        }
        let mut outputs: Vec<Fx> = Vec::new();
        let mut i: usize = 0;
        while i < self.nodes_out
            invariant
                self.wf(),
                inputs@.len() == self.nodes_in,
                i <= self.nodes_out,
                outputs@.len() == i,
                forall|p: int|
                    0 <= p < i ==> (#[trigger] outputs@[p]).raw == self.out_s(vals(inputs@), p),
            decreases self.nodes_out - i,
        {
            let z = self.weighted_input(inputs, i);
            outputs.push(self.activation.calculate(z));
            i = i + 1;
        }
        proof {
            assert(vals(outputs@) =~= self.outputs_s(vals(inputs@)));
        }
        Ok(outputs)
    }

    /// The pre-activation sum of output node `i`: inputs dotted with row `i`
    /// of the weights, plus bias `i`.
    fn weighted_input(&self, inputs: &Vec<Fx>, i: usize) -> (z: Fx)
        requires
            self.wf(),
            inputs@.len() == self.nodes_in,
            i < self.nodes_out,
        ensures
            z.raw == self.z_s(vals(inputs@), i as int),
    {
        let mut sum = Fx { raw: 0 };
        let mut j: usize = 0;
        while j < self.nodes_in
            invariant
                self.wf(),
                inputs@.len() == self.nodes_in,
                i < self.nodes_out,
                j <= self.nodes_in,
                sum.raw == dot_s(vals(inputs@), vals(self.weights@[i as int]@), j as nat),
            decreases self.nodes_in - j,
        {
            sum = fx_add(sum, fx_mul(inputs[j], self.weights[i][j]));
            j = j + 1;
        }
        fx_add(sum, self.biases[i])
    }

    /// The training forward pass: like `calculate_outputs`, but records the
    /// inputs, the pre-activation sums and the activations in the scratch
    /// state, leaving its node values untouched, and returns the
    /// activations.
    pub fn calculate_training_outputs(&self, inputs: &Vec<Fx>, data: &mut LayerData) -> (r: Vec<
        Fx,
    >)
        requires
            self.wf(),
            inputs@.len() == self.nodes_in,
        ensures
            final(data).inputs@ == inputs@,
            final(data).weighted_inputs@.len() == self.nodes_out,
            forall|i: int|
                0 <= i < self.nodes_out ==> (#[trigger] final(data).weighted_inputs@[i]).raw
                    == self.z_s(vals(inputs@), i),
            vals(final(data).activations@) == self.outputs_s(vals(inputs@)),
            final(data).node_values@ == old(data).node_values@,
            vals(r@) == self.outputs_s(vals(inputs@)),
    {
        let mut weighted: Vec<Fx> = Vec::new();
        let mut acts: Vec<Fx> = Vec::new();
        let mut i: usize = 0;
        while i < self.nodes_out
            invariant
                self.wf(),
                inputs@.len() == self.nodes_in,
                i <= self.nodes_out,
                weighted@.len() == i,
                acts@.len() == i,
                forall|p: int|
                    0 <= p < i ==> (#[trigger] weighted@[p]).raw == self.z_s(vals(inputs@), p),
                forall|p: int|
                    0 <= p < i ==> (#[trigger] acts@[p]).raw == self.out_s(vals(inputs@), p),
            decreases self.nodes_out - i,
        {
            let z = self.weighted_input(inputs, i);
            weighted.push(z);
            acts.push(self.activation.calculate(z));
            i = i + 1;
        }
        data.inputs = copy_vec(inputs);
        data.weighted_inputs = weighted;
        let out = copy_vec(&acts);
        data.activations = acts;
        proof {
            assert(vals(data.activations@) =~= self.outputs_s(vals(inputs@)));
            assert(vals(out@) =~= self.outputs_s(vals(inputs@)));
        }
        out
    }

    /// The cost of one target/output pair under this layer's cost function.
    pub fn calculate_node_cost(&self, target: Fx, output: Fx) -> (r: Fx)
        ensures
            r.raw == cost_single_s(self.cost, target.raw as int, output.raw as int),
    {
        self.cost.calculate_single(target, output)
    }

    /// Applies the accumulated gradients: every weight and bias moves
    /// against its accumulator, scaled by the learning rate. The
    /// accumulators themselves are left as they are.
    pub fn apply_gradients(&mut self, learning_rate: Fx)
        requires
            old(self).wf(),
        ensures
            final(self).wf(),
            final(self).same_shape(old(self)),
            final(self).cost_gradient_weights@ == old(self).cost_gradient_weights@,
            final(self).cost_gradient_biases@ == old(self).cost_gradient_biases@,
            forall|i: int, j: int|
                0 <= i < old(self).nodes_out && 0 <= j < old(self).nodes_in ==> (#[trigger] final(self).weights@[i]@[j]).raw == fx_sub_s(
                    old(self).weights@[i]@[j].raw as int,
                    fx_mul_s(
                        learning_rate.raw as int,
                        old(self).cost_gradient_weights@[i]@[j].raw as int,
                    ),
                ),
            forall|i: int|
                0 <= i < old(self).nodes_out ==> (#[trigger] final(self).biases@[i]).raw
                    == fx_sub_s(
                    old(self).biases@[i].raw as int,
                    fx_mul_s(
                        learning_rate.raw as int,
                        old(self).cost_gradient_biases@[i].raw as int,
                    ),
                ),
    {
        let mut i: usize = 0;
        while i < self.nodes_out
            invariant
                self.wf(),
                i <= self.nodes_out,
                self.same_shape(old(self)),
                self.cost_gradient_weights@ == old(self).cost_gradient_weights@,
                self.cost_gradient_biases@ == old(self).cost_gradient_biases@,
                self.weights@.len() == self.nodes_out,
                self.biases@.len() == self.nodes_out,
                forall|p: int, q: int|
                    0 <= p < i && 0 <= q < self.nodes_in ==> (#[trigger] self.weights@[p]@[q]).raw
                        == fx_sub_s(
                        old(self).weights@[p]@[q].raw as int,
                        fx_mul_s(
                            learning_rate.raw as int,
                            old(self).cost_gradient_weights@[p]@[q].raw as int,
                        ),
                    ),
                forall|p: int|
                    i <= p < self.nodes_out ==> self.weights@[p] == old(self).weights@[p],
                forall|p: int|
                    0 <= p < i ==> (#[trigger] self.biases@[p]).raw == fx_sub_s(
                        old(self).biases@[p].raw as int,
                        fx_mul_s(
                            learning_rate.raw as int,
                            old(self).cost_gradient_biases@[p].raw as int,
                        ),
                    ),
                forall|p: int| i <= p < self.nodes_out ==> self.biases@[p] == old(self).biases@[p],
            decreases self.nodes_out - i,
        {
            let mut row: Vec<Fx> = Vec::new();
            let mut j: usize = 0;
            while j < self.nodes_in
                invariant
                    self.wf(),
                    i < self.nodes_out,
                    j <= self.nodes_in,
                    row@.len() == j,
                    self.weights@[i as int] == old(self).weights@[i as int],
                    self.cost_gradient_weights@ == old(self).cost_gradient_weights@,
                    forall|q: int|
                        0 <= q < j ==> (#[trigger] row@[q]).raw == fx_sub_s(
                            old(self).weights@[i as int]@[q].raw as int,
                            fx_mul_s(
                                learning_rate.raw as int,
                                old(self).cost_gradient_weights@[i as int]@[q].raw as int,
                            ),
                        ),
                decreases self.nodes_in - j,
            {
                row.push(
                    fx_sub(
                        self.weights[i][j],
                        fx_mul(learning_rate, self.cost_gradient_weights[i][j]),
                    ),
                );
                j = j + 1;
            }
            let new_bias = fx_sub(
                self.biases[i],
                fx_mul(learning_rate, self.cost_gradient_biases[i]),
            );
            self.weights.set(i, row);
            self.biases.set(i, new_bias);
            i = i + 1;
        }
    }

    /// Clears the gradient accumulators to zero, leaving everything else as
    /// it is. A subsequent `apply_gradients` is then a no-op on weights and
    /// biases.
    pub fn reset_gradients(&mut self)
        requires
            old(self).wf(),
        ensures
            final(self).wf(),
            final(self).same_parameters(old(self)),
            all_zero_rows(final(self).cost_gradient_weights@),
            all_zero(final(self).cost_gradient_biases@),
    {
        let rows = self.weights.len();
        let cols = self.nodes_in;
        let mut gradient_weights: Vec<Vec<Fx>> = Vec::new();
        let mut i: usize = 0;
        while i < rows
            invariant
                i <= rows,
                gradient_weights@.len() == i,
                forall|p: int|
                    0 <= p < i ==> (#[trigger] gradient_weights@[p])@.len() == cols,
                all_zero_rows(gradient_weights@),
            decreases rows - i,
        {
            gradient_weights.push(zeros(cols));
            i = i + 1;
        }
        self.cost_gradient_weights = gradient_weights;
        self.cost_gradient_biases = zeros(self.nodes_out);
    }

    /// The output-layer backward step: node `i`'s error signal is the cost
    /// derivative at its activation times the activation derivative at its
    /// pre-activation sum.
    pub fn calculate_output_layer_node_values(&self, data: &mut LayerData, targets: &Vec<Fx>)
        requires
            old(data).activations@.len() == self.nodes_out,
            old(data).weighted_inputs@.len() == self.nodes_out,
            targets@.len() == self.nodes_out,
        ensures
            final(data).inputs@ == old(data).inputs@,
            final(data).weighted_inputs@ == old(data).weighted_inputs@,
            final(data).activations@ == old(data).activations@,
            final(data).node_values@.len() == self.nodes_out,
            forall|i: int|
                0 <= i < self.nodes_out ==> (#[trigger] final(data).node_values@[i]).raw
                    == out_delta_s(
                    *self,
                    targets@[i].raw as int,
                    old(data).activations@[i].raw as int,
                    old(data).weighted_inputs@[i].raw as int,
                ),
    {
        let mut nvs: Vec<Fx> = Vec::new();
        let mut i: usize = 0;
        while i < self.nodes_out
            invariant
                data.activations@.len() == self.nodes_out,
                data.weighted_inputs@.len() == self.nodes_out,
                targets@.len() == self.nodes_out,
                i <= self.nodes_out,
                nvs@.len() == i,
                forall|p: int|
                    0 <= p < i ==> (#[trigger] nvs@[p]).raw == out_delta_s(
                        *self,
                        targets@[p].raw as int,
                        data.activations@[p].raw as int,
                        data.weighted_inputs@[p].raw as int,
                    ),
            decreases self.nodes_out - i,
        {
            let cost_derivative = self.cost.calculate_derivative(targets[i], data.activations[i]);
            let activation_derivative = self.activation.calculate_derivative(
                data.weighted_inputs[i],
            );
            nvs.push(fx_mul(cost_derivative, activation_derivative));
            i = i + 1;
        }
        data.node_values = nvs;
    }

    /// The hidden-layer backward step: node `i`'s error signal is the next
    /// layer's column `i` dotted with the next layer's node values, times
    /// the activation derivative at this layer's pre-activation sum.
    pub fn calculate_hidden_layer_node_values(
        &self,
        data: &mut LayerData,
        next_layer: &Layer,
        next_node_values: &Vec<Fx>,
    )
        requires
            next_layer.wf(),
            next_layer.nodes_in == self.nodes_out,
            next_node_values@.len() == next_layer.nodes_out,
            old(data).weighted_inputs@.len() == self.nodes_out,
        ensures
            final(data).inputs@ == old(data).inputs@,
            final(data).weighted_inputs@ == old(data).weighted_inputs@,
            final(data).activations@ == old(data).activations@,
            final(data).node_values@.len() == self.nodes_out,
            forall|i: int|
                0 <= i < self.nodes_out ==> (#[trigger] final(data).node_values@[i]).raw
                    == fx_mul_s(
                    back_dot_s(
                        *next_layer,
                        vals(next_node_values@),
                        i,
                        next_layer.nodes_out as nat,
                    ),
                    act_deriv_s(self.activation, old(data).weighted_inputs@[i].raw as int),
                ),
    {
        let mut nvs: Vec<Fx> = Vec::new();
        let mut i: usize = 0;
        while i < self.nodes_out
            invariant
                next_layer.wf(),
                next_layer.nodes_in == self.nodes_out,
                next_node_values@.len() == next_layer.nodes_out,
                data.weighted_inputs@.len() == self.nodes_out,
                i <= self.nodes_out,
                nvs@.len() == i,
                forall|p: int|
                    0 <= p < i ==> (#[trigger] nvs@[p]).raw == fx_mul_s(
                        back_dot_s(
                            *next_layer,
                            vals(next_node_values@),
                            p,
                            next_layer.nodes_out as nat,
                        ),
                        act_deriv_s(self.activation, data.weighted_inputs@[p].raw as int),
                    ),
            decreases self.nodes_out - i,
        {
            let mut sum = Fx { raw: 0 };
            let mut k: usize = 0;
            while k < next_layer.nodes_out
                invariant
                    next_layer.wf(),
                    next_layer.nodes_in == self.nodes_out,
                    next_node_values@.len() == next_layer.nodes_out,
                    i < self.nodes_out,
                    k <= next_layer.nodes_out,
                    sum.raw == back_dot_s(
                        *next_layer,
                        vals(next_node_values@),
                        i as int,
                        k as nat,
                    ),
                decreases next_layer.nodes_out - k,
            {
                sum = fx_add(sum, fx_mul(next_layer.weights[k][i], next_node_values[k]));
                k = k + 1;
            }
            let activation_derivative = self.activation.calculate_derivative(
                data.weighted_inputs[i],
            );
            nvs.push(fx_mul(sum, activation_derivative));
            i = i + 1;
        }
        data.node_values = nvs;
    }

    /// Accumulates one example's gradient contributions: each weight
    /// accumulator gains input `j` times node value `i`, each bias
    /// accumulator gains node value `i`. Accumulation is additive across
    /// calls; callers reset between optimizer steps.
    pub fn update_gradients(&mut self, data: &LayerData)
        requires
            old(self).wf(),
            data.inputs@.len() == old(self).nodes_in,
            data.node_values@.len() == old(self).nodes_out,
        ensures
            final(self).wf(),
            final(self).same_parameters(old(self)),
            forall|i: int, j: int|
                0 <= i < old(self).nodes_out && 0 <= j < old(self).nodes_in ==> (#[trigger] final(self).cost_gradient_weights@[i]@[j]).raw == fx_add_s(
                    old(self).cost_gradient_weights@[i]@[j].raw as int,
                    fx_mul_s(data.inputs@[j].raw as int, data.node_values@[i].raw as int),
                ),
            forall|i: int|
                0 <= i < old(self).nodes_out ==> (#[trigger] final(self).cost_gradient_biases@[
                    i
                ]).raw == fx_add_s(
                    old(self).cost_gradient_biases@[i].raw as int,
                    data.node_values@[i].raw as int,
                ),
    {
        let mut i: usize = 0;
        while i < self.nodes_out
            invariant
                self.wf(),
                i <= self.nodes_out,
                self.same_parameters(old(self)),
                data.inputs@.len() == self.nodes_in,
                data.node_values@.len() == self.nodes_out,
                forall|p: int, q: int|
                    0 <= p < i && 0 <= q < self.nodes_in ==> (#[trigger] self.cost_gradient_weights@[
                        p
                    ]@[q]).raw == fx_add_s(
                        old(self).cost_gradient_weights@[p]@[q].raw as int,
                        fx_mul_s(data.inputs@[q].raw as int, data.node_values@[p].raw as int),
                    ),
                forall|p: int|
                    i <= p < self.nodes_out ==> self.cost_gradient_weights@[p] == old(
                        self,
                    ).cost_gradient_weights@[p],
                forall|p: int|
                    0 <= p < i ==> (#[trigger] self.cost_gradient_biases@[p]).raw == fx_add_s(
                        old(self).cost_gradient_biases@[p].raw as int,
                        data.node_values@[p].raw as int,
                    ),
                forall|p: int|
                    i <= p < self.nodes_out ==> self.cost_gradient_biases@[p] == old(
                        self,
                    ).cost_gradient_biases@[p],
            decreases self.nodes_out - i,
        {
            let node_value = data.node_values[i];
            let mut row: Vec<Fx> = Vec::new();
            let mut j: usize = 0;
            while j < self.nodes_in
                invariant
                    self.wf(),
                    i < self.nodes_out,
                    j <= self.nodes_in,
                    row@.len() == j,
                    node_value == data.node_values@[i as int],
                    data.inputs@.len() == self.nodes_in,
                    self.cost_gradient_weights@[i as int] == old(
                        self,
                    ).cost_gradient_weights@[i as int],
                    forall|q: int|
                        0 <= q < j ==> (#[trigger] row@[q]).raw == fx_add_s(
                            old(self).cost_gradient_weights@[i as int]@[q].raw as int,
                            fx_mul_s(
                                data.inputs@[q].raw as int,
                                data.node_values@[i as int].raw as int,
                            ),
                        ),
                decreases self.nodes_in - j,
            {
                row.push(
                    fx_add(
                        self.cost_gradient_weights[i][j],
                        fx_mul(data.inputs[j], node_value),
                    ),
                );
                j = j + 1;
            }
            let new_bias = fx_add(self.cost_gradient_biases[i], node_value);
            self.cost_gradient_weights.set(i, row);
            self.cost_gradient_biases.set(i, new_bias);
            i = i + 1;
        }
    }
}

/// One example's contribution to weight accumulator `(i, j)`: input `j`
/// times node value `i`.
pub open spec fn weight_contrib_s(d: LayerData, i: int, j: int) -> int {
    fx_mul_s(d.inputs@[j].raw as int, d.node_values@[i].raw as int)
}

/// Gradient accumulation law: two `update_gradients` calls on the same
/// scratch state, without a reset in between, leave every accumulator larger
/// by exactly twice the single contribution, wherever the sums stay inside
/// the representable range. `l1` is the layer after one call on `l0`, and
/// `l2` the layer after a second call on `l1`, each related by the contract
/// of `update_gradients`.
pub proof fn lemma_update_gradients_twice(l0: Layer, l1: Layer, l2: Layer, d: LayerData)
    requires
        l0.wf(),
        d.inputs@.len() == l0.nodes_in,
        d.node_values@.len() == l0.nodes_out,
        l1.same_parameters(&l0),
        l2.same_parameters(&l1),
        forall|i: int, j: int|
            0 <= i < l0.nodes_out && 0 <= j < l0.nodes_in ==> (#[trigger] l1.cost_gradient_weights@[
                i
            ]@[j]).raw == fx_add_s(
                l0.cost_gradient_weights@[i]@[j].raw as int,
                weight_contrib_s(d, i, j),
            ),
        forall|i: int, j: int|
            0 <= i < l0.nodes_out && 0 <= j < l0.nodes_in ==> (#[trigger] l2.cost_gradient_weights@[
                i
            ]@[j]).raw == fx_add_s(
                l1.cost_gradient_weights@[i]@[j].raw as int,
                weight_contrib_s(d, i, j),
            ),
        forall|i: int|
            0 <= i < l0.nodes_out ==> (#[trigger] l1.cost_gradient_biases@[i]).raw == fx_add_s(
                l0.cost_gradient_biases@[i].raw as int,
                d.node_values@[i].raw as int,
            ),
        forall|i: int|
            0 <= i < l0.nodes_out ==> (#[trigger] l2.cost_gradient_biases@[i]).raw == fx_add_s(
                l1.cost_gradient_biases@[i].raw as int,
                d.node_values@[i].raw as int,
            ),
        forall|i: int, j: int|
            0 <= i < l0.nodes_out && 0 <= j < l0.nodes_in ==> i64::MIN <= l0.cost_gradient_weights@[
                i
            ]@[j].raw as int + 2 * weight_contrib_s(d, i, j) <= i64::MAX && i64::MIN
                <= l0.cost_gradient_weights@[i]@[j].raw as int + #[trigger] weight_contrib_s(
                d,
                i,
                j,
            ) <= i64::MAX,
        forall|i: int|
            0 <= i < l0.nodes_out ==> i64::MIN <= l0.cost_gradient_biases@[i].raw as int + 2 * (
            #[trigger] d.node_values@[i]).raw <= i64::MAX && i64::MIN
                <= l0.cost_gradient_biases@[i].raw as int + d.node_values@[i].raw <= i64::MAX,
    ensures
        forall|i: int, j: int|
            0 <= i < l0.nodes_out && 0 <= j < l0.nodes_in ==> (#[trigger] l2.cost_gradient_weights@[
                i
            ]@[j]).raw as int == l0.cost_gradient_weights@[i]@[j].raw as int + 2
                * weight_contrib_s(d, i, j),
        forall|i: int|
            0 <= i < l0.nodes_out ==> (#[trigger] l2.cost_gradient_biases@[i]).raw as int
                == l0.cost_gradient_biases@[i].raw as int + 2 * (d.node_values@[i].raw as int),
{
}

/// No-op law for a fresh reset: applying gradients when every accumulator is
/// zero leaves every weight and bias exactly as it was. `l1` is the layer
/// after one `apply_gradients` call on `l0`, related by that contract.
pub proof fn lemma_apply_on_zero_gradients(l0: Layer, l1: Layer, learning_rate: Fx)
    requires
        l0.wf(),
        all_zero_rows(l0.cost_gradient_weights@),
        all_zero(l0.cost_gradient_biases@),
        l1.same_shape(&l0),
        forall|i: int, j: int|
            0 <= i < l0.nodes_out && 0 <= j < l0.nodes_in ==> (#[trigger] l1.weights@[i]@[j]).raw
                == fx_sub_s(
                l0.weights@[i]@[j].raw as int,
                fx_mul_s(learning_rate.raw as int, l0.cost_gradient_weights@[i]@[j].raw as int),
            ),
        forall|i: int|
            0 <= i < l0.nodes_out ==> (#[trigger] l1.biases@[i]).raw == fx_sub_s(
                l0.biases@[i].raw as int,
                fx_mul_s(learning_rate.raw as int, l0.cost_gradient_biases@[i].raw as int),
            ),
    ensures
        forall|i: int, j: int|
            0 <= i < l0.nodes_out && 0 <= j < l0.nodes_in ==> (#[trigger] l1.weights@[i]@[j]).raw
                == l0.weights@[i]@[j].raw,
        forall|i: int|
            0 <= i < l0.nodes_out ==> (#[trigger] l1.biases@[i]).raw == l0.biases@[i].raw,
{
    assert(crate::fx::abs_s(0) == 0);
    assert(crate::fx::abs_s(learning_rate.raw as int) * crate::fx::abs_s(0) == 0)
        by (nonlinear_arith);
    assert((0int) / (FX_ONE as int) == 0);
    assert(fx_mul_s(learning_rate.raw as int, 0) == 0);
}

} // verus!
