//! Cost functions over target/output pairs, selectable per network, with
//! their derivatives with respect to the output.

use crate::fx::{
    fx_add, fx_add_s, fx_div, fx_div_s, fx_ln, fx_ln_s, fx_mul, fx_mul_s, fx_neg, fx_neg_s,
    fx_sub, fx_sub_s, vals, Fx, FX_HALF, FX_ONE,
};
use vstd::prelude::*;

verus! {

/// A cost function.
#[derive(Clone, Copy, PartialEq, Eq, Structural, Debug)]
pub enum Cost {
    MeanSquaredError,
    CrossEntropy,
}

/// The cost of a single target/output pair of raw words.
///
/// `MeanSquaredError` is `(target - output)^2 / 2`, halved per element.
/// `CrossEntropy` is `-target ln(output) - (1 - target) ln(1 - output)`;
/// at an output of zero or one the logarithm saturates instead of producing
/// an infinity, which keeps the function total.
pub open spec fn cost_single_s(c: Cost, t: int, o: int) -> int {
    match c {
        Cost::MeanSquaredError => {
            let d = fx_sub_s(t, o);
            fx_mul_s(fx_mul_s(d, d), FX_HALF as int)
        },
        Cost::CrossEntropy => fx_sub_s(
            fx_mul_s(fx_neg_s(t), fx_ln_s(o)),
            fx_mul_s(fx_sub_s(FX_ONE as int, t), fx_ln_s(fx_sub_s(FX_ONE as int, o))),
        ),
    }
}

/// The derivative of `cost_single_s` with respect to the output.
///
/// `MeanSquaredError` gives `output - target`; `CrossEntropy` gives
/// `(output - target) / (output (1 - output))`, saturating when the
/// denominator is zero.
pub open spec fn cost_deriv_s(c: Cost, t: int, o: int) -> int {
    match c {
        Cost::MeanSquaredError => fx_sub_s(o, t),
        Cost::CrossEntropy => fx_div_s(
            fx_sub_s(o, t),
            fx_mul_s(o, fx_sub_s(FX_ONE as int, o)),
        ),
    }
}

/// The cost of the first `n` pairs of two equal-length vectors: the sum of
/// the single-pair costs, accumulated left to right.
pub open spec fn cost_sum_s(c: Cost, ts: Seq<int>, os: Seq<int>, n: nat) -> int
    decreases n,
{
    if n == 0 {
        0
    } else {
        fx_add_s(
            cost_sum_s(c, ts, os, (n - 1) as nat),
            cost_single_s(c, ts[n - 1], os[n - 1]),
        )
    }
}

impl Cost {
    /// The cost of a whole target/output vector pair: the sum of the
    /// single-pair costs. The two vectors must have equal length.
    pub fn calculate(&self, targets: &Vec<Fx>, outputs: &Vec<Fx>) -> (r: Fx)
        requires
            targets@.len() == outputs@.len(),
        ensures
            r.raw == cost_sum_s(*self, vals(targets@), vals(outputs@), targets@.len() as nat),
    {
        let mut sum = Fx { raw: 0 };
        let mut i: usize = 0;
        while i < targets.len()
            invariant
                i <= targets@.len(),
                targets@.len() == outputs@.len(),
                sum.raw == cost_sum_s(*self, vals(targets@), vals(outputs@), i as nat),
            decreases targets@.len() - i,
        {
            sum = fx_add(sum, self.calculate_single(targets[i], outputs[i]));
            i = i + 1;
        }
        sum
    }

    /// The cost of one target/output pair.
    pub fn calculate_single(&self, target: Fx, output: Fx) -> (r: Fx)
        ensures
            r.raw == cost_single_s(*self, target.raw as int, output.raw as int),
    {
        match self {
            Cost::MeanSquaredError => {
                let d = fx_sub(target, output);
                fx_mul(fx_mul(d, d), Fx { raw: FX_HALF })
            },
            Cost::CrossEntropy => fx_sub(
                fx_mul(fx_neg(target), fx_ln(output)),
                fx_mul(
                    fx_sub(Fx { raw: FX_ONE }, target),
                    fx_ln(fx_sub(Fx { raw: FX_ONE }, output)),
                ),
            ),
        }
    }

    /// The derivative of the single-pair cost with respect to the output.
    pub fn calculate_derivative(&self, target: Fx, output: Fx) -> (r: Fx)
        ensures
            r.raw == cost_deriv_s(*self, target.raw as int, output.raw as int),
    {
        match self {
            Cost::MeanSquaredError => fx_sub(output, target),
            Cost::CrossEntropy => fx_div(
                fx_sub(output, target),
                fx_mul(output, fx_sub(Fx { raw: FX_ONE }, output)),
            ),
        }
    }
}

} // verus!
