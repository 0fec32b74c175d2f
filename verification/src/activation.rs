//! Per-node activation functions and their derivatives, selectable per
//! layer. Each is a pure function of the pre-activation scalar; the
//! derivative always takes the pre-activation value, never the activated
//! output.

use crate::fx::{
    fx_add, fx_mul, fx_mul_s, fx_sigmoid, fx_sigmoid_s, fx_sub, fx_sub_s, fx_tanh, fx_tanh_s, Fx,
    FX_ONE,
};
use vstd::prelude::*;

verus! {

/// An activation function.
#[derive(Clone, Copy, PartialEq, Eq, Structural, Debug)]
pub enum Activation {
    Sigmoid,
    Tanh,
    ReLU,
}

/// What an activation computes on a raw fixed-point word.
pub open spec fn act_s(a: Activation, x: int) -> int {
    match a {
        Activation::Sigmoid => fx_sigmoid_s(x),
        Activation::Tanh => fx_tanh_s(x),
        Activation::ReLU => if x > 0 {
            x
        } else {
            0
        },
    }
}

/// The analytic derivative of an activation at a raw fixed-point word,
/// expressed through the activation itself for `Sigmoid` and `Tanh`, and as
/// a step function for `ReLU` (zero at zero).
pub open spec fn act_deriv_s(a: Activation, x: int) -> int {
    match a {
        Activation::Sigmoid => {
            let s = fx_sigmoid_s(x);
            fx_mul_s(s, fx_sub_s(FX_ONE as int, s))
        },
        Activation::Tanh => {
            let t = fx_tanh_s(x);
            fx_sub_s(FX_ONE as int, fx_mul_s(t, t))
        },
        Activation::ReLU => if x > 0 {
            FX_ONE as int
        } else {
            0
        },
    }
}

impl Activation {
    /// The activation at `x`.
    pub fn calculate(&self, x: Fx) -> (r: Fx)
        ensures
            r.raw == act_s(*self, x.raw as int),
    {
        match self {
            Activation::Sigmoid => fx_sigmoid(x),
            Activation::Tanh => fx_tanh(x),
            Activation::ReLU => if x.raw > 0 {
                x
            } else {
                Fx { raw: 0 }
            },
        }
    }

    /// The derivative of the activation at the pre-activation value `x`.
    pub fn calculate_derivative(&self, x: Fx) -> (r: Fx)
        ensures
            r.raw == act_deriv_s(*self, x.raw as int),
    {
        match self {
            Activation::Sigmoid => {
                let s = fx_sigmoid(x);
                fx_mul(s, fx_sub(Fx { raw: FX_ONE }, s))
            },
            Activation::Tanh => {
                let t = fx_tanh(x);
                fx_sub(Fx { raw: FX_ONE }, fx_mul(t, t))
            },
            Activation::ReLU => if x.raw > 0 {
                Fx { raw: FX_ONE }
            } else {
                Fx { raw: 0 }
            },
        }
    }
}

} // verus!
