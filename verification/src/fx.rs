//! The scalar type of the library: a signed fixed-point number with 32
//! fractional bits (Q31.32), stored in an `i64` and saturating at the ends of
//! the representable range. Every arithmetic operation has an exact
//! specification-level counterpart, so contracts throughout the crate pin
//! results down to the bit.

use vstd::prelude::*;
use vstd::arithmetic::div_mod::lemma_fundamental_div_mod;

verus! {

/// One, as a raw fixed-point word: the value `v` represented by `Fx { raw }`
/// is `raw / FX_ONE`.
pub const FX_ONE: i64 = 0x1_0000_0000;

/// One half, as a raw fixed-point word.
pub const FX_HALF: i64 = 0x8000_0000;

/// A fixed-point scalar. `raw` holds the value scaled by `FX_ONE`.
#[derive(Clone, Copy, PartialEq, Eq, Structural, Debug)]
pub struct Fx {
    pub raw: i64,
}

impl Fx {
    /// Builds the scalar whose raw word is `raw`.
    pub fn from_raw(raw: i64) -> (r: Fx)
        ensures
            r.raw == raw,
    {
        Fx { raw }
    }

    /// The raw fixed-point word.
    pub fn to_raw(self) -> (r: i64)
        ensures
            r == self.raw,
    {
        self.raw
    }

    /// The scalar zero.
    pub fn zero() -> (r: Fx)
        ensures
            r.raw == 0,
    {
        Fx { raw: 0 }
    }

    /// The scalar one.
    pub fn one() -> (r: Fx)
        ensures
            r.raw == FX_ONE,
    {
        Fx { raw: FX_ONE }
    }
}

/// The sequence of raw words behind a sequence of scalars.
pub open spec fn vals(s: Seq<Fx>) -> Seq<int> {
    s.map_values(|f: Fx| f.raw as int)
}

/// Every scalar of the sequence is zero.
pub open spec fn all_zero(s: Seq<Fx>) -> bool {
    forall|i: int| 0 <= i < s.len() ==> (#[trigger] s[i]).raw == 0
}

/// A fresh vector of `n` zero scalars.
pub fn zeros(n: usize) -> (r: Vec<Fx>)
    ensures
        r@.len() == n,
        all_zero(r@),
{
    let mut r: Vec<Fx> = Vec::new();
    let mut i: usize = 0;
    while i < n
        invariant
            i <= n,
            r@.len() == i,
            all_zero(r@),
        decreases n - i,
    {
        r.push(Fx { raw: 0 });
        i = i + 1;
    }
    r
}

/// A fresh copy of a vector of scalars.
pub fn copy_vec(v: &Vec<Fx>) -> (r: Vec<Fx>)
    ensures
        r@ == v@,
{
    let mut r: Vec<Fx> = Vec::new();
    let mut i: usize = 0;
    while i < v.len()
        invariant
            i <= v@.len(),
            r@ == v@.subrange(0, i as int),
        decreases v@.len() - i,
    {
        r.push(v[i]);
        proof {
            assert(v@.subrange(0, i as int).push(v@[i as int]) =~= v@.subrange(0, i as int + 1));
        }
        i = i + 1;
    }
    proof {
        assert(v@.subrange(0, v@.len() as int) =~= v@);
    }
    r
}

/// Saturation to the representable raw range.
pub open spec fn sat_s(v: int) -> int {
    if v > i64::MAX as int {
        i64::MAX as int
    } else if v < i64::MIN as int {
        i64::MIN as int
    } else {
        v
    }
}

/// Absolute value on mathematical integers.
pub open spec fn abs_s(v: int) -> int {
    if v >= 0 {
        v
    } else {
        -v
    }
}

/// The sign of a product: 1 when the factors agree in sign, -1 otherwise.
pub open spec fn sgn2_s(a: int, b: int) -> int {
    if (a < 0) == (b < 0) {
        1
    } else {
        -1
    }
}

/// Saturating fixed-point addition on raw words.
pub open spec fn fx_add_s(a: int, b: int) -> int {
    sat_s(a + b)
}

/// Saturating fixed-point subtraction on raw words.
pub open spec fn fx_sub_s(a: int, b: int) -> int {
    sat_s(a - b)
}

/// Saturating fixed-point negation on raw words.
pub open spec fn fx_neg_s(a: int) -> int {
    sat_s(-a)
}

/// Saturating fixed-point multiplication on raw words: the exact product is
/// rescaled by `FX_ONE` with truncation toward zero, then saturated.
pub open spec fn fx_mul_s(a: int, b: int) -> int {
    sat_s(sgn2_s(a, b) * ((abs_s(a) * abs_s(b)) / (FX_ONE as int)))
}

/// Saturating fixed-point division on raw words, truncating toward zero.
/// Division by zero saturates by the sign of the dividend (zero for zero),
/// standing in for the infinities of an unguarded quotient.
pub open spec fn fx_div_s(a: int, b: int) -> int {
    if b == 0 {
        if a > 0 {
            i64::MAX as int
        } else if a < 0 {
            i64::MIN as int
        } else {
            0
        }
    } else {
        sat_s(sgn2_s(a, b) * ((abs_s(a) * (FX_ONE as int)) / abs_s(b)))
    }
}

/// Adds two scalars, saturating.
pub fn fx_add(a: Fx, b: Fx) -> (r: Fx)
    ensures
        r.raw == fx_add_s(a.raw as int, b.raw as int),
{
    if b.raw >= 0 {
        if a.raw > i64::MAX - b.raw {
            Fx { raw: i64::MAX }
        } else {
            Fx { raw: a.raw + b.raw }
        }
    } else {
        if a.raw < i64::MIN - b.raw {
            Fx { raw: i64::MIN }
        } else {
            Fx { raw: a.raw + b.raw }
        }
    }
}

/// Subtracts `b` from `a`, saturating.
pub fn fx_sub(a: Fx, b: Fx) -> (r: Fx)
    ensures
        r.raw == fx_sub_s(a.raw as int, b.raw as int),
{
    if b.raw <= 0 {
        if a.raw > i64::MAX + b.raw {
            Fx { raw: i64::MAX }
        } else {
            Fx { raw: a.raw - b.raw }
        }
    } else {
        if a.raw < i64::MIN + b.raw {
            Fx { raw: i64::MIN }
        } else {
            Fx { raw: a.raw - b.raw }
        }
    }
}

/// Negates a scalar, saturating.
pub fn fx_neg(a: Fx) -> (r: Fx)
    ensures
        r.raw == fx_neg_s(a.raw as int),
{
    if a.raw == i64::MIN {
        Fx { raw: i64::MAX }
    } else {
        Fx { raw: -a.raw }
    }
}

/// The magnitude of a raw word, as an unsigned word.
fn abs_u64(x: i64) -> (r: u64)
    ensures
        r as int == abs_s(x as int),
{
    if x >= 0 {
        x as u64
    } else {
        (-(x as i128)) as u64
    }
}

/// Multiplies two scalars, rescaling with truncation toward zero and
/// saturating.
pub fn fx_mul(a: Fx, b: Fx) -> (r: Fx)
    ensures
        r.raw == fx_mul_s(a.raw as int, b.raw as int),
{
    let neg: bool = (a.raw < 0) != (b.raw < 0);
    let ua: u64 = abs_u64(a.raw);
    let ub: u64 = abs_u64(b.raw);
    proof {
        assert((ua as int) * (ub as int) <= 0x8000_0000_0000_0000 * 0x8000_0000_0000_0000)
            by (nonlinear_arith)
            requires
                ua as int <= 0x8000_0000_0000_0000,
                ub as int <= 0x8000_0000_0000_0000,
                0 <= ua as int,
                0 <= ub as int,
        ;
    }
    let p: u128 = (ua as u128) * (ub as u128);
    let q: u128 = p / (FX_ONE as u128);
    if neg {
        if q >= 0x8000_0000_0000_0000u128 {
            Fx { raw: i64::MIN }
        } else {
            Fx { raw: -(q as i64) }
        }
    } else {
        if q > i64::MAX as u128 {
            Fx { raw: i64::MAX }
        } else {
            Fx { raw: q as i64 }
        }
    }
}

/// Divides `a` by `b`, rescaling with truncation toward zero and saturating.
/// A zero divisor saturates by the sign of `a`.
pub fn fx_div(a: Fx, b: Fx) -> (r: Fx)
    ensures
        r.raw == fx_div_s(a.raw as int, b.raw as int),
{
    if b.raw == 0 {
        return if a.raw > 0 {
            Fx { raw: i64::MAX }
        } else if a.raw < 0 {
            Fx { raw: i64::MIN }
        } else {
            Fx { raw: 0 }
        };
    }
    let neg: bool = (a.raw < 0) != (b.raw < 0);
    let ua: u64 = abs_u64(a.raw);
    let ub: u64 = abs_u64(b.raw);
    proof {
        assert((ua as int) * (FX_ONE as int) <= 0x8000_0000_0000_0000 * 0x1_0000_0000)
            by (nonlinear_arith)
            requires
                ua as int <= 0x8000_0000_0000_0000,
                0 <= ua as int,
        ;
    }
    let p: u128 = (ua as u128) * (FX_ONE as u128);
    let q: u128 = p / (ub as u128);
    if neg {
        if q >= 0x8000_0000_0000_0000u128 {
            Fx { raw: i64::MIN }
        } else {
            Fx { raw: -(q as i64) }
        }
    } else {
        if q > i64::MAX as u128 {
            Fx { raw: i64::MAX }
        } else {
            Fx { raw: q as i64 }
        }
    }
}

/// ln 2 as a raw fixed-point word.
pub const FX_LN2: i64 = 2977044472;

/// 1 / ln 2 as a raw fixed-point word.
pub const FX_INV_LN2: i64 = 6196328019;

/// Above this argument the exponential no longer fits the scalar range and
/// saturates (21 in fixed point).
pub const FX_EXP_HI: i64 = 90194313216;

/// Below this argument the exponential rounds to zero (-23 in fixed point).
pub const FX_EXP_LO: i64 = -98784247808;

/// Clamping to a closed interval.
pub open spec fn clamp_i_s(v: int, lo: int, hi: int) -> int {
    if v < lo {
        lo
    } else if v > hi {
        hi
    } else {
        v
    }
}

/// Floor division of a raw word by `FX_ONE`.
pub open spec fn floor_div_one_s(t: int) -> int {
    t / (FX_ONE as int)
}

/// The integer `n` of the exponential's range reduction
/// `x = n ln 2 + r`: the nearest integer to `x / ln 2`, clamped.
pub open spec fn exp_n_s(x: int) -> int {
    clamp_i_s(floor_div_one_s(fx_add_s(fx_mul_s(x, FX_INV_LN2 as int), FX_HALF as int)), -34, 34)
}

/// The reduced argument `r = x - n ln 2` of the exponential.
pub open spec fn exp_r_s(x: int) -> int {
    fx_sub_s(x, exp_n_s(x) * (FX_LN2 as int))
}

/// The Taylor polynomial of the exponential on the reduced argument,
/// evaluated by Horner's rule in fixed point. The coefficients are
/// `FX_ONE / k!` rounded to the nearest raw word, for `k` up to 13.
pub open spec fn exp_poly_s(r: int) -> int {
    let p = 1int;
    let p = fx_add_s(fx_mul_s(p, r), 9);
    let p = fx_add_s(fx_mul_s(p, r), 108);
    let p = fx_add_s(fx_mul_s(p, r), 1184);
    let p = fx_add_s(fx_mul_s(p, r), 11836);
    let p = fx_add_s(fx_mul_s(p, r), 106522);
    let p = fx_add_s(fx_mul_s(p, r), 852176);
    let p = fx_add_s(fx_mul_s(p, r), 5965232);
    let p = fx_add_s(fx_mul_s(p, r), 35791394);
    let p = fx_add_s(fx_mul_s(p, r), 178956971);
    let p = fx_add_s(fx_mul_s(p, r), 715827883);
    let p = fx_add_s(fx_mul_s(p, r), 2147483648);
    let p = fx_add_s(fx_mul_s(p, r), 4294967296);
    let p = fx_add_s(fx_mul_s(p, r), 4294967296);
    p
}

/// Scaling by a power of two, as iterated saturating doubling (positive `n`)
/// or halving toward zero (negative `n`).
pub open spec fn scale2_s(v: int, n: int) -> int
    decreases abs_s(n),
{
    if n > 0 {
        scale2_s(fx_add_s(v, v), n - 1)
    } else if n < 0 {
        scale2_s(fx_mul_s(v, FX_HALF as int), n + 1)
    } else {
        v
    }
}

/// The fixed-point exponential: saturates above `FX_EXP_HI`, is zero below
/// `FX_EXP_LO`, and otherwise scales the Taylor polynomial of the reduced
/// argument by two to the reduction integer.
pub open spec fn fx_exp_s(x: int) -> int {
    if x >= FX_EXP_HI as int {
        i64::MAX as int
    } else if x <= FX_EXP_LO as int {
        0
    } else {
        scale2_s(exp_poly_s(exp_r_s(x)), exp_n_s(x))
    }
}

/// Floor division of a raw word by `FX_ONE`.
fn floor_div_one(t: i64) -> (q: i64)
    ensures
        q as int == floor_div_one_s(t as int),
{
    if t >= 0 {
        ((t as u64) / (FX_ONE as u64)) as i64
    } else {
        let m: u64 = (-(t as i128)) as u64;
        let a: u64 = m / (FX_ONE as u64);
        let b: u64 = m % (FX_ONE as u64);
        if b == 0 {
            proof {
                lemma_fundamental_div_mod(m as int, FX_ONE as int);
                assert(t as int == -(a as int) * (FX_ONE as int)) by (nonlinear_arith)
                    requires
                        m as int == a as int * (FX_ONE as int) + b as int,
                        b as int == 0,
                        t as int == -(m as int),
                ;
                assert((-(a as int) * (FX_ONE as int)) / (FX_ONE as int) == -(a as int))
                    by (nonlinear_arith);
            }
            -(a as i64)
        } else {
            proof {
                lemma_fundamental_div_mod(m as int, FX_ONE as int);
                assert(t as int == (-(a as int) - 1) * (FX_ONE as int) + (FX_ONE as int
                    - b as int)) by (nonlinear_arith)
                    requires
                        m as int == a as int * (FX_ONE as int) + b as int,
                        t as int == -(m as int),
                ;
                assert(((-(a as int) - 1) * (FX_ONE as int) + (FX_ONE as int - b as int)) / (
                FX_ONE as int) == -(a as int) - 1) by (nonlinear_arith)
                    requires
                        0 < (FX_ONE as int) - (b as int),
                        (FX_ONE as int) - (b as int) < (FX_ONE as int),
                ;
            }
            -(a as i64) - 1
        }
    }
}

/// Clamping to a closed interval.
fn clamp_i(v: i64, lo: i64, hi: i64) -> (r: i64)
    requires
        lo <= hi,
    ensures
        r as int == clamp_i_s(v as int, lo as int, hi as int),
{
    if v < lo {
        lo
    } else if v > hi {
        hi
    } else {
        v
    }
}

/// The fixed-point exponential.
pub fn fx_exp(x: Fx) -> (r: Fx)
    ensures
        r.raw == fx_exp_s(x.raw as int),
{
    if x.raw >= FX_EXP_HI {
        return Fx { raw: i64::MAX };
    }
    if x.raw <= FX_EXP_LO {
        return Fx { raw: 0 };
    }
    let k = fx_mul(x, Fx { raw: FX_INV_LN2 });
    let t = fx_add(k, Fx { raw: FX_HALF });
    let n0 = floor_div_one(t.raw);
    let n = clamp_i(n0, -34, 34);
    proof {
        assert(n as int == exp_n_s(x.raw as int));
    }
    let r0 = fx_sub(x, Fx { raw: n * FX_LN2 });
    let p = Fx { raw: 1 };
    let p = fx_add(fx_mul(p, r0), Fx { raw: 9 });
    let p = fx_add(fx_mul(p, r0), Fx { raw: 108 });
    let p = fx_add(fx_mul(p, r0), Fx { raw: 1184 });
    let p = fx_add(fx_mul(p, r0), Fx { raw: 11836 });
    let p = fx_add(fx_mul(p, r0), Fx { raw: 106522 });
    let p = fx_add(fx_mul(p, r0), Fx { raw: 852176 });
    let p = fx_add(fx_mul(p, r0), Fx { raw: 5965232 });
    let p = fx_add(fx_mul(p, r0), Fx { raw: 35791394 });
    let p = fx_add(fx_mul(p, r0), Fx { raw: 178956971 });
    let p = fx_add(fx_mul(p, r0), Fx { raw: 715827883 });
    let p = fx_add(fx_mul(p, r0), Fx { raw: 2147483648 });
    let p = fx_add(fx_mul(p, r0), Fx { raw: 4294967296 });
    let p = fx_add(fx_mul(p, r0), Fx { raw: 4294967296 });
    proof {
        assert(p.raw as int == exp_poly_s(exp_r_s(x.raw as int)));
    }
    let mut v = p;
    if n >= 0 {
        let mut i: i64 = n;
        while i > 0
            invariant
                0 <= i,
                scale2_s(v.raw as int, i as int) == scale2_s(
                    exp_poly_s(exp_r_s(x.raw as int)),
                    exp_n_s(x.raw as int),
                ),
            decreases i,
        {
            v = fx_add(v, v);
            i = i - 1;
        }
    } else {
        let mut i: i64 = n;
        while i < 0
            invariant
                i <= 0,
                scale2_s(v.raw as int, i as int) == scale2_s(
                    exp_poly_s(exp_r_s(x.raw as int)),
                    exp_n_s(x.raw as int),
                ),
            decreases -i,
        {
            v = fx_mul(v, Fx { raw: FX_HALF });
            i = i + 1;
        }
    }
    v
}

/// Normalisation of a raw word below `FX_ONE` by doubling, with explicit
/// fuel: yields the mantissa and the (negative) count of doublings undone.
pub open spec fn norm_up_s(v: int, fuel: nat) -> (int, int)
    decreases fuel,
{
    if fuel == 0 || v < 1 || v >= FX_ONE as int {
        (v, 0)
    } else {
        let (m, k) = norm_up_s(2 * v, (fuel - 1) as nat);
        (m, k - 1)
    }
}

/// Normalisation of a raw word at or above `2 * FX_ONE` by halving, with
/// explicit fuel: yields the mantissa and the count of halvings.
pub open spec fn norm_down_s(v: int, fuel: nat) -> (int, int)
    decreases fuel,
{
    if fuel == 0 || v < 2 * (FX_ONE as int) {
        (v, 0)
    } else {
        let (m, k) = norm_down_s(v / 2, (fuel - 1) as nat);
        (m, k + 1)
    }
}

/// The mantissa-and-exponent pair of a positive raw word: the mantissa lies
/// in `[FX_ONE, 2 * FX_ONE)` and the word equals mantissa times two to the
/// exponent, up to the truncation of halving.
pub open spec fn ln_pair_s(x: int) -> (int, int) {
    if x < FX_ONE as int {
        norm_up_s(x, 64)
    } else {
        norm_down_s(x, 64)
    }
}

/// The odd-power series of the hyperbolic arctangent, evaluated by Horner's
/// rule on the squared argument. The coefficients are `FX_ONE / (2j + 1)`
/// rounded to the nearest raw word, for `j` up to 9.
pub open spec fn ln_poly_s(w: int) -> int {
    let p = 226050910int;
    let p = fx_add_s(fx_mul_s(p, w), 252645135);
    let p = fx_add_s(fx_mul_s(p, w), 286331153);
    let p = fx_add_s(fx_mul_s(p, w), 330382100);
    let p = fx_add_s(fx_mul_s(p, w), 390451572);
    let p = fx_add_s(fx_mul_s(p, w), 477218588);
    let p = fx_add_s(fx_mul_s(p, w), 613566757);
    let p = fx_add_s(fx_mul_s(p, w), 858993459);
    let p = fx_add_s(fx_mul_s(p, w), 1431655765);
    let p = fx_add_s(fx_mul_s(p, w), 4294967296);
    p
}

/// The fixed-point natural logarithm. Nonpositive arguments saturate to the
/// smallest raw word, standing in for minus infinity; positive arguments are
/// normalised to a mantissa in `[1, 2)` whose logarithm is taken as twice the
/// hyperbolic arctangent of `(m - 1) / (m + 1)`, plus the exponent times
/// ln 2.
pub open spec fn fx_ln_s(x: int) -> int {
    if x <= 0 {
        i64::MIN as int
    } else {
        let m = ln_pair_s(x).0;
        let k = ln_pair_s(x).1;
        let z = fx_div_s(fx_sub_s(m, FX_ONE as int), fx_add_s(m, FX_ONE as int));
        let s = fx_mul_s(z, ln_poly_s(fx_mul_s(z, z)));
        fx_add_s(fx_add_s(s, s), clamp_i_s(k, -63, 63) * (FX_LN2 as int))
    }
}

/// The fixed-point natural logarithm.
pub fn fx_ln(x: Fx) -> (r: Fx)
    ensures
        r.raw == fx_ln_s(x.raw as int),
{
    if x.raw <= 0 {
        return Fx { raw: i64::MIN };
    }
    let mut v: i64 = x.raw;
    let mut k: i64 = 0;
    if v < FX_ONE {
        let mut j: u64 = 64;
        while v < FX_ONE && j > 0
            invariant
                1 <= v,
                v < 2 * (FX_ONE as int),
                j <= 64,
                k as int == j as int - 64,
                norm_up_s(x.raw as int, 64).0 == norm_up_s(v as int, j as nat).0,
                norm_up_s(x.raw as int, 64).1 == norm_up_s(v as int, j as nat).1 + k,
            decreases j,
        {
            v = v + v;
            k = k - 1;
            j = j - 1;
        }
        proof {
            assert(norm_up_s(v as int, j as nat) == (v as int, 0int));
        }
    } else {
        let mut j: u64 = 64;
        while v >= 2 * FX_ONE && j > 0
            invariant
                1 <= v,
                j <= 64,
                k as int == 64 - j as int,
                norm_down_s(x.raw as int, 64).0 == norm_down_s(v as int, j as nat).0,
                norm_down_s(x.raw as int, 64).1 == norm_down_s(v as int, j as nat).1 + k,
            decreases j,
        {
            v = ((v as u64) / 2) as i64;
            k = k + 1;
            j = j - 1;
        }
        proof {
            assert(norm_down_s(v as int, j as nat) == (v as int, 0int));
        }
    }
    let m = Fx { raw: v };
    let z = fx_div(fx_sub(m, Fx { raw: FX_ONE }), fx_add(m, Fx { raw: FX_ONE }));
    let w = fx_mul(z, z);
    let p = Fx { raw: 226050910 };
    let p = fx_add(fx_mul(p, w), Fx { raw: 252645135 });
    let p = fx_add(fx_mul(p, w), Fx { raw: 286331153 });
    let p = fx_add(fx_mul(p, w), Fx { raw: 330382100 });
    let p = fx_add(fx_mul(p, w), Fx { raw: 390451572 });
    let p = fx_add(fx_mul(p, w), Fx { raw: 477218588 });
    let p = fx_add(fx_mul(p, w), Fx { raw: 613566757 });
    let p = fx_add(fx_mul(p, w), Fx { raw: 858993459 });
    let p = fx_add(fx_mul(p, w), Fx { raw: 1431655765 });
    let p = fx_add(fx_mul(p, w), Fx { raw: 4294967296 });
    let s = fx_mul(z, p);
    let s2 = fx_add(s, s);
    let kc = clamp_i(k, -63, 63);
    fx_add(s2, Fx { raw: kc * FX_LN2 })
}

/// The logistic function `1 / (1 + exp(-x))` in fixed point.
pub open spec fn fx_sigmoid_s(x: int) -> int {
    fx_div_s(FX_ONE as int, fx_add_s(FX_ONE as int, fx_exp_s(fx_neg_s(x))))
}

/// The logistic function `1 / (1 + exp(-x))`.
pub fn fx_sigmoid(x: Fx) -> (r: Fx)
    ensures
        r.raw == fx_sigmoid_s(x.raw as int),
{
    let e = fx_exp(fx_neg(x));
    fx_div(Fx { raw: FX_ONE }, fx_add(Fx { raw: FX_ONE }, e))
}

/// The hyperbolic tangent `(exp(2x) - 1) / (exp(2x) + 1)` in fixed point.
pub open spec fn fx_tanh_s(x: int) -> int {
    let t = fx_exp_s(fx_add_s(x, x));
    fx_div_s(fx_sub_s(t, FX_ONE as int), fx_add_s(t, FX_ONE as int))
}

/// The hyperbolic tangent `(exp(2x) - 1) / (exp(2x) + 1)`.
pub fn fx_tanh(x: Fx) -> (r: Fx)
    ensures
        r.raw == fx_tanh_s(x.raw as int),
{
    let t = fx_exp(fx_add(x, x));
    fx_div(fx_sub(t, Fx { raw: FX_ONE }), fx_add(t, Fx { raw: FX_ONE }))
}

} // verus!
