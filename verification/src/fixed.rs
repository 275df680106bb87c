use vstd::prelude::*;
use vstd::arithmetic::div_mod::{lemma_fundamental_div_mod, lemma_div_is_ordered};

verus! {

/// One unit of the fixed-point encoding: every sample and parameter is an
/// `i64` holding the real value times `SCALE`.
pub const SCALE: i64 = 65536;

/// The per-frame time step, 0.016 units in fixed-point form.
pub const DT: i64 = 1049;

/// Bound kept on every density and velocity sample.
pub const VMAX: i64 = 4294967296;

/// Bound kept on every divergence sample (two velocity differences halved).
pub const DIVMAX: i64 = 8589934592;

/// Bound kept on every pressure sample across the relaxation iterations.
pub const PMAX: i64 = 8796093022208;

/// Largest accepted grid dimension, so that flat indices fit comfortably.
pub const GRID_MAX: usize = 16384;

/// Clamping of a value into an interval.
pub open spec fn clamp_spec(v: int, lo: int, hi: int) -> int {
    if v < lo {
        lo
    } else if v > hi {
        hi
    } else {
        v
    }
}

pub fn clamp64(v: i64, lo: i64, hi: i64) -> (r: i64)
    requires
        lo <= hi,
    ensures
        r == clamp_spec(v as int, lo as int, hi as int),
{
    if v < lo {
        lo
    } else if v > hi {
        hi
    } else {
        v
    }
}

/// For a positive divisor, flooring division stays between the dividend and
/// zero; in particular it never leaves the `i64` range.
pub proof fn lemma_div_range(a: int, d: int)
    requires
        1 <= d,
    ensures
        a >= 0 ==> 0 <= a / d <= a,
        a < 0 ==> a <= a / d <= 0,
{
    lemma_fundamental_div_mod(a, d);
    let q = a / d;
    let r = a % d;
    assert(0 <= r < d);
    vstd::arithmetic::div_mod::lemma_div_of0(d);
    if a >= 0 {
        lemma_div_is_ordered(0, a, d);
        assert(q <= d * q + r) by (nonlinear_arith)
            requires
                d >= 1,
                q >= 0,
                r >= 0,
        ;
    } else {
        lemma_div_is_ordered(a, 0, d);
        assert(d * q + r <= q) by (nonlinear_arith)
            requires
                d >= 1,
                0 <= r < d,
                d * q + r < 0,
        ;
    }
}

/// Division is monotone in the dividend (positive divisor).
pub proof fn lemma_div_mono(a: int, b: int, d: int)
    requires
        1 <= d,
        a <= b,
    ensures
        a / d <= b / d,
{
    lemma_div_is_ordered(a, b, d);
}

/// Flooring division by a positive divisor; in contracts it is the
/// mathematical `/` of the specification language.
pub fn fdiv(a: i64, d: i64) -> (r: i64)
    requires
        1 <= d,
    ensures
        r == a as int / d as int,
{
    proof {
        lemma_div_range(a as int, d as int);
    }
    a.checked_div_euclid(d).unwrap()
}

/// A quotient is bounded by `m` whenever its dividend is within `d * m`.
pub proof fn lemma_div_bound_sym(v: int, d: int, m: int)
    requires
        1 <= d,
        0 <= m,
        -(d * m) <= v <= d * m,
    ensures
        -m <= v / d <= m,
{
    lemma_div_mono(v, d * m, d);
    lemma_div_mono(-(d * m), v, d);
    assert(d * m / d == m) by {
        vstd::arithmetic::div_mod::lemma_div_multiples_vanish(m, d);
    }
    assert(-(d * m) == d * (-m)) by (nonlinear_arith);
    assert(d * (-m) / d == -m) by {
        vstd::arithmetic::div_mod::lemma_div_multiples_vanish(-m, d);
    }
}

/// Scaling a value by a factor of at most one (in fixed-point form) keeps it
/// between zero and the value itself.
pub proof fn lemma_scale_range(v: int, d: int)
    requires
        0 <= d <= SCALE as int,
    ensures
        v >= 0 ==> 0 <= v * d / (SCALE as int) <= v,
        v < 0 ==> v <= v * d / (SCALE as int) <= 0,
{
    let s = SCALE as int;
    if v >= 0 {
        assert(0 <= v * d <= s * v) by (nonlinear_arith)
            requires
                0 <= d <= s,
                v >= 0,
        ;
        lemma_div_range(v * d, s);
        lemma_div_mono(v * d, s * v, s);
        assert(s * v / s == v) by {
            vstd::arithmetic::div_mod::lemma_div_multiples_vanish(v, s);
        }
    } else {
        assert(s * v <= v * d <= 0) by (nonlinear_arith)
            requires
                0 <= d <= s,
                v < 0,
        ;
        lemma_div_range(v * d, s);
        lemma_div_mono(s * v, v * d, s);
        assert(s * v / s == v) by {
            vstd::arithmetic::div_mod::lemma_div_multiples_vanish(v, s);
        }
    }
}

/// Linear interpolation from `a` to `b` with weight `t / SCALE`.
pub open spec fn lerp_spec(a: int, b: int, t: int) -> int {
    a + t * (b - a) / (SCALE as int)
}

/// The interpolant stays between the two endpoints when the weight lies in
/// `[0, SCALE]`.
pub proof fn lemma_lerp_bounds(a: int, b: int, t: int)
    requires
        0 <= t <= SCALE as int,
    ensures
        a <= b ==> a <= lerp_spec(a, b, t) <= b,
        a > b ==> b <= lerp_spec(a, b, t) <= a,
{
    let s = SCALE as int;
    if a <= b {
        assert(0 <= t * (b - a) <= s * (b - a)) by (nonlinear_arith)
            requires
                0 <= t <= s,
                b - a >= 0,
        ;
        lemma_div_range(t * (b - a), s);
        lemma_div_mono(t * (b - a), s * (b - a), s);
        assert(s * (b - a) / s == b - a) by {
            vstd::arithmetic::div_mod::lemma_div_multiples_vanish(b - a, s);
        }
    } else {
        assert(s * (b - a) <= t * (b - a) <= 0) by (nonlinear_arith)
            requires
                0 <= t <= s,
                b - a < 0,
        ;
        lemma_div_range(t * (b - a), s);
        lemma_div_mono(s * (b - a), t * (b - a), s);
        assert(s * (b - a) / s == b - a) by {
            vstd::arithmetic::div_mod::lemma_div_multiples_vanish(b - a, s);
        }
    }
}

/// Linear interpolation from `a` to `b` with fixed-point weight `t`.
pub fn lerp64(a: i64, b: i64, t: i64) -> (r: i64)
    requires
        0 <= t <= SCALE,
        -VMAX <= a <= VMAX,
        -VMAX <= b <= VMAX,
    ensures
        r == lerp_spec(a as int, b as int, t as int),
        -VMAX <= r <= VMAX,
{
    proof {
        lemma_lerp_bounds(a as int, b as int, t as int);
        assert(-(2 * 4294967296 * 65536) <= t * (b - a) <= 2 * 4294967296 * 65536)
            by (nonlinear_arith)
            requires
                0 <= t <= 65536,
                -4294967296 <= a <= 4294967296,
                -4294967296 <= b <= 4294967296,
        ;
    }
    let diff = b - a;
    let num = t * diff;
    a + fdiv(num, SCALE)
}

} // verus!
