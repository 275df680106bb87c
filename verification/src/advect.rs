use vstd::prelude::*;
use crate::fixed::{
    SCALE, DT, VMAX, GRID_MAX, clamp_spec, clamp64, fdiv, lerp_spec, lerp64, lemma_div_range,
    lemma_div_mono, lemma_scale_range, lemma_lerp_bounds,
};
use crate::grid::{idx3, flat_x, flat_y, flat_c, lemma_idx3_bounds, lemma_flat_split, index3, split_index};
use crate::field::bounded;
use vstd::arithmetic::div_mod::{
    lemma_fundamental_div_mod, lemma_div_multiples_vanish, lemma_mod_multiples_basic,
};
use crate::field::zeros;

verus! {

/// Channel `c` of cell `(x, y)` of a flat `ch`-channel buffer.
pub open spec fn cell_at(f: Seq<i64>, w: int, ch: int, x: int, y: int, c: int) -> int {
    f[idx3(w, ch, x, y, c)] as int
}

/// Bilinear sample of channel `c` at the fixed-point position `(px, py)`,
/// clamped to the grid: positions outside the grid read the nearest boundary
/// cell.
pub open spec fn bilinear_spec(f: Seq<i64>, w: int, h: int, ch: int, px: int, py: int, c: int) -> int {
    let s = SCALE as int;
    let cpx = clamp_spec(px, 0, (w - 1) * s);
    let cpy = clamp_spec(py, 0, (h - 1) * s);
    let x0 = cpx / s;
    let y0 = cpy / s;
    let fx = cpx % s;
    let fy = cpy % s;
    let x1 = if x0 + 1 < w { x0 + 1 } else { w - 1 };
    let y1 = if y0 + 1 < h { y0 + 1 } else { h - 1 };
    lerp_spec(
        lerp_spec(cell_at(f, w, ch, x0, y0, c), cell_at(f, w, ch, x1, y0, c), fx),
        lerp_spec(cell_at(f, w, ch, x0, y1, c), cell_at(f, w, ch, x1, y1, c), fx),
        fy,
    )
}

/// Value written by semi-Lagrangian advection at flat position `i`: backtrace
/// from the cell along the velocity there, sample the carried field at the
/// source position, and apply the decay factor.
pub open spec fn advect_cell(
    vel: Seq<i64>,
    f: Seq<i64>,
    w: int,
    h: int,
    ch: int,
    decay: int,
    i: int,
) -> int {
    let s = SCALE as int;
    let x = flat_x(i, w, ch);
    let y = flat_y(i, w, ch);
    let c = flat_c(i, ch);
    let vx = cell_at(vel, w, 2, x, y, 0);
    let vy = cell_at(vel, w, 2, x, y, 1);
    let px = x * s - (DT as int) * vx / s;
    let py = y * s - (DT as int) * vy / s;
    bilinear_spec(f, w, h, ch, px, py, c) * decay / s
}

/// The advected buffer as a whole.
pub open spec fn advected(vel: Seq<i64>, f: Seq<i64>, w: int, h: int, ch: int, decay: int) -> Seq<i64> {
    Seq::new((w * h * ch) as nat, |i: int| advect_cell(vel, f, w, h, ch, decay, i) as i64)
}

/// A clamped fixed-point position decomposes into an in-range cell and an
/// in-range fraction.
pub proof fn lemma_sample_cell_range(w: int, h: int, cpx: int, cpy: int)
    requires
        1 <= w,
        1 <= h,
        0 <= cpx <= (w - 1) * (SCALE as int),
        0 <= cpy <= (h - 1) * (SCALE as int),
    ensures
        0 <= cpx / (SCALE as int) <= w - 1,
        0 <= cpy / (SCALE as int) <= h - 1,
        0 <= cpx % (SCALE as int) < SCALE as int,
        0 <= cpy % (SCALE as int) < SCALE as int,
{
    let s = SCALE as int;
    lemma_div_range(cpx, s);
    lemma_div_range(cpy, s);
    lemma_div_mono(cpx, (w - 1) * s, s);
    lemma_div_mono(cpy, (h - 1) * s, s);
    assert((w - 1) * s == s * (w - 1)) by (nonlinear_arith);
    assert((h - 1) * s == s * (h - 1)) by (nonlinear_arith);
    lemma_div_multiples_vanish(w - 1, s);
    lemma_div_multiples_vanish(h - 1, s);
    lemma_fundamental_div_mod(cpx, s);
    lemma_fundamental_div_mod(cpy, s);
}

/// Bilinear sample of channel `c` of `f` at the fixed-point position
/// `(px, py)`, clamped to the grid.
pub fn bilinear(f: &Vec<i64>, w: usize, h: usize, ch: usize, px: i64, py: i64, c: usize) -> (r: i64)
    requires
        1 <= w <= GRID_MAX,
        1 <= h <= GRID_MAX,
        1 <= ch <= 4,
        c < ch,
        f@.len() == w * h * ch,
        bounded(f@, VMAX as int),
    ensures
        r == bilinear_spec(f@, w as int, h as int, ch as int, px as int, py as int, c as int),
        -VMAX <= r <= VMAX,
{
    proof {
        assert((w - 1) * (SCALE as int) <= 16383 * 65536) by (nonlinear_arith)
            requires
                1 <= w <= 16384,
        ;
        assert((h - 1) * (SCALE as int) <= 16383 * 65536) by (nonlinear_arith)
            requires
                1 <= h <= 16384,
        ;
    }
    let cpx = clamp64(px, 0, ((w - 1) as i64) * SCALE);
    let cpy = clamp64(py, 0, ((h - 1) as i64) * SCALE);
    let x0i = fdiv(cpx, SCALE);
    let y0i = fdiv(cpy, SCALE);
    proof {
        lemma_sample_cell_range(w as int, h as int, cpx as int, cpy as int);
        lemma_fundamental_div_mod(cpx as int, SCALE as int);
        lemma_fundamental_div_mod(cpy as int, SCALE as int);
    }
    let fx = cpx - x0i * SCALE;
    let fy = cpy - y0i * SCALE;
    let x0 = x0i as usize;
    let y0 = y0i as usize;
    let x1 = if x0 + 1 < w { x0 + 1 } else { w - 1 };
    let y1 = if y0 + 1 < h { y0 + 1 } else { h - 1 };
    proof {
        lemma_idx3_bounds(w as int, h as int, ch as int, x0 as int, y0 as int, c as int);
        lemma_idx3_bounds(w as int, h as int, ch as int, x1 as int, y0 as int, c as int);
        lemma_idx3_bounds(w as int, h as int, ch as int, x0 as int, y1 as int, c as int);
        lemma_idx3_bounds(w as int, h as int, ch as int, x1 as int, y1 as int, c as int);
    }
    let v00 = f[index3(w, ch, x0, y0, c)];
    let v10 = f[index3(w, ch, x1, y0, c)];
    let v01 = f[index3(w, ch, x0, y1, c)];
    let v11 = f[index3(w, ch, x1, y1, c)];
    let top = lerp64(v00, v10, fx);
    let bot = lerp64(v01, v11, fx);
    lerp64(top, bot, fy)
}

/// Total ink held in a buffer.
pub open spec fn total(s: Seq<i64>) -> int
    decreases s.len(),
{
    if s.len() == 0 {
        0
    } else {
        s[0] + total(s.drop_first())
    }
}

/// A pointwise-dominated buffer has a dominated total.
pub proof fn lemma_total_le(a: Seq<i64>, b: Seq<i64>)
    requires
        a.len() == b.len(),
        forall|i: int| 0 <= i < a.len() ==> #[trigger] a[i] <= b[i],
    ensures
        total(a) <= total(b),
    decreases a.len(),
{
    if a.len() > 0 {
        assert forall|i: int| 0 <= i < a.drop_first().len() implies
            #[trigger] a.drop_first()[i] <= b.drop_first()[i] by {
            assert(a[i + 1] <= b[i + 1]);
        }
        lemma_total_le(a.drop_first(), b.drop_first());
    }
}

/// Bilinear sampling at a cell's own fixed-point coordinates returns that
/// cell's sample exactly.
pub proof fn lemma_exact_sample(f: Seq<i64>, w: int, h: int, ch: int, x: int, y: int, c: int)
    requires
        1 <= w,
        1 <= h,
        1 <= ch <= 4,
        0 <= x < w,
        0 <= y < h,
        0 <= c < ch,
        f.len() == w * h * ch,
    ensures
        bilinear_spec(f, w, h, ch, x * (SCALE as int), y * (SCALE as int), c)
            == cell_at(f, w, ch, x, y, c),
{
    let s = SCALE as int;
    assert(0 <= x * s && x * s <= (w - 1) * s && 0 <= y * s && y * s <= (h - 1) * s)
        by (nonlinear_arith)
        requires
            0 <= x <= w - 1,
            0 <= y <= h - 1,
            s == 65536,
    ;
    assert(x * s == s * x && y * s == s * y) by (nonlinear_arith);
    lemma_div_multiples_vanish(x, s);
    lemma_div_multiples_vanish(y, s);
    lemma_mod_multiples_basic(x, s);
    lemma_mod_multiples_basic(y, s);
    assert((x * s) / s == x && (y * s) / s == y);
    assert((x * s) % s == 0 && (y * s) % s == 0);
    let v00 = cell_at(f, w, ch, x, y, c);
    assert(lerp_spec(v00, cell_at(f, w, ch, if x + 1 < w { x + 1 } else { w - 1 }, y, c), 0) == v00);
}

/// With the velocity everywhere zero and an ink decay of at most one, one
/// advection pass leaves every nonnegative density sample between zero and
/// its old value, so the total ink does not increase.  (Under a moving
/// velocity field the total can grow: several cells may backtrace into the
/// same bright source cell.)
pub proof fn lemma_advect_ink_bound(den: Seq<i64>, w: int, h: int, decay: int)
    requires
        1 <= w <= GRID_MAX as int,
        1 <= h <= GRID_MAX as int,
        den.len() == w * h * 4,
        forall|i: int| 0 <= i < den.len() ==> 0 <= #[trigger] den[i] <= VMAX as int,
        0 < decay <= SCALE as int,
    ensures
        forall|i: int| 0 <= i < w * h * 4 ==>
            0 <= #[trigger] advected(zeros(w * h * 2), den, w, h, 4, decay)[i] <= den[i],
        total(advected(zeros(w * h * 2), den, w, h, 4, decay)) <= total(den),
{
    let vel = zeros(w * h * 2);
    let out = advected(vel, den, w, h, 4, decay);
    let s = SCALE as int;
    assert forall|i: int| 0 <= i < w * h * 4 implies 0 <= #[trigger] out[i] <= den[i] by {
        lemma_flat_split(w, h, 4, i);
        let x = flat_x(i, w, 4);
        let y = flat_y(i, w, 4);
        let c = flat_c(i, 4);
        lemma_idx3_bounds(w, h, 2, x, y, 0);
        lemma_idx3_bounds(w, h, 2, x, y, 1);
        assert(cell_at(vel, w, 2, x, y, 0) == 0);
        assert(cell_at(vel, w, 2, x, y, 1) == 0);
        assert((DT as int) * 0 == 0 && 0int / s == 0);
        lemma_exact_sample(den, w, h, 4, x, y, c);
        assert(bilinear_spec(den, w, h, 4, x * s, y * s, c) == den[i]);
        lemma_scale_range(den[i] as int, decay);
        assert(advect_cell(vel, den, w, h, 4, decay, i) == den[i] * decay / s);
    }
    lemma_total_le(out, den);
}

/// The advection-only evolution of an ink field under zero velocity.
pub open spec fn advect_only(den: Seq<i64>, w: int, h: int, decay: int, n: nat) -> Seq<i64>
    decreases n,
{
    if n == 0 {
        den
    } else {
        advected(zeros(w * h * 2), advect_only(den, w, h, decay, (n - 1) as nat), w, h, 4, decay)
    }
}

/// Repeated advection-only steps keep every sample nonnegative and in range,
/// and the total ink monotonically non-increasing step over step.
pub proof fn lemma_ink_monotone(den: Seq<i64>, w: int, h: int, decay: int, n: nat)
    requires
        1 <= w <= GRID_MAX as int,
        1 <= h <= GRID_MAX as int,
        den.len() == w * h * 4,
        forall|i: int| 0 <= i < den.len() ==> 0 <= #[trigger] den[i] <= VMAX as int,
        0 < decay <= SCALE as int,
    ensures
        advect_only(den, w, h, decay, n).len() == w * h * 4,
        forall|i: int| 0 <= i < w * h * 4 ==>
            0 <= #[trigger] advect_only(den, w, h, decay, n)[i] <= VMAX as int,
        total(advect_only(den, w, h, decay, n)) <= total(den),
        n > 0 ==> total(advect_only(den, w, h, decay, n))
            <= total(advect_only(den, w, h, decay, (n - 1) as nat)),
    decreases n,
{
    if n > 0 {
        lemma_ink_monotone(den, w, h, decay, (n - 1) as nat);
        let prev = advect_only(den, w, h, decay, (n - 1) as nat);
        lemma_advect_ink_bound(prev, w, h, decay);
        assert forall|i: int| 0 <= i < w * h * 4 implies
            0 <= #[trigger] advect_only(den, w, h, decay, n)[i] <= VMAX as int by {
            assert(0 <= advected(zeros(w * h * 2), prev, w, h, 4, decay)[i] <= prev[i]);
        }
    }
}

/// Transports the `ch`-channel buffer `f` along the velocity buffer `vel`
/// (both over a `w` by `h` grid), applying the decay factor to every sample.
pub fn advect_field(vel: &Vec<i64>, f: &Vec<i64>, w: usize, h: usize, ch: usize, decay: i64) -> (r: Vec<i64>)
    requires
        1 <= w <= GRID_MAX,
        1 <= h <= GRID_MAX,
        1 <= ch <= 4,
        vel@.len() == w * h * 2,
        f@.len() == w * h * ch,
        bounded(vel@, VMAX as int),
        bounded(f@, VMAX as int),
        0 < decay <= SCALE,
    ensures
        r@ == advected(vel@, f@, w as int, h as int, ch as int, decay as int),
        r@.len() == w * h * ch,
        bounded(r@, VMAX as int),
{
    let len = f.len();
    let mut out: Vec<i64> = Vec::with_capacity(len);
    proof {
        assert(w * h * ch <= 16384 * 16384 * 4) by (nonlinear_arith)
            requires
                1 <= w <= 16384 && 1 <= h <= 16384 && 1 <= ch <= 4,
        ;
    }
    for i in 0..len
        invariant
            out@.len() == i,
            len == w * h * ch,
            1 <= w <= GRID_MAX,
            1 <= h <= GRID_MAX,
            1 <= ch <= 4,
            vel@.len() == w * h * 2,
            f@.len() == w * h * ch,
            bounded(vel@, VMAX as int),
            bounded(f@, VMAX as int),
            0 < decay <= SCALE,
            forall|j: int| 0 <= j < i ==>
                out@[j] == #[trigger] advect_cell(vel@, f@, w as int, h as int, ch as int, decay as int, j),
            bounded(out@, VMAX as int),
    {
        let (x, y, c) = split_index(i, w, ch);
        proof {
            lemma_flat_split(w as int, h as int, ch as int, i as int);
            lemma_idx3_bounds(w as int, h as int, 2, x as int, y as int, 0);
            lemma_idx3_bounds(w as int, h as int, 2, x as int, y as int, 1);
        }
        let vx = vel[index3(w, 2, x, y, 0)];
        let vy = vel[index3(w, 2, x, y, 1)];
        proof {
            assert(-(1049 * 4294967296) <= (DT as int) * (vx as int) <= 1049 * 4294967296)
                by (nonlinear_arith)
                requires
                    -4294967296 <= vx <= 4294967296,
            ;
            assert(-(1049 * 4294967296) <= (DT as int) * (vy as int) <= 1049 * 4294967296)
                by (nonlinear_arith)
                requires
                    -4294967296 <= vy <= 4294967296,
            ;
            lemma_div_range((DT as int) * (vx as int), SCALE as int);
            lemma_div_range((DT as int) * (vy as int), SCALE as int);
        }
        let px = (x as i64) * SCALE - fdiv(DT * vx, SCALE);
        let py = (y as i64) * SCALE - fdiv(DT * vy, SCALE);
        let sampled = bilinear(f, w, h, ch, px, py, c);
        proof {
            assert(-(4294967296 * 65536) <= (sampled as int) * (decay as int) <= 4294967296 * 65536)
                by (nonlinear_arith)
                requires
                    -4294967296 <= sampled <= 4294967296,
                    0 < decay <= 65536,
            ;
            lemma_scale_range(sampled as int, decay as int);
        }
        let v = fdiv(sampled * decay, SCALE);
        out.push(v);
    }
    proof {
        assert(out@ =~= advected(vel@, f@, w as int, h as int, ch as int, decay as int));
    }
    out
}

} // verus!
