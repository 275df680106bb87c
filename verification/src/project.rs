use vstd::prelude::*;
use crate::fixed::{VMAX, DIVMAX, PMAX, GRID_MAX, clamp_spec, clamp64, fdiv, lemma_div_bound_sym};
use crate::grid::{flat_x, flat_y, flat_c, lemma_idx3_bounds, lemma_flat_split, index3, split_index};
use crate::field::{bounded, zeros};
use crate::advect::cell_at;

verus! {

/// Central-difference divergence of the velocity buffer at flat cell `i`;
/// a neighbor index outside the grid clamps to the boundary cell.
pub open spec fn div_cell(vel: Seq<i64>, w: int, h: int, i: int) -> int {
    let x = flat_x(i, w, 1);
    let y = flat_y(i, w, 1);
    let xl = if x > 0 { x - 1 } else { 0 };
    let xr = if x + 1 < w { x + 1 } else { w - 1 };
    let yb = if y > 0 { y - 1 } else { 0 };
    let yt = if y + 1 < h { y + 1 } else { h - 1 };
    let vxr = cell_at(vel, w, 2, xr, y, 0);
    let vxl = cell_at(vel, w, 2, xl, y, 0);
    let vyt = cell_at(vel, w, 2, x, yt, 1);
    let vyb = cell_at(vel, w, 2, x, yb, 1);
    (vxr - vxl + vyt - vyb) / 2
}

/// The divergence buffer as a whole.
pub open spec fn divergence_of(vel: Seq<i64>, w: int, h: int) -> Seq<i64> {
    Seq::new((w * h) as nat, |i: int| div_cell(vel, w, h, i) as i64)
}

/// One Jacobi pressure-relaxation pass at flat cell `i`:
/// `(neighbors - divergence) / 4`; a neighbor outside the grid is taken equal
/// to the center cell.
pub open spec fn jacobi_cell(p: Seq<i64>, div: Seq<i64>, w: int, h: int, i: int) -> int {
    let x = flat_x(i, w, 1);
    let y = flat_y(i, w, 1);
    let center = cell_at(p, w, 1, x, y, 0);
    let pl = if x > 0 { cell_at(p, w, 1, x - 1, y, 0) } else { center };
    let pr = if x + 1 < w { cell_at(p, w, 1, x + 1, y, 0) } else { center };
    let pb = if y > 0 { cell_at(p, w, 1, x, y - 1, 0) } else { center };
    let pt = if y + 1 < h { cell_at(p, w, 1, x, y + 1, 0) } else { center };
    (pl + pr + pb + pt - div[i]) / 4
}

/// One whole Jacobi pressure-relaxation pass.
pub open spec fn jacobi_once_seq(p: Seq<i64>, div: Seq<i64>, w: int, h: int) -> Seq<i64> {
    Seq::new((w * h) as nat, |i: int| jacobi_cell(p, div, w, h, i) as i64)
}

/// `n` Jacobi passes starting from the all-zero pressure field.
pub open spec fn jacobi_n(div: Seq<i64>, w: int, h: int, n: nat) -> Seq<i64>
    decreases n,
{
    if n == 0 {
        zeros(w * h)
    } else {
        jacobi_once_seq(jacobi_n(div, w, h, (n - 1) as nat), div, w, h)
    }
}

/// Half the central difference of the pressure along the axis of channel `c`,
/// subtracted from the velocity sample at flat position `i`; the result is
/// clamped into the velocity range.
pub open spec fn grad_cell(vel: Seq<i64>, p: Seq<i64>, w: int, h: int, i: int) -> int {
    let x = flat_x(i, w, 2);
    let y = flat_y(i, w, 2);
    let c = flat_c(i, 2);
    let g = if c == 0 {
        let pl = cell_at(p, w, 1, if x > 0 { x - 1 } else { 0 }, y, 0);
        let pr = cell_at(p, w, 1, if x + 1 < w { x + 1 } else { w - 1 }, y, 0);
        (pr - pl) / 2
    } else {
        let pb = cell_at(p, w, 1, x, if y > 0 { y - 1 } else { 0 }, 0);
        let pt = cell_at(p, w, 1, x, if y + 1 < h { y + 1 } else { h - 1 }, 0);
        (pt - pb) / 2
    };
    clamp_spec(vel[i] as int - g, -(VMAX as int), VMAX as int)
}

/// The corrected velocity buffer as a whole.
pub open spec fn gradient_subtracted(vel: Seq<i64>, p: Seq<i64>, w: int, h: int) -> Seq<i64> {
    Seq::new((w * h * 2) as nat, |i: int| grad_cell(vel, p, w, h, i) as i64)
}

/// A full pressure projection: the divergence of the velocity field, `n`
/// Jacobi passes from zero pressure, and the gradient subtraction.
pub open spec fn projected(vel: Seq<i64>, w: int, h: int, n: nat) -> Seq<i64> {
    gradient_subtracted(vel, jacobi_n(divergence_of(vel, w, h), w, h, n), w, h)
}

/// The divergence buffer of the velocity field over a `w` by `h` grid.
pub fn divergence(vel: &Vec<i64>, w: usize, h: usize) -> (r: Vec<i64>)
    requires
        1 <= w <= GRID_MAX,
        1 <= h <= GRID_MAX,
        vel@.len() == w * h * 2,
        bounded(vel@, VMAX as int),
    ensures
        r@ == divergence_of(vel@, w as int, h as int),
        r@.len() == w * h,
        bounded(r@, DIVMAX as int),
{
    proof {
        assert(w * h * 2 <= 16384 * 16384 * 2 && (w * h * 2) / 2 == w * h) by (nonlinear_arith)
            requires
                1 <= w <= 16384 && 1 <= h <= 16384,
        ;
    }
    let len = vel.len() / 2;
    let mut out: Vec<i64> = Vec::with_capacity(len);
    for i in 0..len
        invariant
            out@.len() == i,
            len == w * h,
            1 <= w <= GRID_MAX,
            1 <= h <= GRID_MAX,
            vel@.len() == w * h * 2,
            bounded(vel@, VMAX as int),
            forall|j: int| 0 <= j < i ==>
                out@[j] == #[trigger] div_cell(vel@, w as int, h as int, j),
            bounded(out@, DIVMAX as int),
    {
        let (x, y, _c) = split_index(i, w, 1);
        proof {
            lemma_flat_split(w as int, h as int, 1, i as int);
        }
        let xl = if x > 0 { x - 1 } else { 0 };
        let xr = if x + 1 < w { x + 1 } else { w - 1 };
        let yb = if y > 0 { y - 1 } else { 0 };
        let yt = if y + 1 < h { y + 1 } else { h - 1 };
        proof {
            lemma_idx3_bounds(w as int, h as int, 2, xr as int, y as int, 0);
            lemma_idx3_bounds(w as int, h as int, 2, xl as int, y as int, 0);
            lemma_idx3_bounds(w as int, h as int, 2, x as int, yt as int, 1);
            lemma_idx3_bounds(w as int, h as int, 2, x as int, yb as int, 1);
        }
        let vxr = vel[index3(w, 2, xr, y, 0)];
        let vxl = vel[index3(w, 2, xl, y, 0)];
        let vyt = vel[index3(w, 2, x, yt, 1)];
        let vyb = vel[index3(w, 2, x, yb, 1)];
        let num = vxr - vxl + vyt - vyb;
        proof {
            lemma_div_bound_sym(num as int, 2, DIVMAX as int);
        }
        let v = fdiv(num, 2);
        out.push(v);
    }
    proof {
        assert(out@ =~= divergence_of(vel@, w as int, h as int));
    }
    out
}

/// One Jacobi pressure-relaxation pass over the whole grid.
pub fn jacobi_once(p: &Vec<i64>, div: &Vec<i64>, w: usize, h: usize) -> (r: Vec<i64>)
    requires
        1 <= w <= GRID_MAX,
        1 <= h <= GRID_MAX,
        p@.len() == w * h,
        div@.len() == w * h,
        bounded(p@, PMAX as int),
        bounded(div@, DIVMAX as int),
    ensures
        r@ == jacobi_once_seq(p@, div@, w as int, h as int),
        r@.len() == w * h,
{
    let len = p.len();
    let mut out: Vec<i64> = Vec::with_capacity(len);
    for i in 0..len
        invariant
            out@.len() == i,
            len == w * h,
            1 <= w <= GRID_MAX,
            1 <= h <= GRID_MAX,
            p@.len() == w * h,
            div@.len() == w * h,
            bounded(p@, PMAX as int),
            bounded(div@, DIVMAX as int),
            forall|j: int| 0 <= j < i ==>
                out@[j] == #[trigger] jacobi_cell(p@, div@, w as int, h as int, j),
    {
        let (x, y, _c) = split_index(i, w, 1);
        proof {
            lemma_flat_split(w as int, h as int, 1, i as int);
            lemma_idx3_bounds(w as int, h as int, 1, x as int, y as int, 0);
            if x > 0 {
                lemma_idx3_bounds(w as int, h as int, 1, x as int - 1, y as int, 0);
            }
            if x + 1 < w {
                lemma_idx3_bounds(w as int, h as int, 1, x as int + 1, y as int, 0);
            }
            if y > 0 {
                lemma_idx3_bounds(w as int, h as int, 1, x as int, y as int - 1, 0);
            }
            if y + 1 < h {
                lemma_idx3_bounds(w as int, h as int, 1, x as int, y as int + 1, 0);
            }
        }
        let center = p[index3(w, 1, x, y, 0)];
        let pl = if x > 0 { p[index3(w, 1, x - 1, y, 0)] } else { center };
        let pr = if x + 1 < w { p[index3(w, 1, x + 1, y, 0)] } else { center };
        let pb = if y > 0 { p[index3(w, 1, x, y - 1, 0)] } else { center };
        let pt = if y + 1 < h { p[index3(w, 1, x, y + 1, 0)] } else { center };
        let dv = div[i];
        let v = fdiv(pl + pr + pb + pt - dv, 4);
        out.push(v);
    }
    proof {
        assert(out@ =~= jacobi_once_seq(p@, div@, w as int, h as int));
    }
    out
}

/// One Jacobi pass grows the pressure bound by at most a quarter of the
/// divergence bound.
pub proof fn lemma_jacobi_once_bound(p: Seq<i64>, div: Seq<i64>, w: int, h: int, m: int)
    requires
        1 <= w <= GRID_MAX as int,
        1 <= h <= GRID_MAX as int,
        p.len() == w * h,
        div.len() == w * h,
        0 <= m,
        bounded(p, m),
        bounded(div, DIVMAX as int),
    ensures
        bounded(jacobi_once_seq(p, div, w, h), m + (DIVMAX as int) / 4),
{
    let out = jacobi_once_seq(p, div, w, h);
    assert forall|i: int| 0 <= i < out.len() implies
        -(m + (DIVMAX as int) / 4) <= #[trigger] out[i] <= m + (DIVMAX as int) / 4 by {
        lemma_flat_split(w, h, 1, i);
        let x = flat_x(i, w, 1);
        let y = flat_y(i, w, 1);
        lemma_idx3_bounds(w, h, 1, x, y, 0);
        if x > 0 {
            lemma_idx3_bounds(w, h, 1, x - 1, y, 0);
        }
        if x + 1 < w {
            lemma_idx3_bounds(w, h, 1, x + 1, y, 0);
        }
        if y > 0 {
            lemma_idx3_bounds(w, h, 1, x, y - 1, 0);
        }
        if y + 1 < h {
            lemma_idx3_bounds(w, h, 1, x, y + 1, 0);
        }
        lemma_div_bound_sym(
            {
                let center = cell_at(p, w, 1, x, y, 0);
                let pl = if x > 0 { cell_at(p, w, 1, x - 1, y, 0) } else { center };
                let pr = if x + 1 < w { cell_at(p, w, 1, x + 1, y, 0) } else { center };
                let pb = if y > 0 { cell_at(p, w, 1, x, y - 1, 0) } else { center };
                let pt = if y + 1 < h { cell_at(p, w, 1, x, y + 1, 0) } else { center };
                pl + pr + pb + pt - div[i]
            },
            4,
            m + (DIVMAX as int) / 4,
        );
    }
}

/// Corrects the velocity buffer by subtracting half the pressure gradient.
pub fn gradient_subtract(vel: &Vec<i64>, p: &Vec<i64>, w: usize, h: usize) -> (r: Vec<i64>)
    requires
        1 <= w <= GRID_MAX,
        1 <= h <= GRID_MAX,
        vel@.len() == w * h * 2,
        p@.len() == w * h,
        bounded(vel@, VMAX as int),
        bounded(p@, PMAX as int),
    ensures
        r@ == gradient_subtracted(vel@, p@, w as int, h as int),
        r@.len() == w * h * 2,
        bounded(r@, VMAX as int),
{
    let len = vel.len();
    let mut out: Vec<i64> = Vec::with_capacity(len);
    for i in 0..len
        invariant
            out@.len() == i,
            len == w * h * 2,
            1 <= w <= GRID_MAX,
            1 <= h <= GRID_MAX,
            vel@.len() == w * h * 2,
            p@.len() == w * h,
            bounded(vel@, VMAX as int),
            bounded(p@, PMAX as int),
            forall|j: int| 0 <= j < i ==>
                out@[j] == #[trigger] grad_cell(vel@, p@, w as int, h as int, j),
            bounded(out@, VMAX as int),
    {
        let (x, y, c) = split_index(i, w, 2);
        proof {
            lemma_flat_split(w as int, h as int, 2, i as int);
        }
        let g = if c == 0 {
            let xl = if x > 0 { x - 1 } else { 0 };
            let xr = if x + 1 < w { x + 1 } else { w - 1 };
            proof {
                lemma_idx3_bounds(w as int, h as int, 1, xl as int, y as int, 0);
                lemma_idx3_bounds(w as int, h as int, 1, xr as int, y as int, 0);
            }
            let pl = p[index3(w, 1, xl, y, 0)];
            let pr = p[index3(w, 1, xr, y, 0)];
            proof {
                crate::fixed::lemma_div_range((pr - pl) as int, 2);
            }
            fdiv(pr - pl, 2)
        } else {
            let yb = if y > 0 { y - 1 } else { 0 };
            let yt = if y + 1 < h { y + 1 } else { h - 1 };
            proof {
                lemma_idx3_bounds(w as int, h as int, 1, x as int, yb as int, 0);
                lemma_idx3_bounds(w as int, h as int, 1, x as int, yt as int, 0);
            }
            let pb = p[index3(w, 1, x, yb, 0)];
            let pt = p[index3(w, 1, x, yt, 0)];
            proof {
                crate::fixed::lemma_div_range((pt - pb) as int, 2);
            }
            fdiv(pt - pb, 2)
        };
        let v = clamp64(vel[i] - g, -VMAX, VMAX);
        out.push(v);
    }
    proof {
        assert(out@ =~= gradient_subtracted(vel@, p@, w as int, h as int));
    }
    out
}

/// For a velocity field whose computed divergence is zero in every cell, a
/// full pressure projection returns the field unchanged, whatever the
/// iteration count: the projection already is a fixpoint there.
pub proof fn lemma_projection_fixpoint(vel: Seq<i64>, w: int, h: int, n: nat)
    requires
        1 <= w <= GRID_MAX as int,
        1 <= h <= GRID_MAX as int,
        vel.len() == w * h * 2,
        bounded(vel, VMAX as int),
        forall|i: int| 0 <= i < w * h ==> #[trigger] div_cell(vel, w, h, i) == 0,
    ensures
        projected(vel, w, h, n) == vel,
{
    let div = divergence_of(vel, w, h);
    assert(div =~= zeros(w * h));
    lemma_jacobi_zero(div, w, h, n);
    let p = jacobi_n(div, w, h, n);
    assert(gradient_subtracted(vel, p, w, h) =~= vel) by {
        assert forall|i: int| 0 <= i < w * h * 2 implies
            gradient_subtracted(vel, p, w, h)[i] == vel[i] by {
            lemma_flat_split(w, h, 2, i);
            let x = flat_x(i, w, 2);
            let y = flat_y(i, w, 2);
            lemma_idx3_bounds(w, h, 1, if x > 0 { x - 1 } else { 0 }, y, 0);
            lemma_idx3_bounds(w, h, 1, if x + 1 < w { x + 1 } else { w - 1 }, y, 0);
            lemma_idx3_bounds(w, h, 1, x, if y > 0 { y - 1 } else { 0 }, 0);
            lemma_idx3_bounds(w, h, 1, x, if y + 1 < h { y + 1 } else { h - 1 }, 0);
            assert(grad_cell(vel, p, w, h, i) == vel[i]);
        }
    }
}

/// From zero divergence, every Jacobi pass keeps the pressure at zero.
pub proof fn lemma_jacobi_zero(div: Seq<i64>, w: int, h: int, n: nat)
    requires
        1 <= w <= GRID_MAX as int,
        1 <= h <= GRID_MAX as int,
        div == zeros(w * h),
    ensures
        jacobi_n(div, w, h, n) == zeros(w * h),
    decreases n,
{
    if n > 0 {
        lemma_jacobi_zero(div, w, h, (n - 1) as nat);
        let prev = jacobi_n(div, w, h, (n - 1) as nat);
        assert(jacobi_once_seq(prev, div, w, h) =~= zeros(w * h)) by {
            assert forall|i: int| 0 <= i < w * h implies
                jacobi_once_seq(prev, div, w, h)[i] == 0i64 by {
                lemma_flat_split(w, h, 1, i);
                let x = flat_x(i, w, 1);
                let y = flat_y(i, w, 1);
                lemma_idx3_bounds(w, h, 1, x, y, 0);
                if x > 0 {
                    lemma_idx3_bounds(w, h, 1, x - 1, y, 0);
                }
                if x + 1 < w {
                    lemma_idx3_bounds(w, h, 1, x + 1, y, 0);
                }
                if y > 0 {
                    lemma_idx3_bounds(w, h, 1, x, y - 1, 0);
                }
                if y + 1 < h {
                    lemma_idx3_bounds(w, h, 1, x, y + 1, 0);
                }
                assert(jacobi_cell(prev, div, w, h, i) == 0);
            }
        }
    }
}

} // verus!
