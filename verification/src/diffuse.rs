use vstd::prelude::*;
use crate::fixed::{SCALE, VMAX, GRID_MAX, fdiv, lemma_div_bound_sym};
use crate::grid::{flat_x, flat_y, flat_c, lemma_idx3_bounds, lemma_flat_split, index3, split_index};
use crate::field::bounded;
use crate::advect::cell_at;

verus! {

/// Cap on the diffusion rate `alpha = dx^2 / (viscosity * dt)` in fixed-point
/// form; larger requested rates are clamped here.
pub const ALPHA_CAP: i64 = 16777216;

/// Value written by one Jacobi relaxation pass at flat position `i`:
/// `(neighbors + alpha * source) / (4 + alpha)`, where `x_buf` is the previous
/// iterate and `b_buf` the pre-diffusion snapshot.  A neighbor outside the
/// grid is taken equal to the center cell, so no ink flows across the
/// boundary.
pub open spec fn diffuse_cell(
    x_buf: Seq<i64>,
    b_buf: Seq<i64>,
    w: int,
    h: int,
    ch: int,
    alpha: int,
    i: int,
) -> int {
    let s = SCALE as int;
    let x = flat_x(i, w, ch);
    let y = flat_y(i, w, ch);
    let c = flat_c(i, ch);
    let center = cell_at(x_buf, w, ch, x, y, c);
    let vl = if x > 0 { cell_at(x_buf, w, ch, x - 1, y, c) } else { center };
    let vr = if x + 1 < w { cell_at(x_buf, w, ch, x + 1, y, c) } else { center };
    let vb = if y > 0 { cell_at(x_buf, w, ch, x, y - 1, c) } else { center };
    let vt = if y + 1 < h { cell_at(x_buf, w, ch, x, y + 1, c) } else { center };
    ((vl + vr + vb + vt) * s + alpha * cell_at(b_buf, w, ch, x, y, c)) / (4 * s + alpha)
}

/// One whole Jacobi relaxation pass.
pub open spec fn diffused_once(
    x_buf: Seq<i64>,
    b_buf: Seq<i64>,
    w: int,
    h: int,
    ch: int,
    alpha: int,
) -> Seq<i64> {
    Seq::new((w * h * ch) as nat, |i: int| diffuse_cell(x_buf, b_buf, w, h, ch, alpha, i) as i64)
}

/// `n` Jacobi relaxation passes from `x_buf`, all reading the fixed
/// snapshot `b_buf`.
pub open spec fn diffused_n(
    x_buf: Seq<i64>,
    b_buf: Seq<i64>,
    w: int,
    h: int,
    ch: int,
    alpha: int,
    n: nat,
) -> Seq<i64>
    decreases n,
{
    if n == 0 {
        x_buf
    } else {
        diffused_once(diffused_n(x_buf, b_buf, w, h, ch, alpha, (n - 1) as nat), b_buf, w, h, ch, alpha)
    }
}

/// One Jacobi relaxation pass over the whole grid, reading the previous
/// iterate `x_buf` and the pre-diffusion snapshot `b_buf`.
pub fn diffuse_once(x_buf: &Vec<i64>, b_buf: &Vec<i64>, w: usize, h: usize, ch: usize, alpha: i64) -> (r: Vec<i64>)
    requires
        1 <= w <= GRID_MAX,
        1 <= h <= GRID_MAX,
        1 <= ch <= 4,
        x_buf@.len() == w * h * ch,
        b_buf@.len() == w * h * ch,
        bounded(x_buf@, VMAX as int),
        bounded(b_buf@, VMAX as int),
        0 <= alpha <= ALPHA_CAP,
    ensures
        r@ == diffused_once(x_buf@, b_buf@, w as int, h as int, ch as int, alpha as int),
        r@.len() == w * h * ch,
        bounded(r@, VMAX as int),
{
    let len = x_buf.len();
    let mut out: Vec<i64> = Vec::with_capacity(len);
    for i in 0..len
        invariant
            out@.len() == i,
            len == w * h * ch,
            1 <= w <= GRID_MAX,
            1 <= h <= GRID_MAX,
            1 <= ch <= 4,
            x_buf@.len() == w * h * ch,
            b_buf@.len() == w * h * ch,
            bounded(x_buf@, VMAX as int),
            bounded(b_buf@, VMAX as int),
            0 <= alpha <= ALPHA_CAP,
            forall|j: int| 0 <= j < i ==>
                out@[j] == #[trigger] diffuse_cell(x_buf@, b_buf@, w as int, h as int, ch as int, alpha as int, j),
            bounded(out@, VMAX as int),
    {
        let (x, y, c) = split_index(i, w, ch);
        proof {
            lemma_flat_split(w as int, h as int, ch as int, i as int);
            lemma_idx3_bounds(w as int, h as int, ch as int, x as int, y as int, c as int);
            if x > 0 {
                lemma_idx3_bounds(w as int, h as int, ch as int, x as int - 1, y as int, c as int);
            }
            if x + 1 < w {
                lemma_idx3_bounds(w as int, h as int, ch as int, x as int + 1, y as int, c as int);
            }
            if y > 0 {
                lemma_idx3_bounds(w as int, h as int, ch as int, x as int, y as int - 1, c as int);
            }
            if y + 1 < h {
                lemma_idx3_bounds(w as int, h as int, ch as int, x as int, y as int + 1, c as int);
            }
        }
        let center = x_buf[index3(w, ch, x, y, c)];
        let vl = if x > 0 { x_buf[index3(w, ch, x - 1, y, c)] } else { center };
        let vr = if x + 1 < w { x_buf[index3(w, ch, x + 1, y, c)] } else { center };
        let vb = if y > 0 { x_buf[index3(w, ch, x, y - 1, c)] } else { center };
        let vt = if y + 1 < h { x_buf[index3(w, ch, x, y + 1, c)] } else { center };
        let src = b_buf[index3(w, ch, x, y, c)];
        let beta = 4 * SCALE + alpha;
        proof {
            assert(-(16777216 * 4294967296) <= (alpha as int) * (src as int) <= 16777216 * 4294967296)
                by (nonlinear_arith)
                requires
                    0 <= alpha <= 16777216,
                    -4294967296 <= src <= 4294967296,
            ;
            let num = ((vl + vr + vb + vt) as int) * (SCALE as int) + (alpha as int) * (src as int);
            assert(-((beta as int) * (VMAX as int)) <= num <= (beta as int) * (VMAX as int))
                by (nonlinear_arith)
                requires
                    beta == 4 * 65536 + alpha,
                    0 <= alpha <= 16777216,
                    num == ((vl + vr + vb + vt) as int) * 65536 + (alpha as int) * (src as int),
                    -4294967296 <= vl <= 4294967296,
                    -4294967296 <= vr <= 4294967296,
                    -4294967296 <= vb <= 4294967296,
                    -4294967296 <= vt <= 4294967296,
                    -4294967296 <= src <= 4294967296,
            ;
            lemma_div_bound_sym(num, beta as int, VMAX as int);
        }
        let v = fdiv((vl + vr + vb + vt) * SCALE + alpha * src, beta);
        out.push(v);
    }
    proof {
        assert(out@ =~= diffused_once(x_buf@, b_buf@, w as int, h as int, ch as int, alpha as int));
    }
    out
}

} // verus!
