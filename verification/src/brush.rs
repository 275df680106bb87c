use vstd::prelude::*;
use crate::fixed::{
    SCALE, VMAX, GRID_MAX, clamp_spec, clamp64, fdiv, lerp_spec, lerp64, lemma_div_range,
    lemma_div_mono, lemma_div_bound_sym,
};
use crate::grid::{
    idx3, flat_x, flat_y, flat_c, lemma_idx3_bounds, lemma_idx3_split, lemma_flat_split, index3,
    split_index,
};
use crate::field::bounded;
use crate::advect::{bilinear_spec, bilinear};
use vstd::arithmetic::div_mod::lemma_div_multiples_vanish;

verus! {

/// Fixed-point units per brush-geometry unit: brush distances are measured at
/// 1/16 of a cell, so one such unit is `SCALE / 16` fixed-point units.
pub const QCELL: i64 = 4096;

pub open spec fn sq(v: int) -> int {
    v * v
}

/// Squared distance (in brush-geometry units) from the point `(px, py)` to
/// the segment from `(ax, ay)` to `(bx, by)`: the squared distance to the
/// closest point of the segment, found by projecting onto it and clamping.
pub open spec fn dist2_seg_spec(px: int, py: int, ax: int, ay: int, bx: int, by: int) -> int {
    let s = SCALE as int;
    let dx = bx - ax;
    let dy = by - ay;
    let len2 = dx * dx + dy * dy;
    if len2 == 0 {
        sq(px - ax) + sq(py - ay)
    } else {
        let t = clamp_spec(((px - ax) * dx + (py - ay) * dy) * s / len2, 0, s);
        let cx = ax + t * dx / s;
        let cy = ay + t * dy / s;
        sq(px - cx) + sq(py - cy)
    }
}

/// Brush weight at squared distance `d2` from the stroke, for a brush of
/// squared radius `r2`: full weight on the stroke, fading linearly in the
/// squared distance, zero at the radius and beyond.
pub open spec fn falloff_spec(d2: int, r2: int) -> int {
    (SCALE as int) - d2 * (SCALE as int) / r2
}

/// Center of cell `(x, y)` on the brush-geometry axis, and a fixed-point
/// position scaled down to that axis.
pub open spec fn gcenter(v: int) -> int {
    v * 16 + 8
}

pub open spec fn gpos(fp: int) -> int {
    fp / (QCELL as int)
}

/// Value of density channel `c = i mod 4` after a brush stamp along the
/// stroke.  Within the brush radius the sample is blended toward the brush
/// color (or, when smudging, toward the canvas one stroke upstream) with the
/// falloff weight times the brush strength; every other sample is unchanged.
pub open spec fn brush_den_cell(
    den: Seq<i64>,
    w: int,
    h: int,
    ax: int,
    ay: int,
    bx: int,
    by: int,
    radius: int,
    strength: int,
    color: [i64; 4],
    smudge: bool,
    i: int,
) -> int {
    let s = SCALE as int;
    let x = flat_x(i, w, 4);
    let y = flat_y(i, w, 4);
    let c = flat_c(i, 4);
    let rg = gpos(radius);
    if rg <= 0 {
        den[i] as int
    } else {
        let d2 = dist2_seg_spec(gcenter(x), gcenter(y), gpos(ax), gpos(ay), gpos(bx), gpos(by));
        let r2 = rg * rg;
        if d2 >= r2 {
            den[i] as int
        } else {
            let wgt = falloff_spec(d2, r2) * strength / s;
            let target = if smudge {
                bilinear_spec(den, w, h, 4, x * s - (bx - ax), y * s - (by - ay), c)
            } else {
                color[c] as int
            };
            lerp_spec(den[i] as int, target, wgt)
        }
    }
}

/// Value of velocity channel `c = i mod 2` after a brush stamp: within the
/// brush radius, the stroke direction scaled by the velocity factor and the
/// falloff weight is added; the result is clamped into the velocity range.
pub open spec fn brush_vel_cell(
    vel: Seq<i64>,
    w: int,
    h: int,
    ax: int,
    ay: int,
    bx: int,
    by: int,
    radius: int,
    vfactor: int,
    i: int,
) -> int {
    let s = SCALE as int;
    let x = flat_x(i, w, 2);
    let y = flat_y(i, w, 2);
    let c = flat_c(i, 2);
    let rg = gpos(radius);
    if rg <= 0 {
        vel[i] as int
    } else {
        let d2 = dist2_seg_spec(gcenter(x), gcenter(y), gpos(ax), gpos(ay), gpos(bx), gpos(by));
        let r2 = rg * rg;
        if d2 >= r2 {
            vel[i] as int
        } else {
            let dir = if c == 0 { bx - ax } else { by - ay };
            let imp = dir * vfactor / s * falloff_spec(d2, r2) / s;
            clamp_spec(vel[i] as int + imp, -(VMAX as int), VMAX as int)
        }
    }
}

/// The stamped density buffer as a whole.
pub open spec fn brush_density_seq(
    den: Seq<i64>,
    w: int,
    h: int,
    ax: int,
    ay: int,
    bx: int,
    by: int,
    radius: int,
    strength: int,
    color: [i64; 4],
    smudge: bool,
) -> Seq<i64> {
    Seq::new(
        (w * h * 4) as nat,
        |i: int| brush_den_cell(den, w, h, ax, ay, bx, by, radius, strength, color, smudge, i) as i64,
    )
}

/// The stamped velocity buffer as a whole.
pub open spec fn brush_velocity_seq(
    vel: Seq<i64>,
    w: int,
    h: int,
    ax: int,
    ay: int,
    bx: int,
    by: int,
    radius: int,
    vfactor: int,
) -> Seq<i64> {
    Seq::new(
        (w * h * 2) as nat,
        |i: int| brush_vel_cell(vel, w, h, ax, ay, bx, by, radius, vfactor, i) as i64,
    )
}

/// Squared distance from `(px, py)` to the segment `(ax, ay)`-`(bx, by)`,
/// all in brush-geometry units.
pub fn dist2_seg(px: i64, py: i64, ax: i64, ay: i64, bx: i64, by: i64) -> (r: i64)
    requires
        -262160 <= px <= 262160,
        -262160 <= py <= 262160,
        -262160 <= ax <= 262160,
        -262160 <= ay <= 262160,
        -262160 <= bx <= 262160,
        -262160 <= by <= 262160,
    ensures
        r == dist2_seg_spec(px as int, py as int, ax as int, ay as int, bx as int, by as int),
        0 <= r <= 4611686018427387904,
{
    let dx = bx - ax;
    let dy = by - ay;
    proof {
        assert(0 <= dx * dx <= 524320 * 524320 && 0 <= dy * dy <= 524320 * 524320)
            by (nonlinear_arith)
            requires
                -524320 <= dx <= 524320,
                -524320 <= dy <= 524320,
        ;
    }
    let len2 = dx * dx + dy * dy;
    if len2 == 0 {
        let ex = px - ax;
        let ey = py - ay;
        proof {
            assert(0 <= ex * ex <= 524320 * 524320 && 0 <= ey * ey <= 524320 * 524320)
                by (nonlinear_arith)
                requires
                    -524320 <= ex <= 524320,
                    -524320 <= ey <= 524320,
            ;
        }
        ex * ex + ey * ey
    } else {
        let ex = px - ax;
        let ey = py - ay;
        proof {
            assert(-(524320 * 524320) <= ex * dx <= 524320 * 524320 && -(524320 * 524320)
                <= ey * dy <= 524320 * 524320) by (nonlinear_arith)
                requires
                    -524320 <= ex <= 524320,
                    -524320 <= ey <= 524320,
                    -524320 <= dx <= 524320,
                    -524320 <= dy <= 524320,
            ;
            lemma_div_range((ex * dx + ey * dy) as int * 65536, len2 as int);
        }
        let t = clamp64(fdiv((ex * dx + ey * dy) * SCALE, len2), 0, SCALE);
        proof {
            assert(-(65536 * 524320) <= t * dx <= 65536 * 524320 && -(65536 * 524320) <= t * dy
                <= 65536 * 524320) by (nonlinear_arith)
                requires
                    0 <= t <= 65536,
                    -524320 <= dx <= 524320,
                    -524320 <= dy <= 524320,
            ;
            lemma_div_bound_sym((t * dx) as int, 65536, 524320);
            lemma_div_bound_sym((t * dy) as int, 65536, 524320);
        }
        let cx = ax + fdiv(t * dx, SCALE);
        let cy = ay + fdiv(t * dy, SCALE);
        let fx = px - cx;
        let fy = py - cy;
        proof {
            assert(0 <= fx * fx <= 1048640 * 1048640 && 0 <= fy * fy <= 1048640 * 1048640)
                by (nonlinear_arith)
                requires
                    -1048640 <= fx <= 1048640,
                    -1048640 <= fy <= 1048640,
            ;
        }
        fx * fx + fy * fy
    }
}

/// The falloff weight lies in `(0, SCALE]` strictly inside the radius.
pub proof fn lemma_falloff_range(d2: int, r2: int)
    requires
        0 <= d2 < r2,
    ensures
        0 < falloff_spec(d2, r2) <= SCALE as int,
{
    let s = SCALE as int;
    assert(0 <= d2 * s <= (r2 - 1) * s) by (nonlinear_arith)
        requires
            0 <= d2 <= r2 - 1,
            s == 65536,
    ;
    lemma_div_range(d2 * s, r2);
    lemma_div_mono(d2 * s, (r2 - 1) * s, r2);
    assert((r2 - 1) * s < r2 * s) by (nonlinear_arith)
        requires
            s > 0,
    ;
    assert((r2 - 1) * s / r2 < s) by {
        if (r2 - 1) * s / r2 >= s {
            vstd::arithmetic::div_mod::lemma_fundamental_div_mod((r2 - 1) * s, r2);
            assert(r2 * ((r2 - 1) * s / r2) >= r2 * s) by (nonlinear_arith)
                requires
                    r2 >= 1,
                    (r2 - 1) * s / r2 >= s,
            ;
            assert((r2 - 1) * s >= r2 * s);
        }
    }
}

/// Stamps the brush into the density buffer along the stroke from
/// `(ax, ay)` to `(bx, by)` (fixed-point grid coordinates within the grid).
pub fn brush_density(
    den: &Vec<i64>,
    w: usize,
    h: usize,
    ax: i64,
    ay: i64,
    bx: i64,
    by: i64,
    radius: i64,
    strength: i64,
    color: [i64; 4],
    smudge: bool,
) -> (r: Vec<i64>)
    requires
        1 <= w <= GRID_MAX,
        1 <= h <= GRID_MAX,
        den@.len() == w * h * 4,
        bounded(den@, VMAX as int),
        0 <= ax <= (w as int) * (SCALE as int),
        0 <= bx <= (w as int) * (SCALE as int),
        0 <= ay <= (h as int) * (SCALE as int),
        0 <= by <= (h as int) * (SCALE as int),
        0 <= radius <= (GRID_MAX as int) * (SCALE as int),
        0 <= strength <= SCALE,
        forall|c: int| 0 <= c < 4 ==> 0 <= #[trigger] color[c] <= SCALE,
    ensures
        r@ == brush_density_seq(den@, w as int, h as int, ax as int, ay as int, bx as int, by as int,
            radius as int, strength as int, color, smudge),
        r@.len() == w * h * 4,
        bounded(r@, VMAX as int),
{
    let len = den.len();
    let rg = fdiv(radius, QCELL);
    let gax = fdiv(ax, QCELL);
    let gay = fdiv(ay, QCELL);
    let gbx = fdiv(bx, QCELL);
    let gby = fdiv(by, QCELL);
    proof {
        lemma_div_range(radius as int, QCELL as int);
        lemma_div_range(ax as int, QCELL as int);
        lemma_div_range(ay as int, QCELL as int);
        lemma_div_range(bx as int, QCELL as int);
        lemma_div_range(by as int, QCELL as int);
        lemma_gpos_range(ax as int, (w as int) * (SCALE as int));
        lemma_gpos_range(ay as int, (h as int) * (SCALE as int));
        lemma_gpos_range(bx as int, (w as int) * (SCALE as int));
        lemma_gpos_range(by as int, (h as int) * (SCALE as int));
        lemma_gpos_range(radius as int, (GRID_MAX as int) * (SCALE as int));
        assert((w as int) * (SCALE as int) <= 16384 * 65536 && (h as int) * (SCALE as int)
            <= 16384 * 65536) by (nonlinear_arith)
            requires
                1 <= w <= 16384,
                1 <= h <= 16384,
        ;
    }
    let mut out: Vec<i64> = Vec::with_capacity(len);
    if rg <= 0 {
        let mut i: usize = 0;
        while i < len
            invariant
                out@.len() == i,
                i <= len,
                len == den@.len(),
                bounded(den@, VMAX as int),
                forall|j: int| 0 <= j < i ==> out@[j] == den@[j],
            decreases len - i,
        {
            out.push(den[i]);
            i = i + 1;
        }
        proof {
            assert(out@ =~= brush_density_seq(den@, w as int, h as int, ax as int, ay as int,
                bx as int, by as int, radius as int, strength as int, color, smudge));
            assert(bounded(out@, VMAX as int));
        }
        return out;
    }
    proof {
        assert(rg * rg <= 262144 * 262144 && rg * rg >= 1) by (nonlinear_arith)
            requires
                1 <= rg <= 262144,
        ;
    }
    let r2 = rg * rg;
    for i in 0..len
        invariant
            out@.len() == i,
            len == w * h * 4,
            1 <= w <= GRID_MAX,
            1 <= h <= GRID_MAX,
            den@.len() == w * h * 4,
            bounded(den@, VMAX as int),
            0 <= ax <= (w as int) * (SCALE as int),
            0 <= bx <= (w as int) * (SCALE as int),
            0 <= ay <= (h as int) * (SCALE as int),
            0 <= by <= (h as int) * (SCALE as int),
            0 <= radius,
            0 <= strength <= SCALE,
            forall|c: int| 0 <= c < 4 ==> 0 <= #[trigger] color[c] <= SCALE,
            1 <= rg <= 262144,
            rg == gpos(radius as int),
            gax == gpos(ax as int),
            gay == gpos(ay as int),
            gbx == gpos(bx as int),
            gby == gpos(by as int),
            0 <= gax <= 262144,
            0 <= gay <= 262144,
            0 <= gbx <= 262144,
            0 <= gby <= 262144,
            r2 == rg * rg,
            1 <= r2 <= 68719476736,
            forall|j: int| 0 <= j < i ==>
                out@[j] == #[trigger] brush_den_cell(den@, w as int, h as int, ax as int, ay as int,
                    bx as int, by as int, radius as int, strength as int, color, smudge, j),
            bounded(out@, VMAX as int),
    {
        let (x, y, c) = split_index(i, w, 4);
        proof {
            lemma_flat_split(w as int, h as int, 4, i as int);
        }
        let px = (x as i64) * 16 + 8;
        let py = (y as i64) * 16 + 8;
        let d2 = dist2_seg(px, py, gax, gay, gbx, gby);
        if d2 >= r2 {
            out.push(den[i]);
        } else {
            proof {
                lemma_falloff_range(d2 as int, r2 as int);
                assert(d2 * (SCALE as int) <= 68719476736 * 65536) by (nonlinear_arith)
                    requires
                        0 <= d2 <= 68719476736,
                ;
                lemma_div_range(d2 as int * (SCALE as int), r2 as int);
            }
            let f = SCALE - fdiv(d2 * SCALE, r2);
            proof {
                crate::fixed::lemma_scale_range(f as int, strength as int);
                assert(f * strength <= 65536 * 65536) by (nonlinear_arith)
                    requires
                        0 <= f <= 65536,
                        0 <= strength <= 65536,
                ;
            }
            let wgt = fdiv(f * strength, SCALE);
            let target = if smudge {
                proof {
                    assert(-(16384 * 65536) <= (x as int) * (SCALE as int) - ((bx - ax) as int)
                        <= 2 * 16384 * 65536) by (nonlinear_arith)
                        requires
                            0 <= x <= 16384,
                            -(16384 * 65536) <= bx - ax <= 16384 * 65536,
                    ;
                }
                bilinear(den, w, h, 4, (x as i64) * SCALE - (bx - ax), (y as i64) * SCALE - (by - ay), c)
            } else {
                color[c]
            };
            let v = lerp64(den[i], target, wgt);
            out.push(v);
        }
    }
    proof {
        assert(out@ =~= brush_density_seq(den@, w as int, h as int, ax as int, ay as int, bx as int,
            by as int, radius as int, strength as int, color, smudge));
    }
    out
}

/// Adds the stroke's momentum into the velocity buffer along the stroke.
pub fn brush_velocity(
    vel: &Vec<i64>,
    w: usize,
    h: usize,
    ax: i64,
    ay: i64,
    bx: i64,
    by: i64,
    radius: i64,
    vfactor: i64,
) -> (r: Vec<i64>)
    requires
        1 <= w <= GRID_MAX,
        1 <= h <= GRID_MAX,
        vel@.len() == w * h * 2,
        bounded(vel@, VMAX as int),
        0 <= ax <= (w as int) * (SCALE as int),
        0 <= bx <= (w as int) * (SCALE as int),
        0 <= ay <= (h as int) * (SCALE as int),
        0 <= by <= (h as int) * (SCALE as int),
        0 <= radius <= (GRID_MAX as int) * (SCALE as int),
        0 <= vfactor <= 4 * SCALE,
    ensures
        r@ == brush_velocity_seq(vel@, w as int, h as int, ax as int, ay as int, bx as int,
            by as int, radius as int, vfactor as int),
        r@.len() == w * h * 2,
        bounded(r@, VMAX as int),
{
    let len = vel.len();
    let rg = fdiv(radius, QCELL);
    let gax = fdiv(ax, QCELL);
    let gay = fdiv(ay, QCELL);
    let gbx = fdiv(bx, QCELL);
    let gby = fdiv(by, QCELL);
    proof {
        lemma_div_range(radius as int, QCELL as int);
        lemma_gpos_range(ax as int, (w as int) * (SCALE as int));
        lemma_gpos_range(ay as int, (h as int) * (SCALE as int));
        lemma_gpos_range(bx as int, (w as int) * (SCALE as int));
        lemma_gpos_range(by as int, (h as int) * (SCALE as int));
        lemma_gpos_range(radius as int, (GRID_MAX as int) * (SCALE as int));
        assert((w as int) * (SCALE as int) <= 16384 * 65536 && (h as int) * (SCALE as int)
            <= 16384 * 65536) by (nonlinear_arith)
            requires
                1 <= w <= 16384,
                1 <= h <= 16384,
        ;
    }
    let mut out: Vec<i64> = Vec::with_capacity(len);
    if rg <= 0 {
        let mut i: usize = 0;
        while i < len
            invariant
                out@.len() == i,
                i <= len,
                len == vel@.len(),
                bounded(vel@, VMAX as int),
                forall|j: int| 0 <= j < i ==> out@[j] == vel@[j],
            decreases len - i,
        {
            out.push(vel[i]);
            i = i + 1;
        }
        proof {
            assert(out@ =~= brush_velocity_seq(vel@, w as int, h as int, ax as int, ay as int,
                bx as int, by as int, radius as int, vfactor as int));
            assert(bounded(out@, VMAX as int));
        }
        return out;
    }
    proof {
        assert(rg * rg <= 262144 * 262144 && rg * rg >= 1) by (nonlinear_arith)
            requires
                1 <= rg <= 262144,
        ;
    }
    let r2 = rg * rg;
    for i in 0..len
        invariant
            out@.len() == i,
            len == w * h * 2,
            1 <= w <= GRID_MAX,
            1 <= h <= GRID_MAX,
            vel@.len() == w * h * 2,
            bounded(vel@, VMAX as int),
            0 <= ax <= (w as int) * (SCALE as int),
            0 <= bx <= (w as int) * (SCALE as int),
            0 <= ay <= (h as int) * (SCALE as int),
            0 <= by <= (h as int) * (SCALE as int),
            0 <= radius,
            0 <= vfactor <= 4 * SCALE,
            1 <= rg <= 262144,
            rg == gpos(radius as int),
            gax == gpos(ax as int),
            gay == gpos(ay as int),
            gbx == gpos(bx as int),
            gby == gpos(by as int),
            0 <= gax <= 262144,
            0 <= gay <= 262144,
            0 <= gbx <= 262144,
            0 <= gby <= 262144,
            r2 == rg * rg,
            1 <= r2 <= 68719476736,
            forall|j: int| 0 <= j < i ==>
                out@[j] == #[trigger] brush_vel_cell(vel@, w as int, h as int, ax as int, ay as int,
                    bx as int, by as int, radius as int, vfactor as int, j),
            bounded(out@, VMAX as int),
    {
        let (x, y, c) = split_index(i, w, 2);
        proof {
            lemma_flat_split(w as int, h as int, 2, i as int);
        }
        let px = (x as i64) * 16 + 8;
        let py = (y as i64) * 16 + 8;
        let d2 = dist2_seg(px, py, gax, gay, gbx, gby);
        if d2 >= r2 {
            out.push(vel[i]);
        } else {
            proof {
                lemma_falloff_range(d2 as int, r2 as int);
                assert(d2 * (SCALE as int) <= 68719476736 * 65536) by (nonlinear_arith)
                    requires
                        0 <= d2 <= 68719476736,
                ;
                lemma_div_range(d2 as int * (SCALE as int), r2 as int);
            }
            let f = SCALE - fdiv(d2 * SCALE, r2);
            let dir = if c == 0 { bx - ax } else { by - ay };
            proof {
                assert(-(16384 * 65536 * 4 * 65536) <= (dir as int) * (vfactor as int)
                    <= 16384 * 65536 * 4 * 65536) by (nonlinear_arith)
                    requires
                        -(16384 * 65536) <= dir <= 16384 * 65536,
                        0 <= vfactor <= 4 * 65536,
                ;
                lemma_div_bound_sym((dir as int) * (vfactor as int), 65536int, (16384 * 65536 * 4) as int);
            }
            let scaled = fdiv(dir * vfactor, SCALE);
            proof {
                assert(-(16384 * 65536 * 4 * 65536) <= (scaled as int) * (f as int)
                    <= 16384 * 65536 * 4 * 65536) by (nonlinear_arith)
                    requires
                        -(16384 * 65536 * 4) <= scaled <= 16384 * 65536 * 4,
                        0 <= f <= 65536,
                ;
                lemma_div_bound_sym((scaled as int) * (f as int), 65536int, (16384 * 65536 * 4) as int);
            }
            let imp = fdiv(scaled * f, SCALE);
            let v = clamp64(vel[i] + imp, -VMAX, VMAX);
            out.push(v);
        }
    }
    proof {
        assert(out@ =~= brush_velocity_seq(vel@, w as int, h as int, ax as int, ay as int,
            bx as int, by as int, radius as int, vfactor as int));
    }
    out
}

/// A brush stamp is local: every sample of a cell whose center lies at or
/// beyond the brush radius from the stroke segment (in brush-geometry units)
/// is bit-for-bit unchanged, in density and velocity alike.
pub proof fn lemma_brush_locality_seg(
    den: Seq<i64>,
    vel: Seq<i64>,
    w: int,
    h: int,
    ax: int,
    ay: int,
    bx: int,
    by: int,
    radius: int,
    strength: int,
    color: [i64; 4],
    smudge: bool,
    vfactor: int,
    x: int,
    y: int,
)
    requires
        1 <= w <= GRID_MAX as int,
        1 <= h <= GRID_MAX as int,
        0 <= x < w,
        0 <= y < h,
        dist2_seg_spec(gcenter(x), gcenter(y), gpos(ax), gpos(ay), gpos(bx), gpos(by))
            >= sq(gpos(radius)),
    ensures
        forall|c: int| 0 <= c < 4 ==> #[trigger] brush_den_cell(den, w, h, ax, ay, bx, by, radius,
            strength, color, smudge, idx3(w, 4, x, y, c)) == den[idx3(w, 4, x, y, c)] as int,
        forall|c: int| 0 <= c < 2 ==> #[trigger] brush_vel_cell(vel, w, h, ax, ay, bx, by, radius,
            vfactor, idx3(w, 2, x, y, c)) == vel[idx3(w, 2, x, y, c)] as int,
{
    assert forall|c: int| 0 <= c < 4 implies #[trigger] brush_den_cell(den, w, h, ax, ay, bx, by,
        radius, strength, color, smudge, idx3(w, 4, x, y, c)) == den[idx3(w, 4, x, y, c)] as int by {
        lemma_idx3_split(w, h, 4, x, y, c);
    }
    assert forall|c: int| 0 <= c < 2 implies #[trigger] brush_vel_cell(vel, w, h, ax, ay, bx, by,
        radius, vfactor, idx3(w, 2, x, y, c)) == vel[idx3(w, 2, x, y, c)] as int by {
        lemma_idx3_split(w, h, 2, x, y, c);
    }
}

/// A point stamp at fixed-point position `(ax, ay)`, lying in grid cell
/// `(cx, cy)`, with a radius of at most `rc` cells, leaves every sample of
/// every cell strictly farther than `rc + 1` cells from `(cx, cy)`
/// bit-for-bit unchanged; the one cell of slack covers the stamp's sub-cell
/// position.
pub proof fn lemma_brush_locality(
    den: Seq<i64>,
    vel: Seq<i64>,
    w: int,
    h: int,
    ax: int,
    ay: int,
    radius: int,
    strength: int,
    color: [i64; 4],
    smudge: bool,
    vfactor: int,
    rc: int,
    x: int,
    y: int,
)
    requires
        1 <= w <= GRID_MAX as int,
        1 <= h <= GRID_MAX as int,
        0 <= x < w,
        0 <= y < h,
        0 <= ax,
        0 <= ay,
        0 <= rc,
        0 <= radius <= rc * (SCALE as int),
        sq(x - ax / (SCALE as int)) + sq(y - ay / (SCALE as int)) > sq(rc + 1),
    ensures
        forall|c: int| 0 <= c < 4 ==> #[trigger] brush_den_cell(den, w, h, ax, ay, ax, ay, radius,
            strength, color, smudge, idx3(w, 4, x, y, c)) == den[idx3(w, 4, x, y, c)] as int,
        forall|c: int| 0 <= c < 2 ==> #[trigger] brush_vel_cell(vel, w, h, ax, ay, ax, ay, radius,
            vfactor, idx3(w, 2, x, y, c)) == vel[idx3(w, 2, x, y, c)] as int,
{
    let s = SCALE as int;
    let q = QCELL as int;
    let cx = ax / s;
    let cy = ay / s;
    vstd::arithmetic::div_mod::lemma_fundamental_div_mod(ax, s);
    vstd::arithmetic::div_mod::lemma_fundamental_div_mod(ay, s);
    let rx = ax % s;
    let ry = ay % s;
    assert(0 <= rx < s && 0 <= ry < s);
    assert(cx >= 0 && cy >= 0) by {
        lemma_div_range(ax, s);
        lemma_div_range(ay, s);
    }
    // The stamp's brush-geometry position sits within the stamped cell:
    // gpos(ax) == 16 * cx + ex with 0 <= ex <= 15, likewise for the y axis.
    vstd::arithmetic::div_mod::lemma_hoist_over_denominator(rx, 16 * cx, q as nat);
    vstd::arithmetic::div_mod::lemma_hoist_over_denominator(ry, 16 * cy, q as nat);
    assert((16 * cx) * q == s * cx && (16 * cy) * q == s * cy) by (nonlinear_arith)
        requires
            q == 4096,
            s == 65536,
    ;
    let ex = rx / q;
    let ey = ry / q;
    assert(gpos(ax) == 16 * cx + ex && gpos(ay) == 16 * cy + ey);
    assert(0 <= ex <= 15 && 0 <= ey <= 15) by {
        lemma_div_range(rx, q);
        lemma_div_range(ry, q);
        lemma_div_mono(rx, 65535, q);
        lemma_div_mono(ry, 65535, q);
        assert(65535int / 4096 == 15);
    }
    // The brush-geometry radius is at most 16 cells per cell of radius.
    let rg = gpos(radius);
    assert(0 <= rg <= 16 * rc) by {
        lemma_div_range(radius, q);
        lemma_div_mono(radius, rc * s, q);
        assert(rc * s == q * (16 * rc)) by (nonlinear_arith)
            requires
                q == 4096,
                s == 65536,
        ;
        lemma_div_multiples_vanish(16 * rc, q);
    }
    // The cell center is far enough from the stamp in brush-geometry units.
    let a = x - cx;
    let b = y - cy;
    let dxg = gcenter(x) - gpos(ax);
    let dyg = gcenter(y) - gpos(ay);
    assert(dxg == 16 * a + (8 - ex) && dyg == 16 * b + (8 - ey));
    assert(sq(16 * a + (8 - ex)) + sq(16 * b + (8 - ey)) >= 256 * (rc * rc)) by (nonlinear_arith)
        requires
            0 <= ex <= 15,
            0 <= ey <= 15,
            a * a + b * b >= (rc + 1) * (rc + 1) + 1,
            0 <= rc,
    ;
    assert(sq(rg) <= 256 * (rc * rc)) by (nonlinear_arith)
        requires
            0 <= rg <= 16 * rc,
    ;
    assert(dist2_seg_spec(gcenter(x), gcenter(y), gpos(ax), gpos(ay), gpos(ax), gpos(ay))
        == sq(dxg) + sq(dyg));
    lemma_brush_locality_seg(den, vel, w, h, ax, ay, ax, ay, radius, strength, color, smudge,
        vfactor, x, y);
}

/// A nonnegative fixed-point position maps into the brush-geometry range.
pub proof fn lemma_gpos_range(v: int, m: int)
    requires
        0 <= v <= m,
        m <= 16384 * 65536,
    ensures
        0 <= gpos(v) <= 262144,
{
    lemma_div_range(v, QCELL as int);
    lemma_div_mono(v, (16384 * 65536) as int, QCELL as int);
    assert((16384 * 65536) / 4096 == 262144);
}

} // verus!
