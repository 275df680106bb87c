use vstd::prelude::*;
use crate::fixed::{SCALE, DT, VMAX, DIVMAX, PMAX, GRID_MAX, clamp_spec, clamp64, fdiv};
use crate::field::{Field, FieldView, fv, bounded, zeros, lemma_bounded_widen};
use crate::params::{GuiParams, InteractionState};
use crate::diffuse::{ALPHA_CAP, diffused_n, diffuse_once};
use crate::advect::{advected, advect_field};
use crate::brush::{brush_density_seq, brush_velocity_seq, brush_density, brush_velocity};
use crate::project::{
    div_cell, divergence_of, jacobi_n, jacobi_once_seq, gradient_subtracted, projected,
    divergence, jacobi_once, gradient_subtract, lemma_jacobi_once_bound, lemma_jacobi_zero,
    lemma_projection_fixpoint,
};

verus! {

/// Jacobi passes run by one diffusion stage; even, so the authoritative
/// density slot index is unchanged by diffusion.
pub const DIFFUSE_ITERS: usize = 50;

/// Jacobi passes run by one pressure solve; even, so the authoritative
/// pressure slot holds the final estimate with no copy-back.
pub const PRESSURE_ITERS: usize = 40;

/// Ghost image of the whole solver: the grid shape, the four double-buffered
/// fields, and the single-buffered pre-diffusion snapshot.
#[verifier::ext_equal]
pub ghost struct SimView {
    pub width: int,
    pub height: int,
    pub density: FieldView,
    pub velocity: FieldView,
    pub pressure: FieldView,
    pub divergence: FieldView,
    pub temp_density: Seq<i64>,
}

impl SimView {
    pub open spec fn wf(self) -> bool {
        &&& 1 <= self.width <= GRID_MAX as int
        &&& 1 <= self.height <= GRID_MAX as int
        &&& self.density.wf(self.width * self.height * 4, VMAX as int)
        &&& self.velocity.wf(self.width * self.height * 2, VMAX as int)
        &&& self.pressure.wf(self.width * self.height, PMAX as int)
        &&& self.divergence.wf(self.width * self.height, DIVMAX as int)
        &&& self.temp_density.len() == self.width * self.height * 4
        &&& bounded(self.temp_density, VMAX as int)
    }
}

/// The diffusion rate `alpha` derived from a positive viscosity, capped so
/// that the relaxation denominators stay in range.
pub open spec fn alpha_of(visc: int) -> int {
    clamp_spec(281474976710656int / (visc * (DT as int)), 0, ALPHA_CAP as int)
}

/// A coordinate clamped into the fixed-point span of an axis of `n` cells.
pub open spec fn cpos(v: int, n: int) -> int {
    clamp_spec(v, 0, n * (SCALE as int))
}

/// What one diffusion stage does to the solver: with viscosity zero or below
/// it is the identity; otherwise the authoritative density is snapshot into
/// the scratch copy and relaxed by `DIFFUSE_ITERS` Jacobi passes, ending on
/// the slot it started from.
pub open spec fn diffuse_view(v: SimView, visc: int) -> SimView {
    if visc <= 0 {
        v
    } else {
        let alpha = alpha_of(visc);
        let d0 = v.density.auth();
        let n = DIFFUSE_ITERS as nat;
        SimView {
            density: fv(
                diffused_n(d0, d0, v.width, v.height, 4, alpha, n),
                diffused_n(d0, d0, v.width, v.height, 4, alpha, (n - 1) as nat),
                v.density.cur,
            ),
            temp_density: d0,
            ..v
        }
    }
}

/// What the advection stage does: density and velocity are transported along
/// the authoritative velocity into the scratch slots, which become
/// authoritative.
pub open spec fn advect_view(v: SimView, idecay: int, vdecay: int) -> SimView {
    let vel0 = v.velocity.auth();
    SimView {
        density: fv(
            advected(vel0, v.density.auth(), v.width, v.height, 4, idecay),
            v.density.auth(),
            1 - v.density.cur,
        ),
        velocity: fv(
            advected(vel0, vel0, v.width, v.height, 2, vdecay),
            vel0,
            1 - v.velocity.cur,
        ),
        ..v
    }
}

/// The stamp radius in grid units: the world radius scaled by the inverse
/// zoom, clamped into the accepted radius range.
pub open spec fn stamp_radius(size: int, zoom: int) -> int {
    clamp_spec(size * (SCALE as int) / zoom, 0, (GRID_MAX as int) * (SCALE as int))
}

/// What one brush stamp does: ink and momentum are stamped along the clamped
/// stroke into the scratch slots, which become authoritative; the stamp
/// radius is the world radius over the zoom.
pub open spec fn brush_view(v: SimView, last: [i64; 2], cur: [i64; 2], p: GuiParams) -> SimView {
    let ax = cpos(last[0] as int, v.width);
    let ay = cpos(last[1] as int, v.height);
    let bx = cpos(cur[0] as int, v.width);
    let by = cpos(cur[1] as int, v.height);
    let radius = stamp_radius(p.brush_size as int, p.zoom_level as int);
    SimView {
        density: fv(
            brush_density_seq(v.density.auth(), v.width, v.height, ax, ay, bx, by,
                radius, p.brush_strength as int, p.brush_color, p.smudge),
            v.density.auth(),
            1 - v.density.cur,
        ),
        velocity: fv(
            brush_velocity_seq(v.velocity.auth(), v.width, v.height, ax, ay, bx, by,
                radius, p.velocity_factor as int),
            v.velocity.auth(),
            1 - v.velocity.cur,
        ),
        ..v
    }
}

/// What the pressure projection does: the divergence of the authoritative
/// velocity is written and flipped in, the pressure is reset to zero and
/// relaxed by `PRESSURE_ITERS` Jacobi passes, and the corrected velocity is
/// written to the scratch slot and copied back into the authoritative slot.
pub open spec fn project_view(v: SimView) -> SimView {
    let vel0 = v.velocity.auth();
    let dv = divergence_of(vel0, v.width, v.height);
    let n = PRESSURE_ITERS as nat;
    let p = jacobi_n(dv, v.width, v.height, n);
    let corrected = gradient_subtracted(vel0, p, v.width, v.height);
    SimView {
        divergence: fv(dv, v.divergence.auth(), 1 - v.divergence.cur),
        pressure: fv(p, jacobi_n(dv, v.width, v.height, (n - 1) as nat), v.pressure.cur),
        velocity: fv(corrected, corrected, v.velocity.cur),
        ..v
    }
}

/// A solver whose authoritative velocity has zero computed divergence in
/// every cell gets that velocity back unchanged from the projection stage:
/// the divergence written is all zero, the pressure stays at zero through
/// every relaxation pass, and the gradient subtraction subtracts nothing.
pub proof fn lemma_project_view_fixpoint(v: SimView)
    requires
        v.wf(),
        forall|i: int| 0 <= i < v.width * v.height ==>
            #[trigger] div_cell(v.velocity.auth(), v.width, v.height, i) == 0,
    ensures
        project_view(v).velocity.auth() == v.velocity.auth(),
        project_view(v).velocity.scratch() == v.velocity.auth(),
        project_view(v).pressure.auth() == zeros(v.width * v.height),
        project_view(v).divergence.auth() == zeros(v.width * v.height),
{
    let w = v.width;
    let h = v.height;
    let vel = v.velocity.auth();
    lemma_projection_fixpoint(vel, w, h, PRESSURE_ITERS as nat);
    assert(divergence_of(vel, w, h) =~= zeros(w * h));
    lemma_jacobi_zero(divergence_of(vel, w, h), w, h, PRESSURE_ITERS as nat);
}

/// What a clear does: every field, the scratch-density snapshot included, is
/// zeroed in both slots; the slot indices are untouched.
pub open spec fn clear_view(v: SimView) -> SimView {
    SimView {
        density: FieldView { s0: zeros(v.width * v.height * 4), s1: zeros(v.width * v.height * 4), cur: v.density.cur },
        velocity: FieldView { s0: zeros(v.width * v.height * 2), s1: zeros(v.width * v.height * 2), cur: v.velocity.cur },
        pressure: FieldView { s0: zeros(v.width * v.height), s1: zeros(v.width * v.height), cur: v.pressure.cur },
        divergence: FieldView { s0: zeros(v.width * v.height), s1: zeros(v.width * v.height), cur: v.divergence.cur },
        temp_density: zeros(v.width * v.height * 4),
        ..v
    }
}

/// What one full frame does: a pending clear short-circuits the frame;
/// otherwise diffusion, advection, the brush stamp (only while the pointer is
/// pressed) and the pressure projection run in that fixed order, on the
/// sanitized parameter set.
pub open spec fn step_view(v: SimView, input: InteractionState, params: GuiParams) -> SimView {
    let p = params.sanitize_spec();
    if input.clear_requested {
        clear_view(v)
    } else {
        let v1 = diffuse_view(v, p.viscosity as int);
        let v2 = advect_view(v1, p.ink_decay as int, p.velocity_decay as int);
        let v3 = if input.mouse_pressed {
            brush_view(v2, input.last_mouse_pos, input.mouse_pos, p)
        } else {
            v2
        };
        project_view(v3)
    }
}

/// The simulation engine: all field buffers sized to one fixed grid, stepped
/// in place every frame, never resized.
pub struct FluidSim {
    width: usize,
    height: usize,
    density: Field,
    velocity: Field,
    pressure: Field,
    divergence: Field,
    temp_density: Vec<i64>,
}

impl View for FluidSim {
    type V = SimView;

    closed spec fn view(&self) -> SimView {
        SimView {
            width: self.width as int,
            height: self.height as int,
            density: self.density@,
            velocity: self.velocity@,
            pressure: self.pressure@,
            divergence: self.divergence@,
            temp_density: self.temp_density@,
        }
    }
}

impl FluidSim {
    /// A solver over a `width` by `height` grid with every field zeroed.
    pub fn new(width: usize, height: usize) -> (r: FluidSim)
        requires
            1 <= width <= GRID_MAX,
            1 <= height <= GRID_MAX,
        ensures
            r@.wf(),
            r@.width == width,
            r@.height == height,
            r@.density == (FieldView { s0: zeros(width * height * 4), s1: zeros(width * height * 4), cur: 0int }),
            r@.velocity == (FieldView { s0: zeros(width * height * 2), s1: zeros(width * height * 2), cur: 0int }),
            r@.pressure == (FieldView { s0: zeros(width * height), s1: zeros(width * height), cur: 0int }),
            r@.divergence == (FieldView { s0: zeros(width * height), s1: zeros(width * height), cur: 0int }),
            r@.temp_density == zeros(width * height * 4),
    {
        proof {
            assert(width * height * 4 <= 16384 * 16384 * 4) by (nonlinear_arith)
                requires
                    1 <= width <= 16384 && 1 <= height <= 16384,
            ;
        }
        let cells = width * height;
        let r = FluidSim {
            width,
            height,
            density: Field::new(cells * 4),
            velocity: Field::new(cells * 2),
            pressure: Field::new(cells),
            divergence: Field::new(cells),
            temp_density: vec![0i64; cells * 4],
        };
        proof {
            assert(r@.temp_density =~= zeros(width * height * 4));
        }
        r
    }

    pub fn width(&self) -> (r: usize)
        ensures
            r == self@.width,
    {
        self.width
    }

    pub fn height(&self) -> (r: usize)
        ensures
            r == self@.height,
    {
        self.height
    }

    /// Read-only handle to the authoritative density slot, for the renderer.
    pub fn density(&self) -> (r: &Vec<i64>)
        ensures
            r@ == self@.density.auth(),
    {
        self.density.auth()
    }

    /// Read-only handle to the authoritative velocity slot.
    pub fn velocity(&self) -> (r: &Vec<i64>)
        ensures
            r@ == self@.velocity.auth(),
    {
        self.velocity.auth()
    }

    /// Read-only handle to the authoritative pressure slot.
    pub fn pressure(&self) -> (r: &Vec<i64>)
        ensures
            r@ == self@.pressure.auth(),
    {
        self.pressure.auth()
    }

    /// Read-only handle to the authoritative divergence slot.
    pub fn divergence(&self) -> (r: &Vec<i64>)
        ensures
            r@ == self@.divergence.auth(),
    {
        self.divergence.auth()
    }

    /// Read-only handle to the scratch-density snapshot, the stable read
    /// source of the diffusion stage.
    pub fn scratch_density(&self) -> (r: &Vec<i64>)
        ensures
            r@ == self@.temp_density,
    {
        &self.temp_density
    }

    /// Index of the authoritative density slot.
    pub fn density_slot(&self) -> (r: u8)
        ensures
            r as int == self@.density.cur,
    {
        self.density.current()
    }

    /// Replaces the authoritative density slot with a prepared buffer, such
    /// as an initial noise canvas; the scratch slot and all slot indices are
    /// untouched.
    pub fn load_density(&mut self, data: Vec<i64>)
        requires
            old(self)@.wf(),
            data@.len() == old(self)@.width * old(self)@.height * 4,
            bounded(data@, VMAX as int),
        ensures
            final(self)@ == (SimView {
                density: fv(data@, old(self)@.density.scratch(), old(self)@.density.cur),
                ..old(self)@
            }),
            final(self)@.wf(),
    {
        let which = self.density.current();
        self.density.write(which, data);
        proof {
            assert(self@ =~~= (SimView {
                density: fv(data@, old(self)@.density.scratch(), old(self)@.density.cur),
                ..old(self)@
            }));
        }
    }

    /// Zeroes every field without reallocating, the scratch-density snapshot
    /// included; a read of any field afterwards yields all zeros.
    pub fn clear(&mut self)
        requires
            old(self)@.wf(),
        ensures
            final(self)@ == clear_view(old(self)@),
            final(self)@.wf(),
    {
        self.density.zero();
        self.velocity.zero();
        self.pressure.zero();
        self.divergence.zero();
        let len = self.temp_density.len();
        self.temp_density = vec![0i64; len];
        proof {
            assert(self.temp_density@ =~= zeros(old(self)@.width * old(self)@.height * 4));
            assert(final(self)@ =~~= clear_view(old(self)@));
        }
    }

    /// Derives the capped diffusion rate from a positive viscosity.
    fn alpha_for(visc: i64) -> (r: i64)
        requires
            1 <= visc <= VMAX,
        ensures
            r == alpha_of(visc as int),
            0 <= r <= ALPHA_CAP,
    {
        proof {
            assert(1 <= visc * (DT as int) <= 4505419967823872) by (nonlinear_arith)
                requires
                    1 <= visc <= 4294967296,
                    (DT as int) == 1049,
            ;
        }
        clamp64(fdiv(281474976710656i64, visc * DT), 0, ALPHA_CAP)
    }

    /// Smooths the ink with `iters` Jacobi relaxation passes against a
    /// snapshot of the pre-diffusion density, alternating the density slots
    /// each pass; skipped entirely when the (sanitized) viscosity is zero or
    /// below.  After an even number of passes the authoritative density slot
    /// index is unchanged; after an odd number it differs.
    pub fn diffuse_n(&mut self, params: &GuiParams, iters: usize)
        requires
            old(self)@.wf(),
        ensures
            final(self)@.wf(),
            params.sanitize_spec().viscosity <= 0 ==> final(self)@ == old(self)@,
            params.sanitize_spec().viscosity > 0 ==> {
                let a = alpha_of(params.sanitize_spec().viscosity as int);
                let d0 = old(self)@.density.auth();
                let w = old(self)@.width;
                let h = old(self)@.height;
                &&& final(self)@.density.auth() == diffused_n(d0, d0, w, h, 4, a, iters as nat)
                &&& final(self)@.density.cur == (if iters % 2 == 0 {
                    old(self)@.density.cur
                } else {
                    1 - old(self)@.density.cur
                })
                &&& final(self)@.density.scratch() == (if iters == 0 {
                    old(self)@.density.scratch()
                } else {
                    diffused_n(d0, d0, w, h, 4, a, (iters - 1) as nat)
                })
                &&& final(self)@.temp_density == d0
                &&& final(self)@.velocity == old(self)@.velocity
                &&& final(self)@.pressure == old(self)@.pressure
                &&& final(self)@.divergence == old(self)@.divergence
                &&& final(self)@.width == w
                &&& final(self)@.height == h
            },
    {
        let p = params.sanitize();
        if p.viscosity <= 0 {
            return;
        }
        let alpha = Self::alpha_for(p.viscosity);
        let snap = self.density.auth().clone();
        proof {
            assert(snap@ =~= self.density@.auth());
        }
        self.temp_density = snap;
        let w = self.width;
        let h = self.height;
        let ghost d0 = self.density@.auth();
        let ghost cur0 = self.density@.cur;
        let ghost scr0 = self.density@.scratch();
        let ghost vel0 = self@.velocity;
        let ghost pr0 = self@.pressure;
        let ghost dv0 = self@.divergence;
        let mut k: usize = 0;
        while k < iters
            invariant
                self@.wf(),
                k <= iters,
                self.width == w,
                self.height == h,
                0 <= alpha <= ALPHA_CAP,
                self@.temp_density == d0,
                d0.len() == w * h * 4,
                bounded(d0, VMAX as int),
                cur0 == 0 || cur0 == 1,
                self@.density.cur == (if k % 2 == 0 { cur0 } else { 1 - cur0 }),
                self@.density.auth() == diffused_n(d0, d0, w as int, h as int, 4, alpha as int, k as nat),
                k == 0 ==> self@.density.scratch() == scr0,
                k >= 1 ==> self@.density.scratch() == diffused_n(d0, d0, w as int, h as int, 4, alpha as int, (k - 1) as nat),
                self@.velocity == vel0,
                self@.pressure == pr0,
                self@.divergence == dv0,
            decreases iters - k,
        {
            let new = diffuse_once(self.density.auth(), &self.temp_density, w, h, 4, alpha);
            self.density.write_scratch(new);
            self.density.swap();
            k = k + 1;
        }
    }

    /// Smooths the ink to emulate viscous spreading: one diffusion stage of
    /// `DIFFUSE_ITERS` Jacobi passes, the slot bookkeeping of
    /// [`diffuse_view`].
    pub fn diffuse(&mut self, params: &GuiParams)
        requires
            old(self)@.wf(),
        ensures
            final(self)@ == diffuse_view(old(self)@, params.sanitize_spec().viscosity as int),
            final(self)@.wf(),
    {
        self.diffuse_n(params, DIFFUSE_ITERS);
        proof {
            assert(self@ =~~= diffuse_view(old(self)@, params.sanitize_spec().viscosity as int));
        }
    }

    /// Transports ink and momentum along the current velocity field with
    /// semi-Lagrangian backtracing, writing both results to the scratch slots
    /// and flipping them in.
    pub fn advect(&mut self, params: &GuiParams)
        requires
            old(self)@.wf(),
        ensures
            final(self)@ == advect_view(
                old(self)@,
                params.sanitize_spec().ink_decay as int,
                params.sanitize_spec().velocity_decay as int,
            ),
            final(self)@.wf(),
    {
        let p = params.sanitize();
        let w = self.width;
        let h = self.height;
        let den_new = advect_field(self.velocity.auth(), self.density.auth(), w, h, 4, p.ink_decay);
        let vel_new = advect_field(self.velocity.auth(), self.velocity.auth(), w, h, 2, p.velocity_decay);
        self.density.write_scratch(den_new);
        self.density.swap();
        self.velocity.write_scratch(vel_new);
        self.velocity.swap();
        proof {
            assert(self@ =~~= advect_view(
                old(self)@,
                params.sanitize_spec().ink_decay as int,
                params.sanitize_spec().velocity_decay as int,
            ));
        }
    }

    /// Stamps ink and momentum along the pointer stroke from `last_pos` to
    /// `current_pos` (fixed-point grid coordinates, clamped into the grid),
    /// with the world radius scaled by the inverse zoom, writing both results
    /// to the scratch slots and flipping them in.
    pub fn add_forces(&mut self, current_pos: [i64; 2], last_pos: [i64; 2], params: &GuiParams)
        requires
            old(self)@.wf(),
        ensures
            final(self)@ == brush_view(old(self)@, last_pos, current_pos, params.sanitize_spec()),
            final(self)@.wf(),
    {
        let p = params.sanitize();
        let w = self.width;
        let h = self.height;
        proof {
            assert((w as int) * (SCALE as int) <= 16384 * 65536 && (h as int) * (SCALE as int)
                <= 16384 * 65536 && (w as int) * (SCALE as int) >= 65536 && (h as int)
                * (SCALE as int) >= 65536) by (nonlinear_arith)
                requires
                    1 <= w <= 16384,
                    1 <= h <= 16384,
            ;
        }
        let ax = clamp64(last_pos[0], 0, (w as i64) * SCALE);
        let ay = clamp64(last_pos[1], 0, (h as i64) * SCALE);
        let bx = clamp64(current_pos[0], 0, (w as i64) * SCALE);
        let by = clamp64(current_pos[1], 0, (h as i64) * SCALE);
        proof {
            assert(0 <= (p.brush_size as int) * (SCALE as int) <= 1073741824 * 65536)
                by (nonlinear_arith)
                requires
                    0 <= p.brush_size <= 1073741824,
            ;
            crate::fixed::lemma_div_range((p.brush_size as int) * (SCALE as int), p.zoom_level as int);
        }
        let radius = clamp64(fdiv(p.brush_size * SCALE, p.zoom_level), 0, (GRID_MAX as i64) * SCALE);
        let den_new = brush_density(self.density.auth(), w, h, ax, ay, bx, by, radius,
            p.brush_strength, p.brush_color, p.smudge);
        let vel_new = brush_velocity(self.velocity.auth(), w, h, ax, ay, bx, by, radius,
            p.velocity_factor);
        self.density.write_scratch(den_new);
        self.density.swap();
        self.velocity.write_scratch(vel_new);
        self.velocity.swap();
        proof {
            assert(self@ =~~= brush_view(old(self)@, last_pos, current_pos, params.sanitize_spec()));
        }
    }

    /// Enforces near-zero divergence: writes the divergence of the current
    /// velocity, resets the pressure to zero and relaxes it with
    /// `PRESSURE_ITERS` Jacobi passes, then subtracts half the pressure
    /// gradient from the velocity and copies the corrected field back into
    /// the authoritative slot.
    pub fn project(&mut self)
        requires
            old(self)@.wf(),
        ensures
            final(self)@ == project_view(old(self)@),
            final(self)@.wf(),
            final(self)@.velocity.auth() == projected(
                old(self)@.velocity.auth(),
                old(self)@.width,
                old(self)@.height,
                PRESSURE_ITERS as nat,
            ),
    {
        let w = self.width;
        let h = self.height;
        let dv = divergence(self.velocity.auth(), w, h);
        self.divergence.write_scratch(dv);
        self.divergence.swap();
        self.pressure.zero();
        let ghost dvs = self@.divergence.auth();
        let ghost pcur0 = self@.pressure.cur;
        let ghost den0 = self@.density;
        let ghost vel0 = self@.velocity;
        let ghost dvv0 = self@.divergence;
        let ghost temp0 = self@.temp_density;
        proof {
            assert(self@.pressure.auth() =~= jacobi_n(dvs, w as int, h as int, 0));
            assert(bounded(self@.pressure.auth(), 0));
        }
        let mut k: usize = 0;
        while k < PRESSURE_ITERS
            invariant
                self@.wf(),
                k <= PRESSURE_ITERS,
                self.width == w,
                self.height == h,
                dvs.len() == w * h,
                dvs == dvv0.auth(),
                bounded(dvs, DIVMAX as int),
                pcur0 == 0 || pcur0 == 1,
                self@.pressure.cur == (if k % 2 == 0 { pcur0 } else { 1 - pcur0 }),
                self@.pressure.auth() == jacobi_n(dvs, w as int, h as int, k as nat),
                bounded(self@.pressure.auth(), k * 2147483648),
                k == 0 ==> self@.pressure.scratch() == zeros(w * h),
                k >= 1 ==> self@.pressure.scratch() == jacobi_n(dvs, w as int, h as int, (k - 1) as nat),
                self@.density == den0,
                self@.velocity == vel0,
                self@.divergence == dvv0,
                self@.temp_density == temp0,
            decreases PRESSURE_ITERS - k,
        {
            proof {
                lemma_bounded_widen(self@.pressure.auth(), k * 2147483648, PMAX as int);
            }
            let pn = jacobi_once(self.pressure.auth(), self.divergence.auth(), w, h);
            proof {
                lemma_jacobi_once_bound(self@.pressure.auth(), dvs, w as int, h as int, k * 2147483648);
                assert(pn@ == jacobi_once_seq(
                    jacobi_n(dvs, w as int, h as int, k as nat),
                    dvs,
                    w as int,
                    h as int,
                ));
                assert(jacobi_n(dvs, w as int, h as int, (k + 1) as nat) == jacobi_once_seq(
                    jacobi_n(dvs, w as int, h as int, k as nat),
                    dvs,
                    w as int,
                    h as int,
                ));
                assert(bounded(pn@, k * 2147483648 + 2147483648));
                lemma_bounded_widen(pn@, k * 2147483648 + 2147483648, PMAX as int);
            }
            self.pressure.write_scratch(pn);
            self.pressure.swap();
            k = k + 1;
        }
        let vel_new = gradient_subtract(self.velocity.auth(), self.pressure.auth(), w, h);
        self.velocity.write_scratch(vel_new);
        self.velocity.copy_back();
        proof {
            assert(self@ =~~= project_view(old(self)@));
        }
    }

    /// Advances the simulation by one frame: a pending clear short-circuits
    /// the whole sequence; otherwise diffusion, advection, the brush stamp
    /// (only while the pointer is pressed) and the pressure projection run in
    /// that fixed order, each restoring the authoritative-slot invariant
    /// before the next begins.
    pub fn step(&mut self, input: &InteractionState, params: &GuiParams)
        requires
            old(self)@.wf(),
        ensures
            final(self)@ == step_view(old(self)@, *input, *params),
            final(self)@.wf(),
    {
        if input.clear_requested {
            self.clear();
            return;
        }
        self.diffuse(params);
        self.advect(params);
        if input.mouse_pressed {
            self.add_forces(input.mouse_pos, input.last_mouse_pos, params);
        }
        self.project();
    }

    /// Applies a requested reset: every field reads all-zero afterwards.
    pub fn reset(&mut self)
        requires
            old(self)@.wf(),
        ensures
            final(self)@ == clear_view(old(self)@),
            final(self)@.wf(),
    {
        self.clear()
    }
}

} // verus!
