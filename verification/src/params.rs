use vstd::prelude::*;
use crate::fixed::{SCALE, VMAX, GRID_MAX, clamp_spec, clamp64, fdiv, lemma_div_range};

verus! {

/// The tunable parameter set supplied by the control panel, one snapshot per
/// frame.  Every ratio is a fixed-point number scaled by [`SCALE`].
#[derive(Clone, Copy)]
pub struct GuiParams {
    /// Brush radius in world units.
    pub brush_size: i64,
    /// Brush opacity, `[0, SCALE]`.
    pub brush_strength: i64,
    /// Color stamped by the brush, each channel in `[0, SCALE]`.
    pub brush_color: [i64; 4],
    /// How much of the stroke direction is imparted as velocity.
    pub velocity_factor: i64,
    /// Pull color out of the canvas instead of injecting fresh color.
    pub smudge: bool,
    /// Viscosity; zero or negative switches diffusion off.
    pub viscosity: i64,
    /// Per-frame velocity retention factor, `(0, SCALE]`.
    pub velocity_decay: i64,
    /// Per-frame ink retention factor, `(0, SCALE]`.
    pub ink_decay: i64,
    /// View zoom; positive.
    pub zoom_level: i64,
    /// Requested canvas width in cells.
    pub canvas_width: usize,
    /// Requested canvas height in cells.
    pub canvas_height: usize,
}

impl GuiParams {
    /// Ranges under which every stage's arithmetic is defined.
    pub open spec fn valid(self) -> bool {
        &&& 0 <= self.brush_size <= (GRID_MAX as int) * (SCALE as int)
        &&& 0 <= self.brush_strength <= SCALE
        &&& forall|c: int| 0 <= c < 4 ==> 0 <= #[trigger] self.brush_color[c] <= SCALE
        &&& 0 <= self.velocity_factor <= 4 * (SCALE as int)
        &&& -(VMAX as int) <= self.viscosity <= VMAX
        &&& 0 < self.velocity_decay <= SCALE
        &&& 0 < self.ink_decay <= SCALE
        &&& 1 <= self.zoom_level <= VMAX
    }

    /// The same parameters with every field clamped into its accepted range;
    /// out-of-range requests degrade silently instead of failing a frame.
    pub open spec fn sanitize_spec(self) -> GuiParams {
        GuiParams {
            brush_size: clamp_spec(self.brush_size as int, 0, (GRID_MAX as int) * (SCALE as int)) as i64,
            brush_strength: clamp_spec(self.brush_strength as int, 0, SCALE as int) as i64,
            brush_color: [
                clamp_spec(self.brush_color[0] as int, 0, SCALE as int) as i64,
                clamp_spec(self.brush_color[1] as int, 0, SCALE as int) as i64,
                clamp_spec(self.brush_color[2] as int, 0, SCALE as int) as i64,
                clamp_spec(self.brush_color[3] as int, 0, SCALE as int) as i64,
            ],
            velocity_factor: clamp_spec(self.velocity_factor as int, 0, 4 * (SCALE as int)) as i64,
            smudge: self.smudge,
            viscosity: clamp_spec(self.viscosity as int, -(VMAX as int), VMAX as int) as i64,
            velocity_decay: clamp_spec(self.velocity_decay as int, 1, SCALE as int) as i64,
            ink_decay: clamp_spec(self.ink_decay as int, 1, SCALE as int) as i64,
            zoom_level: clamp_spec(self.zoom_level as int, 1, VMAX as int) as i64,
            canvas_width: self.canvas_width,
            canvas_height: self.canvas_height,
        }
    }

    /// Clamps every field into its accepted range.
    pub fn sanitize(&self) -> (r: GuiParams)
        ensures
            r == self.sanitize_spec(),
            r.valid(),
    {
        let r = GuiParams {
            brush_size: clamp64(self.brush_size, 0, (GRID_MAX as i64) * SCALE),
            brush_strength: clamp64(self.brush_strength, 0, SCALE),
            brush_color: [
                clamp64(self.brush_color[0], 0, SCALE),
                clamp64(self.brush_color[1], 0, SCALE),
                clamp64(self.brush_color[2], 0, SCALE),
                clamp64(self.brush_color[3], 0, SCALE),
            ],
            velocity_factor: clamp64(self.velocity_factor, 0, 4 * SCALE),
            smudge: self.smudge,
            viscosity: clamp64(self.viscosity, -VMAX, VMAX),
            velocity_decay: clamp64(self.velocity_decay, 1, SCALE),
            ink_decay: clamp64(self.ink_decay, 1, SCALE),
            zoom_level: clamp64(self.zoom_level, 1, VMAX),
            canvas_width: self.canvas_width,
            canvas_height: self.canvas_height,
        };
        proof {
            assert(r.brush_color =~= self.sanitize_spec().brush_color);
            assert(forall|c: int| 0 <= c < 4 ==> 0 <= #[trigger] r.brush_color[c] <= SCALE);
        }
        r
    }
}

impl Default for GuiParams {
    /// A conservative starting parameter set: zoom 0.8, brush radius 20,
    /// slight ink and velocity decay, diffusion off, opaque black ink.
    fn default() -> (r: GuiParams)
        ensures
            r.valid(),
            r.zoom_level == 52429,
            r.brush_size == 20 * SCALE,
            r.canvas_width == 1920,
            r.canvas_height == 1080,
            r.ink_decay == 65470,
            r.velocity_decay == 65470,
            r.viscosity == 0,
            !r.smudge,
    {
        GuiParams {
            brush_size: 20 * SCALE,
            brush_strength: SCALE,
            brush_color: [0, 0, 0, SCALE],
            velocity_factor: SCALE / 2,
            smudge: false,
            viscosity: 0,
            velocity_decay: 65470,
            ink_decay: 65470,
            zoom_level: 52429,
            canvas_width: 1920,
            canvas_height: 1080,
        }
    }
}

/// Per-frame snapshot of the pointer, already transformed into grid space.
#[derive(Clone, Copy)]
pub struct InteractionState {
    /// Pointer position in grid coordinates, fixed-point.
    pub mouse_pos: [i64; 2],
    /// Pointer position on the previous frame.
    pub last_mouse_pos: [i64; 2],
    /// Whether the brush button is held.
    pub mouse_pressed: bool,
    /// Whether the canvas should be wiped instead of stepped.
    pub clear_requested: bool,
}

impl Default for InteractionState {
    fn default() -> (r: InteractionState)
        ensures
            r.mouse_pos[0] == 0 && r.mouse_pos[1] == 0,
            r.last_mouse_pos[0] == 0 && r.last_mouse_pos[1] == 0,
            !r.mouse_pressed,
            !r.clear_requested,
    {
        InteractionState {
            mouse_pos: [0, 0],
            last_mouse_pos: [0, 0],
            mouse_pressed: false,
            clear_requested: false,
        }
    }
}

/// Where a screen pixel lands on the grid: the grid center plus the offset
/// from the screen center divided by the zoom.
pub open spec fn to_grid_spec(pos: int, screen: int, grid: int, zoom: int) -> int {
    grid * (SCALE as int) / 2 + (pos - screen * (SCALE as int) / 2) * (SCALE as int) / zoom
}

/// Transforms one screen coordinate (fixed-point pixels) into a grid
/// coordinate, for a screen axis of `screen` pixels and a grid axis of
/// `grid` cells.
pub fn to_grid(pos: i64, screen: usize, grid: usize, zoom: i64) -> (r: i64)
    requires
        1 <= zoom,
        screen <= 65536,
        grid <= GRID_MAX,
        -4294967296 <= pos <= 4294967296,
    ensures
        r == to_grid_spec(pos as int, screen as int, grid as int, zoom as int),
{
    let grid_center = fdiv((grid as i64) * SCALE, 2);
    let screen_center = fdiv((screen as i64) * SCALE, 2);
    let offset = pos - screen_center;
    proof {
        lemma_div_range((grid as int) * (SCALE as int), 2);
        lemma_div_range((screen as int) * (SCALE as int), 2);
        assert(-(4294967296 + 2147483648) * 65536 <= offset * 65536 <= (4294967296 + 2147483648) * 65536)
            by (nonlinear_arith)
            requires
                -6442450944 <= offset <= 6442450944,
        ;
        lemma_div_range(offset as int * 65536, zoom as int);
    }
    grid_center + fdiv(offset * SCALE, zoom)
}

} // verus!
