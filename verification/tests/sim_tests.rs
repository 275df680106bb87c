use fluid_canvas::fixed::SCALE;
use fluid_canvas::noise::noise_field;
use fluid_canvas::params::{GuiParams, InteractionState};
use fluid_canvas::sim::FluidSim;

fn idx(w: usize, ch: usize, x: usize, y: usize, c: usize) -> usize {
    (y * w + x) * ch + c
}

fn quiet_params() -> GuiParams {
    let mut p = GuiParams::default();
    p.viscosity = 0;
    p.ink_decay = SCALE;
    p.velocity_decay = SCALE;
    p.brush_strength = SCALE;
    p.brush_color = [SCALE, 0, 0, SCALE];
    p.brush_size = 5 * SCALE;
    p.velocity_factor = SCALE / 2;
    // Zoom one: the stamp radius equals the world radius.
    p.zoom_level = SCALE;
    p
}

#[test]
fn new_solver_is_all_zero() {
    let s = FluidSim::new(8, 8);
    assert_eq!(s.width(), 8);
    assert_eq!(s.height(), 8);
    assert!(s.density().iter().all(|&v| v == 0));
    assert!(s.velocity().iter().all(|&v| v == 0));
    assert!(s.pressure().iter().all(|&v| v == 0));
    assert!(s.divergence().iter().all(|&v| v == 0));
}

#[test]
fn reset_zeroes_every_field() {
    let mut s = FluidSim::new(32, 24);
    let p = quiet_params();
    let mut input = InteractionState::default();
    input.mouse_pressed = true;
    input.last_mouse_pos = [10 * SCALE, 10 * SCALE];
    input.mouse_pos = [14 * SCALE, 12 * SCALE];
    s.step(&input, &p);
    assert!(s.density().iter().any(|&v| v != 0));
    s.reset();
    assert!(s.density().iter().all(|&v| v == 0));
    assert!(s.velocity().iter().all(|&v| v == 0));
    assert!(s.pressure().iter().all(|&v| v == 0));
    assert!(s.divergence().iter().all(|&v| v == 0));
    assert!(s.scratch_density().iter().all(|&v| v == 0));
}

#[test]
fn reset_also_wipes_the_diffusion_snapshot() {
    let mut s = FluidSim::new(8, 8);
    let mut p = quiet_params();
    p.viscosity = 2 * SCALE;
    s.load_density(noise_field(8, 8));
    s.diffuse(&p);
    assert!(s.scratch_density().iter().any(|&v| v != 0));
    s.reset();
    assert!(s.scratch_density().iter().all(|&v| v == 0));
}

#[test]
fn brush_radius_scales_with_inverse_zoom() {
    // A radius of four world units stamped at zoom two reaches only two
    // cells: a cell three cells away stays untouched.  At zoom one half the
    // same brush reaches eight cells and paints it.
    let center = [10 * SCALE + SCALE / 2, 10 * SCALE + SCALE / 2];
    let mut p = quiet_params();
    p.brush_size = 4 * SCALE;
    p.zoom_level = 2 * SCALE;
    let mut s = FluidSim::new(20, 20);
    s.add_forces(center, center, &p);
    assert_eq!(s.density()[idx(20, 4, 13, 10, 0)], 0);
    assert_ne!(s.density()[idx(20, 4, 10, 10, 0)], 0);
    p.zoom_level = SCALE / 2;
    let mut s2 = FluidSim::new(20, 20);
    s2.add_forces(center, center, &p);
    assert_ne!(s2.density()[idx(20, 4, 13, 10, 0)], 0);
}

#[test]
fn clear_request_short_circuits_the_frame() {
    let mut s = FluidSim::new(16, 16);
    let p = quiet_params();
    let mut input = InteractionState::default();
    input.mouse_pressed = true;
    input.last_mouse_pos = [4 * SCALE, 4 * SCALE];
    input.mouse_pos = [8 * SCALE, 8 * SCALE];
    s.step(&input, &p);
    assert!(s.density().iter().any(|&v| v != 0));
    // The same frame input with a pending clear wipes instead of stamping.
    input.clear_requested = true;
    s.step(&input, &p);
    assert!(s.density().iter().all(|&v| v == 0));
    assert!(s.velocity().iter().all(|&v| v == 0));
}

#[test]
fn diffusion_slot_parity_even_and_odd() {
    let mut s = FluidSim::new(12, 12);
    let mut p = quiet_params();
    p.viscosity = 2 * SCALE;
    assert_eq!(s.density_slot(), 0);
    s.diffuse_n(&p, 4);
    assert_eq!(s.density_slot(), 0);
    s.diffuse_n(&p, 3);
    assert_eq!(s.density_slot(), 1);
    s.diffuse_n(&p, 50);
    assert_eq!(s.density_slot(), 1);
    // With diffusion switched off the pass is an identity: no slot change.
    p.viscosity = 0;
    s.diffuse_n(&p, 3);
    assert_eq!(s.density_slot(), 1);
}

#[test]
fn diffusion_is_identity_when_viscosity_is_off() {
    let mut s = FluidSim::new(10, 10);
    s.load_density(noise_field(10, 10));
    let before = s.density().clone();
    let p = quiet_params();
    s.diffuse(&p);
    assert_eq!(s.density(), &before);
    assert_eq!(s.density_slot(), 0);
}

#[test]
fn projection_on_still_fluid_changes_nothing() {
    let mut s = FluidSim::new(20, 15);
    s.project();
    assert!(s.velocity().iter().all(|&v| v == 0));
    assert!(s.pressure().iter().all(|&v| v == 0));
    assert!(s.divergence().iter().all(|&v| v == 0));
}

#[test]
fn step_on_one_cell_grid_is_defined() {
    let mut s = FluidSim::new(1, 1);
    let p = quiet_params();
    let mut input = InteractionState::default();
    input.mouse_pressed = true;
    s.step(&input, &p);
    s.step(&InteractionState::default(), &p);
}

#[test]
fn load_density_exposes_the_buffer() {
    let mut s = FluidSim::new(10, 10);
    let noise = noise_field(10, 10);
    s.load_density(noise.clone());
    assert_eq!(s.density(), &noise);
}

#[test]
fn advect_only_steps_never_gain_ink() {
    let mut s = FluidSim::new(24, 16);
    let mut p = quiet_params();
    p.ink_decay = 65470;
    s.load_density(noise_field(24, 16));
    let input = InteractionState::default();
    let mut prev: i64 = s.density().iter().sum();
    for _ in 0..4 {
        s.step(&input, &p);
        let total: i64 = s.density().iter().sum();
        assert!(total <= prev);
        prev = total;
    }
}

#[test]
fn stroke_scenario_paints_and_pushes() {
    // Grid 80 by 45, all fields zero; one stroke from (40, 22) to (45, 22)
    // with radius 5, full strength and velocity factor one half.  Afterwards
    // the density near the stroke is closer to the brush color than a cell
    // far outside it, and the velocity at the stroke head points along the
    // stroke.
    let mut s = FluidSim::new(80, 45);
    let p = quiet_params();
    let mut input = InteractionState::default();
    input.mouse_pressed = true;
    input.last_mouse_pos = [40 * SCALE, 22 * SCALE];
    input.mouse_pos = [45 * SCALE, 22 * SCALE];
    s.step(&input, &p);
    let den = s.density();
    let near = den[idx(80, 4, 42, 22, 0)];
    let far = den[idx(80, 4, 42, 40, 0)];
    // Channel 0 of the brush color is SCALE; distance to it is smaller near
    // the stroke.
    assert!((SCALE - near).abs() < (SCALE - far).abs());
    let vel = s.velocity();
    assert!(vel[idx(80, 2, 45, 22, 0)] > 0);
}
