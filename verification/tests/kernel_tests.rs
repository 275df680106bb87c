use fluid_canvas::advect::advect_field;
use fluid_canvas::brush::{brush_density, brush_velocity};
use fluid_canvas::diffuse::diffuse_once;
use fluid_canvas::field::Field;
use fluid_canvas::fixed::SCALE;
use fluid_canvas::noise::noise_field;
use fluid_canvas::params::{to_grid, GuiParams};
use fluid_canvas::project::{divergence, gradient_subtract, jacobi_once};

fn idx(w: usize, ch: usize, x: usize, y: usize, c: usize) -> usize {
    (y * w + x) * ch + c
}

#[test]
fn advect_zero_velocity_applies_decay_exactly() {
    let vel = vec![0i64; 2];
    let den = vec![SCALE, SCALE, SCALE, SCALE];
    let out = advect_field(&vel, &den, 1, 1, 4, SCALE / 2);
    assert_eq!(out, vec![SCALE / 2; 4]);
}

#[test]
fn advect_only_total_ink_never_grows() {
    let w = 6;
    let h = 4;
    let vel = vec![0i64; w * h * 2];
    let mut den = vec![0i64; w * h * 4];
    den[idx(w, 4, 2, 1, 0)] = 3 * SCALE / 4;
    den[idx(w, 4, 3, 2, 1)] = SCALE / 3;
    den[idx(w, 4, 5, 3, 3)] = SCALE;
    let mut prev_total: i64 = den.iter().sum();
    for _ in 0..5 {
        den = advect_field(&vel, &den, w, h, 4, 65470);
        let total: i64 = den.iter().sum();
        assert!(total <= prev_total);
        assert!(den.iter().all(|&v| v >= 0));
        prev_total = total;
    }
}

#[test]
fn diffuse_keeps_uniform_field_exactly() {
    let x = vec![4096i64; 5 * 3 * 4];
    let b = vec![4096i64; 5 * 3 * 4];
    let out = diffuse_once(&x, &b, 5, 3, 4, 1000);
    assert_eq!(out, vec![4096i64; 5 * 3 * 4]);
}

#[test]
fn diffuse_spreads_toward_snapshot() {
    // A single bright cell relaxed against an all-zero snapshot loses value;
    // its neighbors gain some.
    let w = 3;
    let h = 3;
    let mut x = vec![0i64; w * h * 4];
    x[idx(w, 4, 1, 1, 0)] = SCALE;
    let b = x.clone();
    let out = diffuse_once(&x, &b, w, h, 4, 65536);
    assert!(out[idx(w, 4, 1, 1, 0)] < SCALE);
    assert!(out[idx(w, 4, 0, 1, 0)] > 0);
    assert!(out[idx(w, 4, 1, 0, 0)] > 0);
}

#[test]
fn divergence_of_constant_field_is_zero() {
    let w = 8;
    let h = 6;
    let mut vel = vec![0i64; w * h * 2];
    for cell in 0..w * h {
        vel[cell * 2] = 3 * SCALE;
        vel[cell * 2 + 1] = -2 * SCALE;
    }
    let div = divergence(&vel, w, h);
    assert_eq!(div, vec![0i64; w * h]);
}

#[test]
fn divergence_central_difference_exact() {
    // One row, vx = [0, 2, 4]: interior cell sees (4 - 0) / 2, boundary
    // cells clamp to themselves on the outside.
    let vel = vec![0, 0, 2, 0, 4, 0];
    let div = divergence(&vel, 3, 1);
    assert_eq!(div, vec![1, 2, 1]);
}

#[test]
fn jacobi_pass_exact_values() {
    // Zero pressure, a single divergence spike of 4: the spiked cell becomes
    // (0 + 0 + 0 + 0 - 4) / 4 = -1, every other cell stays 0.
    let p = vec![0i64; 9];
    let mut div = vec![0i64; 9];
    div[4] = 4;
    let out = jacobi_once(&p, &div, 3, 3);
    let mut expected = vec![0i64; 9];
    expected[4] = -1;
    assert_eq!(out, expected);
}

#[test]
fn gradient_subtract_exact_values() {
    // One row, pressure [0, 2, 4]: half the central difference is 1 at the
    // boundary cells and 2 in the middle; vy is untouched.
    let vel = vec![100, 50, 100, 50, 100, 50];
    let p = vec![0, 2, 4];
    let out = gradient_subtract(&vel, &p, 3, 1);
    assert_eq!(out, vec![99, 50, 98, 50, 99, 50]);
}

#[test]
fn projection_of_divergence_free_field_is_identity() {
    // A constant velocity field has zero computed divergence, so the whole
    // projection (zero pressure throughout) returns it bit-for-bit.
    let w = 8;
    let h = 6;
    let mut vel = vec![0i64; w * h * 2];
    for cell in 0..w * h {
        vel[cell * 2] = 7 * SCALE / 2;
        vel[cell * 2 + 1] = -SCALE / 4;
    }
    let div = divergence(&vel, w, h);
    assert_eq!(div, vec![0i64; w * h]);
    let mut p = vec![0i64; w * h];
    for _ in 0..40 {
        p = jacobi_once(&p, &div, w, h);
    }
    assert_eq!(p, vec![0i64; w * h]);
    let out = gradient_subtract(&vel, &p, w, h);
    assert_eq!(out, vel);
}

#[test]
fn brush_center_cell_takes_exact_color() {
    // A full-strength stamp exactly on a cell's center paints that cell the
    // brush color exactly.
    let w = 40;
    let h = 40;
    let den = vec![0i64; w * h * 4];
    let pos = 20 * SCALE + SCALE / 2;
    let color = [SCALE, SCALE / 4, 0, SCALE];
    let out = brush_density(&den, w, h, pos, pos, pos, pos, 3 * SCALE, SCALE, color, false);
    for c in 0..4 {
        assert_eq!(out[idx(w, 4, 20, 20, c)], color[c]);
    }
}

#[test]
fn brush_stamp_is_local() {
    let w = 40;
    let h = 40;
    let mut den = vec![0i64; w * h * 4];
    for (i, v) in den.iter_mut().enumerate() {
        *v = (i as i64 * 37) % SCALE;
    }
    let mut vel = vec![0i64; w * h * 2];
    for (i, v) in vel.iter_mut().enumerate() {
        *v = (i as i64 * 53) % SCALE - SCALE / 2;
    }
    let pos = 20 * SCALE + SCALE / 2;
    let r = 3i64;
    let color = [SCALE, 0, 0, SCALE];
    let dout = brush_density(&den, w, h, pos, pos, pos, pos, r * SCALE, SCALE, color, false);
    let vout = brush_velocity(&vel, w, h, pos, pos, pos, pos, r * SCALE, SCALE / 2);
    for y in 0..h {
        for x in 0..w {
            let dx = x as i64 - 20;
            let dy = y as i64 - 20;
            if dx * dx + dy * dy > (r + 1) * (r + 1) {
                for c in 0..4 {
                    assert_eq!(dout[idx(w, 4, x, y, c)], den[idx(w, 4, x, y, c)]);
                }
                for c in 0..2 {
                    assert_eq!(vout[idx(w, 2, x, y, c)], vel[idx(w, 2, x, y, c)]);
                }
            }
        }
    }
    // ... and the stamped cell itself did change.
    assert_ne!(dout[idx(w, 4, 20, 20, 0)], den[idx(w, 4, 20, 20, 0)]);
}

#[test]
fn brush_velocity_along_stroke_exact() {
    // A cell center lying exactly on the stroke takes the full impulse:
    // direction (2 cells) times factor (one half) is one cell per unit time.
    let w = 20;
    let h = 20;
    let vel = vec![0i64; w * h * 2];
    let ax = 10 * SCALE + SCALE / 2;
    let ay = 10 * SCALE + SCALE / 2;
    let bx = 12 * SCALE + SCALE / 2;
    let out = brush_velocity(&vel, w, h, ax, ay, bx, ay, 2 * SCALE, SCALE / 2);
    assert_eq!(out[idx(w, 2, 11, 10, 0)], SCALE);
    assert_eq!(out[idx(w, 2, 11, 10, 1)], 0);
}

#[test]
fn brush_tiny_radius_is_no_op() {
    let w = 10;
    let h = 10;
    let mut den = vec![0i64; w * h * 4];
    den[idx(w, 4, 5, 5, 0)] = SCALE;
    let pos = 5 * SCALE;
    let out = brush_density(&den, w, h, pos, pos, pos, pos, 100, SCALE, [SCALE; 4], false);
    assert_eq!(out, den);
}

#[test]
fn brush_smudge_pulls_color_from_upstream() {
    // Red ink on the left, a rightward stroke over the right half: smudging
    // drags red to the right instead of painting the brush color.
    let w = 16;
    let h = 4;
    let mut den = vec![0i64; w * h * 4];
    for y in 0..h {
        for x in 0..4 {
            den[idx(w, 4, x, y, 0)] = SCALE;
            den[idx(w, 4, x, y, 3)] = SCALE;
        }
    }
    let y_mid = 2 * SCALE;
    let out = brush_density(&den, w, h, 3 * SCALE, y_mid, 5 * SCALE, y_mid, 2 * SCALE, SCALE,
        [0, 0, 0, SCALE], true);
    // Cell (5, 2) was empty; smudging samples two cells upstream, inside the
    // red region, so red arrived there.
    assert!(out[idx(w, 4, 5, 2, 0)] > 0);
}

#[test]
fn field_double_buffer_protocol() {
    let mut f = Field::new(4);
    assert_eq!(f.current(), 0);
    assert_eq!(f.auth(), &vec![0i64; 4]);
    f.write_scratch(vec![1, 2, 3, 4]);
    assert_eq!(f.auth(), &vec![0i64; 4]);
    f.swap();
    assert_eq!(f.current(), 1);
    assert_eq!(f.auth(), &vec![1, 2, 3, 4]);
    f.write_scratch(vec![5, 6, 7, 8]);
    f.copy_back();
    assert_eq!(f.current(), 1);
    assert_eq!(f.auth(), &vec![5, 6, 7, 8]);
    assert_eq!(f.read(0), &vec![5, 6, 7, 8]);
    f.zero();
    assert_eq!(f.read(0), &vec![0i64; 4]);
    assert_eq!(f.read(1), &vec![0i64; 4]);
    assert_eq!(f.current(), 1);
}

#[test]
fn noise_field_is_opaque_and_in_range() {
    let n = noise_field(10, 10);
    assert_eq!(n.len(), 400);
    for (i, &v) in n.iter().enumerate() {
        assert!(0 <= v && v <= SCALE);
        if i % 4 == 3 {
            assert_eq!(v, SCALE);
        }
    }
}

#[test]
fn to_grid_centers_and_zooms() {
    // The screen center lands on the grid center.
    let center = to_grid(100 * SCALE, 200, 80, SCALE);
    assert_eq!(center, 40 * SCALE);
    // 50 pixels right of center at zoom one half is 100 cells right.
    let shifted = to_grid(150 * SCALE, 200, 80, SCALE / 2);
    assert_eq!(shifted, 140 * SCALE);
}

#[test]
fn sanitize_clamps_out_of_range_parameters() {
    let mut p = GuiParams::default();
    p.brush_strength = 999_999_999;
    p.ink_decay = 0;
    p.velocity_decay = -5;
    p.zoom_level = 0;
    p.brush_color = [-3, 2 * SCALE, 17, SCALE];
    let s = p.sanitize();
    assert_eq!(s.brush_strength, SCALE);
    assert_eq!(s.ink_decay, 1);
    assert_eq!(s.velocity_decay, 1);
    assert_eq!(s.zoom_level, 1);
    assert_eq!(s.brush_color, [0, SCALE, 17, SCALE]);
}
