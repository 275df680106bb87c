//! A grid-based incompressible 2D fluid simulation driving a painting canvas.
//!
//! Every sample (density, velocity, pressure, divergence) is a fixed-point
//! number: an `i64` holding the real value times [`fixed::SCALE`].  The
//! simulation advances in frames; each frame diffuses the ink, transports ink
//! and momentum along the velocity field, stamps the brush, and projects the
//! velocity field back onto a (near) divergence-free field.

pub mod advect;
pub mod brush;
pub mod diffuse;
pub mod field;
pub mod fixed;
pub mod grid;
pub mod noise;
pub mod params;
pub mod project;
pub mod sim;

pub use fixed::{SCALE, DT, VMAX, DIVMAX, PMAX, GRID_MAX};
pub use field::Field;
pub use params::{GuiParams, InteractionState};
pub use sim::{FluidSim, DIFFUSE_ITERS, PRESSURE_ITERS};
