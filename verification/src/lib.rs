//! Fixed-point core of a procedural-planet demo.
//!
//! The library models the two algorithmic components of the demo: a
//! noise-driven mesh deformer (radial displacement plus vertex coloring) and
//! a free-fly camera controller (edge-pan look, roll, translation, and
//! momentum, with the orientation kept as a near-unit quaternion).
//!
//! All geometry is carried in fixed-point integers: a coordinate, color
//! channel, or quaternion component is an `i64` counted in thousandths
//! (`fixp::SCALE` sub-units per whole unit). Floating-point work — sampling
//! the ridged-multifractal noise field and evaluating trigonometric
//! functions for rotation quaternions — happens outside the library, which
//! takes the resulting values as plain fixed-point inputs and states exactly
//! what it computes from them.
//!
//! - [`fixp`]: fixed-point scalars, truncating division, saturating
//!   addition, integer square root.
//! - [`vec3`]: vectors in 3-space and their exact and saturating arithmetic.
//! - [`quat`]: rotation quaternions, Hamilton product, renormalization, and
//!   the unit-band invariant.
//! - [`mesh`]: noise-driven displacement and the two vertex color passes.
//! - [`camera`]: the per-tick camera state machine.

pub mod camera;
pub mod fixp;
pub mod mesh;
pub mod quat;
pub mod vec3;
