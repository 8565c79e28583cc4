//! Relativistic electrodynamics of point charges: the exact, rounding-free
//! part of the engine.
//!
//! Numbers are IEEE 754 binary64 values held as bit patterns ([`Scalar`]).
//! Everything that can be said of such values without rounding lives here and
//! is proved: their ordering, their sign, the causal rules that decide which
//! charge advances next, the bracket search over a sampled world line, the
//! control of the retarded-time solver. Arithmetic that rounds is done by the
//! caller, who hands the results in.

pub mod charge_set;
pub mod key;
pub mod matrix;
pub mod mechanics;
pub mod scalar;
pub mod shape;
pub mod solver;
pub mod vector;
pub mod world_line;

pub use crate::matrix::Matrix;
pub use crate::mechanics::PhaseSpace;
pub use crate::scalar::Scalar;
pub use crate::vector::{vec3, vec4, Vector3, Vector4};
