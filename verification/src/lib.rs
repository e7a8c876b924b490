//! Exact rational 3D math and a triangle rasterizer.
//!
//! Vectors, square matrices and quaternions keep integer components over one
//! positive denominator, so every arithmetic operation is exact; operations
//! whose exact result cannot be represented report an error instead of
//! rounding, and square roots succeed exactly when the value is a rational
//! square. The rasterizer classifies grid cells against a triangle by exact
//! barycentric signs and owns the character grid it fills.

pub mod rat;
pub mod math_utils;
pub mod vectors;
pub mod matrix22;
pub mod matrix33;
pub mod matrix44;
pub mod quaternion;
pub mod rasterizer;

pub use rat::{Rat, MathError};
pub use vectors::{Vector2, Vector3, Vector4};
pub use matrix22::Matrix22;
pub use matrix33::Matrix33;
pub use matrix44::Matrix44;
pub use quaternion::Quaternion;
pub use rasterizer::{FrameBuffer, Rasterizer};
