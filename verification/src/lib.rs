//! A fixed-point particle-plume core: a capacity-bounded pool of short-lived
//! particles integrated on the CPU each frame, with the per-instance visual
//! attributes (color band, size curve, alpha) derived from particle age.
//!
//! All kinematic quantities are carried in thousandths of a world unit
//! (milli-units), and all times in milliseconds, so that the whole simulation
//! is exact integer arithmetic.

pub mod fixed;
pub mod gltf_loader;
pub mod input;
pub mod particles;
pub mod render;
pub mod rng;
pub mod trig;
pub mod types;
