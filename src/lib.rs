//! Behavior core for the creatures of a small life-simulation game: a
//! per-tick movement integrator driven by a behavior state machine, and the
//! per-kind transition policies that switch between behaviors.
//!
//! Every quantity is an integer. Lengths, positions, speeds and
//! accelerations are in a caller-chosen world unit, times are in
//! milliseconds, and unit directions are fixed-point vectors whose
//! components are scaled by [`geometry::DIR_ONE`].

pub mod geometry;
pub mod behaviors;
pub mod random;
pub mod policy;
