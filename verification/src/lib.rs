//! Verified bookkeeping for two-dimensional soft bodies: which point masses
//! are tied together, what a step does and in which order, and which points
//! make up the outline that is drawn and hit-tested.
//!
//! The library is generic in the vectors and scalars that positions,
//! velocities, masses and distances are made of. It moves such values about
//! and never computes with them, so every statement it makes holds for any
//! arithmetic a caller brings along.

pub mod border;
pub mod cyclic;
pub mod repeat_first;
pub mod soft_body;
pub mod step;
mod windows;
