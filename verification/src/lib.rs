//! A deterministic kinematic character controller over fixed-point numbers.
//!
//! A tick classifies the ground under a body, adds gravity, applies the
//! player's input, and damps the horizontal velocity. Once per physics
//! substep the body is pushed out of the contacts that penetrate it.

pub mod scalar;
pub mod root;
pub mod vector;
pub mod rotation;
pub mod slope;
pub mod components;
pub mod ground;
pub mod character;
pub mod collision;
pub mod motion;
