//! A deterministic character-movement decision engine.
//!
//! Every quantity is a fixed-point [`scalar::Scalar`], so that a tick gives the
//! same velocity, pitch and grounded state on every machine.

pub mod scalar;
pub mod vector;
pub mod input;
pub mod movement;
pub mod controller;
pub mod laws;
