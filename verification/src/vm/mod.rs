//! The interaction-net engine.

pub mod expr;
pub mod laws;
pub mod net;
pub mod rebuild;
pub mod traverse;
pub mod wires;
