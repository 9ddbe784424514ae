//! The register-machine policy interpreter: a compact program over packet
//! fields and per-flow registers, its per-flow execution environment, and
//! the optimizer that runs when a program is loaded.

pub mod config;
pub mod env;
pub mod field;
pub mod program;
