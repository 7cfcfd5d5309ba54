//! Lattice-Boltzmann update engine: velocity sets, grid indexing, streaming
//! with bounce-back, the exact moments behind collision, buffer ownership,
//! configuration checks, memory planning, the run state machine and the
//! generator of the device program text.

pub mod buffers;
pub mod collision;
pub mod config;
pub mod derived;
pub mod engine;
pub mod error;
pub mod grid;
pub mod kernel;
pub mod precision;
pub mod resources;
pub mod stream;
pub mod text;
pub mod velocity_set;
