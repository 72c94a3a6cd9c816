//! The container engine: where it listens, how it is read, and what is done with its answers.

pub mod gc;
pub mod probe;
pub mod schedule;
pub mod stats;
pub mod wire;
