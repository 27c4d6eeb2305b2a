//! Synthetic load on CPU, memory and disk: the decisions that the load
//! generators make, each stated by its contract.

pub mod prng;
pub mod text;
pub mod config;
pub mod probe;
pub mod disk;
pub mod cpu;
pub mod memory;
