//! Helpers shared by all parts of the simulation.

pub mod utils;
