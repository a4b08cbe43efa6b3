//! What a colony has built and the state of its surroundings.

pub mod components;
