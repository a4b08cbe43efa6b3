//! What an observer keeps of a colony from day to day: the age chart, the deaths by cause
//! and the levels of the stores, each as a short series of recent steps.

pub mod components;
pub mod population_ui;
pub mod resources_ui;
