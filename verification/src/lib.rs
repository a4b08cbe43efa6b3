//! Demographic and economic simulation of isolated colonies.
//!
//! A [`worlds::World`] holds a calendar and a list of colonies. Every call of
//! its `tick` advances the calendar by one day and lets each colony's citizens
//! age, pair up, bear children, work the farms, eat and die. All quantities are
//! integers; each module says which unit it counts in.

pub mod common;
pub mod config;
pub mod time;
pub mod worlds;
