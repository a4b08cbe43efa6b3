//! Notices of arrivals, birthdays and deaths. Each names the colony by its number in the
//! world and the citizen by the number in the colony's registry.

use vstd::prelude::*;

verus! {

/// A citizen has joined a colony.
#[derive(Clone, Copy, PartialEq, Eq, Structural, Debug)]
pub struct CitizenCreated {
    /// Age in whole years on arrival.
    pub age: usize,
    pub colony: usize,
    pub citizen: usize,
}

#[derive(Clone, Copy, PartialEq, Eq, Structural, Debug)]
pub enum DeathReason {
    OldAge,
    Starvation,
    InfantDeath,
}

/// A citizen has died.
#[derive(Clone, Copy, PartialEq, Eq, Structural, Debug)]
pub struct CitizenDied {
    pub colony: usize,
    pub citizen: usize,
    pub reason: DeathReason,
}

/// A citizen has a birthday today.
#[derive(Clone, Copy, PartialEq, Eq, Structural, Debug)]
pub struct CitizenBirthday {
    pub entity: usize,
    /// The age reached today.
    pub age: usize,
}

impl CitizenDied {
    pub fn old_age(colony: usize, citizen: usize) -> (event: Self)
        ensures
            event == (CitizenDied { colony, citizen, reason: DeathReason::OldAge }),
    {
        Self { colony, citizen, reason: DeathReason::OldAge }
    }

    pub fn starved(colony: usize, citizen: usize) -> (event: Self)
        ensures
            event == (CitizenDied { colony, citizen, reason: DeathReason::Starvation }),
    {
        Self { colony, citizen, reason: DeathReason::Starvation }
    }

    pub fn infant_death(colony: usize, citizen: usize) -> (event: Self)
        ensures
            event == (CitizenDied { colony, citizen, reason: DeathReason::InfantDeath }),
    {
        Self { colony, citizen, reason: DeathReason::InfantDeath }
    }
}

} // verus!
