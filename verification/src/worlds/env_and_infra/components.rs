//! The health index is counted in thousandths of a point, the rate of infant mortality in
//! billionths.

use vstd::prelude::*;

verus! {

/// Power, water, sewers and the like.
#[derive(Clone, Copy, PartialEq, Eq, Structural, Debug)]
pub struct CivilInfrastructure {}

/// Hospitals, baths and all that keeps a colony healthy. Both figures follow from what the
/// colony spends on sanitation.
#[derive(Clone, Copy, PartialEq, Eq, Structural, Debug)]
pub struct SanitationInfrastructure {
    /// In thousandths of a point.
    pub health_index_score: i64,
    /// The chance in billionths that a child dies at the close of its first year.
    pub live_birth_mortality_rate: u32,
}

#[derive(Clone, Copy, PartialEq, Eq, Structural, Debug)]
pub struct SocialInfrastructure {}

/// What people affect directly: the air indoors, the drinking water, the dust of the towns.
#[derive(Clone, Copy, PartialEq, Eq, Structural, Debug)]
pub struct EnvironmentalHealth {}

/// What people affect as they spread: air, water, resources, the variety of life.
#[derive(Clone, Copy, PartialEq, Eq, Structural, Debug)]
pub struct EcosystemVitality {}

/// All of the above for one colony.
#[derive(Clone, Copy, PartialEq, Eq, Structural, Debug)]
pub struct ColonyInfraAndEnvBundle {
    pub civil: CivilInfrastructure,
    pub sanitation: SanitationInfrastructure,
    pub social: SocialInfrastructure,
    pub env_healt: EnvironmentalHealth,
    pub ecosystem_vitality: EcosystemVitality,
}

impl SanitationInfrastructure {
    /// Takes over the two figures that follow from the spending of the day.
    pub fn update(&mut self, health_index_score: i64, live_birth_mortality_rate: u32)
        ensures
            *final(self) == (SanitationInfrastructure {
                health_index_score,
                live_birth_mortality_rate,
            }),
    {
        self.health_index_score = health_index_score;
        self.live_birth_mortality_rate = live_birth_mortality_rate;
    }
}

impl ColonyInfraAndEnvBundle {
    /// Nothing built, and no child lost.
    pub fn new() -> (bundle: Self)
        ensures
            bundle.sanitation == (SanitationInfrastructure {
                health_index_score: 0,
                live_birth_mortality_rate: 0,
            }),
    {
        ColonyInfraAndEnvBundle {
            civil: CivilInfrastructure {  },
            sanitation: SanitationInfrastructure {
                health_index_score: 0,
                live_birth_mortality_rate: 0,
            },
            social: SocialInfrastructure {  },
            env_healt: EnvironmentalHealth {  },
            ecosystem_vitality: EcosystemVitality {  },
        }
    }
}

} // verus!
