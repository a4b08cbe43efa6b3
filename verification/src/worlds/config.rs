//! What a colony is set up with.

use vstd::prelude::*;

verus! {

/// Farms and stocks a colony starts with.
#[derive(Clone, Copy, PartialEq, Eq, Structural, Debug)]
pub struct FoodConfig {
    pub cow_farms: usize,
    pub wheat_farms: usize,
    /// Raw meat in store on the first day.
    pub starting_beef: u64,
    /// Raw carbohydrate in store on the first day.
    pub starting_carb: u64,
}

/// How a colony's government pays and spends.
#[derive(Clone, Copy, PartialEq, Eq, Structural, Debug)]
pub struct GovernmentConfig {
    /// What each citizen is paid out of the colony's wealth, in thousandths of what one
    /// worker earns.
    pub citizen_payout: u32,
    /// The share of what is left that goes to each kind of spending, in percent.
    pub civil_spending: u16,
    pub sanitation_spending: u16,
    pub social_spending: u16,
    pub environmental_spending: u16,
}

/// The day the calendar starts on.
#[derive(Clone, Copy, PartialEq, Eq, Structural, Debug)]
pub struct StartingDate {
    pub day: u32,
    pub month: u32,
    pub year: i32,
}

impl FoodConfig {
    /// Six cow farms, four wheat farms and 5000 units of each raw good.
    pub fn def_conf() -> (config: Self)
        ensures
            config == (FoodConfig {
                cow_farms: 6,
                wheat_farms: 4,
                starting_beef: 5000,
                starting_carb: 5000,
            }),
    {
        FoodConfig { cow_farms: 6, wheat_farms: 4, starting_beef: 5000, starting_carb: 5000 }
    }
}

impl GovernmentConfig {
    /// A payout of a tenth, and a quarter of the rest for each kind of spending.
    pub fn def_conf() -> (config: Self)
        ensures
            config == (GovernmentConfig {
                citizen_payout: 100,
                civil_spending: 25,
                sanitation_spending: 25,
                social_spending: 25,
                environmental_spending: 25,
            }),
    {
        GovernmentConfig {
            citizen_payout: 100,
            civil_spending: 25,
            sanitation_spending: 25,
            social_spending: 25,
            environmental_spending: 25,
        }
    }
}

impl StartingDate {
    /// January 1, 2050.
    pub fn def_conf() -> (config: Self)
        ensures
            config == (StartingDate { day: 1, month: 1, year: 2050 }),
    {
        StartingDate { day: 1, month: 1, year: 2050 }
    }
}

} // verus!
