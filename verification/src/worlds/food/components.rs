//! Stores, farms and herds.
//!
//! Stores count whole units of a good. Land is counted in tenths of a hectare.

use crate::time::Date;
use vstd::prelude::*;

verus! {

/// Workers a farm has room for.
pub const WORKERS_PER_FARM: usize = 4;

/// Land of a new wheat farm, in tenths of a hectare.
pub const WHEAT_FARM_SIZE: u32 = 174;

/// Land one worker harvests in a day, in tenths of a hectare.
pub const DAILY_HARVEST_PER_WORKER: u32 = 10;

/// Carbohydrate from a tenth of a hectare of wheat.
pub const CARB_PER_TENTH_HECTARE: u64 = 267;

/// Land of a new cow farm, in tenths of a hectare.
pub const COW_FARM_SIZE: u32 = 340;

/// Animals of a new herd.
pub const STARTING_HERD: usize = 57;

/// Breeding bulls of a new herd: one for every 25 animals, rounded up.
pub const STARTING_BULLS: usize = 3;

/// Animals a herd is never culled below.
pub const HERD_FLOOR: usize = 47;

/// Breeding bulls a herd wants.
pub const BREEDERS_WANTED: usize = 2;

/// Age in months that an animal must have passed to be culled.
pub const CULLING_AGE_MONTHS: i64 = 18;

/// Age in months of the animals of a new herd.
pub const STARTING_HERD_AGE_MONTHS: u32 = 24;

/// Meat from one animal.
pub const MEAT_PER_COW: u64 = 250;

/// Cooked food in the store of a new colony.
pub const STARTING_FOOD: u64 = 2000;

/// What one round of cooking takes of each raw good and makes of cooked food.
pub const COOKING_BATCH: u64 = 500;

/// Month and day on which the harvest season opens and the herds calve.
pub const SEASON_MONTH: u32 = 6;

pub const SEASON_DAY: u32 = 1;

/// Cooked food, the only thing citizens eat.
#[derive(Clone, Copy, PartialEq, Eq, Structural, Debug)]
pub struct FoodResource {
    pub amount: u64,
}

/// Raw carbohydrate.
#[derive(Clone, Copy, PartialEq, Eq, Structural, Debug)]
pub struct CarbResource {
    pub amount: u64,
}

/// Raw meat.
#[derive(Clone, Copy, PartialEq, Eq, Structural, Debug)]
pub struct MeatResource {
    pub amount: u64,
}

/// A field of wheat.
#[derive(Clone, Copy, PartialEq, Eq, Structural, Debug)]
pub struct WheatFarm {
    /// Land, in tenths of a hectare.
    pub size: u32,
    /// Land already harvested this season, in tenths of a hectare.
    pub harvested: u32,
}

/// One animal of a herd.
#[derive(Clone, Copy, PartialEq, Eq, Structural, Debug)]
pub struct Cow {
    pub birthday: Date,
    pub is_bull: bool,
    pub is_breeder: bool,
}

/// A cattle farm with its herd.
#[derive(Debug)]
pub struct CowFarm {
    /// Land, in tenths of a hectare.
    pub size: u32,
    pub herd: Vec<Cow>,
}

/// What a colony grows, keeps and stores.
#[derive(Debug)]
pub struct FoodEconomy {
    pub food: FoodResource,
    pub carb: CarbResource,
    pub meat: MeatResource,
    pub wheat_farms: Vec<WheatFarm>,
    pub cow_farms: Vec<CowFarm>,
}

/// A store after `more` was added. A store holds no more than a `u64` counts.
pub open spec fn topped_up(amount: u64, more: int) -> u64 {
    if amount + more <= u64::MAX {
        (amount + more) as u64
    } else {
        u64::MAX
    }
}

/// Adding to a store twice is adding the sum once.
pub proof fn lemma_topped_up_twice(amount: u64, first: int, second: int)
    requires
        first >= 0,
        second >= 0,
    ensures
        topped_up(topped_up(amount, first), second) == topped_up(amount, first + second),
{
}

/// Adds `count` times `each` to a store.
pub fn top_up_many(amount: u64, count: usize, each: u64) -> (sum: u64)
    ensures
        sum == topped_up(amount, count * each),
{
    assert(0 <= count * each <= usize::MAX * u64::MAX) by (nonlinear_arith)
        requires
            0 <= count <= usize::MAX,
            0 <= each <= u64::MAX,
    ;
    let more: u128 = count as u128 * each as u128;
    let sum: u128 = amount as u128 + more;
    if sum <= u64::MAX as u128 {
        sum as u64
    } else {
        u64::MAX
    }
}

/// Adds to a store.
pub fn top_up(amount: u64, more: u64) -> (sum: u64)
    ensures
        sum == topped_up(amount, more as int),
{
    if more <= u64::MAX - amount {
        amount + more
    } else {
        u64::MAX
    }
}

impl WheatFarm {
    /// Land still to be harvested this season.
    pub open spec fn remaining(self) -> int {
        if self.size > self.harvested {
            self.size - self.harvested
        } else {
            0
        }
    }

    /// Land that `workers` workers harvest in a day: what each manages, as far as there is
    /// land left.
    pub open spec fn reaped(self, workers: nat) -> int {
        if workers * DAILY_HARVEST_PER_WORKER < self.remaining() {
            workers * DAILY_HARVEST_PER_WORKER
        } else {
            self.remaining()
        }
    }

    /// The farm after `workers` workers spent a day on it.
    pub open spec fn worked(self, workers: nat) -> WheatFarm {
        WheatFarm { size: self.size, harvested: (self.harvested + self.reaped(workers)) as u32 }
    }

    /// Lets `workers` workers harvest for a day and returns the land they harvested.
    pub fn work(&mut self, workers: usize) -> (reaped: u32)
        ensures
            reaped == old(self).reaped(workers as nat),
            *final(self) == old(self).worked(workers as nat),
    {
        let remaining: u32 = if self.size > self.harvested {
            self.size - self.harvested
        } else {
            0
        };
        let wanted: u128 = workers as u128 * DAILY_HARVEST_PER_WORKER as u128;
        let reaped: u32 = if wanted < remaining as u128 {
            wanted as u32
        } else {
            remaining
        };
        self.harvested = self.harvested + reaped;
        reaped
    }
}

impl Cow {
    /// Old enough on `date` to be culled.
    pub open spec fn is_ripe(self, date: Date) -> bool {
        date.months_of(self.birthday) > CULLING_AGE_MONTHS
    }

    pub fn ripe(&self, date: Date) -> (yes: bool)
        ensures
            yes == self.is_ripe(date),
    {
        date.age_in_months(self.birthday) > CULLING_AGE_MONTHS
    }

    /// A bull that does not breed yet.
    pub open spec fn is_spare_bull(self) -> bool {
        self.is_bull && !self.is_breeder
    }
}

} // verus!
