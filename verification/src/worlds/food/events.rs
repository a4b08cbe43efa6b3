//! Notices of the food economy. Each names the colony by its number in the world.

use vstd::prelude::*;

verus! {

/// A wheat farm has room for one more worker.
#[derive(Clone, Copy, PartialEq, Eq, Structural, Debug)]
pub struct WheatFarmNeedsWorker {
    pub colony: usize,
    pub farm: usize,
}

/// A cow farm has room for one more worker.
#[derive(Clone, Copy, PartialEq, Eq, Structural, Debug)]
pub struct CowFarmNeedsWorker {
    pub colony: usize,
    pub farm: usize,
}

#[derive(Clone, Copy, PartialEq, Eq, Structural, Debug)]
pub struct MeatConsumed {
    pub colony: usize,
    pub amount: u64,
}

#[derive(Clone, Copy, PartialEq, Eq, Structural, Debug)]
pub struct CarbCreated {
    pub colony: usize,
    pub amount: u64,
}

#[derive(Clone, Copy, PartialEq, Eq, Structural, Debug)]
pub struct CarbConsumed {
    pub colony: usize,
    pub amount: u64,
}

#[derive(Clone, Copy, PartialEq, Eq, Structural, Debug)]
pub struct FoodCreated {
    pub colony: usize,
    pub amount: u64,
}

/// The notices of one round of cooking.
#[derive(Clone, Copy, PartialEq, Eq, Structural, Debug)]
pub struct Cooked {
    pub carb: CarbConsumed,
    pub meat: MeatConsumed,
    pub food: FoodCreated,
}

} // verus!
