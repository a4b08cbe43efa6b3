//! The levels of the stores as an observer keeps them.

use super::components::{stepped, ResourceStorage, STORAGE_STEPS};
use crate::worlds::food::components::{CarbResource, FoodResource, MeatResource};
use vstd::prelude::*;

verus! {

/// A line of levels after a look at the store: where a new step has begun the line moves on
/// as [`stepped`] says, and then its last entry takes the level seen. An empty line takes
/// the level as its first entry.
pub open spec fn recorded(line: Seq<u64>, push: bool, amount: u64) -> Seq<u64> {
    let moved = stepped(line, push, STORAGE_STEPS as nat, 0u64);
    if moved.len() > 0 {
        moved.update(moved.len() - 1, amount)
    } else {
        moved.push(amount)
    }
}

fn record(line: &mut Vec<u64>, push: bool, amount: u64)
    ensures
        final(line)@ == recorded(old(line)@, push, amount),
{
    if push {
        line.push(0);
    }
    if line.len() > STORAGE_STEPS {
        let ghost grown = line@;
        line.remove(0);
        assert(line@ =~= grown.subrange(1, grown.len() as int));
    }
    let n = line.len();
    if n > 0 {
        line.set(n - 1, amount);
    } else {
        line.push(amount);
    }
}

/// Takes note of the levels of the three stores. `push` says whether a new step has begun.
pub fn resources_changed(
    storage: &mut ResourceStorage,
    push: bool,
    carb: &CarbResource,
    meat: &MeatResource,
    food: &FoodResource,
)
    ensures
        final(storage).carb@ == recorded(old(storage).carb@, push, carb.amount),
        final(storage).meat@ == recorded(old(storage).meat@, push, meat.amount),
        final(storage).food@ == recorded(old(storage).food@, push, food.amount),
{
    record(&mut storage.carb, push, carb.amount);
    record(&mut storage.meat, push, meat.amount);
    record(&mut storage.food, push, food.amount);
}

} // verus!
