//! The food economy of a colony: farms fill the raw stores, cooking turns raw goods into
//! food.

pub mod components;
pub mod cow_farming;
pub mod events;
pub mod wheat_farming;

use self::components::{
    CarbResource, Cow, CowFarm, FoodEconomy, FoodResource, MeatResource, WheatFarm,
    COOKING_BATCH, COW_FARM_SIZE, STARTING_BULLS, STARTING_FOOD, STARTING_HERD,
    STARTING_HERD_AGE_MONTHS, WHEAT_FARM_SIZE, top_up, topped_up,
};
use self::events::{CarbConsumed, Cooked, FoodCreated, MeatConsumed};
use super::config::FoodConfig;
use super::population::components::{Citizen, Job};
use super::population::registry::{same_people, Registry};
use crate::common::utils::{lemma_marked, marked, marked_positions};
use crate::time::Date;
use vstd::prelude::*;

verus! {

/// The birthday given to the animals of a herd founded on `date`: two years earlier, or
/// `date` itself where the calendar does not reach that far back.
pub open spec fn founding_birthday(date: Date) -> Date {
    if date.valid() {
        match crate::time::day_number_months_before(
            date.days as int,
            STARTING_HERD_AGE_MONTHS as int,
        ) {
            Some(n) if crate::time::FIRST_DAY <= n <= crate::time::LAST_DAY => Date {
                days: n as i32,
            },
            _ => date,
        }
    } else {
        date
    }
}

/// The animal in place `i` of a herd founded on `date`: the breeding bulls come first.
pub open spec fn founding_animal(date: Date, i: int) -> Cow {
    Cow {
        birthday: founding_birthday(date),
        is_bull: i < STARTING_BULLS,
        is_breeder: i < STARTING_BULLS,
    }
}

/// The herd of a cow farm founded on `date`.
pub open spec fn founding_herd(date: Date) -> Seq<Cow> {
    Seq::new(STARTING_HERD as nat, |i: int| founding_animal(date, i))
}

/// A wheat farm as it is founded: the season's harvest is already in.
pub open spec fn founding_wheat_farm() -> WheatFarm {
    WheatFarm { size: WHEAT_FARM_SIZE, harvested: WHEAT_FARM_SIZE }
}

/// Whether a herd founded on `date` gets its two years: the day lies on the calendar, and
/// so does the day 24 months before it.
pub open spec fn herd_comes_of_age(date: Date) -> bool {
    date.valid() && founding_birthday(date) != date
}

/// Whether every animal of a herd is old enough on `date` to be culled.
pub open spec fn all_ripe(herd: Seq<Cow>, date: Date) -> bool {
    forall|i: int| 0 <= i < herd.len() ==> (#[trigger] herd[i]).is_ripe(date)
}

/// Founds a herd. Where the calendar reaches two years back, every animal is 24 months old
/// and so old enough to be culled at once.
pub fn init_herd(date: Date) -> (herd: Vec<Cow>)
    ensures
        herd@ == founding_herd(date),
        herd_comes_of_age(date) ==> date.months_of(founding_birthday(date))
            == STARTING_HERD_AGE_MONTHS && all_ripe(herd@, date),
{
    let birthday = match date.minus_months(STARTING_HERD_AGE_MONTHS) {
        Some(earlier) => earlier,
        None => date,
    };
    let mut herd: Vec<Cow> = Vec::new();
    while herd.len() < STARTING_HERD
        invariant
            herd.len() <= STARTING_HERD,
            birthday == founding_birthday(date),
            herd_comes_of_age(date) ==> date.months_of(birthday) == STARTING_HERD_AGE_MONTHS,
            forall|i: int| 0 <= i < herd.len() ==> #[trigger] herd[i] == founding_animal(date, i),
        decreases STARTING_HERD - herd.len(),
    {
        let first = herd.len() < STARTING_BULLS;
        herd.push(Cow { birthday, is_bull: first, is_breeder: first });
    }
    proof {
        assert(herd@ =~= founding_herd(date));
    }
    herd
}

/// What holds of a food economy founded on `date`: it has as many farms as the configuration
/// asks for, every wheat farm with the season's harvest in and every cow farm with a full
/// herd, the raw stores at their configured levels and the first cooked food in store.
pub open spec fn founded(economy: FoodEconomy, date: Date, config: FoodConfig) -> bool {
    &&& economy.food.amount == STARTING_FOOD
    &&& economy.carb.amount == config.starting_carb
    &&& economy.meat.amount == config.starting_beef
    &&& economy.wheat_farms.len() == config.wheat_farms
    &&& forall|i: int|
        0 <= i < config.wheat_farms ==> #[trigger] economy.wheat_farms[i] == founding_wheat_farm()
    &&& economy.cow_farms.len() == config.cow_farms
    &&& forall|i: int|
        0 <= i < config.cow_farms ==> (#[trigger] economy.cow_farms[i]).size == COW_FARM_SIZE
            && economy.cow_farms[i].herd@ == founding_herd(date)
}

/// Founds the food economy of a colony on `date`: as many farms as the configuration asks
/// for, each cow farm with a full herd, the raw stores at their configured levels and the
/// first cooked food in store.
pub fn init_food(date: Date, config: &FoodConfig) -> (economy: FoodEconomy)
    ensures
        founded(economy, date, *config),
        herd_comes_of_age(date) ==> forall|i: int|
            0 <= i < economy.cow_farms.len() ==> all_ripe(
                (#[trigger] economy.cow_farms[i]).herd@,
                date,
            ),
{
    let mut wheat_farms: Vec<WheatFarm> = Vec::new();
    while wheat_farms.len() < config.wheat_farms
        invariant
            wheat_farms.len() <= config.wheat_farms,
            forall|i: int|
                0 <= i < wheat_farms.len() ==> #[trigger] wheat_farms[i] == founding_wheat_farm(),
        decreases config.wheat_farms - wheat_farms.len(),
    {
        wheat_farms.push(WheatFarm { size: WHEAT_FARM_SIZE, harvested: WHEAT_FARM_SIZE });
    }
    let mut cow_farms: Vec<CowFarm> = Vec::new();
    while cow_farms.len() < config.cow_farms
        invariant
            cow_farms.len() <= config.cow_farms,
            herd_comes_of_age(date) ==> forall|i: int|
                0 <= i < cow_farms.len() ==> all_ripe((#[trigger] cow_farms[i]).herd@, date),
            forall|i: int|
                0 <= i < cow_farms.len() ==> (#[trigger] cow_farms[i]).size == COW_FARM_SIZE
                    && cow_farms[i].herd@ == founding_herd(date),
        decreases config.cow_farms - cow_farms.len(),
    {
        let herd = init_herd(date);
        cow_farms.push(CowFarm { size: COW_FARM_SIZE, herd });
    }
    FoodEconomy {
        food: FoodResource { amount: STARTING_FOOD },
        carb: CarbResource { amount: config.starting_carb },
        meat: MeatResource { amount: config.starting_beef },
        wheat_farms,
        cow_farms,
    }
}

/// Whether the raw stores allow a round of cooking: each holds more than a batch.
pub open spec fn can_cook(carb: CarbResource, meat: MeatResource) -> bool {
    carb.amount > COOKING_BATCH && meat.amount > COOKING_BATCH
}

/// Whether the stores `after` and the notices are what a round at the kitchen makes of the
/// stores `before`: where both raw stores hold more than a batch, a batch leaves each and a
/// batch of food is made and reported; else nothing changes and nothing is reported.
pub open spec fn kitchen_ran(
    before: (FoodResource, CarbResource, MeatResource),
    after: (FoodResource, CarbResource, MeatResource),
    colony: usize,
    cooked: Option<Cooked>,
) -> bool {
    if can_cook(before.1, before.2) {
        &&& after.1.amount == before.1.amount - COOKING_BATCH
        &&& after.2.amount == before.2.amount - COOKING_BATCH
        &&& after.0.amount == topped_up(before.0.amount, COOKING_BATCH as int)
        &&& cooked == Some(
            Cooked {
                carb: CarbConsumed { colony, amount: COOKING_BATCH },
                meat: MeatConsumed { colony, amount: COOKING_BATCH },
                food: FoodCreated { colony, amount: COOKING_BATCH },
            },
        )
    } else {
        after == before && cooked is None
    }
}

/// Cooks one batch where both raw stores hold more than a batch: a batch leaves each raw
/// store and as much cooked food enters the food store. Otherwise nothing changes. Returns
/// the notices of what was used and made.
pub fn cook_food(
    colony: usize,
    food: &mut FoodResource,
    carb: &mut CarbResource,
    meat: &mut MeatResource,
) -> (cooked: Option<Cooked>)
    ensures
        kitchen_ran(
            (*old(food), *old(carb), *old(meat)),
            (*final(food), *final(carb), *final(meat)),
            colony,
            cooked,
        ),
        cooked is Some <==> can_cook(*old(carb), *old(meat)),
        cooked is Some ==> {
            &&& final(carb).amount == old(carb).amount - COOKING_BATCH
            &&& final(meat).amount == old(meat).amount - COOKING_BATCH
            &&& final(food).amount == topped_up(old(food).amount, COOKING_BATCH as int)
            &&& cooked->0.carb == CarbConsumed { colony, amount: COOKING_BATCH }
            &&& cooked->0.meat == MeatConsumed { colony, amount: COOKING_BATCH }
            &&& cooked->0.food == FoodCreated { colony, amount: COOKING_BATCH }
        },
        cooked is None ==> *final(carb) == *old(carb) && *final(meat) == *old(meat) && *final(food)
            == *old(food),
{
    if carb.amount > COOKING_BATCH && meat.amount > COOKING_BATCH {
        carb.amount = carb.amount - COOKING_BATCH;
        meat.amount = meat.amount - COOKING_BATCH;
        food.amount = top_up(food.amount, COOKING_BATCH);
        Some(
            Cooked {
                carb: CarbConsumed { colony, amount: COOKING_BATCH },
                meat: MeatConsumed { colony, amount: COOKING_BATCH },
                food: FoodCreated { colony, amount: COOKING_BATCH },
            },
        )
    } else {
        None
    }
}

/// The places a farm still has for workers when `workers` work there.
pub open spec fn open_places(workers: nat) -> nat {
    if workers < components::WORKERS_PER_FARM {
        (components::WORKERS_PER_FARM - workers) as nat
    } else {
        0
    }
}

/// The citizens free to take a job, by their numbers in rising order.
pub open spec fn free_workers(s: Seq<Option<Citizen>>) -> Seq<usize> {
    marked(Seq::new(s.len(), |i: int| s[i] is Some && s[i]->0.is_free_to_work()))
}

/// Nothing but jobs differs between `a` and `b`: the same people, each with the record of
/// before but for the job.
pub open spec fn only_jobs_changed(a: Seq<Option<Citizen>>, b: Seq<Option<Citizen>>) -> bool {
    a.len() == b.len() && forall|i: int|
        0 <= i < a.len() ==> #[trigger] b[i] == (match a[i] {
            Some(citizen) => Some(Citizen { job: b[i]->0.job, ..citizen }),
            None => None,
        })
}

/// The registry after the first `k` jobs were handed to the first `k` of the free.
pub open spec fn hired(
    s: Seq<Option<Citizen>>,
    free: Seq<usize>,
    jobs: Seq<Job>,
    k: int,
) -> Seq<Option<Citizen>>
    decreases k,
{
    if k <= 0 {
        s
    } else {
        let before = hired(s, free, jobs, k - 1);
        let id = free[k - 1] as int;
        before.update(id, Some(Citizen { job: Some(jobs[k - 1]), ..before[id]->0 }))
    }
}

/// The registry after the jobs were handed out: as many as there are jobs and citizens
/// free to work.
pub open spec fn with_jobs(s: Seq<Option<Citizen>>, jobs: Seq<Job>) -> Seq<Option<Citizen>> {
    hired(
        s,
        free_workers(s),
        jobs,
        if jobs.len() <= free_workers(s).len() {
            jobs.len() as int
        } else {
            free_workers(s).len() as int
        },
    )
}

/// Hands out jobs: the first job goes to the first citizen who is free to work, the second
/// to the second, until the jobs or the free citizens run out. Nobody else is touched.
pub fn hire(registry: &mut Registry, jobs: &Vec<Job>)
    ensures
        final(registry)@ == with_jobs(old(registry)@, jobs@),
        final(registry)@.len() == old(registry)@.len(),
        forall|k: int|
            0 <= k < jobs.len() && k < free_workers(old(registry)@).len() ==> {
                let id = #[trigger] free_workers(old(registry)@)[k] as int;
                final(registry)@[id] == Some(
                    Citizen { job: Some(jobs[k]), ..old(registry)@[id]->0 },
                )
            },
        forall|i: int|
            0 <= i < old(registry)@.len() && (forall|k: int|
                0 <= k < jobs.len() && k < free_workers(old(registry)@).len()
                    ==> #[trigger] free_workers(old(registry)@)[k] != i) ==> #[trigger] final(registry)@[i]
                == old(registry)@[i],
        same_people(old(registry)@, final(registry)@),
        only_jobs_changed(old(registry)@, final(registry)@),
{
    let n = registry.len();
    let mut marks: Vec<bool> = Vec::new();
    while marks.len() < n
        invariant
            n == registry@.len(),
            marks.len() <= n,
            forall|i: int|
                0 <= i < marks.len() ==> #[trigger] marks[i] == (registry@[i] is Some
                    && registry@[i]->0.is_free_to_work()),
        decreases n - marks.len(),
    {
        let free = match registry.get(marks.len()) {
            Some(citizen) => citizen.free_to_work(),
            None => false,
        };
        marks.push(free);
    }
    proof {
        assert(marks@ =~= Seq::new(
            registry@.len(),
            |i: int| registry@[i] is Some && registry@[i]->0.is_free_to_work(),
        ));
        lemma_marked(marks@);
    }
    let free = marked_positions(&marks);
    let mut k: usize = 0;
    while k < jobs.len() && k < free.len()
        invariant
            free@ == free_workers(old(registry)@),
            marks@.len() == old(registry)@.len(),
            registry@.len() == old(registry)@.len(),
            registry@ == hired(old(registry)@, free@, jobs@, k as int),
            same_people(old(registry)@, registry@),
            only_jobs_changed(old(registry)@, registry@),
            forall|j: int| 0 <= j < free.len() ==> (#[trigger] free[j]) < marks@.len(),
            forall|j: int|
                0 <= j < free.len() ==> old(registry)@[(#[trigger] free[j]) as int] is Some,
            forall|i: int, j: int|
                0 <= i < j < free.len() ==> (#[trigger] free[i]) < (#[trigger] free[j]),
            k <= jobs.len(),
            k <= free.len(),
            forall|j: int|
                0 <= j < k ==> registry@[(#[trigger] free[j]) as int] == Some(
                    Citizen { job: Some(jobs[j]), ..old(registry)@[free[j] as int]->0 },
                ),
            forall|i: int|
                0 <= i < registry@.len() && (forall|j: int| 0 <= j < k ==> #[trigger] free[j] != i)
                    ==> #[trigger] registry@[i] == old(registry)@[i],
        decreases jobs.len() - k,
    {
        let id = free[k];
        let ghost before = registry@;
        proof {
            assert forall|j: int| 0 <= j < k implies #[trigger] free[j] != id as int by {}
            assert(before[id as int] == old(registry)@[id as int]);
        }
        match registry.get(id) {
            Some(citizen) => {
                registry.amend(id, Citizen { job: Some(jobs[k]), ..citizen });
            },
            None => {},
        }
        proof {
            assert forall|i: int|
                0 <= i < registry@.len() && (forall|j: int|
                    0 <= j < k + 1 ==> #[trigger] free[j] != i) implies #[trigger] registry@[i]
                == old(registry)@[i] by {
                assert(forall|j: int| 0 <= j < k ==> #[trigger] free[j] != i);
                assert(free[k as int] != i);
                assert(before[i] == old(registry)@[i]);
            }
            assert forall|j: int| 0 <= j < k + 1 implies registry@[(#[trigger] free[j]) as int]
                == Some(
                Citizen { job: Some(jobs[j]), ..old(registry)@[free[j] as int]->0 },
            ) by {
                if j < k {
                    assert(free[j] != free[k as int]);
                }
            }
        }
        k = k + 1;
    }
}

} // verus!
