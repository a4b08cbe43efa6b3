//! The daily meal.

use super::components::{Citizen, Starving};
use super::registry::{living, partners_kept, same_people, Registry};
use crate::worlds::food::components::FoodResource;
use vstd::prelude::*;

verus! {

/// The record of a citizen who has eaten: no hunger is left.
pub open spec fn fed(citizen: Citizen) -> Citizen {
    Citizen { starving: None, ..citizen }
}

/// The days without a meal after one more: one for a citizen who was not hungry, else one
/// more than before. The count stops at the largest a `u32` holds.
pub open spec fn one_more_day(starving: Option<Starving>) -> u32 {
    match starving {
        None => 1,
        Some(hunger) => if hunger.days_since_last_meal < u32::MAX {
            (hunger.days_since_last_meal + 1) as u32
        } else {
            u32::MAX
        },
    }
}

/// The record of a citizen who went without today's meal.
pub open spec fn unfed(citizen: Citizen) -> Citizen {
    Citizen {
        starving: Some(Starving { days_since_last_meal: one_more_day(citizen.starving) }),
        ..citizen
    }
}

/// One citizen's turn at the store. Where the store holds a meal, the meal leaves the store
/// and the citizen's hunger ends. Where the store is empty, it stays as it is and the
/// citizen's days without a meal go up by one.
pub fn take_meal(citizen: Citizen, food: &mut FoodResource) -> (after: Citizen)
    ensures
        old(food).amount >= 1 ==> final(food).amount == old(food).amount - 1 && after == fed(
            citizen,
        ),
        old(food).amount == 0 ==> *final(food) == *old(food) && after == unfed(citizen),
{
    if food.amount >= 1 {
        food.amount = food.amount - 1;
        Citizen { starving: None, ..citizen }
    } else {
        let days: u32 = match citizen.starving {
            None => 1,
            Some(hunger) => if hunger.days_since_last_meal < u32::MAX {
                hunger.days_since_last_meal + 1
            } else {
                u32::MAX
            },
        };
        Citizen { starving: Some(Starving { days_since_last_meal: days }), ..citizen }
    }
}

/// Whether the citizen of rank `rank` among the living, counted from 1 in the order of the
/// registry, gets a meal from a store that held `stock` meals in the morning: the store
/// covers the meals of all up to that rank.
pub open spec fn gets_meal(stock: int, rank: int) -> bool {
    rank <= stock
}

/// The number of meals eaten in a day by `mouths` citizens from a store of `stock` meals:
/// one each, as far as the store goes.
pub open spec fn meals(stock: int, mouths: int) -> int {
    if mouths <= stock {
        mouths
    } else {
        stock
    }
}

/// The registry after the daily meal from a store that held `stock` meals in the morning.
pub open spec fn after_meal(s: Seq<Option<Citizen>>, stock: int) -> Seq<Option<Citizen>> {
    Seq::new(
        s.len(),
        |i: int|
            match s[i] {
                None => None,
                Some(citizen) => Some(
                    if gets_meal(stock, living(s.take(i + 1)) as int) {
                        fed(citizen)
                    } else {
                        unfed(citizen)
                    },
                ),
            },
    )
}

/// The daily meal. Every living citizen in the order of the registry takes a turn at the
/// store: see [`take_meal`]. Everybody eats while the store lasts, so that who gets a meal
/// follows from the rank among the living: see [`gets_meal`]. The store loses the meals
/// eaten and nothing more, and never goes below zero.
pub fn consume(registry: &mut Registry, food: &mut FoodResource)
    ensures
        final(registry)@ == after_meal(old(registry)@, old(food).amount as int),
        final(registry)@.len() == old(registry)@.len(),
        forall|i: int|
            0 <= i < old(registry)@.len() ==> #[trigger] final(registry)@[i] == (match old(registry)@[i] {
                None => None,
                Some(citizen) => Some(
                    if gets_meal(
                        old(food).amount as int,
                        living(old(registry)@.take(i + 1)) as int,
                    ) {
                        fed(citizen)
                    } else {
                        unfed(citizen)
                    },
                ),
            }),
        final(food).amount == old(food).amount - meals(
            old(food).amount as int,
            living(old(registry)@) as int,
        ),
        same_people(old(registry)@, final(registry)@),
        partners_kept(old(registry)@, final(registry)@),
{
    let n = registry.len();
    let ghost stock = food.amount as int;
    let mut claimed: usize = 0;
    let mut i: usize = 0;
    while i < n
        invariant
            i <= n,
            n == old(registry)@.len(),
            registry@.len() == n,
            stock == old(food).amount,
            claimed == living(old(registry)@.take(i as int)),
            claimed <= i,
            food.amount == stock - meals(stock, claimed as int),
            forall|j: int|
                0 <= j < i ==> #[trigger] registry@[j] == (match old(registry)@[j] {
                    None => None,
                    Some(citizen) => Some(
                        if gets_meal(stock, living(old(registry)@.take(j + 1)) as int) {
                            fed(citizen)
                        } else {
                            unfed(citizen)
                        },
                    ),
                }),
            forall|j: int| i <= j < n ==> #[trigger] registry@[j] == old(registry)@[j],
        decreases n - i,
    {
        proof {
            assert(old(registry)@.take(i + 1).drop_last() =~= old(registry)@.take(i as int));
        }
        match registry.get(i) {
            Some(citizen) => {
                claimed = claimed + 1;
                let after = take_meal(citizen, food);
                registry.amend(i, after);
            },
            None => {},
        }
        i = i + 1;
    }
    proof {
        assert(old(registry)@.take(n as int) =~= old(registry)@);
        assert(registry@ =~= after_meal(old(registry)@, stock));
    }
}

/// From an empty store nobody eats: every living citizen goes without the day's meal.
pub proof fn lemma_empty_store_feeds_nobody(s: Seq<Option<Citizen>>, i: int)
    requires
        0 <= i < s.len(),
        s[i] is Some,
    ensures
        after_meal(s, 0)[i] == Some(unfed(s[i]->0)),
        meals(0, living(s) as int) == 0,
{
    assert(s.take(i + 1).last() == s[i]);
}

/// From a store that holds a meal for each of the living, everybody eats, and the store
/// loses one meal a head.
pub proof fn lemma_full_store_feeds_everybody(s: Seq<Option<Citizen>>, stock: int, i: int)
    requires
        0 <= i < s.len(),
        s[i] is Some,
        stock >= living(s),
    ensures
        after_meal(s, stock)[i] == Some(fed(s[i]->0)),
        meals(stock, living(s) as int) == living(s),
{
    lemma_living_of_front(s, i + 1);
}

/// No more are alive among the first `n` places than in all.
pub proof fn lemma_living_of_front(s: Seq<Option<Citizen>>, n: int)
    requires
        0 <= n <= s.len(),
    ensures
        living(s.take(n)) <= living(s),
    decreases s.len() - n,
{
    if n < s.len() {
        lemma_living_of_front(s, n + 1);
        assert(s.take(n + 1).drop_last() =~= s.take(n));
    } else {
        assert(s.take(n) =~= s);
    }
}

} // verus!
