use third_life::time::Date;
use third_life::worlds::food::components::FoodResource;
use third_life::worlds::population::components::{Citizen, Sex, Starving};
use third_life::worlds::population::food_consumption::{consume, take_meal};
use third_life::worlds::population::registry::Registry;

fn citizen() -> Citizen {
    Citizen::new(Date { days: 740_000 }, Sex::Male, 30)
}

fn colony_of(n: usize) -> Registry {
    let mut registry = Registry::new();
    for _ in 0..n {
        registry.spawn(citizen());
    }
    registry
}

#[test]
fn a_meal_leaves_the_store_and_ends_the_hunger() {
    let mut food = FoodResource { amount: 3 };
    let mut hungry = citizen();
    hungry.starving = Some(Starving { days_since_last_meal: 4 });
    let after = take_meal(hungry, &mut food);
    assert_eq!(food.amount, 2);
    assert_eq!(after.starving, None);
    assert_eq!(after, citizen());
}

#[test]
fn an_empty_store_stays_empty_and_one_counter_goes_up() {
    let mut food = FoodResource { amount: 0 };
    let after = take_meal(citizen(), &mut food);
    assert_eq!(food.amount, 0);
    assert_eq!(after.starving, Some(Starving { days_since_last_meal: 1 }));
    let again = take_meal(after, &mut food);
    assert_eq!(food.amount, 0);
    assert_eq!(again.starving, Some(Starving { days_since_last_meal: 2 }));
}

#[test]
fn the_last_meal_is_eaten_and_the_next_in_line_goes_hungry() {
    let mut food = FoodResource { amount: 1 };
    let fed = take_meal(citizen(), &mut food);
    assert_eq!(food.amount, 0);
    assert_eq!(fed.starving, None);
    let after = take_meal(citizen(), &mut food);
    assert_eq!(food.amount, 0);
    assert_eq!(after.starving, Some(Starving { days_since_last_meal: 1 }));
}

#[test]
fn three_meals_feed_three_citizens() {
    let mut registry = colony_of(3);
    let mut food = FoodResource { amount: 3 };
    consume(&mut registry, &mut food);
    assert_eq!(food.amount, 0);
    for id in 0..3 {
        assert_eq!(registry.get(id).unwrap().starving, None);
    }
}

#[test]
fn the_count_of_hungry_days_stops_at_the_top() {
    let mut food = FoodResource { amount: 0 };
    let mut hungry = citizen();
    hungry.starving = Some(Starving { days_since_last_meal: u32::MAX });
    let after = take_meal(hungry, &mut food);
    assert_eq!(after.starving, Some(Starving { days_since_last_meal: u32::MAX }));
}

#[test]
fn everybody_eats_from_a_full_store() {
    let mut registry = colony_of(10);
    let mut food = FoodResource { amount: 2000 };
    consume(&mut registry, &mut food);
    assert_eq!(food.amount, 1990);
    for id in 0..10 {
        assert_eq!(registry.get(id).unwrap().starving, None);
    }
}

#[test]
fn the_rank_decides_who_eats_from_a_short_store() {
    let mut registry = colony_of(5);
    let mut food = FoodResource { amount: 3 };
    consume(&mut registry, &mut food);
    assert_eq!(food.amount, 0);
    for id in 0..3 {
        assert_eq!(registry.get(id).unwrap().starving, None);
    }
    for id in 3..5 {
        assert_eq!(
            registry.get(id).unwrap().starving,
            Some(Starving { days_since_last_meal: 1 })
        );
    }
}

#[test]
fn the_dead_claim_nothing() {
    let mut registry = colony_of(4);
    registry.bury(0);
    registry.bury(2);
    let mut food = FoodResource { amount: 2 };
    consume(&mut registry, &mut food);
    assert_eq!(food.amount, 0);
    assert_eq!(registry.get(0), None);
    assert_eq!(registry.get(1).unwrap().starving, None);
    assert_eq!(registry.get(3).unwrap().starving, None);
    assert_eq!(registry.count(), 2);
}

#[test]
fn a_store_never_goes_below_zero() {
    for stock in 0..12u64 {
        for mouths in 0..12usize {
            let mut registry = colony_of(mouths);
            let mut food = FoodResource { amount: stock };
            consume(&mut registry, &mut food);
            let eaten = std::cmp::min(mouths as u64, stock);
            assert_eq!(food.amount, stock - eaten);
            let hungry = (0..mouths)
                .filter(|id| registry.get(*id).unwrap().starving.is_some())
                .count();
            assert_eq!(hungry as u64, mouths as u64 - eaten);
        }
    }
}

#[test]
fn a_meal_resets_the_counter() {
    let mut registry = colony_of(1);
    let mut food = FoodResource { amount: 0 };
    consume(&mut registry, &mut food);
    consume(&mut registry, &mut food);
    assert_eq!(
        registry.get(0).unwrap().starving,
        Some(Starving { days_since_last_meal: 2 })
    );
    food.amount = 1;
    consume(&mut registry, &mut food);
    assert_eq!(registry.get(0).unwrap().starving, None);
    assert_eq!(food.amount, 0);
}

#[test]
fn hunger_kills_after_the_limit() {
    assert!(!Starving { days_since_last_meal: 21 }.died());
    assert!(Starving { days_since_last_meal: 22 }.died());
    assert!(!Starving { days_since_last_meal: 0 }.died());
}
