use third_life::time::Date;
use third_life::worlds::food::components::{CarbResource, FoodResource, MeatResource};
use third_life::worlds::population::components::{Citizen, Population, Sex};
use third_life::worlds::population::events::{CitizenCreated, CitizenDied};
use third_life::worlds::population::registry::Registry;
use third_life::worlds::ui::components::{
    PopulationDeathLines, PopulationHistorgram, ResourceStorage, WorldUiBundle, WorldUiEntity,
};
use third_life::worlds::ui::population_ui::{
    add_citizens_to_population_histogram, death_events_listener, update_ages, update_general_pop,
};
use third_life::worlds::ui::resources_ui::resources_changed;

#[test]
fn an_observer_starts_with_one_empty_step() {
    let bundle = WorldUiBundle::new(String::from("Earth"), 3);
    assert_eq!(bundle.name, "Earth");
    assert_eq!(bundle.entity, WorldUiEntity(3));
    assert_eq!(bundle.pop.count, 0);
    assert_eq!(bundle.pop.ages, vec![0; 100]);
    assert_eq!(bundle.deaths.old_age_deaths, vec![0]);
    assert_eq!(bundle.deaths.starvation_deaths, vec![0]);
    assert_eq!(bundle.deaths.infant_deaths, vec![0]);
    assert_eq!(bundle.stor.meat, vec![0]);
    assert_eq!(bundle.stor.carb, vec![0]);
    assert_eq!(bundle.stor.food, vec![0]);
}

#[test]
fn the_death_lines_keep_the_last_twenty_five_steps() {
    let mut lines = PopulationDeathLines::new();
    lines.new_step(false);
    assert_eq!(lines.old_age_deaths, vec![0]);
    for _ in 0..24 {
        lines.new_step(true);
    }
    assert_eq!(lines.old_age_deaths.len(), 25);
    lines.starvation_deaths[0] = 7;
    lines.starvation_deaths[1] = 8;
    lines.new_step(true);
    assert_eq!(lines.old_age_deaths.len(), 25);
    assert_eq!(lines.starvation_deaths.len(), 25);
    assert_eq!(lines.starvation_deaths[0], 8);
    assert_eq!(lines.starvation_deaths[24], 0);
    lines.new_step(false);
    assert_eq!(lines.infant_deaths.len(), 25);
}

#[test]
fn deaths_are_counted_by_cause_into_the_current_step() {
    let mut lines = PopulationDeathLines::new();
    let died = vec![
        CitizenDied::old_age(1, 4),
        CitizenDied::starved(1, 5),
        CitizenDied::starved(2, 5),
        CitizenDied::starved(1, 6),
        CitizenDied::infant_death(1, 7),
    ];
    death_events_listener(&mut lines, false, &died, 1);
    assert_eq!(lines.old_age_deaths, vec![1]);
    assert_eq!(lines.starvation_deaths, vec![2]);
    assert_eq!(lines.infant_deaths, vec![1]);
    death_events_listener(&mut lines, true, &died, 2);
    assert_eq!(lines.old_age_deaths, vec![1, 0]);
    assert_eq!(lines.starvation_deaths, vec![2, 1]);
    assert_eq!(lines.infant_deaths, vec![1, 0]);
    death_events_listener(&mut lines, false, &died, 1);
    assert_eq!(lines.starvation_deaths, vec![2, 3]);
    lines.old_age_deaths.clear();
    death_events_listener(&mut lines, false, &died, 1);
    assert_eq!(lines.old_age_deaths, vec![1]);
}

#[test]
fn the_levels_of_the_stores_keep_the_last_fifty_steps() {
    let mut storage = ResourceStorage::new();
    let carb = CarbResource { amount: 11 };
    let meat = MeatResource { amount: 22 };
    let food = FoodResource { amount: 33 };
    resources_changed(&mut storage, false, &carb, &meat, &food);
    assert_eq!(storage.carb, vec![11]);
    assert_eq!(storage.meat, vec![22]);
    assert_eq!(storage.food, vec![33]);
    resources_changed(&mut storage, true, &CarbResource { amount: 12 }, &meat, &food);
    assert_eq!(storage.carb, vec![11, 12]);
    for step in 0..60 {
        resources_changed(&mut storage, true, &CarbResource { amount: 100 + step }, &meat, &food);
    }
    assert_eq!(storage.carb.len(), 50);
    assert_eq!(storage.carb[0], 110);
    assert_eq!(storage.carb[49], 159);
    assert_eq!(storage.food[49], 33);
    storage.meat.clear();
    resources_changed(&mut storage, false, &carb, &meat, &food);
    assert_eq!(storage.meat, vec![22]);
}

#[test]
fn arrivals_raise_the_bar_of_their_age() {
    let mut chart = PopulationHistorgram::new();
    let created = vec![
        CitizenCreated { age: 0, colony: 1, citizen: 0 },
        CitizenCreated { age: 30, colony: 1, citizen: 1 },
        CitizenCreated { age: 30, colony: 1, citizen: 2 },
        CitizenCreated { age: 30, colony: 2, citizen: 0 },
        CitizenCreated { age: 100, colony: 1, citizen: 3 },
    ];
    add_citizens_to_population_histogram(&mut chart, &created, 1);
    assert_eq!(chart.ages[0], 1);
    assert_eq!(chart.ages[30], 2);
    assert_eq!(chart.ages.iter().sum::<usize>(), 3);
}

#[test]
fn the_age_chart_counts_the_living_by_age() {
    let today = Date::from_ymd(2050, 7, 1).unwrap();
    let mut registry = Registry::new();
    for year in [2050, 2020, 2020, 2019, 1930, 2020] {
        let birthday = Date::from_ymd(year, 1, 1).unwrap();
        registry.spawn(Citizen::new(birthday, Sex::Female, today.age(birthday)));
    }
    registry.bury(5);
    let ages = update_ages(&registry, today);
    assert_eq!(ages.len(), 100);
    assert_eq!(ages[0], 1);
    assert_eq!(ages[30], 2);
    assert_eq!(ages[31], 1);
    assert_eq!(ages.iter().sum::<usize>(), 4);
}

#[test]
fn the_chart_takes_over_the_census() {
    let mut chart = PopulationHistorgram::new();
    chart.ages[5] = 9;
    let population = Population {
        count: 10,
        working_pop: 6,
        younglings: 3,
        retirees: 1,
        average_age: 33,
        average_children_per_mother: 1500,
    };
    update_general_pop(&mut chart, &population);
    assert_eq!(chart.count, 10);
    assert_eq!(chart.working_pop, 6);
    assert_eq!(chart.younglings, 3);
    assert_eq!(chart.retirees, 1);
    assert_eq!(chart.average_age, 33);
    assert_eq!(chart.average_children_per_mother, 1500);
    assert_eq!(chart.ages[5], 9);
}
