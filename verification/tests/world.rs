use rand_distr::{Distribution, SkewNormal};
use third_life::time::Date;
use third_life::worlds::config::{FoodConfig, GovernmentConfig};
use third_life::worlds::population::components::Starving;
use third_life::worlds::population::events::DeathReason;
use third_life::worlds::World;

fn ymd(year: i32, month: u32, day: u32) -> Date {
    Date::from_ymd(year, month, day).unwrap()
}

fn no_farms() -> FoodConfig {
    FoodConfig { cow_farms: 0, wheat_farms: 0, starting_beef: 0, starting_carb: 0 }
}

fn logistic_curve(life_expectancy: f64, spread: f64) -> Vec<u32> {
    (0..150)
        .map(|age| {
            let chance = 1.0 / (1.0 + ((life_expectancy - age as f64) / spread).exp()) / 365.0;
            (chance * 1e9) as u32
        })
        .collect()
}

#[test]
fn a_new_world_has_its_colonies_in_order() {
    let mut world = World::new(ymd(2050, 1, 1));
    let earth = world.init_colony(
        String::from("Earth"),
        &FoodConfig::def_conf(),
        GovernmentConfig::def_conf(),
        vec![],
    );
    let mars = world.init_colony(
        String::from("Mars"),
        &no_farms(),
        GovernmentConfig::def_conf(),
        vec![7],
    );
    assert_eq!((earth, mars), (0, 1));
    assert_eq!(world.colonies[0].name, "Earth");
    assert_eq!(world.colonies[1].name, "Mars");
    assert_eq!(world.colonies[0].economy.cow_farms.len(), 6);
    assert_eq!(world.colonies[0].economy.wheat_farms.len(), 4);
    assert_eq!(world.colonies[0].economy.food.amount, 2000);
    assert_eq!(world.colonies[0].economy.carb.amount, 5000);
    assert_eq!(world.colonies[0].economy.meat.amount, 5000);
    assert_eq!(world.colonies[1].economy.cow_farms.len(), 0);
    assert_eq!(world.colonies[1].old_age_curve, vec![7]);
    assert_eq!(world.colonies[1].registry.len(), 0);
    assert_eq!(world.colonies[1].population.count, 0);
}

#[test]
fn citizens_are_seeded_into_their_colony_only() {
    let mut world = World::new(ymd(2050, 1, 1));
    world.init_colony(String::from("Earth"), &no_farms(), GovernmentConfig::def_conf(), vec![]);
    world.init_colony(String::from("Mars"), &no_farms(), GovernmentConfig::def_conf(), vec![]);
    let created = world.init_citizens(1, &vec![20, 30, 40]).unwrap();
    assert_eq!(created.len(), 3);
    assert!(created.iter().all(|event| event.colony == 1));
    assert_eq!(world.colonies[0].registry.count(), 0);
    assert_eq!(world.colonies[1].registry.count(), 3);
    assert_eq!(world.colonies[1].population.count, 3);
    assert_eq!(world.init_citizens(5, &vec![20]).unwrap(), vec![]);
    assert!(world.init_citizens(0, &vec![3000]).is_err());
    assert_eq!(world.colonies[0].registry.count(), 0);
}

#[test]
fn a_tick_moves_the_calendar_by_a_day() {
    let mut world = World::new(ymd(2050, 1, 30));
    world.init_colony(String::from("Earth"), &FoodConfig::def_conf(), GovernmentConfig::def_conf(), vec![]);
    let report = world.tick();
    assert_eq!(world.game_date.date, ymd(2050, 1, 31));
    assert_eq!(report.date_changed.date, ymd(2050, 1, 31));
    assert!(report.month_changed.is_none());
    assert_eq!(report.colonies.len(), 1);
    let report = world.tick();
    assert_eq!(world.game_date.date, ymd(2050, 2, 1));
    assert!(report.month_changed.is_some());
}

#[test]
fn a_seeded_colony_conserves_its_head_count_over_a_year() {
    let mut world = World::new(ymd(2050, 1, 1));
    let colony = world.init_colony(
        String::from("Earth"),
        &FoodConfig::def_conf(),
        GovernmentConfig::def_conf(),
        logistic_curve(80.0, 6.0),
    );
    world.colonies[colony].infra_and_env.sanitation.update(68_000, 9_230_000);
    let skew_normal = SkewNormal::new(18.0f32, 6.0, 10.0).unwrap();
    let mut rng = rand::thread_rng();
    let ages: Vec<u32> =
        (0..1000).map(|_| skew_normal.sample(&mut rng).floor().max(0.0) as u32).collect();
    let created = world.init_citizens(colony, &ages).unwrap();
    assert_eq!(created.len(), 1000);
    world.colonies[colony].economy.food.amount = 1_000_000_000;
    let mut expected: usize = 1000;
    let mut births = 0;
    let mut deaths = 0;
    for _ in 0..365 {
        let report = world.tick();
        let day = &report.colonies[colony];
        assert!(day.died.iter().all(|event| event.reason != DeathReason::Starvation));
        births += day.created.len();
        deaths += day.died.len();
        expected = expected + day.created.len() - day.died.len();
        assert_eq!(world.colonies[colony].registry.count(), expected);
        assert_eq!(world.colonies[colony].population.count, expected);
    }
    assert_eq!(world.game_date.date, ymd(2051, 1, 1));
    assert_eq!(world.colonies[colony].population.count, 1000 + births - deaths);
    assert_eq!(world.colonies[colony].registry.len(), 1000 + births);
    for id in 0..world.colonies[colony].registry.len() {
        if let Some(citizen) = world.colonies[colony].registry.get(id) {
            assert_eq!(citizen.starving, None);
            if let Some(partner) = citizen.spouse {
                assert_eq!(world.colonies[colony].registry.get(partner).unwrap().spouse, Some(id));
            }
        }
    }
}

#[test]
fn a_colony_without_food_starves_in_twenty_two_days() {
    let mut world = World::new(ymd(2050, 1, 1));
    let colony =
        world.init_colony(String::from("Mars"), &no_farms(), GovernmentConfig::def_conf(), vec![]);
    let ages: Vec<u32> = (0..200).map(|k| k % 80).collect();
    world.init_citizens(colony, &ages).unwrap();
    world.colonies[colony].economy.food.amount = 0;
    for day in 1..=21u32 {
        let report = world.tick();
        assert_eq!(report.colonies[colony].died, vec![]);
        assert!(report.colonies[colony].cooked.is_none());
        let registry = &world.colonies[colony].registry;
        assert_eq!(registry.count(), 200);
        for id in 0..registry.len() {
            assert_eq!(
                registry.get(id).unwrap().starving,
                Some(Starving { days_since_last_meal: day })
            );
        }
    }
    let report = world.tick();
    assert_eq!(report.colonies[colony].died.len(), 200);
    assert!(report.colonies[colony]
        .died
        .iter()
        .all(|event| event.reason == DeathReason::Starvation));
    assert_eq!(world.colonies[colony].registry.count(), 0);
    assert_eq!(world.colonies[colony].population.count, 0);
    assert_eq!(world.colonies[colony].economy.food.amount, 0);
}

#[test]
fn nothing_is_cooked_while_a_raw_store_is_at_or_under_a_batch() {
    for (carb, beef) in [(500, 100_000), (100_000, 500), (0, 0), (499, 10_000)] {
        let mut world = World::new(ymd(2050, 1, 1));
        let food =
            FoodConfig { cow_farms: 0, wheat_farms: 0, starting_beef: beef, starting_carb: carb };
        let colony =
            world.init_colony(String::from("Io"), &food, GovernmentConfig::def_conf(), vec![]);
        for _ in 0..10 {
            let report = world.tick();
            assert!(report.colonies[colony].cooked.is_none());
            assert_eq!(world.colonies[colony].economy.food.amount, 2000);
            assert_eq!(world.colonies[colony].economy.carb.amount, carb);
            assert_eq!(world.colonies[colony].economy.meat.amount, beef);
        }
    }
}

#[test]
fn a_batch_is_cooked_each_day_while_both_raw_stores_hold_more() {
    let mut world = World::new(ymd(2050, 1, 1));
    let food = FoodConfig { cow_farms: 0, wheat_farms: 0, starting_beef: 1600, starting_carb: 5000 };
    let colony = world.init_colony(String::from("Io"), &food, GovernmentConfig::def_conf(), vec![]);
    let stocks = [(2500, 4500, 1100), (3000, 4000, 600), (3500, 3500, 100), (3500, 3500, 100)];
    for (cooked, carb, meat) in stocks {
        world.tick();
        assert_eq!(world.colonies[colony].economy.food.amount, cooked);
        assert_eq!(world.colonies[colony].economy.carb.amount, carb);
        assert_eq!(world.colonies[colony].economy.meat.amount, meat);
    }
}

#[test]
fn farms_find_their_workers_and_fill_the_stores() {
    let mut world = World::new(ymd(2050, 5, 30));
    let food = FoodConfig { cow_farms: 1, wheat_farms: 1, starting_beef: 0, starting_carb: 0 };
    let colony = world.init_colony(String::from("Earth"), &food, GovernmentConfig::def_conf(), vec![]);
    world.init_citizens(colony, &vec![30; 10]).unwrap();
    let report = world.tick();
    assert_eq!(report.colonies[colony].carb_created, vec![]);
    assert_eq!(world.colonies[colony].wealth.total_wealth, 8);
    assert_eq!(world.colonies[colony].wealth.spending_available, 8000 - 1000);
    assert_eq!(world.colonies[colony].economy.meat.amount, 5 * 250);
    assert_eq!(world.colonies[colony].economy.cow_farms[0].herd.len(), 52);
    world.tick();
    let report = world.tick();
    assert_eq!(world.game_date.date, ymd(2050, 6, 2));
    assert_eq!(report.colonies[colony].carb_created.len(), 1);
    assert_eq!(report.colonies[colony].carb_created[0].amount, 40 * 267);
    assert_eq!(world.colonies[colony].economy.wheat_farms[0].harvested, 80);
    assert_eq!(world.colonies[colony].economy.carb.amount, 80 * 267 - 2 * 500);
    assert_eq!(world.colonies[colony].economy.meat.amount, 15 * 250 - 2 * 500);
    assert_eq!(world.colonies[colony].economy.cow_farms[0].herd.len(), 57 + 52 - 15);
}

#[test]
fn a_known_colony_is_peopled_for_ages_below_the_year() {
    let mut world = World::new(ymd(2050, 1, 1));
    let colony =
        world.init_colony(String::from("Earth"), &no_farms(), GovernmentConfig::def_conf(), vec![]);
    let created = world.init_citizens(colony, &vec![0, 30, 2049]).unwrap();
    assert_eq!(created.len(), 3);
    assert_eq!(world.colonies[colony].registry.count(), 3);
    assert_eq!(world.colonies[colony].population.count, 3);
    assert_eq!(world.colonies[colony].name, "Earth");
    assert_eq!(world.init_citizens(colony, &vec![]).unwrap(), vec![]);
    let mut lost = World::new(Date { days: 0 });
    let colony =
        lost.init_colony(String::from("Nowhere"), &no_farms(), GovernmentConfig::def_conf(), vec![]);
    assert!(lost.init_citizens(colony, &vec![5]).is_err());
    assert_eq!(lost.init_citizens(colony, &vec![]).unwrap(), vec![]);
}
