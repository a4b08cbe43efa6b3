use third_life::time::Date;
use third_life::worlds::config::FoodConfig;
use third_life::worlds::food::components::{
    top_up, top_up_many, CarbResource, Cow, CowFarm, FoodResource, MeatResource, WheatFarm,
};
use third_life::worlds::food::cow_farming::{
    breed_cows, breed_cows_with, check_cow_farm_workers, get_cow_farm_workers, mark_breeders,
    work_cow_farm,
};
use third_life::worlds::food::events::{
    CarbConsumed, CarbCreated, CowFarmNeedsWorker, FoodCreated, MeatConsumed,
    WheatFarmNeedsWorker,
};
use third_life::worlds::food::wheat_farming::{
    check_farm_workers, get_farm_workers, season_check_wheat, work_farm,
};
use third_life::worlds::food::{cook_food, hire, init_food, init_herd};
use third_life::worlds::population::components::{
    Citizen, Job, Pregnancy, Reproduction, Sex,
};
use third_life::worlds::population::registry::Registry;

fn ymd(year: i32, month: u32, day: u32) -> Date {
    Date::from_ymd(year, month, day).unwrap()
}

fn worker() -> Citizen {
    Citizen::new(ymd(2020, 1, 1), Sex::Male, 30)
}

fn hands(job: Job, n: usize) -> Registry {
    let mut registry = Registry::new();
    for _ in 0..n {
        let mut record = worker();
        record.job = Some(job);
        registry.spawn(record);
    }
    registry
}

fn cow(birthday: Date) -> Cow {
    Cow { birthday, is_bull: false, is_breeder: false }
}

fn bull(birthday: Date, is_breeder: bool) -> Cow {
    Cow { birthday, is_bull: true, is_breeder }
}

#[test]
fn the_defaults_are_six_cow_farms_and_four_wheat_farms() {
    let config = FoodConfig::def_conf();
    assert_eq!(config.cow_farms, 6);
    assert_eq!(config.wheat_farms, 4);
    assert_eq!(config.starting_beef, 5000);
    assert_eq!(config.starting_carb, 5000);
}

#[test]
fn a_new_economy_has_its_farms_herds_and_stores() {
    let date = ymd(2050, 1, 1);
    let config =
        FoodConfig { cow_farms: 2, wheat_farms: 3, starting_beef: 70, starting_carb: 90 };
    let economy = init_food(date, &config);
    assert_eq!(economy.food, FoodResource { amount: 2000 });
    assert_eq!(economy.carb, CarbResource { amount: 90 });
    assert_eq!(economy.meat, MeatResource { amount: 70 });
    assert_eq!(economy.wheat_farms, vec![WheatFarm { size: 174, harvested: 174 }; 3]);
    assert_eq!(economy.cow_farms.len(), 2);
    for farm in &economy.cow_farms {
        assert_eq!(farm.size, 340);
        assert_eq!(farm.herd.len(), 57);
        for (place, animal) in farm.herd.iter().enumerate() {
            assert_eq!(animal.birthday, ymd(2048, 1, 1));
            assert_eq!(animal.is_bull, place < 3);
            assert_eq!(animal.is_breeder, place < 3);
        }
    }
}

#[test]
fn a_founding_herd_is_old_enough_to_be_culled() {
    for date in [ymd(2050, 1, 1), ymd(2050, 3, 31), ymd(2048, 2, 29), ymd(3, 1, 1)] {
        let herd = init_herd(date);
        assert_eq!(herd.len(), 57);
        for animal in &herd {
            assert_eq!(date.age_in_months(animal.birthday), 24);
            assert!(animal.ripe(date));
        }
    }
}

#[test]
fn a_herd_founded_too_early_for_the_calendar_is_born_that_day() {
    let date = ymd(1, 6, 1);
    let herd = init_herd(date);
    assert_eq!(herd.len(), 57);
    assert_eq!(herd[56].birthday, date);
}

#[test]
fn a_store_holds_no_more_than_it_counts() {
    assert_eq!(top_up(5, 7), 12);
    assert_eq!(top_up(u64::MAX - 1, 7), u64::MAX);
    assert_eq!(top_up_many(10, 3, 250), 760);
    assert_eq!(top_up_many(u64::MAX - 100, 3, 250), u64::MAX);
    assert_eq!(top_up_many(10, 0, 250), 10);
}

#[test]
fn cooking_takes_a_batch_of_each_and_makes_a_batch() {
    let mut food = FoodResource { amount: 2000 };
    let mut carb = CarbResource { amount: 501 };
    let mut meat = MeatResource { amount: 5000 };
    let cooked = cook_food(3, &mut food, &mut carb, &mut meat).unwrap();
    assert_eq!(food.amount, 2500);
    assert_eq!(carb.amount, 1);
    assert_eq!(meat.amount, 4500);
    assert_eq!(cooked.carb, CarbConsumed { colony: 3, amount: 500 });
    assert_eq!(cooked.meat, MeatConsumed { colony: 3, amount: 500 });
    assert_eq!(cooked.food, FoodCreated { colony: 3, amount: 500 });
}

#[test]
fn cooking_never_executes_below_the_batch_threshold() {
    for (carbs, meats) in [(500, 5000), (5000, 500), (0, 0), (499, 499), (500, 500), (100, 501)] {
        let mut food = FoodResource { amount: 2000 };
        let mut carb = CarbResource { amount: carbs };
        let mut meat = MeatResource { amount: meats };
        assert_eq!(cook_food(0, &mut food, &mut carb, &mut meat), None);
        assert_eq!(food.amount, 2000);
        assert_eq!(carb.amount, carbs);
        assert_eq!(meat.amount, meats);
    }
}

#[test]
fn the_season_opens_on_the_first_of_june() {
    let mut farms =
        vec![WheatFarm { size: 174, harvested: 174 }, WheatFarm { size: 50, harvested: 20 }];
    season_check_wheat(&mut farms, ymd(2050, 5, 31));
    assert_eq!(farms[0].harvested, 174);
    assert_eq!(farms[1].harvested, 20);
    season_check_wheat(&mut farms, ymd(2050, 6, 1));
    assert_eq!(farms, vec![WheatFarm { size: 174, harvested: 0 }, WheatFarm { size: 50, harvested: 0 }]);
}

#[test]
fn every_worker_harvests_a_hectare_while_land_is_left() {
    let mut farm = WheatFarm { size: 174, harvested: 0 };
    assert_eq!(farm.work(4), 40);
    assert_eq!(farm, WheatFarm { size: 174, harvested: 40 });
    farm.harvested = 170;
    assert_eq!(farm.work(4), 4);
    assert_eq!(farm.harvested, 174);
    assert_eq!(farm.work(4), 0);
    assert_eq!(farm.work(0), 0);
    let mut odd = WheatFarm { size: 10, harvested: 30 };
    assert_eq!(odd.work(2), 0);
    assert_eq!(odd.harvested, 30);
}

#[test]
fn the_harvest_fills_the_carbohydrate_store() {
    let mut farms = vec![
        WheatFarm { size: 174, harvested: 0 },
        WheatFarm { size: 174, harvested: 174 },
        WheatFarm { size: 174, harvested: 170 },
    ];
    let mut registry = hands(Job::WheatFarmer { farm: 0 }, 2);
    for _ in 0..4 {
        let mut record = worker();
        record.job = Some(Job::WheatFarmer { farm: 2 });
        registry.spawn(record);
    }
    let mut carb = CarbResource { amount: 100 };
    let created = work_farm(&mut farms, &registry, 9, &mut carb);
    assert_eq!(farms[0].harvested, 20);
    assert_eq!(farms[1].harvested, 174);
    assert_eq!(farms[2].harvested, 174);
    assert_eq!(carb.amount, 100 + 24 * 267);
    assert_eq!(
        created,
        vec![
            CarbCreated { colony: 9, amount: 5340 },
            CarbCreated { colony: 9, amount: 1068 },
        ]
    );
}

#[test]
fn a_farm_asks_for_every_place_it_has_open() {
    let mut registry = hands(Job::WheatFarmer { farm: 1 }, 3);
    for _ in 0..5 {
        let mut record = worker();
        record.job = Some(Job::WheatFarmer { farm: 2 });
        registry.spawn(record);
    }
    let requests = check_farm_workers(7, 3, &registry);
    let mut expected = vec![WheatFarmNeedsWorker { colony: 7, farm: 0 }; 4];
    expected.push(WheatFarmNeedsWorker { colony: 7, farm: 1 });
    assert_eq!(requests, expected);
    assert_eq!(check_farm_workers(7, 0, &registry), vec![]);
    assert_eq!(
        check_cow_farm_workers(2, 1, &registry),
        vec![CowFarmNeedsWorker { colony: 2, farm: 0 }; 4]
    );
}

#[test]
fn jobs_go_to_the_free_in_the_order_of_the_registry() {
    let mut registry = Registry::new();
    let child = registry.spawn(Citizen::new(ymd(2040, 1, 1), Sex::Male, 10));
    let first = registry.spawn(worker());
    let mut busy = worker();
    busy.job = Some(Job::CowFarmer { farm: 0 });
    let busy = registry.spawn(busy);
    let mut expecting = Citizen::new(ymd(2020, 1, 1), Sex::Female, 30);
    expecting.reproduction = Reproduction::Pregnant(Pregnancy { baby_due_date: ymd(2050, 3, 1) });
    let expecting = registry.spawn(expecting);
    let retired = registry.spawn(Citizen::new(ymd(1980, 1, 1), Sex::Male, 70));
    let second = registry.spawn(worker());
    hire(
        &mut registry,
        &vec![
            Job::WheatFarmer { farm: 5 },
            Job::CowFarmer { farm: 6 },
            Job::WheatFarmer { farm: 7 },
        ],
    );
    assert_eq!(registry.get(first).unwrap().job, Some(Job::WheatFarmer { farm: 5 }));
    assert_eq!(registry.get(second).unwrap().job, Some(Job::CowFarmer { farm: 6 }));
    assert_eq!(registry.get(child).unwrap().job, None);
    assert_eq!(registry.get(busy).unwrap().job, Some(Job::CowFarmer { farm: 0 }));
    assert_eq!(registry.get(expecting).unwrap().job, None);
    assert_eq!(registry.get(retired).unwrap().job, None);
}

#[test]
fn requests_are_filled_first_come_first_served() {
    let mut registry = Registry::new();
    for _ in 0..3 {
        registry.spawn(worker());
    }
    get_farm_workers(
        &mut registry,
        &vec![
            WheatFarmNeedsWorker { colony: 0, farm: 1 },
            WheatFarmNeedsWorker { colony: 0, farm: 1 },
        ],
    );
    assert_eq!(registry.workers(Job::WheatFarmer { farm: 1 }), 2);
    assert_eq!(registry.get(2).unwrap().job, None);
    get_cow_farm_workers(
        &mut registry,
        &vec![
            CowFarmNeedsWorker { colony: 0, farm: 4 },
            CowFarmNeedsWorker { colony: 0, farm: 4 },
        ],
    );
    assert_eq!(registry.get(2).unwrap().job, Some(Job::CowFarmer { farm: 4 }));
    assert_eq!(registry.workers(Job::CowFarmer { farm: 4 }), 1);
    assert_eq!(registry.get(0).unwrap().job, Some(Job::WheatFarmer { farm: 1 }));
}

#[test]
fn the_first_spare_bull_becomes_a_breeder() {
    let day = ymd(2048, 1, 1);
    let mut farms = vec![
        CowFarm { size: 340, herd: vec![cow(day), bull(day, true), bull(day, false), bull(day, false)] },
        CowFarm { size: 340, herd: vec![bull(day, true), bull(day, true), bull(day, false)] },
        CowFarm { size: 340, herd: vec![cow(day), cow(day)] },
    ];
    mark_breeders(&mut farms);
    assert_eq!(farms[0].herd, vec![cow(day), bull(day, true), bull(day, true), bull(day, false)]);
    assert_eq!(farms[1].herd, vec![bull(day, true), bull(day, true), bull(day, false)]);
    assert_eq!(farms[2].herd, vec![cow(day), cow(day)]);
    mark_breeders(&mut farms);
    assert_eq!(farms[0].herd[3], bull(day, false));
}

#[test]
fn cows_calve_on_the_first_of_june() {
    let day = ymd(2048, 1, 1);
    let season = ymd(2050, 6, 1);
    let mut farm = CowFarm { size: 340, herd: vec![cow(day), bull(day, true), cow(day)] };
    farm.breed_with(ymd(2050, 6, 2), &vec![0, 0, 0]);
    assert_eq!(farm.herd.len(), 3);
    farm.breed_with(season, &vec![50, 0, 51]);
    assert_eq!(
        farm.herd,
        vec![cow(day), bull(day, true), cow(day), cow(season), bull(season, false)]
    );
}

#[test]
fn every_farm_calves_with_its_own_rolls() {
    let day = ymd(2048, 1, 1);
    let season = ymd(2050, 6, 1);
    let mut farms = vec![
        CowFarm { size: 340, herd: vec![cow(day)] },
        CowFarm { size: 340, herd: vec![cow(day)] },
        CowFarm { size: 340, herd: vec![cow(day)] },
    ];
    breed_cows_with(&mut farms, season, &vec![vec![100], vec![1]]);
    assert_eq!(farms[0].herd, vec![cow(day), bull(season, false)]);
    assert_eq!(farms[1].herd, vec![cow(day), cow(season)]);
    assert_eq!(farms[2].herd, vec![cow(day)]);
}

#[test]
fn rolled_calves_are_born_that_day() {
    let day = ymd(2048, 1, 1);
    let season = ymd(2050, 6, 1);
    let mut farms = vec![CowFarm { size: 340, herd: vec![cow(day), bull(day, true), cow(day)] }];
    breed_cows(&mut farms, season);
    assert_eq!(farms[0].herd.len(), 5);
    assert_eq!(&farms[0].herd[..3], &[cow(day), bull(day, true), cow(day)]);
    for calf in &farms[0].herd[3..] {
        assert_eq!(calf.birthday, season);
        assert!(!calf.is_breeder);
    }
    breed_cows(&mut farms, ymd(2050, 6, 2));
    assert_eq!(farms[0].herd.len(), 5);
}

#[test]
fn an_animal_is_ripe_after_eighteen_months() {
    let animal = cow(ymd(2048, 1, 31));
    assert!(!animal.ripe(ymd(2049, 7, 1)));
    assert!(animal.ripe(ymd(2049, 8, 1)));
}

#[test]
fn a_herd_at_its_floor_is_not_culled() {
    let date = ymd(2050, 1, 1);
    let mut farm = CowFarm { size: 340, herd: vec![cow(ymd(2048, 1, 1)); 47] };
    assert_eq!(farm.cull(date, 4), 0);
    assert_eq!(farm.herd.len(), 47);
}

#[test]
fn the_cull_is_capped_by_the_workers() {
    let date = ymd(2050, 1, 1);
    let old = ymd(2048, 1, 1);
    let mut farm = CowFarm { size: 340, herd: init_herd(date) };
    assert_eq!(farm.cull(date, 0), 0);
    assert_eq!(farm.herd.len(), 57);
    assert_eq!(farm.cull(date, 1), 1);
    assert_eq!(farm.herd.len(), 56);
    assert_eq!(farm.herd[0], bull(old, true));
    assert_eq!(farm.herd[1], bull(old, true));
    assert_eq!(farm.herd[2], cow(old));
    assert_eq!(farm.cull(date, 4), 5);
    assert_eq!(farm.herd.len(), 51);
    assert_eq!(farm.cull(date, 100), 4);
    assert_eq!(farm.herd.len(), 47);
}

#[test]
fn the_young_are_spared() {
    let date = ymd(2050, 1, 1);
    let calf = cow(ymd(2049, 6, 1));
    let old = cow(ymd(2048, 1, 1));
    let mut herd = vec![calf; 48];
    herd.push(old);
    herd.push(calf);
    herd.push(old);
    let mut farm = CowFarm { size: 340, herd };
    assert_eq!(farm.cull(date, 4), 2);
    assert_eq!(farm.herd, vec![calf; 49]);
}

#[test]
fn the_cull_fills_the_meat_store() {
    let date = ymd(2050, 1, 1);
    let mut farms = vec![
        CowFarm { size: 340, herd: init_herd(date) },
        CowFarm { size: 340, herd: init_herd(date) },
        CowFarm { size: 340, herd: init_herd(date) },
    ];
    let mut registry = hands(Job::CowFarmer { farm: 0 }, 4);
    let mut one = worker();
    one.job = Some(Job::CowFarmer { farm: 2 });
    registry.spawn(one);
    let mut meat = MeatResource { amount: 10 };
    work_cow_farm(&mut farms, &registry, date, &mut meat);
    assert_eq!(farms[0].herd.len(), 52);
    assert_eq!(farms[1].herd.len(), 57);
    assert_eq!(farms[2].herd.len(), 56);
    assert_eq!(meat.amount, 10 + 6 * 250);
}
