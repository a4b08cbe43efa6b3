use third_life::time::Date;
use third_life::worlds::population::components::{Citizen, Sex, Starving};
use third_life::worlds::population::dying::{
    bury_marked, infant_mortality, infant_mortality_with, old_age_death, old_age_death_with,
    starvation, CERTAIN,
};
use third_life::worlds::population::events::{CitizenDied, DeathReason};
use third_life::worlds::population::registry::Registry;

fn ymd(year: i32, month: u32, day: u32) -> Date {
    Date::from_ymd(year, month, day).unwrap()
}

fn today() -> Date {
    ymd(2050, 7, 1)
}

fn aged(age: i32) -> Citizen {
    let birthday = ymd(2050 - age, 1, 1);
    Citizen::new(birthday, Sex::Male, today().age(birthday))
}

#[test]
fn the_notices_name_the_cause() {
    assert_eq!(
        CitizenDied::old_age(1, 2),
        CitizenDied { colony: 1, citizen: 2, reason: DeathReason::OldAge }
    );
    assert_eq!(
        CitizenDied::starved(3, 4),
        CitizenDied { colony: 3, citizen: 4, reason: DeathReason::Starvation }
    );
    assert_eq!(
        CitizenDied::infant_death(5, 6),
        CitizenDied { colony: 5, citizen: 6, reason: DeathReason::InfantDeath }
    );
}

#[test]
fn the_marked_are_buried_once() {
    let mut registry = Registry::new();
    for _ in 0..4 {
        registry.spawn(aged(30));
    }
    registry.bury(1);
    let died = bury_marked(
        &mut registry,
        &vec![true, true, false, true, true, true],
        8,
        DeathReason::OldAge,
    );
    assert_eq!(died, vec![CitizenDied::old_age(8, 0), CitizenDied::old_age(8, 3)]);
    assert_eq!(registry.count(), 1);
    assert_eq!(registry.get(2), Some(aged(30)));
    let again = bury_marked(&mut registry, &vec![true, true], 8, DeathReason::OldAge);
    assert_eq!(again, vec![]);
    assert_eq!(registry.count(), 1);
}

#[test]
fn old_age_takes_those_whose_draw_is_within_the_chance() {
    let mut registry = Registry::new();
    let child = registry.spawn(aged(1));
    let adult = registry.spawn(aged(2));
    let elder = registry.spawn(aged(80));
    let spared = registry.spawn(aged(80));
    let undrawn = registry.spawn(aged(80));
    let curve = vec![0, 10, 20, 500];
    let died = old_age_death_with(&mut registry, today(), 2, &curve, &vec![11, 20, 500, 501]);
    assert_eq!(died, vec![CitizenDied::old_age(2, adult), CitizenDied::old_age(2, elder)]);
    assert_eq!(registry.get(child), Some(aged(1)));
    assert_eq!(registry.get(adult), None);
    assert_eq!(registry.get(elder), None);
    assert_eq!(registry.get(spared), Some(aged(80)));
    assert_eq!(registry.get(undrawn), Some(aged(80)));
}

#[test]
fn without_a_curve_nobody_dies_of_old_age_but_on_a_draw_of_zero() {
    let mut registry = Registry::new();
    registry.spawn(aged(99));
    registry.spawn(aged(99));
    let died = old_age_death_with(&mut registry, today(), 0, &vec![], &vec![1, 0]);
    assert_eq!(died, vec![CitizenDied::old_age(0, 1)]);
}

#[test]
fn rolled_old_age_takes_all_under_certainty_and_nearly_none_without_a_curve() {
    let mut registry = Registry::new();
    for _ in 0..50 {
        registry.spawn(aged(70));
    }
    let died = old_age_death(&mut registry, today(), 3, &vec![]);
    assert!(died.len() <= 1);
    assert_eq!(registry.count() + died.len(), 50);
    let left = registry.count();
    let died = old_age_death(&mut registry, today(), 3, &vec![CERTAIN]);
    assert_eq!(died.len(), left);
    assert_eq!(registry.count(), 0);
    assert!(died.iter().all(|event| event.reason == DeathReason::OldAge && event.colony == 3));
}

#[test]
fn hunger_kills_on_the_twenty_second_day() {
    let mut registry = Registry::new();
    let mut almost = aged(30);
    almost.starving = Some(Starving { days_since_last_meal: 21 });
    let almost = registry.spawn(almost);
    let mut over = aged(30);
    over.starving = Some(Starving { days_since_last_meal: 22 });
    let over = registry.spawn(over);
    let fed = registry.spawn(aged(30));
    let died = starvation(&mut registry, 6);
    assert_eq!(died, vec![CitizenDied::starved(6, over)]);
    assert!(registry.get(almost).is_some());
    assert!(registry.get(fed).is_some());
    assert_eq!(starvation(&mut registry, 6), vec![]);
}

#[test]
fn a_child_is_put_to_the_test_once_at_the_close_of_its_first_year() {
    let mut registry = Registry::new();
    let birthday = ymd(2049, 7, 1);
    let early = registry.spawn(Citizen::new(ymd(2049, 7, 2), Sex::Female, 0));
    let weak = registry.spawn(Citizen::new(birthday, Sex::Female, 0));
    let strong = registry.spawn(Citizen::new(birthday, Sex::Female, 0));
    let late = registry.spawn(Citizen::new(ymd(2049, 6, 30), Sex::Female, 1));
    let undrawn = registry.spawn(Citizen::new(birthday, Sex::Female, 0));
    assert_eq!(today().days_since(birthday), 365);
    let died = infant_mortality_with(&mut registry, today(), 1, 9_230_000, &vec![0, 9_229_999, 9_230_000, 0]);
    assert_eq!(died, vec![CitizenDied::infant_death(1, weak)]);
    assert!(registry.get(early).is_some());
    assert!(registry.get(strong).is_some());
    assert!(registry.get(late).is_some());
    assert!(registry.get(undrawn).is_some());
}

#[test]
fn a_rate_of_zero_loses_no_child_and_certainty_loses_all() {
    let mut registry = Registry::new();
    for _ in 0..30 {
        registry.spawn(Citizen::new(ymd(2049, 7, 1), Sex::Male, 1));
    }
    registry.spawn(aged(30));
    assert_eq!(infant_mortality(&mut registry, today(), 0, 0), vec![]);
    assert_eq!(registry.count(), 31);
    let died = infant_mortality(&mut registry, today(), 0, CERTAIN);
    assert_eq!(died.len(), 30);
    assert_eq!(registry.count(), 1);
    assert!(died.iter().all(|event| event.reason == DeathReason::InfantDeath));
}

fn logistic_curve(life_expectancy: f64, spread: f64) -> Vec<u32> {
    (0..130)
        .map(|age| {
            let chance = 1.0 / (1.0 + ((life_expectancy - age as f64) / spread).exp()) / 365.0;
            (chance * CERTAIN as f64) as u32
        })
        .collect()
}

#[test]
fn death_from_old_age_grows_more_likely_with_age() {
    for (life_expectancy, spread) in [(80.0, 6.0), (100.0, 6.0), (60.0, 1.5), (75.0, 20.0)] {
        let curve = logistic_curve(life_expectancy, spread);
        assert!(curve.windows(2).all(|pair| pair[0] <= pair[1]));
        assert!(curve[0] < curve[129]);
        assert!(curve[129] <= CERTAIN / 365 + 1);
        for draw in [0, 10, 1_000, 100_000, 1_000_000, 2_700_000] {
            let mut registry = Registry::new();
            for age in 0..120 {
                registry.spawn(aged(age));
            }
            let died = old_age_death_with(&mut registry, today(), 0, &curve, &vec![draw; 120]);
            let youngest = (0..120).find(|id| registry.get(*id).is_none());
            for id in 0..120 {
                assert_eq!(registry.get(id).is_none(), youngest.map_or(false, |first| id >= first));
            }
            assert_eq!(died.len() + registry.count(), 120);
        }
    }
}

#[test]
fn under_certainty_every_roll_is_fatal() {
    for _ in 0..20 {
        let mut registry = Registry::new();
        for age in [0, 30, 90] {
            registry.spawn(aged(age));
        }
        registry.spawn(Citizen::new(ymd(2049, 7, 1), Sex::Female, 1));
        let died = old_age_death(&mut registry, today(), 0, &vec![0, CERTAIN]);
        assert_eq!(died.len(), 3);
        assert!(registry.get(0).is_some());
        let died = infant_mortality(&mut registry, ymd(2050, 7, 1), 0, CERTAIN);
        assert_eq!(died.len(), 0);
    }
}
