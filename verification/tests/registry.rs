use third_life::time::Date;
use third_life::worlds::population::components::{Citizen, Cohort, Job, Reproduction, Sex};
use third_life::worlds::population::registry::Registry;

fn adult(sex: Sex) -> Citizen {
    Citizen::new(Date { days: 740_000 }, sex, 30)
}

#[test]
fn newcomers_are_numbered_in_order() {
    let mut registry = Registry::new();
    assert_eq!(registry.len(), 0);
    assert_eq!(registry.spawn(adult(Sex::Male)), 0);
    assert_eq!(registry.spawn(adult(Sex::Female)), 1);
    assert_eq!(registry.len(), 2);
    assert_eq!(registry.count(), 2);
    assert_eq!(registry.get(1), Some(adult(Sex::Female)));
    assert_eq!(registry.get(2), None);
}

#[test]
fn a_newcomer_has_no_partner() {
    let mut registry = Registry::new();
    let mut record = adult(Sex::Male);
    record.spouse = Some(7);
    let id = registry.spawn(record);
    assert_eq!(registry.get(id).unwrap().spouse, None);
}

#[test]
fn a_new_citizen_belongs_to_the_cohort_of_the_age() {
    let birthday = Date { days: 740_000 };
    assert_eq!(Citizen::new(birthday, Sex::Male, 0).cohort, Cohort::Youngling);
    assert_eq!(Citizen::new(birthday, Sex::Male, 17).cohort, Cohort::Youngling);
    assert_eq!(Citizen::new(birthday, Sex::Male, 18).cohort, Cohort::Employable);
    assert_eq!(Citizen::new(birthday, Sex::Male, 64).cohort, Cohort::Employable);
    assert_eq!(Citizen::new(birthday, Sex::Male, 65).cohort, Cohort::Retiree);
    let fresh = Citizen::new(birthday, Sex::Female, 30);
    assert_eq!(fresh.job, None);
    assert_eq!(fresh.spouse, None);
    assert!(!fresh.widowed);
    assert_eq!(fresh.reproduction, Reproduction::Resting);
    assert_eq!(fresh.children_had, 0);
    assert_eq!(fresh.starving, None);
}

#[test]
fn marriage_goes_both_ways() {
    let mut registry = Registry::new();
    let a = registry.spawn(adult(Sex::Female));
    let b = registry.spawn(adult(Sex::Male));
    assert!(registry.marry(a, b));
    assert_eq!(registry.get(a).unwrap().spouse, Some(b));
    assert_eq!(registry.get(b).unwrap().spouse, Some(a));
}

#[test]
fn nobody_marries_twice_or_alone_or_the_dead() {
    let mut registry = Registry::new();
    let a = registry.spawn(adult(Sex::Female));
    let b = registry.spawn(adult(Sex::Male));
    let c = registry.spawn(adult(Sex::Male));
    assert!(!registry.marry(a, a));
    assert!(!registry.marry(a, 9));
    assert!(registry.marry(a, b));
    assert!(!registry.marry(a, c));
    assert!(!registry.marry(c, b));
    registry.bury(c);
    let d = registry.spawn(adult(Sex::Female));
    assert!(!registry.marry(d, c));
    assert_eq!(registry.get(d).unwrap().spouse, None);
}

#[test]
fn a_place_stays_empty_after_a_death() {
    let mut registry = Registry::new();
    let a = registry.spawn(adult(Sex::Female));
    let b = registry.spawn(adult(Sex::Male));
    assert_eq!(registry.bury(a), Some(adult(Sex::Female)));
    assert_eq!(registry.bury(a), None);
    assert_eq!(registry.bury(5), None);
    assert_eq!(registry.get(a), None);
    assert_eq!(registry.len(), 2);
    assert_eq!(registry.count(), 1);
    assert_eq!(registry.spawn(adult(Sex::Male)), 2);
    assert_eq!(registry.get(b), Some(adult(Sex::Male)));
}

#[test]
fn only_the_bereaved_are_widowed() {
    let mut registry = Registry::new();
    let a = registry.spawn(adult(Sex::Female));
    let b = registry.spawn(adult(Sex::Male));
    let c = registry.spawn(adult(Sex::Male));
    registry.marry(a, b);
    assert!(!registry.widow(a));
    assert!(!registry.widow(c));
    assert!(!registry.widow(8));
    registry.bury(b);
    assert_eq!(registry.get(a).unwrap().spouse, Some(b));
    assert!(registry.widow(a));
    let left = registry.get(a).unwrap();
    assert_eq!(left.spouse, None);
    assert!(left.widowed);
    assert!(!registry.widow(a));
}

#[test]
fn amending_keeps_the_partner() {
    let mut registry = Registry::new();
    let a = registry.spawn(adult(Sex::Female));
    let b = registry.spawn(adult(Sex::Male));
    registry.marry(a, b);
    let mut record = adult(Sex::Female);
    record.job = Some(Job::WheatFarmer { farm: 2 });
    record.spouse = None;
    registry.amend(a, record);
    let stored = registry.get(a).unwrap();
    assert_eq!(stored.job, Some(Job::WheatFarmer { farm: 2 }));
    assert_eq!(stored.spouse, Some(b));
    registry.bury(b);
    registry.amend(b, record);
    assert_eq!(registry.get(b), None);
    registry.amend(17, record);
    assert_eq!(registry.len(), 2);
}

#[test]
fn workers_are_counted_by_job() {
    let mut registry = Registry::new();
    for farm in [0, 0, 1] {
        let mut record = adult(Sex::Male);
        record.job = Some(Job::WheatFarmer { farm });
        registry.spawn(record);
    }
    let mut cowhand = adult(Sex::Female);
    cowhand.job = Some(Job::CowFarmer { farm: 0 });
    let gone = registry.spawn(cowhand);
    registry.spawn(adult(Sex::Female));
    assert_eq!(registry.workers(Job::WheatFarmer { farm: 0 }), 2);
    assert_eq!(registry.workers(Job::WheatFarmer { farm: 1 }), 1);
    assert_eq!(registry.workers(Job::WheatFarmer { farm: 2 }), 0);
    assert_eq!(registry.workers(Job::CowFarmer { farm: 0 }), 1);
    registry.bury(gone);
    assert_eq!(registry.workers(Job::CowFarmer { farm: 0 }), 0);
}

#[test]
fn the_pregnant_and_the_young_and_the_old_do_not_take_jobs() {
    let birthday = Date { days: 740_000 };
    let mut woman = Citizen::new(birthday, Sex::Female, 30);
    assert!(woman.employable());
    assert!(woman.free_to_work());
    woman.job = Some(Job::CowFarmer { farm: 0 });
    assert!(woman.employable());
    assert!(!woman.free_to_work());
    woman.job = None;
    woman.reproduction = Reproduction::Pregnant(
        third_life::worlds::population::components::Pregnancy { baby_due_date: birthday },
    );
    assert!(woman.pregnant());
    assert!(!woman.employable());
    assert!(!Citizen::new(birthday, Sex::Male, 17).employable());
    assert!(!Citizen::new(birthday, Sex::Male, 65).free_to_work());
}

#[test]
fn only_a_woman_and_a_man_marry() {
    let mut registry = Registry::new();
    let w1 = registry.spawn(adult(Sex::Female));
    let w2 = registry.spawn(adult(Sex::Female));
    let m1 = registry.spawn(adult(Sex::Male));
    let m2 = registry.spawn(adult(Sex::Male));
    assert!(!registry.marry(w1, w2));
    assert!(!registry.marry(m1, m2));
    assert_eq!(registry.get(w1).unwrap().spouse, None);
    assert_eq!(registry.get(m2).unwrap().spouse, None);
    assert!(registry.marry(m1, w2));
    assert_eq!(registry.get(m1).unwrap().spouse, Some(w2));
    assert_eq!(registry.get(w2).unwrap().spouse, Some(m1));
}

#[test]
fn amending_keeps_the_sex() {
    let mut registry = Registry::new();
    let w = registry.spawn(adult(Sex::Female));
    let m = registry.spawn(adult(Sex::Male));
    registry.marry(w, m);
    let mut record = adult(Sex::Male);
    record.children_had = 2;
    registry.amend(w, record);
    let stored = registry.get(w).unwrap();
    assert_eq!(stored.sex, Sex::Female);
    assert_eq!(stored.children_had, 2);
    assert_eq!(stored.spouse, Some(m));
}
