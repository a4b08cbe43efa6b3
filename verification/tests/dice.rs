use third_life::common::utils::{
    marked_positions, percentage_chance, roll_at, roll_chance, roll_succeeds, uniform,
    uniform_many,
};

#[test]
fn a_roll_stays_within_its_range() {
    for _ in 0..1000 {
        let n = uniform(5, 20);
        assert!((5..=20).contains(&n));
    }
    assert_eq!(uniform(7, 7), 7);
    assert_eq!(uniform(9, 3), 9);
}

#[test]
fn a_roll_is_not_always_the_lower_bound() {
    let rolls = uniform_many(2000, 0, 100);
    assert_eq!(rolls.len(), 2000);
    assert!(rolls.iter().all(|roll| *roll <= 100));
    assert!(rolls.iter().any(|roll| *roll != 0));
    assert!(rolls.iter().any(|roll| *roll > 50));
    assert!(rolls.iter().any(|roll| *roll <= 50));
}

#[test]
fn a_chance_of_zero_never_succeeds() {
    assert!(!roll_succeeds(0, 0));
    assert!(!roll_succeeds(0, 100));
    for _ in 0..200 {
        assert!(!roll_chance(0));
    }
}

#[test]
fn a_roll_succeeds_up_to_the_chance() {
    assert!(roll_succeeds(50, 0));
    assert!(roll_succeeds(50, 50));
    assert!(!roll_succeeds(50, 51));
    assert!(roll_succeeds(100, 100));
    assert!(roll_succeeds(255, 100));
    assert!(!roll_succeeds(17, 18));
}

#[test]
fn a_full_chance_always_succeeds() {
    for _ in 0..200 {
        assert!(roll_chance(100));
        assert!(percentage_chance(100));
    }
}

#[test]
fn a_missing_roll_counts_as_zero() {
    let rolls = vec![4, 5, 6];
    assert_eq!(roll_at(&rolls, 0), 4);
    assert_eq!(roll_at(&rolls, 2), 6);
    assert_eq!(roll_at(&rolls, 3), 0);
}

#[test]
fn marked_positions_rise() {
    assert_eq!(marked_positions(&vec![false, true, true, false, true]), vec![1, 2, 4]);
    assert_eq!(marked_positions(&vec![false, false]), Vec::<usize>::new());
    assert_eq!(marked_positions(&vec![]), Vec::<usize>::new());
}
