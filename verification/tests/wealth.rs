use third_life::time::Date;
use third_life::worlds::config::{GovernmentConfig, StartingDate};
use third_life::worlds::env_and_infra::components::{
    ColonyInfraAndEnvBundle, SanitationInfrastructure,
};
use third_life::worlds::population::components::{Citizen, Job, Sex};
use third_life::worlds::population::registry::Registry;
use third_life::worlds::wealth::calculate_wealth;
use third_life::worlds::wealth::components::{SpendingPolicy, WealthAndSpending};

#[test]
fn the_default_government_pays_a_tenth_and_spends_in_quarters() {
    let config = GovernmentConfig::def_conf();
    assert_eq!(config.citizen_payout, 100);
    let books = WealthAndSpending::new(config);
    assert_eq!(books.total_wealth, 0);
    assert_eq!(books.spending_available, 0);
    assert_eq!(books.citizen_payout, 100);
    assert_eq!(
        books.policy,
        SpendingPolicy {
            civil_spending: 25,
            sanitation_spending: 25,
            social_spending: 25,
            environmental_spending: 25,
        }
    );
    assert_eq!(StartingDate::def_conf(), StartingDate { day: 1, month: 1, year: 2050 });
}

#[test]
fn what_is_left_is_the_wealth_less_the_payout() {
    let mut books = WealthAndSpending::new(GovernmentConfig::def_conf());
    books.calc(40, 1000);
    assert_eq!(books.total_wealth, 40);
    assert_eq!(books.spending_available, 40_000 - 100_000);
    books.calc(400, 1000);
    assert_eq!(books.spending_available, 300_000);
    assert_eq!(books.total_sanitation_spending(), Some(7_500_000));
    assert_eq!(books.total_civil_spending(), Some(7_500_000));
    assert_eq!(books.total_social_spending(), Some(7_500_000));
    assert_eq!(books.total_environmental_spending(), Some(7_500_000));
}

#[test]
fn the_shares_follow_the_policy() {
    let mut books = WealthAndSpending::new(GovernmentConfig {
        citizen_payout: 0,
        civil_spending: 10,
        sanitation_spending: 20,
        social_spending: 30,
        environmental_spending: 40,
    });
    books.calc(3, 0);
    assert_eq!(books.total_civil_spending(), Some(30_000));
    assert_eq!(books.total_sanitation_spending(), Some(60_000));
    assert_eq!(books.total_social_spending(), Some(90_000));
    assert_eq!(books.total_environmental_spending(), Some(120_000));
    books.spending_available = i128::MAX;
    assert_eq!(books.total_civil_spending(), None);
    books.spending_available = -3000;
    assert_eq!(books.total_sanitation_spending(), Some(-60_000));
}

#[test]
fn the_books_count_the_employed_and_the_living() {
    let mut registry = Registry::new();
    let birthday = Date { days: 740_000 };
    for k in 0..10 {
        let mut record = Citizen::new(birthday, Sex::Male, 30);
        if k < 4 {
            record.job = Some(Job::WheatFarmer { farm: 0 });
        }
        registry.spawn(record);
    }
    registry.bury(0);
    registry.bury(9);
    let mut books = WealthAndSpending::new(GovernmentConfig::def_conf());
    calculate_wealth(&registry, &mut books);
    assert_eq!(books.total_wealth, 3);
    assert_eq!(books.spending_available, 3000 - 800);
}

#[test]
fn the_infrastructure_takes_over_the_figures_of_the_day() {
    let mut bundle = ColonyInfraAndEnvBundle::new();
    assert_eq!(bundle.sanitation.live_birth_mortality_rate, 0);
    bundle.sanitation.update(68_607, 9_230_000);
    assert_eq!(
        bundle.sanitation,
        SanitationInfrastructure { health_index_score: 68_607, live_birth_mortality_rate: 9_230_000 }
    );
}
