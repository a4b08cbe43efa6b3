//! Colonies and what lives in them.
//!
//! A day in a colony runs in a fixed order: birthdays and the cohorts that follow from
//! them, couples, ovulation, miscarriage, conception and birth, the daily meal, death and
//! widowhood, the farms and the kitchen, the books, and at last the census. The meal comes
//! before death so that hunger kills on the day it passes the limit.

pub mod config;
pub mod env_and_infra;
pub mod food;
pub mod population;
pub mod ui;
pub mod wealth;

use self::config::{FoodConfig, GovernmentConfig};
use self::env_and_infra::components::ColonyInfraAndEnvBundle;
use self::food::components::{
    CarbResource, CowFarm, FoodEconomy, FoodResource, MeatResource, WheatFarm,
};
use self::food::cow_farming::{
    breed_cows, check_cow_farm_workers, get_cow_farm_workers, mark_breeders, work_cow_farm,
};
use self::food::events::{CarbCreated, Cooked};
use self::food::wheat_farming::{
    check_farm_workers, get_farm_workers, season_check_wheat, work_farm,
};
use self::food::{cook_food, init_food};
use self::population::components::{Citizen, Population};
use self::population::dying::{
    infant_mortality, lemma_thinned_keeps_partners, old_age_death, starvation,
};
use self::population::events::{CitizenBirthday, CitizenCreated, CitizenDied, DeathReason};
use self::population::food_consumption::consume;
use self::population::giving_birth::{
    citizen_births, end_ovulation, init_miscarriage, init_ovulation, init_pregnancies,
};
use self::population::registry::{
    alive, lemma_partners_kept_on, lemma_same_people_none_returned,
    lemma_same_people_same_count, living, partner_of, same_people, settled, Registry,
};
use self::population::relationships::{create_widowed, init_couples};
use self::population::{
    census, check_birthdays, come_of_age, init_citizens, retirement, update_population, SeedError,
};
use self::wealth::components::WealthAndSpending;
use self::wealth::{calculate_wealth, employed};
use crate::time::{opens_month, update_date, Date, DateChanged, GameDate, MonthChanged};
use vstd::prelude::*;

verus! {

/// One colony: its people, its farms and stores, its books and what it has built.
pub struct WorldColony {
    pub name: String,
    pub registry: Registry,
    pub economy: FoodEconomy,
    pub wealth: WealthAndSpending,
    pub infra_and_env: ColonyInfraAndEnvBundle,
    pub population: Population,
    /// The daily chance of death from old age in billionths, for age 0, age 1 and so on.
    pub old_age_curve: Vec<u32>,
}

/// What happened in a colony in a day.
pub struct ColonyReport {
    pub birthdays: Vec<CitizenBirthday>,
    pub created: Vec<CitizenCreated>,
    pub died: Vec<CitizenDied>,
    pub carb_created: Vec<CarbCreated>,
    pub cooked: Option<Cooked>,
}

/// What happened in the world in a day.
pub struct TickReport {
    pub date_changed: DateChanged,
    pub month_changed: Option<MonthChanged>,
    /// One report for each colony, in the order of the colonies.
    pub colonies: Vec<ColonyReport>,
}

/// The calendar and the colonies.
pub struct World {
    pub game_date: GameDate,
    pub colonies: Vec<WorldColony>,
}

/// Whoever had a partner in the morning, lives on in the evening and has lost that partner
/// is marked as widowed and names no partner.
pub open spec fn mourned(morning: Seq<Option<Citizen>>, evening: Seq<Option<Citizen>>) -> bool {
    forall|i: int|
        0 <= i < morning.len() && i < evening.len() && #[trigger] partner_of(morning, i) >= 0
            && evening[i] is Some && !alive(evening, partner_of(morning, i))
            ==> evening[i]->0.widowed && evening[i]->0.spouse is None
}

/// What holds of a colony after a day on `date`, whatever was rolled: nobody is paired with
/// the dead, and who lost a partner is widowed; the living are those of the morning, plus
/// the births reported, less the deaths reported; the birthdays reported are those of the
/// morning's citizens; the census and the books are those of the evening; and the colony has
/// the farms, the name and the curve of mortality that it had. The food store has lost the
/// meals of all who lived at meal time, the newborn included, and gained what was cooked.
pub open spec fn day_passed(
    before: WorldColony,
    after: WorldColony,
    report: ColonyReport,
    date: Date,
) -> bool {
    &&& settled(after.registry@)
    &&& mourned(before.registry@, after.registry@)
    &&& after.registry@.len() == before.registry@.len() + report.created.len()
    &&& living(after.registry@) + report.died.len() == living(before.registry@)
        + report.created.len()
    &&& after.population == census(after.registry@, date)
    &&& after.wealth == before.wealth.calculated(
        employed(after.registry@),
        living(after.registry@),
    )
    &&& after.economy.wheat_farms.len() == before.economy.wheat_farms.len()
    &&& after.economy.cow_farms.len() == before.economy.cow_farms.len()
    &&& after.name == before.name
    &&& after.old_age_curve == before.old_age_curve
    &&& after.infra_and_env == before.infra_and_env
    &&& report.birthdays@ == population::birthdays(
        before.registry@,
        date,
        before.registry@.len() as int,
    )
    &&& after.economy.food.amount == food::components::topped_up(
        (before.economy.food.amount - population::food_consumption::meals(
            before.economy.food.amount as int,
            living(before.registry@) + report.created.len(),
        )) as u64,
        if report.cooked is Some {
            food::components::COOKING_BATCH as int
        } else {
            0
        },
    )
}

/// The states that a colony passes through in a day, between its steps.
pub struct DayTrace {
    /// The registry after the young came of age, after the old retired, after couples
    /// were formed, after ovulations were scheduled and ended, after miscarriages,
    /// conceptions and births, and after the meal.
    pub grown: Seq<Option<Citizen>>,
    pub retired: Seq<Option<Citizen>>,
    pub paired: Seq<Option<Citizen>>,
    pub scheduled: Seq<Option<Citizen>>,
    pub ended: Seq<Option<Citizen>>,
    pub miscarried: Seq<Option<Citizen>>,
    pub conceived: Seq<Option<Citizen>>,
    pub born: Seq<Option<Citizen>>,
    pub fed: Seq<Option<Citizen>>,
    /// The registry after each cause of death, and the deaths of each cause.
    pub after_old_age: Seq<Option<Citizen>>,
    pub after_hunger: Seq<Option<Citizen>>,
    pub after_infancy: Seq<Option<Citizen>>,
    pub died_of_old_age: Seq<CitizenDied>,
    pub starved: Seq<CitizenDied>,
    pub died_as_infants: Seq<CitizenDied>,
    /// The registry after the bereaved were widowed, and after the wheat farms hired.
    pub widowed: Seq<Option<Citizen>>,
    pub wheat_hired: Seq<Option<Citizen>>,
    /// The wheat farms after the look at the season, and the cow farms after breeders were
    /// marked and after the herds calved.
    pub seasoned: Seq<WheatFarm>,
    pub marked: Seq<CowFarm>,
    pub calved: Seq<CowFarm>,
    /// The stores before the kitchen ran.
    pub larder: (FoodResource, CarbResource, MeatResource),
}

/// Whether a colony went from `before` to `after` by the steps of a day on `date`, in their
/// order, through the states of `trace`. Each line is one step, stated by what that step's
/// own function promises. Steps that roll dice are stated for some rolls within their ranges.
pub open spec fn day_ran(
    before: WorldColony,
    after: WorldColony,
    report: ColonyReport,
    colony: usize,
    date: Date,
    month_changed: bool,
    trace: DayTrace,
) -> bool {
    let morning = before.registry@;
    let wheat_farms = before.economy.wheat_farms.len();
    let cow_farms = before.economy.cow_farms.len();
    &&& report.birthdays@ == population::birthdays(morning, date, morning.len() as int)
    &&& trace.grown == population::after_coming_of_age(
        morning,
        report.birthdays@,
        report.birthdays.len() as int,
    )
    &&& trace.retired == population::after_retirement(
        trace.grown,
        report.birthdays@,
        report.birthdays.len() as int,
    )
    &&& trace.paired == population::relationships::with_couples(trace.retired, date)
    &&& if month_changed {
        population::giving_birth::ovulations_scheduled(trace.paired, trace.scheduled, date)
    } else {
        trace.scheduled == trace.paired
    }
    &&& trace.ended == population::giving_birth::with_ovulations_ended(trace.scheduled, date)
    &&& if month_changed {
        population::giving_birth::miscarriages_rolled(trace.ended, trace.miscarried, date)
    } else {
        trace.miscarried == trace.ended
    }
    &&& population::giving_birth::pregnancies_begun(trace.miscarried, trace.conceived, date)
    &&& population::giving_birth::births_given(trace.conceived, trace.born, date)
    &&& report.created@ == population::giving_birth::birth_notices(
        colony,
        trace.conceived.len(),
        (trace.born.len() - trace.conceived.len()) as nat,
    )
    &&& trace.fed == population::food_consumption::after_meal(
        trace.born,
        before.economy.food.amount as int,
    )
    &&& trace.larder.0.amount == before.economy.food.amount
        - population::food_consumption::meals(
        before.economy.food.amount as int,
        living(trace.born) as int,
    )
    &&& population::dying::old_age_took(
        trace.fed,
        trace.after_old_age,
        date,
        before.old_age_curve@,
    )
    &&& population::dying::reported(
        trace.fed,
        trace.after_old_age,
        trace.died_of_old_age,
        colony,
        DeathReason::OldAge,
    )
    &&& trace.after_hunger == population::dying::struck(
        trace.after_old_age,
        population::dying::starvation_marks(trace.after_old_age),
    )
    &&& population::dying::reported(
        trace.after_old_age,
        trace.after_hunger,
        trace.starved,
        colony,
        DeathReason::Starvation,
    )
    &&& population::dying::infancy_took(
        trace.after_hunger,
        trace.after_infancy,
        date,
        before.infra_and_env.sanitation.live_birth_mortality_rate,
    )
    &&& population::dying::reported(
        trace.after_hunger,
        trace.after_infancy,
        trace.died_as_infants,
        colony,
        DeathReason::InfantDeath,
    )
    &&& report.died@ == trace.died_of_old_age + trace.starved + trace.died_as_infants
    &&& trace.widowed == population::relationships::with_widows(trace.after_infancy)
    &&& trace.seasoned == food::wheat_farming::in_season(before.economy.wheat_farms@, date)
    &&& food::cow_farming::breeders_marked(before.economy.cow_farms@, trace.marked)
    &&& food::cow_farming::herds_calved(trace.marked, trace.calved, date)
    &&& trace.wheat_hired == food::with_jobs(
        trace.widowed,
        food::wheat_farming::wheat_jobs(
            food::wheat_farming::wheat_requests(trace.widowed, colony, wheat_farms as nat),
        ),
    )
    &&& after.economy.wheat_farms@ == food::wheat_farming::worked_by(
        trace.seasoned,
        trace.wheat_hired,
    )
    &&& report.carb_created@ == food::wheat_farming::harvest_notices(
        trace.seasoned,
        trace.wheat_hired,
        colony,
        wheat_farms as int,
    )
    &&& trace.larder.1.amount == food::components::topped_up(
        before.economy.carb.amount,
        food::components::CARB_PER_TENTH_HECTARE * food::wheat_farming::harvest(
            trace.seasoned,
            trace.wheat_hired,
            wheat_farms as int,
        ),
    )
    &&& after.registry@ == food::with_jobs(
        trace.wheat_hired,
        food::cow_farming::cow_jobs(
            food::cow_farming::cow_requests(trace.wheat_hired, colony, cow_farms as nat),
        ),
    )
    &&& food::cow_farming::herds_culled(
        trace.calved,
        after.economy.cow_farms@,
        after.registry@,
        date,
    )
    &&& trace.larder.2.amount == food::components::topped_up(
        before.economy.meat.amount,
        food::components::MEAT_PER_COW * food::cow_farming::total_culled(
            trace.calved,
            after.registry@,
            date,
            cow_farms as int,
        ),
    )
    &&& food::kitchen_ran(
        trace.larder,
        (after.economy.food, after.economy.carb, after.economy.meat),
        colony,
        report.cooked,
    )
    &&& after.wealth == before.wealth.calculated(
        employed(after.registry@),
        living(after.registry@),
    )
    &&& after.population == census(after.registry@, date)
    &&& after.name == before.name
    &&& after.old_age_curve == before.old_age_curve
    &&& after.infra_and_env == before.infra_and_env
}

/// Whether a colony went from `before` to `after` by the steps of a day: see [`day_ran`].
pub open spec fn day_of_steps(
    before: WorldColony,
    after: WorldColony,
    report: ColonyReport,
    colony: usize,
    date: Date,
    month_changed: bool,
) -> bool {
    exists|trace: DayTrace| #[trigger]
        day_ran(before, after, report, colony, date, month_changed, trace)
}

/// What holds of a colony founded on `date`: nobody lives there yet, the farms and stores
/// are as the configuration asks, and nothing is earned or built.
pub open spec fn newly_founded(
    colony: WorldColony,
    name: String,
    date: Date,
    food: FoodConfig,
    government: GovernmentConfig,
    old_age_curve: Vec<u32>,
) -> bool {
    &&& colony.name == name
    &&& colony.registry@.len() == 0
    &&& colony.old_age_curve == old_age_curve
    &&& colony.wealth == WealthAndSpending::new_spec(government)
    &&& food::founded(colony.economy, date, food)
    &&& colony.population == census(colony.registry@, date)
    &&& colony.infra_and_env.sanitation.live_birth_mortality_rate == 0
    &&& colony.infra_and_env.sanitation.health_index_score == 0
}

impl WorldColony {
    /// Founds a colony on `date`: nobody lives there yet, the farms and stores are as the
    /// configuration asks, and nothing is earned or built.
    pub fn new(
        name: String,
        date: Date,
        food: &FoodConfig,
        government: GovernmentConfig,
        old_age_curve: Vec<u32>,
    ) -> (colony: WorldColony)
        ensures
            newly_founded(colony, name, date, *food, government, old_age_curve),
    {
        let registry = Registry::new();
        let population = update_population(&registry, date);
        WorldColony {
            name,
            registry,
            economy: init_food(date, food),
            wealth: WealthAndSpending::new(government),
            infra_and_env: ColonyInfraAndEnvBundle::new(),
            population,
            old_age_curve,
        }
    }

    /// Runs one day in the colony. `colony` is the colony's number in the world, `date` the
    /// day that has begun, `month_changed` whether it opens a month.
    #[verifier::rlimit(40)]
    pub fn day(&mut self, colony: usize, date: Date, month_changed: bool) -> (report: ColonyReport)
        ensures
            day_passed(*old(self), *final(self), report, date),
            day_of_steps(*old(self), *final(self), report, colony, date, month_changed),
    {
        let ghost morning = self.registry@;
        let birthdays = check_birthdays(&self.registry, date);
        come_of_age(&mut self.registry, &birthdays);
        let ghost s1 = self.registry@;
        retirement(&mut self.registry, &birthdays);
        let ghost s2 = self.registry@;
        init_couples(&mut self.registry, date);
        let ghost s3 = self.registry@;
        if month_changed {
            init_ovulation(&mut self.registry, date);
        }
        let ghost s4 = self.registry@;
        end_ovulation(&mut self.registry, date);
        let ghost s5 = self.registry@;
        if month_changed {
            init_miscarriage(&mut self.registry, date);
        }
        let ghost s6 = self.registry@;
        init_pregnancies(&mut self.registry, date);
        let ghost s7 = self.registry@;
        proof {
            lemma_same_people_same_count(morning, s1);
            lemma_same_people_same_count(s1, s2);
            lemma_same_people_same_count(s2, s3);
            lemma_same_people_same_count(s3, s4);
            lemma_same_people_same_count(s4, s5);
            lemma_same_people_same_count(s5, s6);
            lemma_same_people_same_count(s6, s7);
            lemma_same_people_none_returned(morning, s1);
            lemma_same_people_none_returned(s1, s2);
            lemma_same_people_none_returned(s2, s3);
            lemma_same_people_none_returned(s3, s4);
            lemma_same_people_none_returned(s4, s5);
            lemma_same_people_none_returned(s5, s6);
            lemma_same_people_none_returned(s6, s7);
            lemma_partners_kept_on(morning, s1, s2);
            lemma_partners_kept_on(morning, s2, s3);
            lemma_partners_kept_on(morning, s3, s4);
            lemma_partners_kept_on(morning, s4, s5);
            lemma_partners_kept_on(morning, s5, s6);
            lemma_partners_kept_on(morning, s6, s7);
        }
        let created = citizen_births(&mut self.registry, date, colony);
        let ghost s8 = self.registry@;
        consume(&mut self.registry, &mut self.economy.food);
        let ghost s9 = self.registry@;
        proof {
            lemma_same_people_same_count(s8, s9);
            lemma_same_people_none_returned(s8, s9);
            lemma_partners_kept_on(morning, s7, s8);
            lemma_partners_kept_on(morning, s8, s9);
        }
        let mut died = old_age_death(&mut self.registry, date, colony, &self.old_age_curve);
        let ghost after_old_age = self.registry@;
        let mut starved = starvation(&mut self.registry, colony);
        let ghost after_hunger = self.registry@;
        let mut infants = infant_mortality(
            &mut self.registry,
            date,
            colony,
            self.infra_and_env.sanitation.live_birth_mortality_rate,
        );
        let ghost died_of_old_age = died@;
        let ghost died_of_hunger = starved@;
        let ghost died_as_infants = infants@;
        died.append(&mut starved);
        died.append(&mut infants);
        let ghost s10 = self.registry@;
        proof {
            lemma_thinned_keeps_partners(s9, after_old_age);
            lemma_thinned_keeps_partners(after_old_age, after_hunger);
            lemma_thinned_keeps_partners(after_hunger, s10);
            lemma_partners_kept_on(morning, s9, after_old_age);
            lemma_partners_kept_on(morning, after_old_age, after_hunger);
            lemma_partners_kept_on(morning, after_hunger, s10);
        }
        create_widowed(&mut self.registry);
        let ghost s11 = self.registry@;
        proof {
            lemma_same_people_same_count(s10, s11);
        }
        season_check_wheat(&mut self.economy.wheat_farms, date);
        let ghost seasoned = self.economy.wheat_farms@;
        mark_breeders(&mut self.economy.cow_farms);
        let ghost marked = self.economy.cow_farms@;
        breed_cows(&mut self.economy.cow_farms, date);
        let ghost calved = self.economy.cow_farms@;
        let wheat_requests = check_farm_workers(
            colony,
            self.economy.wheat_farms.len(),
            &self.registry,
        );
        get_farm_workers(&mut self.registry, &wheat_requests);
        let ghost s12 = self.registry@;
        let carb_created = work_farm(
            &mut self.economy.wheat_farms,
            &self.registry,
            colony,
            &mut self.economy.carb,
        );
        let cow_requests = check_cow_farm_workers(
            colony,
            self.economy.cow_farms.len(),
            &self.registry,
        );
        get_cow_farm_workers(&mut self.registry, &cow_requests);
        let ghost s13 = self.registry@;
        work_cow_farm(&mut self.economy.cow_farms, &self.registry, date, &mut self.economy.meat);
        let ghost larder = (self.economy.food, self.economy.carb, self.economy.meat);
        let cooked = cook_food(
            colony,
            &mut self.economy.food,
            &mut self.economy.carb,
            &mut self.economy.meat,
        );
        calculate_wealth(&self.registry, &mut self.wealth);
        self.population = update_population(&self.registry, date);
        proof {
            lemma_same_people_same_count(s11, s12);
            lemma_same_people_same_count(s12, s13);
            lemma_settled_survives(s11, s12);
            lemma_settled_survives(s12, s13);
            assert forall|i: int|
                0 <= i < morning.len() && i < s13.len() && #[trigger] partner_of(morning, i) >= 0
                    && s13[i] is Some && !alive(s13, partner_of(morning, i)) implies s13[i]->0.widowed
                && s13[i]->0.spouse is None by {
                let p = partner_of(morning, i);
                assert(s12[i] is Some == s13[i] is Some);
                assert(s11[i] is Some == s12[i] is Some);
                assert(s10[i] is Some == s11[i] is Some);
                assert(morning[i] is Some);
                assert(s10[i]->0.spouse == morning[i]->0.spouse);
                assert(partner_of(s10, i) == p);
                if 0 <= p < s10.len() {
                    assert(s12[p] is Some == s13[p] is Some);
                    assert(s11[p] is Some == s12[p] is Some);
                    assert(s10[p] is Some == s11[p] is Some);
                }
                assert(Registry::bereaved(s10, i));
                assert(s11[i] == Some(population::relationships::widowed(s10[i]->0)));
                assert(s12[i]->0.widowed && s12[i]->0.spouse is None);
            }
        }
        let report = ColonyReport { birthdays, created, died, carb_created, cooked };
        proof {
            let trace = DayTrace {
                grown: s1,
                retired: s2,
                paired: s3,
                scheduled: s4,
                ended: s5,
                miscarried: s6,
                conceived: s7,
                born: s8,
                fed: s9,
                after_old_age,
                after_hunger,
                after_infancy: s10,
                died_of_old_age,
                starved: died_of_hunger,
                died_as_infants,
                widowed: s11,
                wheat_hired: s12,
                seasoned,
                marked,
                calved,
                larder,
            };
            assert(day_ran(*old(self), *self, report, colony, date, month_changed, trace));
        }
        report
    }
}

/// A registry that was settled stays so where nobody joins or leaves and everybody keeps
/// partner and sex.
pub proof fn lemma_settled_survives(before: Seq<Option<Citizen>>, after: Seq<Option<Citizen>>)
    requires
        settled(before),
        same_people(before, after),
        forall|i: int|
            0 <= i < before.len() && before[i] is Some ==> (#[trigger] after[i])->0.spouse
                == before[i]->0.spouse && after[i]->0.sex == before[i]->0.sex,
    ensures
        settled(after),
{
    assert forall|i: int| #[trigger]
        population::registry::partner_of(after, i) >= 0 implies ({
        let j = population::registry::partner_of(after, i);
        &&& j != i
        &&& j < after.len()
        &&& (after[j] is Some ==> population::registry::partner_of(after, j) == i && after[j]->0.sex
            != after[i]->0.sex)
        &&& population::registry::alive(after, j)
    }) by {
        assert(after[i] is Some == before[i] is Some);
        assert(population::registry::partner_of(before, i) >= 0);
        let j = population::registry::partner_of(before, i);
        assert(after[j] is Some == before[j] is Some);
        assert(population::registry::partner_of(before, j) == i);
    }
}

impl World {
    /// A world without colonies, on the given day.
    pub fn new(date: Date) -> (world: World)
        ensures
            world.game_date.date == date,
            world.colonies.len() == 0,
    {
        World { game_date: GameDate { date }, colonies: Vec::new() }
    }

    /// Adds a colony and returns its number.
    pub fn init_colony(
        &mut self,
        name: String,
        food: &FoodConfig,
        government: GovernmentConfig,
        old_age_curve: Vec<u32>,
    ) -> (colony: usize)
        ensures
            colony == old(self).colonies.len(),
            final(self).game_date == old(self).game_date,
            final(self).colonies.len() == old(self).colonies.len() + 1,
            forall|i: int|
                0 <= i < old(self).colonies.len() ==> #[trigger] final(self).colonies[i] == old(self).colonies[i],
            newly_founded(
                final(self).colonies[colony as int],
                name,
                old(self).game_date.date,
                *food,
                government,
                old_age_curve,
            ),
    {
        let colony = self.colonies.len();
        let founded = WorldColony::new(name, self.game_date.date, food, government, old_age_curve);
        self.colonies.push(founded);
        colony
    }

    /// Peoples a colony with one citizen for each age in `ages`: see
    /// [`population::init_citizens`], whose outcome this is for a colony of the world. It
    /// succeeds wherever the day lies on the calendar and every age is less than the year of
    /// the day. An unknown colony gets nobody.
    pub fn init_citizens(&mut self, colony: usize, ages: &Vec<u32>) -> (result: Result<
        Vec<CitizenCreated>,
        SeedError,
    >)
        ensures
            final(self).game_date == old(self).game_date,
            final(self).colonies.len() == old(self).colonies.len(),
            forall|i: int|
                0 <= i < old(self).colonies.len() && i != colony ==> #[trigger] final(self).colonies[i] == old(self).colonies[i],
            colony >= old(self).colonies.len() ==> result is Ok && result->Ok_0@.len() == 0,
            colony < old(self).colonies.len() ==> population::seeding_rolled(
                old(self).colonies[colony as int].registry@,
                final(self).colonies[colony as int].registry@,
                result,
                old(self).game_date.date,
                colony,
                ages@,
            ),
            population::born_on_calendar(old(self).game_date.date, ages@) ==> result is Ok,
            ages.len() == 0 ==> result is Ok,
            colony < old(self).colonies.len() && ages.len() > 0 && !old(self).game_date.date.valid() ==> result == Err::<Vec<CitizenCreated>, SeedError>(
                SeedError::OffCalendar { newcomer: 0 },
            ),
            colony < old(self).colonies.len() ==> {
                let before = old(self).colonies[colony as int];
                let after = final(self).colonies[colony as int];
                &&& after.name == before.name
                &&& after.wealth == before.wealth
                &&& after.old_age_curve == before.old_age_curve
                &&& after.infra_and_env == before.infra_and_env
                &&& after.economy == before.economy
            },
            colony < old(self).colonies.len() && result is Ok ==> {
                let before = old(self).colonies[colony as int];
                let after = final(self).colonies[colony as int];
                &&& population::seeded(
                    before.registry@,
                    after.registry@,
                    old(self).game_date.date,
                    ages@,
                )
                &&& result->Ok_0@ == population::arrivals(colony, before.registry@.len(), ages@)
                &&& living(after.registry@) == living(before.registry@) + ages.len()
            },
            colony < old(self).colonies.len() ==> final(self).colonies[colony as int].population
                == census(final(self).colonies[colony as int].registry@, old(self).game_date.date),
            colony < old(self).colonies.len() && result is Err ==> final(self).colonies[colony as int].registry@ == old(self).colonies[colony as int].registry@,
    {
        if colony >= self.colonies.len() {
            return Ok(Vec::new());
        }
        let date = self.game_date.date;
        let place = &mut self.colonies[colony];
        let result = init_citizens(&mut place.registry, date, colony, ages);
        place.population = update_population(&place.registry, date);
        result
    }

    /// Runs one day in the world: the calendar moves on by a day, and every colony lives
    /// through it. Past 9999-12-31 the days count on, but the calendar knows no months,
    /// birthdays or ages there. Reports the new day, whether it opens a month, and what happened in each
    /// colony.
    pub fn tick(&mut self) -> (report: TickReport)
        requires
            old(self).game_date.date.days < i32::MAX,
        ensures
            final(self).game_date.date.days == old(self).game_date.date.days + 1,
            report.date_changed.date == final(self).game_date.date,
            report.month_changed is Some <==> opens_month(final(self).game_date.date),
            final(self).colonies.len() == old(self).colonies.len(),
            report.colonies.len() == old(self).colonies.len(),
            forall|i: int|
                0 <= i < old(self).colonies.len() ==> day_passed(
                    old(self).colonies[i],
                    #[trigger] final(self).colonies[i],
                    report.colonies[i],
                    final(self).game_date.date,
                ) && day_of_steps(
                    old(self).colonies[i],
                    final(self).colonies[i],
                    report.colonies[i],
                    i as usize,
                    final(self).game_date.date,
                    opens_month(final(self).game_date.date),
                ),
    {
        let (date_changed, month_changed) = update_date(&mut self.game_date);
        let date = self.game_date.date;
        let opens = month_changed.is_some();
        let mut reports: Vec<ColonyReport> = Vec::new();
        let n = self.colonies.len();
        let mut i: usize = 0;
        while i < n
            invariant
                i <= n,
                n == old(self).colonies.len(),
                self.colonies.len() == n,
                self.game_date.date == date,
                reports.len() == i,
                opens == opens_month(date),
                forall|j: int|
                    0 <= j < i ==> day_passed(
                        old(self).colonies[j],
                        #[trigger] self.colonies[j],
                        reports[j],
                        date,
                    ) && day_of_steps(
                        old(self).colonies[j],
                        self.colonies[j],
                        reports[j],
                        j as usize,
                        date,
                        opens,
                    ),
                forall|j: int| i <= j < n ==> #[trigger] self.colonies[j] == old(self).colonies[j],
            decreases n - i,
        {
            let report = self.colonies[i].day(i, date, opens);
            reports.push(report);
            i = i + 1;
        }
        TickReport { date_changed, month_changed, colonies: reports }
    }
}

} // verus!
