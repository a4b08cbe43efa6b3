//! Ovulation, conception, miscarriage and birth.

use super::components::{Citizen, Ovulation, Pregnancy, Reproduction, Sex};
use super::events::CitizenCreated;
use super::registry::{
    living, lemma_living_push, lemma_living_update, none_returned, partners_kept, same_people,
    Registry,
};
use super::sex_of_roll;
use crate::common::utils::{chance_met, roll_at, roll_succeeds, rolled, uniform, uniform_many};
use crate::time::Date;
use vstd::prelude::*;

verus! {

/// Days from the scheduling of an ovulation to its start: at least and at most.
pub const OVULATION_DELAY_MIN: u32 = 5;

pub const OVULATION_DELAY_MAX: u32 = 20;

/// Days an ovulation lasts: at least and at most.
pub const OVULATION_LENGTH_MIN: u32 = 5;

pub const OVULATION_LENGTH_MAX: u32 = 6;

/// Days a pregnancy lasts: at least and at most.
pub const TERM_MIN: u32 = 270;

pub const TERM_MAX: u32 = 280;

/// The largest value of a social factor, which stands for one.
pub const FACTOR_ONE: u32 = 1000;

/// The coefficients of the fertility curve, highest power first, in units of 10^-13.
pub const FERTILITY_A4: i128 = -5_893_368_566;

pub const FERTILITY_A3: i128 = 730_945_581_099;

pub const FERTILITY_A2: i128 = -33_813_849_411_076;

pub const FERTILITY_A1: i128 = 669_045_283_731_580;

pub const FERTILITY_A0: i128 = -3_906_749_280_259_455;

pub const FERTILITY_UNIT: i128 = 10_000_000_000_000;

/// The value of the fertility curve at an age, in units of 10^-13 percent: a polynomial of
/// degree four in the age.
pub open spec fn fertility_curve(age: int) -> int {
    FERTILITY_A4 * (age * age * age * age) + FERTILITY_A3 * (age * age * age) + FERTILITY_A2 * (age
        * age) + FERTILITY_A1 * age + FERTILITY_A0
}

/// The chance in percent that a woman of the given age can conceive on a day: the fertility
/// curve in whole percent, held between 0 and 255.
pub open spec fn fertility_percent(age: u8) -> u8 {
    if fertility_curve(age as int) < 0 {
        0
    } else if fertility_curve(age as int) / (FERTILITY_UNIT as int) > 255 {
        255
    } else {
        (fertility_curve(age as int) / (FERTILITY_UNIT as int)) as u8
    }
}

/// Computes [`fertility_percent`].
pub fn fertility_chance(age: u8) -> (percent: u8)
    ensures
        percent == fertility_percent(age),
{
    let a: i128 = age as i128;
    assert(0 <= a * a <= 65025) by (nonlinear_arith)
        requires
            0 <= a <= 255,
    ;
    let a2: i128 = a * a;
    assert(0 <= a2 * a <= 16581375) by (nonlinear_arith)
        requires
            0 <= a2 <= 65025,
            0 <= a <= 255,
    ;
    let a3: i128 = a2 * a;
    assert(0 <= a3 * a <= 4228250625) by (nonlinear_arith)
        requires
            0 <= a3 <= 16581375,
            0 <= a <= 255,
    ;
    let a4: i128 = a3 * a;
    assert(a2 == age * age);
    assert(a3 == age * age * age);
    assert(a4 == age * age * age * age);
    assert(-25_000_000_000_000_000_000 <= FERTILITY_A4 * a4 <= 0) by (nonlinear_arith)
        requires
            0 <= a4 <= 4228250625,
    ;
    assert(0 <= FERTILITY_A3 * a3 <= 13_000_000_000_000_000_000) by (nonlinear_arith)
        requires
            0 <= a3 <= 16581375,
    ;
    assert(-2_300_000_000_000_000_000 <= FERTILITY_A2 * a2 <= 0) by (nonlinear_arith)
        requires
            0 <= a2 <= 65025,
    ;
    assert(0 <= FERTILITY_A1 * a <= 180_000_000_000_000_000) by (nonlinear_arith)
        requires
            0 <= a <= 255,
    ;
    let value: i128 = FERTILITY_A4 * a4 + FERTILITY_A3 * a3 + FERTILITY_A2 * a2 + FERTILITY_A1 * a
        + FERTILITY_A0;
    if value < 0 {
        0
    } else {
        let whole: i128 = value / FERTILITY_UNIT;
        if whole > 255 {
            255
        } else {
            whole as u8
        }
    }
}

/// A social factor in thousandths, held at one.
pub open spec fn capped(factor: u32) -> int {
    if factor > FACTOR_ONE {
        FACTOR_ONE as int
    } else {
        factor as int
    }
}

/// The chance in percent that a couple wants a child on a day, from four social factors in
/// thousandths: 2.1 times the product of the economy, the urbanization, what the
/// urbanization leaves of one, the demand and the survivability, rounded down to whole
/// percent. Every factor takes part: where any of the four is zero, there is no desire.
pub open spec fn desire_percent(economy: u32, urbanization: u32, demand: u32, survivability: u32) -> u8 {
    (210 * (capped(economy) * capped(urbanization) * (FACTOR_ONE - capped(urbanization))) * (
    capped(demand) * capped(survivability)) / 1_000_000_000_000_000) as u8
}

/// Computes [`desire_percent`].
pub fn desire_chance(economy: u32, urbanization: u32, demand: u32, survivability: u32) -> (percent:
    u8)
    ensures
        percent == desire_percent(economy, urbanization, demand, survivability),
        percent <= 210,
{
    let e: u64 = if economy > FACTOR_ONE {
        FACTOR_ONE as u64
    } else {
        economy as u64
    };
    let u: u64 = if urbanization > FACTOR_ONE {
        FACTOR_ONE as u64
    } else {
        urbanization as u64
    };
    let d: u64 = if demand > FACTOR_ONE {
        FACTOR_ONE as u64
    } else {
        demand as u64
    };
    let s: u64 = if survivability > FACTOR_ONE {
        FACTOR_ONE as u64
    } else {
        survivability as u64
    };
    let rest: u64 = FACTOR_ONE as u64 - u;
    assert(0 <= e * u <= 1_000_000) by (nonlinear_arith)
        requires
            0 <= e <= 1000,
            0 <= u <= 1000,
    ;
    let grown: u64 = e * u;
    assert(0 <= grown * rest <= 1_000_000_000) by (nonlinear_arith)
        requires
            0 <= grown <= 1_000_000,
            0 <= rest <= 1000,
    ;
    assert(0 <= d * s <= 1_000_000) by (nonlinear_arith)
        requires
            0 <= d <= 1000,
            0 <= s <= 1000,
    ;
    let town: u64 = grown * rest;
    let wish: u64 = d * s;
    assert(0 <= 210 * town * wish <= 210_000_000_000_000_000) by (nonlinear_arith)
        requires
            0 <= town <= 1_000_000_000,
            0 <= wish <= 1_000_000,
    ;
    let product: u64 = 210 * town * wish;
    (product / 1_000_000_000_000_000) as u8
}

/// The chance in percent that a pregnancy of a woman of the given age ends in a month.
pub open spec fn miscarriage_percent(age: u32) -> u8 {
    if age < 18 {
        0
    } else if age <= 19 {
        17
    } else if age <= 24 {
        11
    } else if age <= 29 {
        10
    } else if age <= 34 {
        11
    } else if age <= 39 {
        17
    } else if age <= 44 {
        33
    } else {
        57
    }
}

/// Computes [`miscarriage_percent`].
pub fn miscarriage_rate(age: u32) -> (percent: u8)
    ensures
        percent == miscarriage_percent(age),
{
    if age < 18 {
        0
    } else if age <= 19 {
        17
    } else if age <= 24 {
        11
    } else if age <= 29 {
        10
    } else if age <= 34 {
        11
    } else if age <= 39 {
        17
    } else if age <= 44 {
        33
    } else {
        57
    }
}

/// Rolls whether a pregnancy of a woman of the given age ends this month. Whatever the
/// roll, the answer is the one that the chance of her age gives for it.
pub fn miscarriage_chance(age: u8) -> (lost: bool)
    ensures
        exists|roll: u32|
            roll <= 100 && lost == #[trigger] chance_met(miscarriage_percent(age as u32), roll),
        age < 18 ==> !lost,
{
    let roll = uniform(0, 100);
    assert(roll <= 100 && chance_met(miscarriage_percent(age as u32), roll) == chance_met(
        miscarriage_percent(age as u32),
        roll,
    ));
    roll_succeeds(miscarriage_rate(age as u32), roll)
}

/// Rolls whether a woman of the given age can conceive today. Whatever the roll, the
/// answer is the one that the fertility of her age gives for it.
pub fn pregnancy_chance(age: u8) -> (able: bool)
    ensures
        exists|roll: u32| roll <= 100 && able == #[trigger] chance_met(fertility_percent(age), roll),
        fertility_percent(age) == 0 ==> !able,
        fertility_percent(age) >= 100 ==> able,
{
    let roll = uniform(0, 100);
    assert(roll <= 100 && chance_met(fertility_percent(age), roll) == chance_met(
        fertility_percent(age),
        roll,
    ));
    roll_succeeds(fertility_chance(age), roll)
}

/// Whether a couple wants a child, given the four social factors and the roll against
/// their desire.
pub open spec fn desires(
    economy: u32,
    urbanization: u32,
    demand: u32,
    survivability: u32,
    roll: u32,
) -> bool {
    chance_met(desire_percent(economy, urbanization, demand, survivability), roll)
}

/// Rolls the four social factors and whether a couple wants a child today. Whatever is
/// rolled, the answer is the one that [`desires`] gives for it.
pub fn pregnancy_desire() -> (wanted: bool)
    ensures
        exists|economy: u32, urbanization: u32, demand: u32, survivability: u32, roll: u32|
            economy <= FACTOR_ONE && urbanization <= FACTOR_ONE && demand <= FACTOR_ONE
                && survivability <= FACTOR_ONE && roll <= 100 && wanted == #[trigger] desires(
                economy,
                urbanization,
                demand,
                survivability,
                roll,
            ),
{
    let economy = uniform(0, FACTOR_ONE);
    let urbanization = uniform(0, FACTOR_ONE);
    let demand = uniform(0, FACTOR_ONE);
    let survivability = uniform(0, FACTOR_ONE);
    let roll = uniform(0, 100);
    let wanted = roll_succeeds(desire_chance(economy, urbanization, demand, survivability), roll);
    assert(wanted == desires(economy, urbanization, demand, survivability, roll));
    wanted
}

/// An age in years as the fertility curve takes it: held at 255.
pub open spec fn age_for_curve(age: int) -> u8 {
    if age > 255 {
        255
    } else if age < 0 {
        0
    } else {
        age as u8
    }
}

/// What is rolled for one woman on one day to decide on a conception.
#[derive(Clone, Copy, PartialEq, Eq, Structural, Debug)]
pub struct ConceptionDraw {
    /// The social factors, in thousandths.
    pub economy: u32,
    pub urbanization: u32,
    pub demand: u32,
    pub survivability: u32,
    /// The roll from 0 to 100 against the desire.
    pub desire_roll: u32,
    /// The roll from 0 to 100 against the fertility.
    pub fertility_roll: u32,
    /// The length in days of the pregnancy, should there be one.
    pub term: u32,
}

impl ConceptionDraw {
    /// Every part lies in the range it is rolled from.
    pub open spec fn in_range(self) -> bool {
        &&& self.economy <= FACTOR_ONE
        &&& self.urbanization <= FACTOR_ONE
        &&& self.demand <= FACTOR_ONE
        &&& self.survivability <= FACTOR_ONE
        &&& self.desire_roll <= 100
        &&& self.fertility_roll <= 100
        &&& TERM_MIN <= self.term <= TERM_MAX
    }

    /// Rolls every part.
    pub fn roll() -> (draw: ConceptionDraw)
        ensures
            draw.in_range(),
    {
        ConceptionDraw {
            economy: uniform(0, FACTOR_ONE),
            urbanization: uniform(0, FACTOR_ONE),
            demand: uniform(0, FACTOR_ONE),
            survivability: uniform(0, FACTOR_ONE),
            desire_roll: uniform(0, 100),
            fertility_roll: uniform(0, 100),
            term: uniform(TERM_MIN, TERM_MAX),
        }
    }

    /// Whether both gates open for a woman of the given age: the couple wants a child and
    /// she can conceive.
    pub open spec fn conceives(self, age: int) -> bool {
        chance_met(
            desire_percent(self.economy, self.urbanization, self.demand, self.survivability),
            self.desire_roll,
        ) && chance_met(fertility_percent(age_for_curve(age)), self.fertility_roll)
    }

    pub fn passes(&self, age: u32) -> (yes: bool)
        ensures
            yes == self.conceives(age as int),
    {
        let curve_age: u8 = if age > 255 {
            255
        } else {
            age as u8
        };
        roll_succeeds(
            desire_chance(self.economy, self.urbanization, self.demand, self.survivability),
            self.desire_roll,
        ) && roll_succeeds(fertility_chance(curve_age), self.fertility_roll)
    }
}

/// A woman with a partner who is neither ovulating nor with child.
pub open spec fn awaits_ovulation(citizen: Citizen) -> bool {
    citizen.sex == Sex::Female && citizen.spouse is Some && citizen.reproduction
        == Reproduction::Resting
}

/// The record after the monthly scheduling: a woman who awaits one gets an ovulation that
/// starts `delay` days after `date` and lasts `length` days.
pub open spec fn scheduled(citizen: Citizen, date: Date, delay: u32, length: u32) -> Citizen {
    if awaits_ovulation(citizen) {
        Citizen {
            reproduction: Reproduction::Ovulating(
                Ovulation { ovulation_start_date: date.later(delay), length },
            ),
            ..citizen
        }
    } else {
        citizen
    }
}

/// The registry after the monthly scheduling of ovulations with the given delays and lengths.
pub open spec fn with_ovulations(
    s: Seq<Option<Citizen>>,
    date: Date,
    delays: Seq<u32>,
    lengths: Seq<u32>,
) -> Seq<Option<Citizen>> {
    Seq::new(
        s.len(),
        |i: int|
            match s[i] {
                Some(citizen) => Some(
                    scheduled(citizen, date, rolled(delays, i), rolled(lengths, i)),
                ),
                None => None,
            },
    )
}

/// Schedules the month's ovulations: every woman with a partner who is neither ovulating nor
/// with child gets one, with the delay and the length kept for her place.
pub fn init_ovulation_with(
    registry: &mut Registry,
    date: Date,
    delays: &Vec<u32>,
    lengths: &Vec<u32>,
)
    ensures
        final(registry)@ == with_ovulations(old(registry)@, date, delays@, lengths@),
        same_people(old(registry)@, final(registry)@),
        partners_kept(old(registry)@, final(registry)@),
{
    let n = registry.len();
    let mut i: usize = 0;
    while i < n
        invariant
            i <= n,
            n == old(registry)@.len(),
            registry@.len() == n,
            forall|j: int|
                0 <= j < i ==> #[trigger] registry@[j] == with_ovulations(
                    old(registry)@,
                    date,
                    delays@,
                    lengths@,
                )[j],
            forall|j: int| i <= j < n ==> #[trigger] registry@[j] == old(registry)@[j],
        decreases n - i,
    {
        match registry.get(i) {
            Some(citizen) => {
                let waiting = match (citizen.sex, citizen.reproduction) {
                    (Sex::Female, Reproduction::Resting) => citizen.spouse.is_some(),
                    _ => false,
                };
                if waiting {
                    let start = date.plus_days(roll_at(delays, i));
                    registry.amend(
                        i,
                        Citizen {
                            reproduction: Reproduction::Ovulating(
                                Ovulation {
                                    ovulation_start_date: start,
                                    length: roll_at(lengths, i),
                                },
                            ),
                            ..citizen
                        },
                    );
                }
            },
            None => {},
        }
        i = i + 1;
    }
    proof {
        assert(registry@ =~= with_ovulations(old(registry)@, date, delays@, lengths@));
    }
}

/// Whether `after` is what the scheduling of ovulations on `date` makes of `before` for some
/// delays from 5 to 20 days and some lengths of 5 or 6 days.
pub open spec fn ovulations_scheduled(
    before: Seq<Option<Citizen>>,
    after: Seq<Option<Citizen>>,
    date: Date,
) -> bool {
    exists|delays: Seq<u32>, lengths: Seq<u32>|
        {
            &&& delays.len() == before.len()
            &&& lengths.len() == before.len()
            &&& forall|i: int|
                0 <= i < delays.len() ==> OVULATION_DELAY_MIN <= #[trigger] delays[i]
                    <= OVULATION_DELAY_MAX
            &&& forall|i: int|
                0 <= i < lengths.len() ==> OVULATION_LENGTH_MIN <= #[trigger] lengths[i]
                    <= OVULATION_LENGTH_MAX
            &&& after == #[trigger] with_ovulations(before, date, delays, lengths)
        }
}

/// Schedules the month's ovulations, rolling each delay and length.
pub fn init_ovulation(registry: &mut Registry, date: Date)
    ensures
        ovulations_scheduled(old(registry)@, final(registry)@, date),
        same_people(old(registry)@, final(registry)@),
        partners_kept(old(registry)@, final(registry)@),
{
    let n = registry.len();
    let delays = uniform_many(n, OVULATION_DELAY_MIN, OVULATION_DELAY_MAX);
    let lengths = uniform_many(n, OVULATION_LENGTH_MIN, OVULATION_LENGTH_MAX);
    init_ovulation_with(registry, date, &delays, &lengths);
    proof {
        assert(registry@ == with_ovulations(old(registry)@, date, delays@, lengths@));
    }
}

/// Whether an ovulation is over on `date`: its length has passed since its start.
pub open spec fn is_over(ovulation: Ovulation, date: Date) -> bool {
    date.days >= ovulation.ovulation_start_date.days + ovulation.length
}

/// The record after the daily look at ovulations: one that is over is cleared.
pub open spec fn ovulation_ended(citizen: Citizen, date: Date) -> Citizen {
    match citizen.reproduction {
        Reproduction::Ovulating(ovulation) if is_over(ovulation, date) => Citizen {
            reproduction: Reproduction::Resting,
            ..citizen
        },
        _ => citizen,
    }
}

/// The registry after the daily look at ovulations.
pub open spec fn with_ovulations_ended(s: Seq<Option<Citizen>>, date: Date) -> Seq<Option<Citizen>> {
    Seq::new(
        s.len(),
        |i: int|
            match s[i] {
                Some(citizen) => Some(ovulation_ended(citizen, date)),
                None => None,
            },
    )
}

/// Ends the ovulations that are over. Nothing else changes.
pub fn end_ovulation(registry: &mut Registry, date: Date)
    ensures
        final(registry)@ == with_ovulations_ended(old(registry)@, date),
        same_people(old(registry)@, final(registry)@),
        partners_kept(old(registry)@, final(registry)@),
{
    let n = registry.len();
    let mut i: usize = 0;
    while i < n
        invariant
            i <= n,
            n == old(registry)@.len(),
            registry@.len() == n,
            forall|j: int|
                0 <= j < i ==> #[trigger] registry@[j] == (match old(registry)@[j] {
                    Some(citizen) => Some(ovulation_ended(citizen, date)),
                    None => None,
                }),
            forall|j: int| i <= j < n ==> #[trigger] registry@[j] == old(registry)@[j],
        decreases n - i,
    {
        match registry.get(i) {
            Some(citizen) => {
                match citizen.reproduction {
                    Reproduction::Ovulating(ovulation) => {
                        let end: i64 = ovulation.ovulation_start_date.days as i64
                            + ovulation.length as i64;
                        if date.days as i64 >= end {
                            registry.amend(
                                i,
                                Citizen { reproduction: Reproduction::Resting, ..citizen },
                            );
                        }
                    },
                    _ => {},
                }
            },
            None => {},
        }
        i = i + 1;
    }
    proof {
        assert(registry@ =~= with_ovulations_ended(old(registry)@, date));
    }
}

/// A woman with a partner who is ovulating.
pub open spec fn may_conceive(citizen: Citizen) -> bool {
    citizen.sex == Sex::Female && citizen.spouse is Some && citizen.is_ovulating()
}

/// The record after the daily chance of conception: a woman who may conceive and for whom
/// both gates open is with child from now on, due after the term that was drawn.
pub open spec fn conceived(citizen: Citizen, date: Date, draw: ConceptionDraw) -> Citizen {
    if may_conceive(citizen) && draw.conceives(date.age_of(citizen.birthday)) {
        Citizen {
            reproduction: Reproduction::Pregnant(Pregnancy { baby_due_date: date.later(draw.term) }),
            ..citizen
        }
    } else {
        citizen
    }
}

/// The registry after the daily chance of conception with the given draws. A place without a
/// draw stays as it is.
pub open spec fn with_pregnancies(
    s: Seq<Option<Citizen>>,
    date: Date,
    draws: Seq<ConceptionDraw>,
) -> Seq<Option<Citizen>> {
    Seq::new(
        s.len(),
        |i: int|
            match s[i] {
                Some(citizen) if i < draws.len() => Some(conceived(citizen, date, draws[i])),
                _ => s[i],
            },
    )
}

/// Gives every ovulating woman with a partner her daily chance of conception, with the draw
/// kept for her place.
pub fn init_pregnancies_with(registry: &mut Registry, date: Date, draws: &Vec<ConceptionDraw>)
    ensures
        final(registry)@ == with_pregnancies(old(registry)@, date, draws@),
        same_people(old(registry)@, final(registry)@),
        partners_kept(old(registry)@, final(registry)@),
{
    let n = registry.len();
    let mut i: usize = 0;
    while i < n
        invariant
            i <= n,
            n == old(registry)@.len(),
            registry@.len() == n,
            forall|j: int|
                0 <= j < i ==> #[trigger] registry@[j] == with_pregnancies(
                    old(registry)@,
                    date,
                    draws@,
                )[j],
            forall|j: int| i <= j < n ==> #[trigger] registry@[j] == old(registry)@[j],
        decreases n - i,
    {
        match registry.get(i) {
            Some(citizen) => {
                let ovulating = match (citizen.sex, citizen.reproduction) {
                    (Sex::Female, Reproduction::Ovulating(_)) => citizen.spouse.is_some(),
                    _ => false,
                };
                if ovulating && i < draws.len() {
                    let draw = draws[i];
                    if draw.passes(date.age(citizen.birthday)) {
                        registry.amend(
                            i,
                            Citizen {
                                reproduction: Reproduction::Pregnant(
                                    Pregnancy { baby_due_date: date.plus_days(draw.term) },
                                ),
                                ..citizen
                            },
                        );
                    }
                }
            },
            None => {},
        }
        i = i + 1;
    }
    proof {
        assert(registry@ =~= with_pregnancies(old(registry)@, date, draws@));
    }
}

/// Whether `after` is what the daily chance of conception on `date` makes of `before` for
/// some draws within their ranges.
pub open spec fn pregnancies_begun(
    before: Seq<Option<Citizen>>,
    after: Seq<Option<Citizen>>,
    date: Date,
) -> bool {
    exists|draws: Seq<ConceptionDraw>|
        {
            &&& draws.len() == before.len()
            &&& forall|i: int| 0 <= i < draws.len() ==> (#[trigger] draws[i]).in_range()
            &&& after == #[trigger] with_pregnancies(before, date, draws)
        }
}

/// Gives every ovulating woman with a partner her daily chance of conception, rolling the
/// draws.
pub fn init_pregnancies(registry: &mut Registry, date: Date)
    ensures
        pregnancies_begun(old(registry)@, final(registry)@, date),
        same_people(old(registry)@, final(registry)@),
        partners_kept(old(registry)@, final(registry)@),
{
    let n = registry.len();
    let mut draws: Vec<ConceptionDraw> = Vec::new();
    while draws.len() < n
        invariant
            draws.len() <= n,
            forall|i: int| 0 <= i < draws.len() ==> (#[trigger] draws[i]).in_range(),
        decreases n - draws.len(),
    {
        draws.push(ConceptionDraw::roll());
    }
    init_pregnancies_with(registry, date, &draws);
    proof {
        assert(registry@ == with_pregnancies(old(registry)@, date, draws@));
    }
}

/// The record of a woman after a miscarriage: the pregnancy is over.
pub open spec fn miscarried(citizen: Citizen) -> Citizen {
    Citizen { reproduction: Reproduction::Resting, ..citizen }
}

/// Whether a pregnancy ends this month: the woman is with child and her roll meets the
/// chance that goes with her age.
pub open spec fn miscarries(citizen: Citizen, date: Date, roll: u32) -> bool {
    citizen.is_pregnant() && chance_met(
        miscarriage_percent(date.age_of(citizen.birthday) as u32),
        roll,
    )
}

/// The registry after the monthly chance of miscarriage with the given rolls. A place without
/// a roll stays as it is.
pub open spec fn with_miscarriages(s: Seq<Option<Citizen>>, date: Date, rolls: Seq<u32>) -> Seq<
    Option<Citizen>,
> {
    Seq::new(
        s.len(),
        |i: int|
            match s[i] {
                Some(citizen) if i < rolls.len() && miscarries(citizen, date, rolls[i]) => Some(
                    miscarried(citizen),
                ),
                _ => s[i],
            },
    )
}

/// Puts every pregnancy to its monthly chance of miscarriage, with the roll kept for the
/// woman's place. A pregnancy that ends leaves the woman as she was before it.
pub fn init_miscarriage_with(registry: &mut Registry, date: Date, rolls: &Vec<u32>)
    ensures
        final(registry)@ == with_miscarriages(old(registry)@, date, rolls@),
        same_people(old(registry)@, final(registry)@),
        partners_kept(old(registry)@, final(registry)@),
{
    let n = registry.len();
    let mut i: usize = 0;
    while i < n
        invariant
            i <= n,
            n == old(registry)@.len(),
            registry@.len() == n,
            forall|j: int|
                0 <= j < i ==> #[trigger] registry@[j] == with_miscarriages(
                    old(registry)@,
                    date,
                    rolls@,
                )[j],
            forall|j: int| i <= j < n ==> #[trigger] registry@[j] == old(registry)@[j],
        decreases n - i,
    {
        match registry.get(i) {
            Some(citizen) => {
                if citizen.pregnant() && i < rolls.len() {
                    let rate = miscarriage_rate(date.age(citizen.birthday));
                    if roll_succeeds(rate, rolls[i]) {
                        registry.amend(
                            i,
                            Citizen { reproduction: Reproduction::Resting, ..citizen },
                        );
                    }
                }
            },
            None => {},
        }
        i = i + 1;
    }
    proof {
        assert(registry@ =~= with_miscarriages(old(registry)@, date, rolls@));
    }
}

/// Whether `after` is what the monthly chance of miscarriage on `date` makes of `before` for
/// some rolls from 0 to 100.
pub open spec fn miscarriages_rolled(
    before: Seq<Option<Citizen>>,
    after: Seq<Option<Citizen>>,
    date: Date,
) -> bool {
    exists|rolls: Seq<u32>|
        {
            &&& rolls.len() == before.len()
            &&& forall|i: int| 0 <= i < rolls.len() ==> #[trigger] rolls[i] <= 100
            &&& after == #[trigger] with_miscarriages(before, date, rolls)
        }
}

/// Puts every pregnancy to its monthly chance of miscarriage, rolling for each.
pub fn init_miscarriage(registry: &mut Registry, date: Date)
    ensures
        miscarriages_rolled(old(registry)@, final(registry)@, date),
        same_people(old(registry)@, final(registry)@),
        partners_kept(old(registry)@, final(registry)@),
{
    let rolls = uniform_many(registry.len(), 0, 100);
    init_miscarriage_with(registry, date, &rolls);
    proof {
        assert(registry@ == with_miscarriages(old(registry)@, date, rolls@));
    }
}

/// Whether a citizen gives birth on `date`: she is with child and due that day.
pub open spec fn is_due(place: Option<Citizen>, date: Date) -> bool {
    place is Some && place->0.reproduction == Reproduction::Pregnant(
        Pregnancy { baby_due_date: date },
    )
}

/// The record of a woman after a birth: the pregnancy is over and she has one more child.
/// The count of children stops at the largest a `u32` holds.
pub open spec fn delivered(citizen: Citizen) -> Citizen {
    Citizen {
        reproduction: Reproduction::Resting,
        children_had: if citizen.children_had < u32::MAX {
            (citizen.children_had + 1) as u32
        } else {
            u32::MAX
        },
        ..citizen
    }
}

/// The record of a child born on `date` whose sex `roll` decides: a youngling on the first
/// day of life.
pub open spec fn newborn(date: Date, roll: u32) -> Citizen {
    Citizen::fresh(date, sex_of_roll(roll), 0)
}

/// The children born on `date` to the women of the first `n` places, in the order of their
/// mothers. The roll kept for the mother's place decides the sex.
pub open spec fn newborns(s: Seq<Option<Citizen>>, date: Date, rolls: Seq<u32>, n: int) -> Seq<
    Option<Citizen>,
>
    decreases n,
{
    if n <= 0 {
        Seq::empty()
    } else if is_due(s[n - 1], date) {
        newborns(s, date, rolls, n - 1).push(Some(newborn(date, rolled(rolls, n - 1))))
    } else {
        newborns(s, date, rolls, n - 1)
    }
}

/// The registry after the births of `date`: every woman who was due has given birth, and
/// the children follow at the end.
pub open spec fn with_births(s: Seq<Option<Citizen>>, date: Date, rolls: Seq<u32>) -> Seq<
    Option<Citizen>,
> {
    Seq::new(
        s.len(),
        |i: int|
            if is_due(s[i], date) {
                Some(delivered(s[i]->0))
            } else {
                s[i]
            },
    ) + newborns(s, date, rolls, s.len() as int)
}

/// The notices of `count` births into a registry that had `places` places.
pub open spec fn birth_notices(colony: usize, places: nat, count: nat) -> Seq<CitizenCreated> {
    Seq::new(count, |k: int| CitizenCreated { age: 0, colony, citizen: (places + k) as usize })
}

/// The births of the day. Every woman who is due on `date` gives birth: her pregnancy is
/// over, she has one more child, and a newborn joins the colony at the end of the registry,
/// of the sex that the roll kept for the mother's place decides. Each birth is reported. The
/// living grow by the number of births.
pub fn citizen_births_with(registry: &mut Registry, date: Date, colony: usize, rolls: &Vec<u32>) -> (created:
    Vec<CitizenCreated>)
    ensures
        final(registry)@ == with_births(old(registry)@, date, rolls@),
        created@ == birth_notices(
            colony,
            old(registry)@.len(),
            newborns(old(registry)@, date, rolls@, old(registry)@.len() as int).len(),
        ),
        living(final(registry)@) == living(old(registry)@) + created.len(),
        final(registry)@.len() == old(registry)@.len() + created.len(),
        partners_kept(old(registry)@, final(registry)@),
        none_returned(old(registry)@, final(registry)@),
{
    let n = registry.len();
    let ghost start = registry@;
    let mut created: Vec<CitizenCreated> = Vec::new();
    let mut i: usize = 0;
    while i < n
        invariant
            i <= n,
            start == old(registry)@,
            n == start.len(),
            registry@.len() == n + created.len(),
            created.len() == newborns(start, date, rolls@, i as int).len(),
            forall|j: int|
                0 <= j < i ==> #[trigger] registry@[j] == (if is_due(start[j], date) {
                    Some(delivered(start[j]->0))
                } else {
                    start[j]
                }),
            forall|j: int| i <= j < n ==> #[trigger] registry@[j] == start[j],
            registry@.subrange(n as int, registry@.len() as int) == newborns(
                start,
                date,
                rolls@,
                i as int,
            ),
            created@ == birth_notices(colony, n as nat, created.len() as nat),
            living(registry@) == living(start) + created.len(),
        decreases n - i,
    {
        match registry.get(i) {
            Some(citizen) => {
                let due = match citizen.reproduction {
                    Reproduction::Pregnant(pregnancy) => pregnancy.baby_due_date.days == date.days,
                    _ => false,
                };
                if due {
                    let children: u32 = if citizen.children_had < u32::MAX {
                        citizen.children_had + 1
                    } else {
                        u32::MAX
                    };
                    let ghost before = registry@;
                    registry.amend(
                        i,
                        Citizen {
                            reproduction: Reproduction::Resting,
                            children_had: children,
                            ..citizen
                        },
                    );
                    let ghost between = registry@;
                    let child = Citizen::new(date, super::sex_for_roll(roll_at(rolls, i)), 0);
                    let id = registry.spawn(child);
                    created.push(CitizenCreated { age: 0, colony, citizen: id });
                    proof {
                        lemma_living_update(before, i as int, Some(delivered(citizen)));
                        lemma_living_push(between, Some(child));
                        assert(registry@.subrange(n as int, registry@.len() as int)
                            =~= between.subrange(n as int, between.len() as int).push(
                            Some(child),
                        ));
                        assert(between.subrange(n as int, between.len() as int)
                            =~= before.subrange(n as int, before.len() as int));
                        assert(created@ =~= birth_notices(colony, n as nat, created.len() as nat));
                    }
                }
            },
            None => {},
        }
        i = i + 1;
    }
    proof {
        assert(registry@ =~= with_births(start, date, rolls@));
    }
    created
}

/// Whether `after` is what the births of `date` make of `before` for some rolls from 0 to
/// 100.
pub open spec fn births_given(
    before: Seq<Option<Citizen>>,
    after: Seq<Option<Citizen>>,
    date: Date,
) -> bool {
    exists|rolls: Seq<u32>|
        {
            &&& rolls.len() == before.len()
            &&& forall|i: int| 0 <= i < rolls.len() ==> #[trigger] rolls[i] <= 100
            &&& after == #[trigger] with_births(before, date, rolls)
        }
}

/// The births of the day, with the sex of each child rolled. Each birth is reported, and the
/// living grow by the number of births.
pub fn citizen_births(registry: &mut Registry, date: Date, colony: usize) -> (created: Vec<
    CitizenCreated,
>)
    ensures
        births_given(old(registry)@, final(registry)@, date),
        created@ == birth_notices(
            colony,
            old(registry)@.len(),
            (final(registry)@.len() - old(registry)@.len()) as nat,
        ),
        living(final(registry)@) == living(old(registry)@) + created.len(),
        final(registry)@.len() == old(registry)@.len() + created.len(),
        partners_kept(old(registry)@, final(registry)@),
        none_returned(old(registry)@, final(registry)@),
{
    let rolls = uniform_many(registry.len(), 0, 100);
    let created = citizen_births_with(registry, date, colony, &rolls);
    proof {
        assert(registry@ == with_births(old(registry)@, date, rolls@));
    }
    created
}

/// However a pregnancy ends, the woman is no longer with child, and one of working age may
/// hold or take a job again. A woman whose pregnancy ended in a miscarriage is not due any
/// more, so that no pregnancy ends twice.
pub proof fn lemma_pregnancy_resolves(citizen: Citizen, date: Date)
    requires
        citizen.is_pregnant(),
    ensures
        !miscarried(citizen).is_pregnant(),
        !delivered(citizen).is_pregnant(),
        miscarried(citizen).cohort == super::components::Cohort::Employable ==> miscarried(
            citizen,
        ).is_employable(),
        delivered(citizen).cohort == super::components::Cohort::Employable ==> delivered(
            citizen,
        ).is_employable(),
        !is_due(Some(miscarried(citizen)), date),
        !is_due(Some(delivered(citizen)), date),
        !miscarries(delivered(citizen), date, 0),
{
}

/// A woman who is with child does not conceive: whatever the draw, her record stays as it
/// is, so that nobody carries two pregnancies.
pub proof fn lemma_one_pregnancy_at_a_time(citizen: Citizen, date: Date, draw: ConceptionDraw)
    requires
        citizen.is_pregnant(),
    ensures
        conceived(citizen, date, draw) == citizen,
        scheduled(citizen, date, 0, 0) == citizen,
{
}

} // verus!
