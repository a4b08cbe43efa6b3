//! Death by old age, by hunger and in the first year of life.
//!
//! Chances of death are counted in billionths.

use super::components::Citizen;
use super::events::{CitizenDied, DeathReason};
use super::registry::{living, lemma_living_update, none_returned, partners_kept, Registry};
use crate::common::utils::uniform_many;
use crate::time::Date;
use vstd::prelude::*;

verus! {

/// The chance that stands for certainty.
pub const CERTAIN: u32 = 1_000_000_000;

/// The age in days at which a child's first year is put to the test.
pub const FIRST_YEAR_DAYS: i64 = 365;

/// Whether place `i` is marked: the list of marks reaches that far and holds `true` there.
pub open spec fn is_marked(marks: Seq<bool>, i: int) -> bool {
    0 <= i < marks.len() && marks[i]
}

/// The registry after the living of the marked places were removed.
pub open spec fn struck(s: Seq<Option<Citizen>>, marks: Seq<bool>) -> Seq<Option<Citizen>> {
    Seq::new(
        s.len(),
        |i: int|
            if is_marked(marks, i) {
                None
            } else {
                s[i]
            },
    )
}

/// The death notices for the living among the first `n` places that are marked, in the
/// order of the places.
pub open spec fn obituaries(
    s: Seq<Option<Citizen>>,
    marks: Seq<bool>,
    colony: usize,
    reason: DeathReason,
    n: int,
) -> Seq<CitizenDied>
    decreases n,
{
    if n <= 0 {
        Seq::empty()
    } else if s[n - 1] is Some && is_marked(marks, n - 1) {
        obituaries(s, marks, colony, reason, n - 1).push(
            CitizenDied { colony, citizen: (n - 1) as usize, reason },
        )
    } else {
        obituaries(s, marks, colony, reason, n - 1)
    }
}

/// Removes the citizens of the marked places and reports each death. The places stay
/// empty; nobody else changes. The living shrink by the number of deaths reported.
pub fn bury_marked(registry: &mut Registry, marks: &Vec<bool>, colony: usize, reason: DeathReason) -> (died:
    Vec<CitizenDied>)
    ensures
        final(registry)@ == struck(old(registry)@, marks@),
        died@ == obituaries(old(registry)@, marks@, colony, reason, old(registry)@.len() as int),
        living(final(registry)@) + died.len() == living(old(registry)@),
{
    let n = registry.len();
    let mut died: Vec<CitizenDied> = Vec::new();
    let mut i: usize = 0;
    while i < n
        invariant
            i <= n,
            n == old(registry)@.len(),
            registry@.len() == n,
            forall|j: int| 0 <= j < i ==> #[trigger] registry@[j] == struck(old(registry)@, marks@)[j],
            forall|j: int| i <= j < n ==> #[trigger] registry@[j] == old(registry)@[j],
            died@ == obituaries(old(registry)@, marks@, colony, reason, i as int),
            living(registry@) + died.len() == living(old(registry)@),
        decreases n - i,
    {
        if i < marks.len() && marks[i] {
            let ghost before = registry@;
            match registry.bury(i) {
                Some(_) => {
                    died.push(CitizenDied { colony, citizen: i, reason });
                },
                None => {},
            }
            proof {
                lemma_living_update(before, i as int, None);
            }
        }
        i = i + 1;
    }
    proof {
        assert(registry@ =~= struck(old(registry)@, marks@));
    }
    died
}

/// The daily chance of death at an age, read from a list that gives the chance for age 0,
/// age 1 and so on: the last entry holds for every greater age, and an empty list means no
/// death from old age.
pub open spec fn chance_at(curve: Seq<u32>, age: int) -> u32 {
    if curve.len() == 0 {
        0
    } else if 0 <= age < curve.len() {
        curve[age]
    } else {
        curve[curve.len() - 1]
    }
}

/// Whether a citizen dies of old age on `date`, given a draw below a billion: the draw is
/// at most the chance that goes with the age.
pub open spec fn dies_of_old_age(citizen: Citizen, date: Date, curve: Seq<u32>, draw: u32) -> bool {
    draw <= chance_at(curve, date.age_of(citizen.birthday))
}

/// The places that old age empties on `date`: those of the living for whom a draw is kept
/// and whom the draw dooms.
pub open spec fn old_age_marks(
    s: Seq<Option<Citizen>>,
    date: Date,
    curve: Seq<u32>,
    draws: Seq<u32>,
) -> Seq<bool> {
    Seq::new(
        s.len(),
        |i: int| s[i] is Some && i < draws.len() && dies_of_old_age(s[i]->0, date, curve, draws[i]),
    )
}

fn lookup_chance(curve: &Vec<u32>, age: u32) -> (chance: u32)
    ensures
        chance == chance_at(curve@, age as int),
{
    if curve.len() == 0 {
        0
    } else if (age as usize) < curve.len() {
        curve[age as usize]
    } else {
        curve[curve.len() - 1]
    }
}

/// Death by old age, with the draw kept for each place. A living citizen dies where the draw
/// is at most the daily chance of death at the citizen's age; each death is reported.
pub fn old_age_death_with(
    registry: &mut Registry,
    date: Date,
    colony: usize,
    curve: &Vec<u32>,
    draws: &Vec<u32>,
) -> (died: Vec<CitizenDied>)
    ensures
        final(registry)@ == struck(
            old(registry)@,
            old_age_marks(old(registry)@, date, curve@, draws@),
        ),
        died@ == obituaries(
            old(registry)@,
            old_age_marks(old(registry)@, date, curve@, draws@),
            colony,
            DeathReason::OldAge,
            old(registry)@.len() as int,
        ),
        living(final(registry)@) + died.len() == living(old(registry)@),
{
    let n = registry.len();
    let mut marks: Vec<bool> = Vec::new();
    while marks.len() < n
        invariant
            n == registry@.len(),
            marks.len() <= n,
            forall|i: int|
                0 <= i < marks.len() ==> #[trigger] marks[i] == old_age_marks(
                    registry@,
                    date,
                    curve@,
                    draws@,
                )[i],
        decreases n - marks.len(),
    {
        let i = marks.len();
        let doomed = match registry.get(i) {
            Some(citizen) => i < draws.len() && draws[i] <= lookup_chance(
                curve,
                date.age(citizen.birthday),
            ),
            None => false,
        };
        marks.push(doomed);
    }
    proof {
        assert(marks@ =~= old_age_marks(registry@, date, curve@, draws@));
    }
    bury_marked(registry, &marks, colony, DeathReason::OldAge)
}

/// Whether `after` is `before` without some of its living. Nobody changes and nobody
/// returns.
pub open spec fn thinned(before: Seq<Option<Citizen>>, after: Seq<Option<Citizen>>) -> bool {
    &&& after.len() == before.len()
    &&& forall|i: int| 0 <= i < before.len() ==> #[trigger] after[i] is None || after[i] == before[i]
}

/// Whether `died` reports, in the order of the places, exactly those who live in `before`
/// and no longer in `after`, for the given colony and reason.
pub open spec fn reported(
    before: Seq<Option<Citizen>>,
    after: Seq<Option<Citizen>>,
    died: Seq<CitizenDied>,
    colony: usize,
    reason: DeathReason,
) -> bool {
    died == obituaries(
        before,
        Seq::new(before.len(), |i: int| after[i] is None),
        colony,
        reason,
        before.len() as int,
    )
}

/// The notices depend on the marks only at the places of the living.
pub proof fn lemma_obituaries_agree(
    s: Seq<Option<Citizen>>,
    first: Seq<bool>,
    second: Seq<bool>,
    colony: usize,
    reason: DeathReason,
    n: int,
)
    requires
        n <= s.len(),
        forall|i: int|
            0 <= i < n && s[i] is Some ==> #[trigger] is_marked(first, i) == is_marked(second, i),
    ensures
        obituaries(s, first, colony, reason, n) == obituaries(s, second, colony, reason, n),
    decreases n,
{
    if n > 0 {
        lemma_obituaries_agree(s, first, second, colony, reason, n - 1);
        if s[n - 1] is Some {
            assert(is_marked(first, n - 1) == is_marked(second, n - 1));
        }
    }
}

/// What is left after striking is the registry thinned, and the notices report it.
pub proof fn lemma_struck_is_thinned(
    s: Seq<Option<Citizen>>,
    marks: Seq<bool>,
    colony: usize,
    reason: DeathReason,
)
    ensures
        thinned(s, struck(s, marks)),
        reported(
            s,
            struck(s, marks),
            obituaries(s, marks, colony, reason, s.len() as int),
            colony,
            reason,
        ),
{
    let after = struck(s, marks);
    let gone = Seq::new(s.len(), |i: int| after[i] is None);
    assert forall|i: int| 0 <= i < s.len() && s[i] is Some implies #[trigger] is_marked(marks, i)
        == is_marked(gone, i) by {}
    lemma_obituaries_agree(s, marks, gone, colony, reason, s.len() as int);
}

/// Where a registry is only thinned, the survivors keep their partners and nobody returns.
pub proof fn lemma_thinned_keeps_partners(before: Seq<Option<Citizen>>, after: Seq<Option<Citizen>>)
    requires
        thinned(before, after),
    ensures
        partners_kept(before, after),
        none_returned(before, after),
{
    assert forall|i: int|
        0 <= i < before.len() && i < after.len() && (#[trigger] before[i]) is Some
            && before[i]->0.spouse is Some && after[i] is Some implies after[i]->0.spouse
        == before[i]->0.spouse by {
        assert(after[i] is None || after[i] == before[i]);
    }
    assert forall|i: int| 0 <= i < before.len() && (#[trigger] after[i]) is Some implies before[i] is Some by {
        assert(after[i] is None || after[i] == before[i]);
    }
}

/// Whether every draw is below a billion, as a draw against a chance in billionths is.
pub open spec fn below_certain(draws: Seq<u32>) -> bool {
    forall|i: int| 0 <= i < draws.len() ==> #[trigger] draws[i] < CERTAIN
}

/// Whether `after` is what old age leaves of `before` on `date` for some draws below a
/// billion, one for each place. Where the chance is a billion or more, death is certain.
pub open spec fn old_age_took(
    before: Seq<Option<Citizen>>,
    after: Seq<Option<Citizen>>,
    date: Date,
    curve: Seq<u32>,
) -> bool {
    exists|draws: Seq<u32>|
        draws.len() == before.len() && below_certain(draws) && after == struck(
            before,
            #[trigger] old_age_marks(before, date, curve, draws),
        )
}

/// Death by old age, with a draw below a billion rolled for each place. Whatever the draws:
/// some of the living are gone, nobody else changes, each death is reported, and the living
/// shrink by the number of deaths reported.
pub fn old_age_death(registry: &mut Registry, date: Date, colony: usize, curve: &Vec<u32>) -> (died:
    Vec<CitizenDied>)
    ensures
        old_age_took(old(registry)@, final(registry)@, date, curve@),
        thinned(old(registry)@, final(registry)@),
        reported(old(registry)@, final(registry)@, died@, colony, DeathReason::OldAge),
        living(final(registry)@) + died.len() == living(old(registry)@),
{
    let draws = uniform_many(registry.len(), 0, CERTAIN - 1);
    let died = old_age_death_with(registry, date, colony, curve, &draws);
    proof {
        let marks = old_age_marks(old(registry)@, date, curve@, draws@);
        lemma_struck_is_thinned(old(registry)@, marks, colony, DeathReason::OldAge);
    }
    died
}

/// The places that hunger empties: those of the living whose days without a meal have
/// passed the limit.
pub open spec fn starvation_marks(s: Seq<Option<Citizen>>) -> Seq<bool> {
    Seq::new(
        s.len(),
        |i: int| s[i] is Some && s[i]->0.starving is Some && s[i]->0.starving->0.has_died(),
    )
}

/// Death by hunger. A living citizen dies who has gone without a meal for more days than
/// the limit; each death is reported.
pub fn starvation(registry: &mut Registry, colony: usize) -> (died: Vec<CitizenDied>)
    ensures
        final(registry)@ == struck(old(registry)@, starvation_marks(old(registry)@)),
        died@ == obituaries(
            old(registry)@,
            starvation_marks(old(registry)@),
            colony,
            DeathReason::Starvation,
            old(registry)@.len() as int,
        ),
        living(final(registry)@) + died.len() == living(old(registry)@),
        thinned(old(registry)@, final(registry)@),
        reported(old(registry)@, final(registry)@, died@, colony, DeathReason::Starvation),
{
    let n = registry.len();
    let mut marks: Vec<bool> = Vec::new();
    while marks.len() < n
        invariant
            n == registry@.len(),
            marks.len() <= n,
            forall|i: int|
                0 <= i < marks.len() ==> #[trigger] marks[i] == starvation_marks(registry@)[i],
        decreases n - marks.len(),
    {
        let doomed = match registry.get(marks.len()) {
            Some(citizen) => match citizen.starving {
                Some(hunger) => hunger.died(),
                None => false,
            },
            None => false,
        };
        marks.push(doomed);
    }
    proof {
        assert(marks@ =~= starvation_marks(registry@));
        lemma_struck_is_thinned(registry@, marks@, colony, DeathReason::Starvation);
    }
    bury_marked(registry, &marks, colony, DeathReason::Starvation)
}

/// Whether a child is put to the test of the first year on `date`: it was born exactly 365
/// days before.
pub open spec fn closes_first_year(citizen: Citizen, date: Date) -> bool {
    date.days - citizen.birthday.days == FIRST_YEAR_DAYS
}

/// The places that infant mortality empties on `date`: those of the children who close
/// their first year that day, for whom a draw is kept, and whose draw is below the rate.
pub open spec fn infant_marks(s: Seq<Option<Citizen>>, date: Date, rate: u32, draws: Seq<u32>) -> Seq<
    bool,
> {
    Seq::new(
        s.len(),
        |i: int|
            s[i] is Some && closes_first_year(s[i]->0, date) && i < draws.len() && draws[i] < rate,
    )
}

/// Death in the first year of life, with the draw kept for each place. Each child is put to
/// the test once, on the day that closes its first year, and dies where the draw is below
/// the colony's rate of infant mortality; each death is reported.
pub fn infant_mortality_with(
    registry: &mut Registry,
    date: Date,
    colony: usize,
    rate: u32,
    draws: &Vec<u32>,
) -> (died: Vec<CitizenDied>)
    ensures
        final(registry)@ == struck(old(registry)@, infant_marks(old(registry)@, date, rate, draws@)),
        died@ == obituaries(
            old(registry)@,
            infant_marks(old(registry)@, date, rate, draws@),
            colony,
            DeathReason::InfantDeath,
            old(registry)@.len() as int,
        ),
        living(final(registry)@) + died.len() == living(old(registry)@),
{
    let n = registry.len();
    let mut marks: Vec<bool> = Vec::new();
    while marks.len() < n
        invariant
            n == registry@.len(),
            marks.len() <= n,
            forall|i: int|
                0 <= i < marks.len() ==> #[trigger] marks[i] == infant_marks(
                    registry@,
                    date,
                    rate,
                    draws@,
                )[i],
        decreases n - marks.len(),
    {
        let i = marks.len();
        let doomed = match registry.get(i) {
            Some(citizen) => date.days_since(citizen.birthday) == FIRST_YEAR_DAYS && i
                < draws.len() && draws[i] < rate,
            None => false,
        };
        marks.push(doomed);
    }
    proof {
        assert(marks@ =~= infant_marks(registry@, date, rate, draws@));
    }
    bury_marked(registry, &marks, colony, DeathReason::InfantDeath)
}

/// Whether `after` is what infant mortality at the given rate leaves of `before` on `date`
/// for some draws below a billion, one for each place. At a rate of a billion or more every
/// child put to the test dies.
pub open spec fn infancy_took(
    before: Seq<Option<Citizen>>,
    after: Seq<Option<Citizen>>,
    date: Date,
    rate: u32,
) -> bool {
    exists|draws: Seq<u32>|
        draws.len() == before.len() && below_certain(draws) && after == struck(
            before,
            #[trigger] infant_marks(before, date, rate, draws),
        )
}

/// Death in the first year of life, with a draw below a billion rolled for each place.
/// Whatever the draws: some of the living are gone, nobody else changes, each death is
/// reported, and the living shrink by the number of deaths reported.
pub fn infant_mortality(registry: &mut Registry, date: Date, colony: usize, rate: u32) -> (died:
    Vec<CitizenDied>)
    ensures
        infancy_took(old(registry)@, final(registry)@, date, rate),
        thinned(old(registry)@, final(registry)@),
        reported(old(registry)@, final(registry)@, died@, colony, DeathReason::InfantDeath),
        living(final(registry)@) + died.len() == living(old(registry)@),
{
    let draws = uniform_many(registry.len(), 0, CERTAIN - 1);
    let died = infant_mortality_with(registry, date, colony, rate, &draws);
    proof {
        let marks = infant_marks(old(registry)@, date, rate, draws@);
        lemma_struck_is_thinned(old(registry)@, marks, colony, DeathReason::InfantDeath);
    }
    died
}

/// On a curve that does not fall with age, death from old age does not grow less likely
/// with age: a draw that kills at one age kills at every greater age.
pub proof fn lemma_old_age_death_rises_with_age(curve: Seq<u32>, younger: int, older: int, draw: u32)
    requires
        0 <= younger <= older,
        forall|a: int, b: int| 0 <= a <= b < curve.len() ==> curve[a] <= curve[b],
        draw <= chance_at(curve, younger),
    ensures
        draw <= chance_at(curve, older),
{
}

} // verus!
