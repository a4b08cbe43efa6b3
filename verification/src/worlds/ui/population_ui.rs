//! The population as an observer keeps it.

use super::components::{stepped, PopulationDeathLines, PopulationHistorgram, AGE_BARS, DEATH_STEPS};
use crate::time::Date;
use crate::worlds::population::components::{Citizen, Population};
use crate::worlds::population::events::{CitizenCreated, CitizenDied, DeathReason};
use crate::worlds::population::registry::Registry;
use crate::worlds::population::total;
use vstd::prelude::*;

verus! {

/// A count after one more was counted. Counts stop at the largest a `usize` holds.
pub open spec fn one_more(count: usize) -> usize {
    if count < usize::MAX {
        (count + 1) as usize
    } else {
        usize::MAX
    }
}

/// The age chart after the first `n` arrivals were entered: each arrival in the given colony
/// at an age that the chart has a bar for raises that bar by one.
pub open spec fn with_arrivals(
    ages: Seq<usize>,
    created: Seq<CitizenCreated>,
    colony: usize,
    n: int,
) -> Seq<usize>
    decreases n,
{
    if n <= 0 {
        ages
    } else {
        let before = with_arrivals(ages, created, colony, n - 1);
        let event = created[n - 1];
        if event.colony == colony && event.age < before.len() {
            before.update(event.age as int, one_more(before[event.age as int]))
        } else {
            before
        }
    }
}

/// Enters the arrivals in a colony into its age chart.
pub fn add_citizens_to_population_histogram(
    chart: &mut PopulationHistorgram,
    created: &Vec<CitizenCreated>,
    colony: usize,
)
    ensures
        final(chart).ages@ == with_arrivals(old(chart).ages@, created@, colony, created.len() as int),
        final(chart).count == old(chart).count,
        final(chart).working_pop == old(chart).working_pop,
        final(chart).younglings == old(chart).younglings,
        final(chart).retirees == old(chart).retirees,
        final(chart).average_age == old(chart).average_age,
        final(chart).average_children_per_mother == old(chart).average_children_per_mother,
{
    let mut k: usize = 0;
    while k < created.len()
        invariant
            k <= created.len(),
            chart.ages@ == with_arrivals(old(chart).ages@, created@, colony, k as int),
            chart.count == old(chart).count,
            chart.working_pop == old(chart).working_pop,
            chart.younglings == old(chart).younglings,
            chart.retirees == old(chart).retirees,
            chart.average_age == old(chart).average_age,
            chart.average_children_per_mother == old(chart).average_children_per_mother,
        decreases created.len() - k,
    {
        let event = created[k];
        if event.colony == colony && event.age < chart.ages.len() {
            let bar = chart.ages[event.age];
            let raised: usize = if bar < usize::MAX {
                bar + 1
            } else {
                usize::MAX
            };
            chart.ages.set(event.age, raised);
        }
        k = k + 1;
    }
}

/// Counts a citizen who is `age` on `date`.
pub open spec fn if_aged(date: Date, age: int) -> spec_fn(Citizen) -> int {
    |c: Citizen|
        if date.age_of(c.birthday) == age {
            1int
        } else {
            0int
        }
}

/// Draws the age chart anew: for each age from 0 to 99, the number of the living of that
/// age on `date`.
pub fn update_ages(registry: &Registry, date: Date) -> (ages: Vec<usize>)
    ensures
        ages.len() == AGE_BARS,
        forall|age: int| 0 <= age < AGE_BARS ==> #[trigger] ages[age] == total(registry@, if_aged(date, age)),
{
    let mut ages: Vec<usize> = Vec::new();
    while ages.len() < AGE_BARS
        invariant
            ages.len() <= AGE_BARS,
            forall|i: int| 0 <= i < ages.len() ==> #[trigger] ages[i] == 0,
        decreases AGE_BARS - ages.len(),
    {
        ages.push(0);
    }
    let n = registry.len();
    let mut i: usize = 0;
    while i < n
        invariant
            i <= n,
            n == registry@.len(),
            ages.len() == AGE_BARS,
            forall|age: int|
                0 <= age < AGE_BARS ==> #[trigger] ages[age] == total(
                    registry@.take(i as int),
                    if_aged(date, age),
                ),
            forall|age: int| 0 <= age < AGE_BARS ==> #[trigger] ages[age] <= i,
        decreases n - i,
    {
        proof {
            assert(registry@.take(i + 1).drop_last() =~= registry@.take(i as int));
        }
        match registry.get(i) {
            Some(citizen) => {
                let age = date.age(citizen.birthday);
                if (age as usize) < AGE_BARS {
                    let bar = ages[age as usize];
                    ages.set(age as usize, bar + 1);
                }
            },
            None => {},
        }
        i = i + 1;
    }
    proof {
        assert(registry@.take(n as int) =~= registry@);
    }
    ages
}

/// Takes over the head counts and averages of a census.
pub fn update_general_pop(chart: &mut PopulationHistorgram, population: &Population)
    ensures
        final(chart).count == population.count,
        final(chart).working_pop == population.working_pop,
        final(chart).younglings == population.younglings,
        final(chart).retirees == population.retirees,
        final(chart).average_age == population.average_age,
        final(chart).average_children_per_mother == population.average_children_per_mother,
        final(chart).ages == old(chart).ages,
{
    chart.count = population.count;
    chart.working_pop = population.working_pop;
    chart.younglings = population.younglings;
    chart.retirees = population.retirees;
    chart.average_age = population.average_age;
    chart.average_children_per_mother = population.average_children_per_mother;
}

/// The number of deaths among the first `n` notices that are of the given colony and cause.
pub open spec fn deaths_of(died: Seq<CitizenDied>, colony: usize, reason: DeathReason, n: int) -> nat
    decreases n,
{
    if n <= 0 {
        0
    } else {
        deaths_of(died, colony, reason, n - 1) + if died[n - 1].colony == colony && died[n
            - 1].reason == reason {
            1nat
        } else {
            0nat
        }
    }
}

/// A line of counts after `more` was added to its current step. An empty line takes the
/// number as its first entry. Counts stop at the largest a `usize` holds.
pub open spec fn counted(line: Seq<usize>, more: nat) -> Seq<usize> {
    if line.len() > 0 {
        line.update(
            line.len() - 1,
            if line.last() + more <= usize::MAX {
                (line.last() + more) as usize
            } else {
                usize::MAX
            },
        )
    } else {
        line.push(more as usize)
    }
}

fn count_into(line: &mut Vec<usize>, more: usize)
    ensures
        final(line)@ == counted(old(line)@, more as nat),
{
    let n = line.len();
    if n > 0 {
        let last = line[n - 1];
        let sum: usize = if more <= usize::MAX - last {
            last + more
        } else {
            usize::MAX
        };
        line.set(n - 1, sum);
    } else {
        line.push(more);
    }
}

/// Takes note of the deaths of a colony. The lines first move on as
/// [`PopulationDeathLines::new_step`] says, `finished` telling whether a step is finished;
/// then the current step of each line grows by the deaths of its cause.
pub fn death_events_listener(
    lines: &mut PopulationDeathLines,
    finished: bool,
    died: &Vec<CitizenDied>,
    colony: usize,
)
    ensures
        final(lines).old_age_deaths@ == counted(
            stepped(old(lines).old_age_deaths@, finished, DEATH_STEPS as nat, 0usize),
            deaths_of(died@, colony, DeathReason::OldAge, died.len() as int),
        ),
        final(lines).starvation_deaths@ == counted(
            stepped(old(lines).starvation_deaths@, finished, DEATH_STEPS as nat, 0usize),
            deaths_of(died@, colony, DeathReason::Starvation, died.len() as int),
        ),
        final(lines).infant_deaths@ == counted(
            stepped(old(lines).infant_deaths@, finished, DEATH_STEPS as nat, 0usize),
            deaths_of(died@, colony, DeathReason::InfantDeath, died.len() as int),
        ),
{
    let mut old_age: usize = 0;
    let mut starvation: usize = 0;
    let mut infant: usize = 0;
    let mut k: usize = 0;
    while k < died.len()
        invariant
            k <= died.len(),
            old_age == deaths_of(died@, colony, DeathReason::OldAge, k as int),
            starvation == deaths_of(died@, colony, DeathReason::Starvation, k as int),
            infant == deaths_of(died@, colony, DeathReason::InfantDeath, k as int),
            old_age <= k,
            starvation <= k,
            infant <= k,
        decreases died.len() - k,
    {
        let event = died[k];
        if event.colony == colony {
            match event.reason {
                DeathReason::OldAge => {
                    old_age = old_age + 1;
                },
                DeathReason::Starvation => {
                    starvation = starvation + 1;
                },
                DeathReason::InfantDeath => {
                    infant = infant + 1;
                },
            }
        }
        k = k + 1;
    }
    lines.new_step(finished);
    count_into(&mut lines.old_age_deaths, old_age);
    count_into(&mut lines.starvation_deaths, starvation);
    count_into(&mut lines.infant_deaths, infant);
}

} // verus!
