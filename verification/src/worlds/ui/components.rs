//! The series an observer keeps.

use vstd::prelude::*;

verus! {

/// Steps kept of the deaths by cause.
pub const DEATH_STEPS: usize = 25;

/// Steps kept of the levels of the stores.
pub const STORAGE_STEPS: usize = 50;

/// Ages shown in the age chart: 0 to 99.
pub const AGE_BARS: usize = 100;

/// The colony an observer watches, by its number in the world.
#[derive(Clone, Copy, PartialEq, Eq, Structural, Debug)]
pub struct WorldUiEntity(pub usize);

/// Head counts, averages and the age chart of a colony.
#[derive(Debug)]
pub struct PopulationHistorgram {
    pub count: usize,
    pub working_pop: usize,
    pub younglings: usize,
    pub retirees: usize,
    pub average_age: usize,
    /// The number of citizens of each age, the age being the place in the list.
    pub ages: Vec<usize>,
    /// In thousandths.
    pub average_children_per_mother: u128,
}

/// The deaths of the last steps, by cause. The last entry of each line is the current step.
#[derive(Debug)]
pub struct PopulationDeathLines {
    pub old_age_deaths: Vec<usize>,
    pub starvation_deaths: Vec<usize>,
    pub infant_deaths: Vec<usize>,
}

/// The levels of the stores over the last steps. The last entry of each line is the
/// current step.
#[derive(Debug)]
pub struct ResourceStorage {
    pub meat: Vec<u64>,
    pub carb: Vec<u64>,
    pub food: Vec<u64>,
}

/// All that an observer keeps of one colony.
#[derive(Debug)]
pub struct WorldUiBundle {
    pub name: String,
    pub entity: WorldUiEntity,
    pub pop: PopulationHistorgram,
    pub deaths: PopulationDeathLines,
    pub stor: ResourceStorage,
}

/// A line of counts after a step: where the step is finished a new entry of zero opens,
/// and a line longer than `keep` loses its oldest entry.
pub open spec fn stepped<T>(line: Seq<T>, finished: bool, keep: nat, zero: T) -> Seq<T> {
    let grown = if finished {
        line.push(zero)
    } else {
        line
    };
    if grown.len() > keep {
        grown.subrange(1, grown.len() as int)
    } else {
        grown
    }
}

fn step_counts(line: &mut Vec<usize>, finished: bool)
    ensures
        final(line)@ == stepped(old(line)@, finished, DEATH_STEPS as nat, 0usize),
{
    if finished {
        line.push(0);
    }
    if line.len() > DEATH_STEPS {
        let ghost grown = line@;
        line.remove(0);
        assert(line@ =~= grown.subrange(1, grown.len() as int));
    }
}

impl PopulationHistorgram {
    /// Nothing counted yet, and an age chart of zeros.
    pub fn new() -> (chart: Self)
        ensures
            chart.count == 0,
            chart.working_pop == 0,
            chart.younglings == 0,
            chart.retirees == 0,
            chart.average_age == 0,
            chart.average_children_per_mother == 0,
            chart.ages@ == Seq::new(AGE_BARS as nat, |age: int| 0usize),
    {
        let mut ages: Vec<usize> = Vec::new();
        while ages.len() < AGE_BARS
            invariant
                ages.len() <= AGE_BARS,
                forall|i: int| 0 <= i < ages.len() ==> #[trigger] ages[i] == 0,
            decreases AGE_BARS - ages.len(),
        {
            ages.push(0);
        }
        proof {
            assert(ages@ =~= Seq::new(AGE_BARS as nat, |age: int| 0usize));
        }
        PopulationHistorgram {
            count: 0,
            working_pop: 0,
            younglings: 0,
            retirees: 0,
            average_age: 0,
            ages,
            average_children_per_mother: 0,
        }
    }
}

impl PopulationDeathLines {
    /// Three lines with one step each, and no death in it.
    pub fn new() -> (lines: Self)
        ensures
            lines.old_age_deaths@ == seq![0usize],
            lines.starvation_deaths@ == seq![0usize],
            lines.infant_deaths@ == seq![0usize],
    {
        let mut old_age_deaths: Vec<usize> = Vec::new();
        old_age_deaths.push(0);
        let mut starvation_deaths: Vec<usize> = Vec::new();
        starvation_deaths.push(0);
        let mut infant_deaths: Vec<usize> = Vec::new();
        infant_deaths.push(0);
        proof {
            assert(old_age_deaths@ =~= seq![0usize]);
            assert(starvation_deaths@ =~= seq![0usize]);
            assert(infant_deaths@ =~= seq![0usize]);
        }
        PopulationDeathLines { old_age_deaths, starvation_deaths, infant_deaths }
    }

    /// Moves every line one step on where the step is finished, and trims each to the last
    /// 25 steps: see [`stepped`].
    pub fn new_step(&mut self, finished: bool)
        ensures
            final(self).old_age_deaths@ == stepped(
                old(self).old_age_deaths@,
                finished,
                DEATH_STEPS as nat,
                0usize,
            ),
            final(self).starvation_deaths@ == stepped(
                old(self).starvation_deaths@,
                finished,
                DEATH_STEPS as nat,
                0usize,
            ),
            final(self).infant_deaths@ == stepped(
                old(self).infant_deaths@,
                finished,
                DEATH_STEPS as nat,
                0usize,
            ),
    {
        step_counts(&mut self.old_age_deaths, finished);
        step_counts(&mut self.starvation_deaths, finished);
        step_counts(&mut self.infant_deaths, finished);
    }
}

impl ResourceStorage {
    /// Three lines with one step each, at level zero.
    pub fn new() -> (storage: Self)
        ensures
            storage.meat@ == seq![0u64],
            storage.carb@ == seq![0u64],
            storage.food@ == seq![0u64],
    {
        let mut meat: Vec<u64> = Vec::new();
        meat.push(0);
        let mut carb: Vec<u64> = Vec::new();
        carb.push(0);
        let mut food: Vec<u64> = Vec::new();
        food.push(0);
        proof {
            assert(meat@ =~= seq![0u64]);
            assert(carb@ =~= seq![0u64]);
            assert(food@ =~= seq![0u64]);
        }
        ResourceStorage { meat, carb, food }
    }
}

impl WorldUiBundle {
    /// What an observer starts with for the colony of the given name and number.
    pub fn new(name: String, entity: usize) -> (bundle: Self)
        ensures
            bundle.name == name,
            bundle.entity == WorldUiEntity(entity),
            bundle.pop.count == 0,
            bundle.pop.ages@ == Seq::new(AGE_BARS as nat, |age: int| 0usize),
            bundle.deaths.old_age_deaths@ == seq![0usize],
            bundle.deaths.starvation_deaths@ == seq![0usize],
            bundle.deaths.infant_deaths@ == seq![0usize],
            bundle.stor.meat@ == seq![0u64],
            bundle.stor.carb@ == seq![0u64],
            bundle.stor.food@ == seq![0u64],
    {
        WorldUiBundle {
            name,
            entity: WorldUiEntity(entity),
            pop: PopulationHistorgram::new(),
            deaths: PopulationDeathLines::new(),
            stor: ResourceStorage::new(),
        }
    }
}

} // verus!
