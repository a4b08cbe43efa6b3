//! What is recorded of a citizen.

use crate::time::Date;
use vstd::prelude::*;

verus! {

/// Age at which a youngling becomes employable.
pub const WORKING_AGE: u32 = 18;

/// Age at which a citizen retires.
pub const RETIREMENT_AGE: u32 = 65;

/// Days without a meal that a citizen survives; one more is fatal.
pub const STARVATION_LIMIT: u32 = 21;

#[derive(Clone, Copy, PartialEq, Eq, Structural, Debug)]
pub enum Sex {
    Female,
    Male,
}

/// The stage of life, which follows from the age alone.
#[derive(Clone, Copy, PartialEq, Eq, Structural, Debug)]
pub enum Cohort {
    /// Under working age.
    Youngling,
    /// Of working age.
    Employable,
    /// Past retirement age.
    Retiree,
}

/// The work of an employed citizen. Farms are numbered within the colony.
#[derive(Clone, Copy, PartialEq, Eq, Structural, Debug)]
pub enum Job {
    WheatFarmer { farm: usize },
    CowFarmer { farm: usize },
}

/// A citizen who went without a meal.
#[derive(Clone, Copy, PartialEq, Eq, Structural, Debug)]
pub struct Starving {
    pub days_since_last_meal: u32,
}

/// A scheduled window of fertility. From the day it is scheduled to the day it is over, the
/// woman counts as ovulating.
#[derive(Clone, Copy, PartialEq, Eq, Structural, Debug)]
pub struct Ovulation {
    pub ovulation_start_date: Date,
    /// Length of the window in days.
    pub length: u32,
}

#[derive(Clone, Copy, PartialEq, Eq, Structural, Debug)]
pub struct Pregnancy {
    pub baby_due_date: Date,
}

/// Where a woman stands in her cycle. Being one value, it cannot hold two pregnancies.
#[derive(Clone, Copy, PartialEq, Eq, Structural, Debug)]
pub enum Reproduction {
    Resting,
    Ovulating(Ovulation),
    Pregnant(Pregnancy),
}

/// One person.
#[derive(Clone, Copy, PartialEq, Eq, Structural, Debug)]
pub struct Citizen {
    pub birthday: Date,
    pub sex: Sex,
    pub cohort: Cohort,
    /// The job held, if any.
    pub job: Option<Job>,
    /// The partner's number in the registry.
    pub spouse: Option<usize>,
    /// Whether a partner of this citizen has died.
    pub widowed: bool,
    pub reproduction: Reproduction,
    /// Children born to this citizen.
    pub children_had: u32,
    /// Present from the first missed meal to the next meal eaten.
    pub starving: Option<Starving>,
}

/// Head counts and averages of one colony.
#[derive(Clone, Copy, PartialEq, Eq, Structural, Debug)]
pub struct Population {
    pub count: usize,
    pub working_pop: usize,
    pub younglings: usize,
    pub retirees: usize,
    /// Mean age in whole years, rounded down; zero for an empty colony.
    pub average_age: usize,
    /// Mean number of children per woman in thousandths, rounded down; zero without women.
    pub average_children_per_mother: u128,
}

impl Starving {
    pub open spec fn has_died(self) -> bool {
        self.days_since_last_meal > STARVATION_LIMIT
    }

    /// Whether the hunger has lasted longer than a citizen survives.
    pub fn died(&self) -> (dead: bool)
        ensures
            dead == self.has_died(),
    {
        self.days_since_last_meal > STARVATION_LIMIT
    }
}

impl Cohort {
    /// The stage of life that goes with an age in whole years.
    pub open spec fn of_age(age: int) -> Cohort {
        if age < WORKING_AGE {
            Cohort::Youngling
        } else if age < RETIREMENT_AGE {
            Cohort::Employable
        } else {
            Cohort::Retiree
        }
    }

    pub fn for_age(age: u32) -> (cohort: Cohort)
        ensures
            cohort == Cohort::of_age(age as int),
    {
        if age < WORKING_AGE {
            Cohort::Youngling
        } else if age < RETIREMENT_AGE {
            Cohort::Employable
        } else {
            Cohort::Retiree
        }
    }
}

impl Citizen {
    /// A citizen born on `birthday`, of the cohort that goes with `age`, with no job, no
    /// partner and no child.
    pub open spec fn fresh(birthday: Date, sex: Sex, age: int) -> Citizen {
        Citizen {
            birthday,
            sex,
            cohort: Cohort::of_age(age),
            job: None,
            spouse: None,
            widowed: false,
            reproduction: Reproduction::Resting,
            children_had: 0,
            starving: None,
        }
    }

    pub fn new(birthday: Date, sex: Sex, age: u32) -> (citizen: Citizen)
        ensures
            citizen == Citizen::fresh(birthday, sex, age as int),
    {
        Citizen {
            birthday,
            sex,
            cohort: Cohort::for_age(age),
            job: None,
            spouse: None,
            widowed: false,
            reproduction: Reproduction::Resting,
            children_had: 0,
            starving: None,
        }
    }

    pub open spec fn is_youngling(self) -> bool {
        self.cohort == Cohort::Youngling
    }

    pub open spec fn is_retiree(self) -> bool {
        self.cohort == Cohort::Retiree
    }

    pub open spec fn is_pregnant(self) -> bool {
        self.reproduction is Pregnant
    }

    pub open spec fn is_ovulating(self) -> bool {
        self.reproduction is Ovulating
    }

    /// Of working age and not with child: may hold or take a job.
    pub open spec fn is_employable(self) -> bool {
        self.cohort == Cohort::Employable && !self.is_pregnant()
    }

    /// Employable and without a job.
    pub open spec fn is_free_to_work(self) -> bool {
        self.is_employable() && self.job is None
    }

    pub fn employable(&self) -> (yes: bool)
        ensures
            yes == self.is_employable(),
    {
        match (self.cohort, self.reproduction) {
            (Cohort::Employable, Reproduction::Pregnant(_)) => false,
            (Cohort::Employable, _) => true,
            _ => false,
        }
    }

    pub fn free_to_work(&self) -> (yes: bool)
        ensures
            yes == self.is_free_to_work(),
    {
        self.employable() && self.job.is_none()
    }

    pub fn pregnant(&self) -> (yes: bool)
        ensures
            yes == self.is_pregnant(),
    {
        match self.reproduction {
            Reproduction::Pregnant(_) => true,
            _ => false,
        }
    }
}

} // verus!
