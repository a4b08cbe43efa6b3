//! The citizens of a colony: who they are, how they are stored, and the daily steps that
//! make them grow up, pair, bear children, eat and die.

pub mod components;
pub mod dying;
pub mod events;
pub mod food_consumption;
pub mod giving_birth;
pub mod registry;
pub mod relationships;

use self::components::{Citizen, Cohort, Population, Sex, RETIREMENT_AGE};
use self::events::{CitizenBirthday, CitizenCreated};
use self::registry::{
    alive, living, lemma_living_push, partners_kept, same_people, Registry,
};
use crate::common::utils::{chance_met, roll_at, roll_succeeds, rolled, uniform_many};
use crate::time::{civil_year, day_number_of_yo, Date, FIRST_DAY, LAST_DAY};
use vstd::prelude::*;

verus! {

/// Why a colony could not be peopled.
#[derive(Clone, Copy, PartialEq, Eq, Structural, Debug)]
pub enum SeedError {
    /// The birthday of the newcomer with this place in the list of ages is not on the
    /// calendar.
    OffCalendar { newcomer: usize },
}

/// The birthday of a newcomer who is said to be `age` on `date`: the `ordinal`-th day of the
/// year that lies `age` years before the current one. `None` where the calendar has no such
/// day.
pub open spec fn seed_birthday(date: Date, age: u32, ordinal: u32) -> Option<Date> {
    if date.valid() && civil_year(date.days as int) - age >= i32::MIN {
        match day_number_of_yo(civil_year(date.days as int) - age, ordinal as int) {
            Some(n) if FIRST_DAY <= n <= LAST_DAY => Some(Date { days: n as i32 }),
            _ => None,
        }
    } else {
        None
    }
}

/// The sex that a roll from 0 to 100 decides: male where it meets an even chance.
pub open spec fn sex_of_roll(roll: u32) -> Sex {
    if chance_met(50, roll) {
        Sex::Male
    } else {
        Sex::Female
    }
}

pub fn sex_for_roll(roll: u32) -> (sex: Sex)
    ensures
        sex == sex_of_roll(roll),
{
    if roll_succeeds(50, roll) {
        Sex::Male
    } else {
        Sex::Female
    }
}

/// The record of a newcomer: born on the birthday that `age` and `ordinal` give, of the sex
/// that `roll` decides, and of the cohort that goes with the age reached on `date`.
pub open spec fn newcomer(date: Date, age: u32, ordinal: u32, roll: u32) -> Citizen {
    let birthday = seed_birthday(date, age, ordinal)->0;
    Citizen::fresh(birthday, sex_of_roll(roll), date.age_of(birthday))
}

/// The newcomers that a list of ages gives, with the ordinal and the roll kept for each.
pub open spec fn newcomers(date: Date, ages: Seq<u32>, ordinals: Seq<u32>, rolls: Seq<u32>) -> Seq<
    Option<Citizen>,
> {
    Seq::new(
        ages.len(),
        |k: int| Some(newcomer(date, ages[k], rolled(ordinals, k), rolled(rolls, k))),
    )
}

/// The notices of the arrival of newcomers in a registry that had `places` places.
pub open spec fn arrivals(colony: usize, places: nat, ages: Seq<u32>) -> Seq<CitizenCreated> {
    Seq::new(
        ages.len(),
        |k: int| CitizenCreated { age: ages[k] as usize, colony, citizen: (places + k) as usize },
    )
}

/// The first newcomer whose birthday is not on the calendar, if there is one.
pub open spec fn first_off_calendar(date: Date, ages: Seq<u32>, ordinals: Seq<u32>, n: int) -> Option<
    int,
>
    decreases n,
{
    if n <= 0 {
        None
    } else {
        match first_off_calendar(date, ages, ordinals, n - 1) {
            Some(k) => Some(k),
            None => if seed_birthday(date, ages[n - 1], rolled(ordinals, n - 1)) is None {
                Some(n - 1)
            } else {
                None
            },
        }
    }
}

/// Whether every newcomer of a list of ages has a birthday on the calendar, whatever the
/// day of the year: the day lies on the calendar, and every age is less than its year, so
/// that nobody was born before year 1.
pub open spec fn born_on_calendar(date: Date, ages: Seq<u32>) -> bool {
    date.valid() && forall|k: int|
        0 <= k < ages.len() ==> #[trigger] ages[k] < civil_year(date.days as int)
}

fn birthday_for(date: Date, age: u32, ordinal: u32) -> (birthday: Option<Date>)
    ensures
        birthday == seed_birthday(date, age, ordinal),
        date.valid() && age < civil_year(date.days as int) && 1 <= ordinal <= 365
            ==> birthday is Some,
{
    match date.year() {
        Some(year) => {
            let born: i64 = year as i64 - age as i64;
            if born >= i32::MIN as i64 {
                Date::from_yo(born as i32, ordinal)
            } else {
                None
            }
        },
        None => None,
    }
}

/// Whether `after` and `result` are what peopling the registry `before` comes to, with the
/// ordinal and the roll kept for each newcomer. Where the birthday of some newcomer is not on
/// the calendar, the first such newcomer is named and nobody is added. Else every newcomer
/// is added at the end, as [`newcomer`] says, and reported with the age from the list.
pub open spec fn seeding(
    before: Seq<Option<Citizen>>,
    after: Seq<Option<Citizen>>,
    result: Result<Vec<CitizenCreated>, SeedError>,
    date: Date,
    colony: usize,
    ages: Seq<u32>,
    ordinals: Seq<u32>,
    rolls: Seq<u32>,
) -> bool {
    match first_off_calendar(date, ages, ordinals, ages.len() as int) {
        Some(k) => result == Err::<Vec<CitizenCreated>, SeedError>(
            SeedError::OffCalendar { newcomer: k as usize },
        ) && after == before,
        None => result is Ok && result->Ok_0@ == arrivals(colony, before.len(), ages) && after
            == before + newcomers(date, ages, ordinals, rolls),
    }
}

/// Peoples a colony with one citizen for each age in `ages`, given for each an ordinal day of
/// the year and a roll from 0 to 100. Each newcomer is recorded as [`newcomer`] says and
/// reported with the age from the list. Where the birthday of any newcomer is not on the
/// calendar, nobody is added and the first such newcomer is named.
pub fn init_citizens_with(
    registry: &mut Registry,
    date: Date,
    colony: usize,
    ages: &Vec<u32>,
    ordinals: &Vec<u32>,
    rolls: &Vec<u32>,
) -> (result: Result<Vec<CitizenCreated>, SeedError>)
    ensures
        seeding(
            old(registry)@,
            final(registry)@,
            result,
            date,
            colony,
            ages@,
            ordinals@,
            rolls@,
        ),
        result is Ok ==> living(final(registry)@) == living(old(registry)@) + ages.len(),
        born_on_calendar(date, ages@) && (forall|k: int|
            0 <= k < ages.len() ==> 1 <= #[trigger] rolled(ordinals@, k) <= 365) ==> result is Ok,
{
    let n = ages.len();
    let mut birthdays: Vec<Date> = Vec::new();
    while birthdays.len() < n
        invariant
            n == ages.len(),
            birthdays.len() <= n,
            first_off_calendar(date, ages@, ordinals@, birthdays.len() as int) is None,
            forall|k: int|
                0 <= k < birthdays.len() ==> Some(#[trigger] birthdays[k]) == seed_birthday(
                    date,
                    ages[k],
                    rolled(ordinals@, k),
                ),
        decreases n - birthdays.len(),
    {
        let k = birthdays.len();
        match birthday_for(date, ages[k], roll_at(ordinals, k)) {
            Some(birthday) => {
                birthdays.push(birthday);
            },
            None => {
                proof {
                    lemma_first_off_calendar_stays(date, ages@, ordinals@, k + 1, n as int);
                }
                return Err(SeedError::OffCalendar { newcomer: k });
            },
        }
    }
    let mut created: Vec<CitizenCreated> = Vec::new();
    let mut k: usize = 0;
    while k < n
        invariant
            n == ages.len(),
            birthdays.len() == n,
            k <= n,
            forall|j: int|
                0 <= j < n ==> Some(#[trigger] birthdays[j]) == seed_birthday(
                    date,
                    ages[j],
                    rolled(ordinals@, j),
                ),
            registry@ == old(registry)@ + newcomers(date, ages@, ordinals@, rolls@).take(k as int),
            created@ == arrivals(colony, old(registry)@.len(), ages@).take(k as int),
            living(registry@) == living(old(registry)@) + k,
        decreases n - k,
    {
        let birthday = birthdays[k];
        let citizen = Citizen::new(birthday, sex_for_roll(roll_at(rolls, k)), date.age(birthday));
        let ghost before = registry@;
        let id = registry.spawn(citizen);
        created.push(CitizenCreated { age: ages[k] as usize, colony, citizen: id });
        proof {
            let all = newcomers(date, ages@, ordinals@, rolls@);
            assert(all[k as int] == Some(citizen));
            assert(all.take(k + 1) =~= all.take(k as int).push(all[k as int]));
            assert(registry@ =~= old(registry)@ + all.take(k + 1));
            let notices = arrivals(colony, old(registry)@.len(), ages@);
            assert(notices.take(k + 1) =~= notices.take(k as int).push(notices[k as int]));
            lemma_living_push(before, Some(citizen));
        }
        k = k + 1;
    }
    proof {
        let all = newcomers(date, ages@, ordinals@, rolls@);
        assert(all.take(n as int) =~= all);
        let notices = arrivals(colony, old(registry)@.len(), ages@);
        assert(notices.take(n as int) =~= notices);
    }
    Ok(created)
}

/// Once a newcomer off the calendar is found among the first `n`, it stays the first among
/// any more.
pub proof fn lemma_first_off_calendar_stays(
    date: Date,
    ages: Seq<u32>,
    ordinals: Seq<u32>,
    n: int,
    m: int,
)
    requires
        first_off_calendar(date, ages, ordinals, n) is Some,
        n <= m,
    ensures
        first_off_calendar(date, ages, ordinals, m) == first_off_calendar(date, ages, ordinals, n),
    decreases m - n,
{
    if n < m {
        lemma_first_off_calendar_stays(date, ages, ordinals, n, m - 1);
    }
}

/// Whether `after` is `before` with the newcomers that some ordinals from 1 to 365 and some
/// rolls from 0 to 100 give for `ages`.
pub open spec fn seeded(
    before: Seq<Option<Citizen>>,
    after: Seq<Option<Citizen>>,
    date: Date,
    ages: Seq<u32>,
) -> bool {
    exists|ordinals: Seq<u32>, rolls: Seq<u32>|
        {
            &&& ordinals.len() == ages.len()
            &&& rolls.len() == ages.len()
            &&& forall|k: int| 0 <= k < ordinals.len() ==> 1 <= #[trigger] ordinals[k] <= 365
            &&& forall|k: int| 0 <= k < rolls.len() ==> #[trigger] rolls[k] <= 100
            &&& after == before + #[trigger] newcomers(date, ages, ordinals, rolls)
        }
}

/// Whether `after` and `result` are what peopling the registry `before` comes to for some
/// ordinals from 1 to 365 and some rolls from 0 to 100: see [`seeding`].
pub open spec fn seeding_rolled(
    before: Seq<Option<Citizen>>,
    after: Seq<Option<Citizen>>,
    result: Result<Vec<CitizenCreated>, SeedError>,
    date: Date,
    colony: usize,
    ages: Seq<u32>,
) -> bool {
    exists|ordinals: Seq<u32>, rolls: Seq<u32>|
        {
            &&& ordinals.len() == ages.len()
            &&& rolls.len() == ages.len()
            &&& forall|k: int| 0 <= k < ordinals.len() ==> 1 <= #[trigger] ordinals[k] <= 365
            &&& forall|k: int| 0 <= k < rolls.len() ==> #[trigger] rolls[k] <= 100
            &&& #[trigger] seeding(before, after, result, date, colony, ages, ordinals, rolls)
        }
}

/// Peoples a colony with one citizen for each age in `ages`, rolling for each the day of the
/// year of the birthday and the sex. Whatever the rolls, the outcome is the one that
/// [`init_citizens_with`] has for them: it fails, naming the first newcomer whose birthday is
/// not on the calendar and adding nobody, exactly where there is such a newcomer; else
/// everybody is added, each as [`newcomer`] says, and each is reported. It succeeds wherever
/// the day lies on the calendar and every age is less than the year of the day. An empty
/// list of ages always succeeds, and on a day that is not on the calendar the first newcomer
/// always fails.
pub fn init_citizens(registry: &mut Registry, date: Date, colony: usize, ages: &Vec<u32>) -> (result:
    Result<Vec<CitizenCreated>, SeedError>)
    ensures
        seeding_rolled(old(registry)@, final(registry)@, result, date, colony, ages@),
        born_on_calendar(date, ages@) ==> result is Ok,
        ages.len() == 0 ==> result is Ok,
        ages.len() > 0 && !date.valid() ==> result == Err::<Vec<CitizenCreated>, SeedError>(
            SeedError::OffCalendar { newcomer: 0 },
        ),
        result is Err ==> final(registry)@ == old(registry)@,
        result is Ok ==> seeded(old(registry)@, final(registry)@, date, ages@),
        result is Ok ==> result->Ok_0@ == arrivals(colony, old(registry)@.len(), ages@),
        result is Ok ==> living(final(registry)@) == living(old(registry)@) + ages.len(),
{
    let ordinals = uniform_many(ages.len(), 1, 365);
    let rolls = uniform_many(ages.len(), 0, 100);
    let result = init_citizens_with(registry, date, colony, ages, &ordinals, &rolls);
    proof {
        assert forall|k: int| 0 <= k < ages.len() implies 1 <= #[trigger] rolled(ordinals@, k)
            <= 365 by {
            assert(rolled(ordinals@, k) == ordinals[k]);
        }
        assert(seeding(
            old(registry)@,
            registry@,
            result,
            date,
            colony,
            ages@,
            ordinals@,
            rolls@,
        ));
        if ages.len() > 0 && !date.valid() {
            assert(first_off_calendar(date, ages@, ordinals@, 0) is None);
            assert(first_off_calendar(date, ages@, ordinals@, 1) == Some(0int));
            lemma_first_off_calendar_stays(date, ages@, ordinals@, 1, ages.len() as int);
        }
        if result is Ok {
            assert(registry@ == old(registry)@ + newcomers(date, ages@, ordinals@, rolls@));
        }
    }
    result
}

/// The sum over the living of what `f` gives for each.
pub open spec fn total(s: Seq<Option<Citizen>>, f: spec_fn(Citizen) -> int) -> int
    decreases s.len(),
{
    if s.len() == 0 {
        0
    } else {
        total(s.drop_last(), f) + match s.last() {
            Some(citizen) => f(citizen),
            None => 0,
        }
    }
}

/// Counts a citizen who is of working age and not with child.
pub open spec fn if_working() -> spec_fn(Citizen) -> int {
    |c: Citizen|
        if c.is_employable() {
            1int
        } else {
            0int
        }
}

/// Counts a youngling.
pub open spec fn if_youngling() -> spec_fn(Citizen) -> int {
    |c: Citizen|
        if c.is_youngling() {
            1int
        } else {
            0int
        }
}

/// Counts a retiree.
pub open spec fn if_retiree() -> spec_fn(Citizen) -> int {
    |c: Citizen|
        if c.is_retiree() {
            1int
        } else {
            0int
        }
}

/// Counts a woman.
pub open spec fn if_woman() -> spec_fn(Citizen) -> int {
    |c: Citizen|
        if c.sex == Sex::Female {
            1int
        } else {
            0int
        }
}

/// The children of a woman, nothing for a man.
pub open spec fn children_of_woman() -> spec_fn(Citizen) -> int {
    |c: Citizen|
        if c.sex == Sex::Female {
            c.children_had as int
        } else {
            0int
        }
}

/// The age of a citizen on `date`.
pub open spec fn age_on(date: Date) -> spec_fn(Citizen) -> int {
    |c: Citizen| date.age_of(c.birthday)
}

/// The mean of `count` values that add up to `sum`, rounded down; zero of no values.
pub open spec fn mean(sum: int, count: int) -> int {
    if count > 0 {
        sum / count
    } else {
        0
    }
}

/// The head counts and averages of the living on `date`.
pub open spec fn census(s: Seq<Option<Citizen>>, date: Date) -> Population {
    Population {
        count: living(s) as usize,
        working_pop: total(s, if_working()) as usize,
        younglings: total(s, if_youngling()) as usize,
        retirees: total(s, if_retiree()) as usize,
        average_age: mean(total(s, age_on(date)), living(s) as int) as usize,
        average_children_per_mother: mean(
            1000 * total(s, children_of_woman()),
            total(s, if_woman()),
        ) as u128,
    }
}

/// Counts the colony anew: the living, those of working age and not with child, the
/// younglings, the retirees, the mean age and the mean number of children per woman.
pub fn update_population(registry: &Registry, date: Date) -> (population: Population)
    ensures
        population == census(registry@, date),
{
    let n = registry.len();
    let mut count: usize = 0;
    let mut working: usize = 0;
    let mut younglings: usize = 0;
    let mut retirees: usize = 0;
    let mut women: usize = 0;
    let mut ages: u128 = 0;
    let mut children: u128 = 0;
    let mut i: usize = 0;
    while i < n
        invariant
            i <= n,
            n == registry@.len(),
            count == living(registry@.take(i as int)),
            working == total(registry@.take(i as int), if_working()),
            younglings == total(registry@.take(i as int), if_youngling()),
            retirees == total(registry@.take(i as int), if_retiree()),
            women == total(registry@.take(i as int), if_woman()),
            ages == total(registry@.take(i as int), age_on(date)),
            children == total(registry@.take(i as int), children_of_woman()),
            count <= i,
            working <= i,
            younglings <= i,
            retirees <= i,
            women <= i,
            ages <= count * u32::MAX,
            children <= women * u32::MAX,
        decreases n - i,
    {
        proof {
            assert(registry@.take(i + 1).drop_last() =~= registry@.take(i as int));
            assert(count * u32::MAX + u32::MAX == (count + 1) * u32::MAX) by (nonlinear_arith);
            assert(women * u32::MAX + u32::MAX == (women + 1) * u32::MAX) by (nonlinear_arith);
            assert(count * u32::MAX <= usize::MAX * u32::MAX) by (nonlinear_arith)
                requires
                    count <= usize::MAX,
            ;
            assert(women * u32::MAX <= usize::MAX * u32::MAX) by (nonlinear_arith)
                requires
                    women <= usize::MAX,
            ;
        }
        match registry.get(i) {
            Some(citizen) => {
                count = count + 1;
                if citizen.employable() {
                    working = working + 1;
                }
                match citizen.cohort {
                    Cohort::Youngling => {
                        younglings = younglings + 1;
                    },
                    Cohort::Retiree => {
                        retirees = retirees + 1;
                    },
                    Cohort::Employable => {},
                }
                match citizen.sex {
                    Sex::Female => {
                        women = women + 1;
                        children = children + citizen.children_had as u128;
                    },
                    Sex::Male => {},
                }
                ages = ages + date.age(citizen.birthday) as u128;
            },
            None => {},
        }
        i = i + 1;
    }
    proof {
        assert(registry@.take(n as int) =~= registry@);
    }
    let average_age: usize = if count > 0 {
        proof {
            assert(ages / (count as u128) <= u32::MAX) by (nonlinear_arith)
                requires
                    ages <= count * u32::MAX,
                    count > 0,
            ;
        }
        (ages / count as u128) as usize
    } else {
        0
    };
    let average_children: u128 = if women > 0 {
        proof {
            assert(children * 1000 <= usize::MAX * usize::MAX * 1000) by (nonlinear_arith)
                requires
                    children <= women * u32::MAX,
                    women <= usize::MAX,
            ;
        }
        1000 * children / women as u128
    } else {
        0
    };
    Population {
        count,
        working_pop: working,
        younglings,
        retirees,
        average_age,
        average_children_per_mother: average_children,
    }
}

/// The birthdays among the first `n` places on `date`: for each living citizen whose birthday
/// returns that day, a notice with the age reached.
pub open spec fn birthdays(s: Seq<Option<Citizen>>, date: Date, n: int) -> Seq<CitizenBirthday>
    decreases n,
{
    if n <= 0 {
        Seq::empty()
    } else if s[n - 1] is Some && date.is_anniversary_of(s[n - 1]->0.birthday) {
        birthdays(s, date, n - 1).push(
            CitizenBirthday {
                entity: (n - 1) as usize,
                age: date.age_of(s[n - 1]->0.birthday) as usize,
            },
        )
    } else {
        birthdays(s, date, n - 1)
    }
}

/// Finds whose birthday it is.
pub fn check_birthdays(registry: &Registry, date: Date) -> (events: Vec<CitizenBirthday>)
    ensures
        events@ == birthdays(registry@, date, registry@.len() as int),
{
    let n = registry.len();
    let mut events: Vec<CitizenBirthday> = Vec::new();
    let mut i: usize = 0;
    while i < n
        invariant
            i <= n,
            n == registry@.len(),
            events@ == birthdays(registry@, date, i as int),
        decreases n - i,
    {
        match registry.get(i) {
            Some(citizen) => {
                if date.is_birthday_of(citizen.birthday) {
                    events.push(
                        CitizenBirthday { entity: i, age: date.age(citizen.birthday) as usize },
                    );
                }
            },
            None => {},
        }
        i = i + 1;
    }
    events
}

/// The record of a citizen who turns `age` and is not yet of retirement age: the cohort is
/// the one that goes with the age. Others stay as they are.
pub open spec fn grown(citizen: Citizen, age: int) -> Citizen {
    if age < RETIREMENT_AGE {
        Citizen { cohort: Cohort::of_age(age), ..citizen }
    } else {
        citizen
    }
}

/// The record of a citizen who turns `age` and is of retirement age: a retiree without a
/// job. Others stay as they are.
pub open spec fn retired(citizen: Citizen, age: int) -> Citizen {
    if age >= RETIREMENT_AGE {
        Citizen { cohort: Cohort::Retiree, job: None, ..citizen }
    } else {
        citizen
    }
}

/// The registry after the first `n` of the birthdays were seen to, one after the other, `f`
/// giving the new record from the old one and the age reached. A birthday of someone who is
/// not alive changes nothing.
pub open spec fn after_birthdays(
    s: Seq<Option<Citizen>>,
    events: Seq<CitizenBirthday>,
    n: int,
    f: spec_fn(Citizen, int) -> Citizen,
) -> Seq<Option<Citizen>>
    decreases n,
{
    if n <= 0 {
        s
    } else {
        let before = after_birthdays(s, events, n - 1, f);
        let who = events[n - 1].entity as int;
        if alive(before, who) {
            before.update(who, Some(f(before[who]->0, events[n - 1].age as int)))
        } else {
            before
        }
    }
}

/// [`grown`] as a function.
pub open spec fn growing() -> spec_fn(Citizen, int) -> Citizen {
    |citizen: Citizen, age: int| grown(citizen, age)
}

/// [`retired`] as a function.
pub open spec fn retiring() -> spec_fn(Citizen, int) -> Citizen {
    |citizen: Citizen, age: int| retired(citizen, age)
}

/// The registry after the first `n` of the birthdays were seen to by [`grown`].
pub open spec fn after_coming_of_age(
    s: Seq<Option<Citizen>>,
    events: Seq<CitizenBirthday>,
    n: int,
) -> Seq<Option<Citizen>> {
    after_birthdays(s, events, n, growing())
}

/// The registry after the first `n` of the birthdays were seen to by [`retired`].
pub open spec fn after_retirement(
    s: Seq<Option<Citizen>>,
    events: Seq<CitizenBirthday>,
    n: int,
) -> Seq<Option<Citizen>> {
    after_birthdays(s, events, n, retiring())
}

/// Where the first `n` birthdays are of `n` different living citizens, seeing to them gives
/// each of these the new record that `f` makes of the old one, and leaves everybody else
/// alone.
pub proof fn lemma_after_birthdays(
    s: Seq<Option<Citizen>>,
    events: Seq<CitizenBirthday>,
    n: int,
    f: spec_fn(Citizen, int) -> Citizen,
)
    requires
        0 <= n <= events.len(),
        forall|k: int| 0 <= k < n ==> alive(s, (#[trigger] events[k]).entity as int),
        forall|j: int, k: int|
            0 <= j < k < n ==> (#[trigger] events[j]).entity != (#[trigger] events[k]).entity,
    ensures
        after_birthdays(s, events, n, f).len() == s.len(),
        forall|k: int|
            0 <= k < n ==> after_birthdays(s, events, n, f)[(#[trigger] events[k]).entity as int]
                == Some(f(s[events[k].entity as int]->0, events[k].age as int)),
        forall|i: int|
            0 <= i < s.len() && !mentioned(events, n, i) ==> #[trigger] after_birthdays(
                s,
                events,
                n,
                f,
            )[i] == s[i],
    decreases n,
{
    if n > 0 {
        lemma_after_birthdays(s, events, n - 1, f);
        let before = after_birthdays(s, events, n - 1, f);
        let after = after_birthdays(s, events, n, f);
        let who = events[n - 1].entity as int;
        assert(alive(s, who));
        assert(!mentioned(events, n - 1, who)) by {
            if mentioned(events, n - 1, who) {
                let k = choose|k: int| 0 <= k < n - 1 && (#[trigger] events[k]).entity == who;
                assert(events[k].entity != events[n - 1].entity);
            }
        }
        assert(before[who] == s[who]);
        assert forall|k: int| 0 <= k < n implies after[(#[trigger] events[k]).entity as int]
            == Some(f(s[events[k].entity as int]->0, events[k].age as int)) by {
            if k < n - 1 {
                assert(events[k].entity != events[n - 1].entity);
            }
        }
        assert forall|i: int| 0 <= i < s.len() && !mentioned(events, n, i) implies #[trigger] after[i]
            == s[i] by {
            assert(events[n - 1].entity != i);
            if mentioned(events, n - 1, i) {
                let k = choose|k: int| 0 <= k < n - 1 && (#[trigger] events[k]).entity == i;
                assert(0 <= k < n && events[k].entity == i);
            }
        }
    }
}

/// Whether one of the first `n` birthdays is that of the citizen in place `i`.
pub open spec fn mentioned(events: Seq<CitizenBirthday>, n: int, i: int) -> bool {
    exists|k: int| 0 <= k < n && (#[trigger] events[k]).entity == i
}

/// The birthdays found among the first `n` places are those of living citizens, each with
/// the age reached, and no citizen has two.
pub proof fn lemma_birthdays(s: Seq<Option<Citizen>>, date: Date, n: int)
    requires
        0 <= n <= s.len(),
        s.len() <= usize::MAX,
    ensures
        forall|k: int|
            0 <= k < birthdays(s, date, n).len() ==> {
                let event = #[trigger] birthdays(s, date, n)[k];
                &&& event.entity < n
                &&& s[event.entity as int] is Some
                &&& date.is_anniversary_of(s[event.entity as int]->0.birthday)
                &&& event.age == date.age_of(s[event.entity as int]->0.birthday) as usize
            },
        forall|j: int, k: int|
            0 <= j < k < birthdays(s, date, n).len() ==> (#[trigger] birthdays(
                s,
                date,
                n,
            )[j]).entity < (#[trigger] birthdays(s, date, n)[k]).entity,
    decreases n,
{
    if n > 0 {
        lemma_birthdays(s, date, n - 1);
        let front = birthdays(s, date, n - 1);
        let all = birthdays(s, date, n);
        assert forall|k: int| 0 <= k < all.len() implies ({
            let event = #[trigger] all[k];
            &&& event.entity < n
            &&& s[event.entity as int] is Some
            &&& date.is_anniversary_of(s[event.entity as int]->0.birthday)
            &&& event.age == date.age_of(s[event.entity as int]->0.birthday) as usize
        }) by {
            if k < front.len() {
                assert(all[k] == front[k]);
            }
        }
        assert forall|j: int, k: int| 0 <= j < k < all.len() implies (#[trigger] all[j]).entity < (
        #[trigger] all[k]).entity by {
            assert(all[j] == front[j]);
            if k < front.len() {
                assert(all[k] == front[k]);
            }
        }
    }
}

/// After the birthdays of a day were found and seen to, first by [`come_of_age`] and then by
/// [`retirement`], everyone whose birthday it was is alive and of the cohort that goes with
/// the age reached: a youngling exactly when under 18, a retiree exactly when 65 or older,
/// and never both.
pub proof fn lemma_birthdays_settle_cohorts(s: Seq<Option<Citizen>>, date: Date)
    requires
        s.len() <= usize::MAX,
    ensures
        ({
            let events = birthdays(s, date, s.len() as int);
            let after = after_retirement(
                after_coming_of_age(s, events, events.len() as int),
                events,
                events.len() as int,
            );
            forall|k: int|
                0 <= k < events.len() ==> {
                    let who = (#[trigger] events[k]).entity as int;
                    &&& after[who] is Some
                    &&& after[who]->0.cohort == Cohort::of_age(events[k].age as int)
                    &&& after[who]->0.is_youngling() <==> events[k].age < 18
                    &&& after[who]->0.is_retiree() <==> events[k].age >= 65
                    &&& !(after[who]->0.is_youngling() && after[who]->0.is_retiree())
                }
        }),
{
    let events = birthdays(s, date, s.len() as int);
    let n = events.len() as int;
    lemma_birthdays(s, date, s.len() as int);
    assert forall|k: int| 0 <= k < n implies alive(s, (#[trigger] events[k]).entity as int) by {}
    lemma_after_birthdays(s, events, n, growing());
    let between = after_coming_of_age(s, events, n);
    assert forall|k: int| 0 <= k < n implies alive(between, (#[trigger] events[k]).entity as int) by {
        assert(between[events[k].entity as int] == Some(
            growing()(s[events[k].entity as int]->0, events[k].age as int),
        ));
    }
    lemma_after_birthdays(between, events, n, retiring());
    let after = after_retirement(between, events, n);
    assert forall|k: int| 0 <= k < n implies ({
        let who = (#[trigger] events[k]).entity as int;
        &&& after[who] is Some
        &&& after[who]->0.cohort == Cohort::of_age(events[k].age as int)
    }) by {
        let who = events[k].entity as int;
        let age = events[k].age as int;
        assert(between[who] == Some(growing()(s[who]->0, age)));
        assert(after[who] == Some(retiring()(between[who]->0, age)));
        lemma_cohort_follows_age(s[who]->0, age);
    }
}

/// Moves those who have a birthday and are under retirement age to the cohort of their age:
/// who turns 18 stops being a youngling and becomes employable.
pub fn come_of_age(registry: &mut Registry, events: &Vec<CitizenBirthday>)
    ensures
        final(registry)@ == after_coming_of_age(old(registry)@, events@, events.len() as int),
        same_people(old(registry)@, final(registry)@),
        partners_kept(old(registry)@, final(registry)@),
{
    let mut k: usize = 0;
    while k < events.len()
        invariant
            k <= events.len(),
            registry@ == after_coming_of_age(old(registry)@, events@, k as int),
            same_people(old(registry)@, registry@),
            partners_kept(old(registry)@, registry@),
        decreases events.len() - k,
    {
        let event = events[k];
        match registry.get(event.entity) {
            Some(citizen) => {
                if event.age < RETIREMENT_AGE as usize {
                    registry.amend(
                        event.entity,
                        Citizen { cohort: Cohort::for_age(event.age as u32), ..citizen },
                    );
                } else {
                    assert(registry@ =~= registry@.update(event.entity as int, Some(citizen)));
                }
            },
            None => {},
        }
        k = k + 1;
    }
}

/// Retires those who have a birthday and are of retirement age: they become retirees and
/// leave their jobs.
pub fn retirement(registry: &mut Registry, events: &Vec<CitizenBirthday>)
    ensures
        final(registry)@ == after_retirement(old(registry)@, events@, events.len() as int),
        same_people(old(registry)@, final(registry)@),
        partners_kept(old(registry)@, final(registry)@),
{
    let mut k: usize = 0;
    while k < events.len()
        invariant
            k <= events.len(),
            registry@ == after_retirement(old(registry)@, events@, k as int),
            same_people(old(registry)@, registry@),
            partners_kept(old(registry)@, registry@),
        decreases events.len() - k,
    {
        let event = events[k];
        match registry.get(event.entity) {
            Some(citizen) => {
                if event.age >= RETIREMENT_AGE as usize {
                    registry.amend(
                        event.entity,
                        Citizen { cohort: Cohort::Retiree, job: None, ..citizen },
                    );
                } else {
                    assert(registry@ =~= registry@.update(event.entity as int, Some(citizen)));
                }
            },
            None => {},
        }
        k = k + 1;
    }
}

/// After a birthday was seen to by both [`grown`] and [`retired`], the citizen is a
/// youngling exactly when under 18 and a retiree exactly when 65 or older, and never both.
pub proof fn lemma_cohort_follows_age(citizen: Citizen, age: int)
    ensures
        retired(grown(citizen, age), age).cohort == Cohort::of_age(age),
        retired(grown(citizen, age), age).is_youngling() <==> age < 18,
        retired(grown(citizen, age), age).is_retiree() <==> age >= 65,
        !(retired(grown(citizen, age), age).is_youngling() && retired(
            grown(citizen, age),
            age,
        ).is_retiree()),
{
}

} // verus!
