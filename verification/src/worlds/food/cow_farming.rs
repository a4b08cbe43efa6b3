//! Cattle: the breeding bulls, the calves, the workers and the cull.

use super::components::{
    top_up_many, topped_up, lemma_topped_up_twice, Cow, CowFarm, MeatResource, BREEDERS_WANTED,
    HERD_FLOOR, MEAT_PER_COW, SEASON_DAY, SEASON_MONTH,
};
use super::events::CowFarmNeedsWorker;
use super::{hire, free_workers, only_jobs_changed, open_places, with_jobs};
use crate::common::utils::{chance_met, roll_at, roll_succeeds, rolled, uniform_many};
use crate::time::Date;
use crate::worlds::population::components::{Citizen, Job};
use crate::worlds::population::registry::{same_people, workforce, Registry};
use vstd::prelude::*;

verus! {

/// The number of breeding animals in a herd.
pub open spec fn breeders(herd: Seq<Cow>) -> nat
    decreases herd.len(),
{
    if herd.len() == 0 {
        0
    } else {
        breeders(herd.drop_last()) + if herd.last().is_breeder {
            1nat
        } else {
            0nat
        }
    }
}

/// The place of the first bull of a herd that does not breed yet.
pub open spec fn first_spare_bull(herd: Seq<Cow>) -> Option<int>
    decreases herd.len(),
{
    if herd.len() == 0 {
        None
    } else {
        match first_spare_bull(herd.drop_last()) {
            Some(i) => Some(i),
            None => if herd.last().is_spare_bull() {
                Some(herd.len() - 1)
            } else {
                None
            },
        }
    }
}

/// [`first_spare_bull`] finds a spare bull that no spare bull precedes, and finds one
/// wherever the herd has one.
pub proof fn lemma_first_spare_bull(herd: Seq<Cow>)
    ensures
        first_spare_bull(herd) matches Some(i) ==> 0 <= i < herd.len() && herd[i].is_spare_bull()
            && forall|j: int| 0 <= j < i ==> !(#[trigger] herd[j]).is_spare_bull(),
        first_spare_bull(herd) is None ==> forall|j: int|
            0 <= j < herd.len() ==> !(#[trigger] herd[j]).is_spare_bull(),
    decreases herd.len(),
{
    if herd.len() > 0 {
        lemma_first_spare_bull(herd.drop_last());
        assert forall|j: int| 0 <= j < herd.len() - 1 implies herd[j] == herd.drop_last()[j] by {}
        match first_spare_bull(herd.drop_last()) {
            Some(i) => {
                assert forall|j: int| 0 <= j < i implies !(#[trigger] herd[j]).is_spare_bull() by {
                    assert(herd[j] == herd.drop_last()[j]);
                }
            },
            None => {
                assert forall|j: int| 0 <= j < herd.len() - 1 implies !(
                #[trigger] herd[j]).is_spare_bull() by {
                    assert(herd[j] == herd.drop_last()[j]);
                }
            },
        }
    }
}

/// A herd after its yearly look for breeders: where fewer than two animals breed and there
/// is a bull that does not, the first such bull breeds from now on.
pub open spec fn with_breeder(herd: Seq<Cow>) -> Seq<Cow> {
    match first_spare_bull(herd) {
        Some(i) if breeders(herd) < BREEDERS_WANTED => herd.update(
            i,
            Cow { is_breeder: true, ..herd[i] },
        ),
        _ => herd,
    }
}

/// The number of animals of a herd that are old enough to be culled.
pub open spec fn ripe_count(herd: Seq<Cow>, date: Date) -> nat
    decreases herd.len(),
{
    if herd.len() == 0 {
        0
    } else {
        ripe_count(herd.drop_last(), date) + if herd.last().is_ripe(date) {
            1nat
        } else {
            0nat
        }
    }
}

/// The number of animals that may be culled in a day from a herd of `herd_size` that
/// `workers` workers tend: none from a herd at or under its floor; else what exceeds the
/// floor, but no more than the workers manage, which is 32 animals for every 25 workers.
pub open spec fn cull_quota(herd_size: nat, workers: nat) -> nat {
    if herd_size <= HERD_FLOOR {
        0
    } else if herd_size - HERD_FLOOR <= workers * 32 / 25 {
        (herd_size - HERD_FLOOR) as nat
    } else {
        workers * 32 / 25
    }
}

/// Whether the animal in place `i` is culled: it is old enough, and fewer old enough animals
/// than the quota allows come before it.
pub open spec fn is_culled(herd: Seq<Cow>, date: Date, quota: nat, i: int) -> bool {
    herd[i].is_ripe(date) && ripe_count(herd.take(i), date) < quota
}

/// The animals that a cull leaves, in their old order.
pub open spec fn survivors(herd: Seq<Cow>, date: Date, quota: nat) -> Seq<Cow>
    decreases herd.len(),
{
    if herd.len() == 0 {
        Seq::empty()
    } else if is_culled(herd, date, quota, herd.len() - 1) {
        survivors(herd.drop_last(), date, quota)
    } else {
        survivors(herd.drop_last(), date, quota).push(herd.last())
    }
}

/// The number of animals that a cull takes: the old enough ones, up to the quota.
pub open spec fn culled(herd: Seq<Cow>, date: Date, quota: nat) -> nat {
    if ripe_count(herd, date) < quota {
        ripe_count(herd, date)
    } else {
        quota
    }
}

/// A cull takes exactly the animals that do not survive it.
pub proof fn lemma_cull_conserves(herd: Seq<Cow>, date: Date, quota: nat)
    ensures
        survivors(herd, date, quota).len() + culled(herd, date, quota) == herd.len(),
    decreases herd.len(),
{
    if herd.len() > 0 {
        lemma_cull_conserves(herd.drop_last(), date, quota);
        assert(herd.take(herd.len() - 1) =~= herd.drop_last());
    }
}

/// The calves of a herd: on the day of the season every animal that is not a bull has one,
/// born that day, a cow where its roll meets an even chance and a bull where not. On any
/// other day there are none.
pub open spec fn calves(herd: Seq<Cow>, date: Date, rolls: Seq<u32>) -> Seq<Cow>
    decreases herd.len(),
{
    if herd.len() == 0 || !date.falls_on(SEASON_MONTH as int, SEASON_DAY as int) {
        Seq::empty()
    } else if herd.last().is_bull {
        calves(herd.drop_last(), date, rolls)
    } else {
        calves(herd.drop_last(), date, rolls).push(
            Cow {
                birthday: date,
                is_bull: !chance_met(50, rolled(rolls, herd.len() - 1)),
                is_breeder: false,
            },
        )
    }
}

impl CowFarm {
    /// Sees to it that the herd has breeders: see [`with_breeder`].
    pub fn mark_breeder(&mut self)
        ensures
            final(self).size == old(self).size,
            final(self).herd@ == with_breeder(old(self).herd@),
    {
        let mut breeding: usize = 0;
        let mut spare: Option<usize> = None;
        let mut i: usize = 0;
        while i < self.herd.len()
            invariant
                i <= self.herd.len(),
                breeding == breeders(self.herd@.take(i as int)),
                breeding <= i,
                spare matches Some(k) ==> first_spare_bull(self.herd@.take(i as int)) == Some(
                    k as int,
                ) && k < i,
                spare is None ==> first_spare_bull(self.herd@.take(i as int)) is None,
            decreases self.herd.len() - i,
        {
            proof {
                assert(self.herd@.take(i + 1).drop_last() =~= self.herd@.take(i as int));
            }
            let cow = self.herd[i];
            if cow.is_breeder {
                breeding = breeding + 1;
            }
            if spare.is_none() && cow.is_bull && !cow.is_breeder {
                spare = Some(i);
            }
            i = i + 1;
        }
        proof {
            assert(self.herd@.take(i as int) =~= self.herd@);
        }
        if breeding < BREEDERS_WANTED {
            match spare {
                Some(k) => {
                    let cow = self.herd[k];
                    self.herd.set(k, Cow { is_breeder: true, ..cow });
                },
                None => {},
            }
        }
    }

    /// Adds this year's calves to the herd, given one roll from 0 to 100 for each animal of
    /// the herd: see [`calves`].
    pub fn breed_with(&mut self, date: Date, rolls: &Vec<u32>)
        ensures
            final(self).size == old(self).size,
            final(self).herd@ == old(self).herd@ + calves(old(self).herd@, date, rolls@),
    {
        if !date.is_month_day(SEASON_MONTH, SEASON_DAY) {
            proof {
                assert(old(self).herd@ + Seq::<Cow>::empty() =~= old(self).herd@);
            }
            return ;
        }
        let n = self.herd.len();
        let mut i: usize = 0;
        while i < n
            invariant
                i <= n,
                n == old(self).herd.len(),
                date.falls_on(SEASON_MONTH as int, SEASON_DAY as int),
                self.size == old(self).size,
                self.herd@ == old(self).herd@ + calves(old(self).herd@.take(i as int), date, rolls@),
            decreases n - i,
        {
            proof {
                assert(old(self).herd@.take(i + 1).drop_last() =~= old(self).herd@.take(i as int));
            }
            let ghost before = self.herd@;
            let parent = self.herd[i];
            if !parent.is_bull {
                let female = roll_succeeds(50, roll_at(rolls, i));
                self.herd.push(Cow { birthday: date, is_bull: !female, is_breeder: false });
            }
            proof {
                assert(self.herd@ =~= old(self).herd@ + calves(
                    old(self).herd@.take(i + 1),
                    date,
                    rolls@,
                ));
            }
            i = i + 1;
        }
        proof {
            assert(old(self).herd@.take(n as int) =~= old(self).herd@);
        }
    }

    /// Culls the herd as far as `workers` workers manage in a day and returns the number of
    /// animals taken. The animals are looked at in the order of the herd, and one that is
    /// old enough is taken while the quota lasts.
    pub fn cull(&mut self, date: Date, workers: usize) -> (taken: usize)
        ensures
            final(self).size == old(self).size,
            final(self).herd@ == survivors(
                old(self).herd@,
                date,
                cull_quota(old(self).herd@.len(), workers as nat),
            ),
            taken == culled(
                old(self).herd@,
                date,
                cull_quota(old(self).herd@.len(), workers as nat),
            ),
    {
        let size = self.herd.len();
        let quota: usize = if size <= HERD_FLOOR {
            0
        } else {
            let excess: usize = size - HERD_FLOOR;
            let managed: u128 = workers as u128 * 32 / 25;
            if excess as u128 <= managed {
                excess
            } else {
                managed as usize
            }
        };
        assert(quota == cull_quota(size as nat, workers as nat));
        let mut kept: Vec<Cow> = Vec::new();
        let mut taken: usize = 0;
        let mut i: usize = 0;
        while i < size
            invariant
                i <= size,
                size == self.herd.len(),
                self.herd@ == old(self).herd@,
                self.size == old(self).size,
                kept@ == survivors(self.herd@.take(i as int), date, quota as nat),
                taken == culled(self.herd@.take(i as int), date, quota as nat),
                taken <= i,
            decreases size - i,
        {
            proof {
                let next = self.herd@.take(i + 1);
                assert(next.drop_last() =~= self.herd@.take(i as int));
                assert(next.take(i as int) =~= self.herd@.take(i as int));
            }
            let cow = self.herd[i];
            if taken < quota && cow.ripe(date) {
                taken = taken + 1;
            } else {
                kept.push(cow);
            }
            i = i + 1;
        }
        proof {
            assert(self.herd@.take(size as int) =~= self.herd@);
        }
        self.herd = kept;
        taken
    }
}

/// Whether `after` are the farms of `before` after each herd was seen to by
/// [`with_breeder`].
pub open spec fn breeders_marked(before: Seq<CowFarm>, after: Seq<CowFarm>) -> bool {
    &&& after.len() == before.len()
    &&& forall|i: int|
        0 <= i < before.len() ==> (#[trigger] after[i]).size == before[i].size && after[i].herd@
            == with_breeder(before[i].herd@)
}

/// Sees to it that every herd has breeders: see [`with_breeder`].
pub fn mark_breeders(farms: &mut Vec<CowFarm>)
    ensures
        breeders_marked(old(farms)@, final(farms)@),
{
    let mut i: usize = 0;
    while i < farms.len()
        invariant
            i <= farms.len(),
            farms.len() == old(farms).len(),
            forall|j: int|
                0 <= j < i ==> (#[trigger] farms[j]).size == old(farms)[j].size && farms[j].herd@
                    == with_breeder(old(farms)[j].herd@),
            forall|j: int| i <= j < farms.len() ==> #[trigger] farms[j] == old(farms)[j],
        decreases farms.len() - i,
    {
        farms[i].mark_breeder();
        i = i + 1;
    }
}

/// Adds this year's calves to every herd, given a list of rolls for each farm: see
/// [`calves`]. A farm without a list gets no calves.
pub fn breed_cows_with(farms: &mut Vec<CowFarm>, date: Date, rolls: &Vec<Vec<u32>>)
    ensures
        final(farms).len() == old(farms).len(),
        forall|i: int|
            0 <= i < old(farms).len() ==> (#[trigger] final(farms)[i]).size == old(farms)[i].size
                && final(farms)[i].herd@ == (if i < rolls.len() {
                old(farms)[i].herd@ + calves(old(farms)[i].herd@, date, rolls[i]@)
            } else {
                old(farms)[i].herd@
            }),
{
    let mut i: usize = 0;
    while i < farms.len()
        invariant
            i <= farms.len(),
            farms.len() == old(farms).len(),
            forall|j: int|
                0 <= j < i ==> (#[trigger] farms[j]).size == old(farms)[j].size && farms[j].herd@
                    == (if j < rolls.len() {
                    old(farms)[j].herd@ + calves(old(farms)[j].herd@, date, rolls[j]@)
                } else {
                    old(farms)[j].herd@
                }),
            forall|j: int| i <= j < farms.len() ==> #[trigger] farms[j] == old(farms)[j],
        decreases farms.len() - i,
    {
        if i < rolls.len() {
            farms[i].breed_with(date, &rolls[i]);
        }
        i = i + 1;
    }
}

/// Whether `after` is the herd `before` with the calves that some rolls from 0 to 100 give
/// it on `date`.
pub open spec fn has_calved(before: Seq<Cow>, after: Seq<Cow>, date: Date) -> bool {
    exists|rolls: Seq<u32>|
        rolls.len() == before.len() && (forall|k: int|
            0 <= k < rolls.len() ==> #[trigger] rolls[k] <= 100) && after == before
            + #[trigger] calves(before, date, rolls)
}

/// Whether `after` are the farms of `before` after each herd gained the calves that some
/// rolls give it on `date`.
pub open spec fn herds_calved(before: Seq<CowFarm>, after: Seq<CowFarm>, date: Date) -> bool {
    &&& after.len() == before.len()
    &&& forall|i: int|
        0 <= i < before.len() ==> (#[trigger] after[i]).size == before[i].size && has_calved(
            before[i].herd@,
            after[i].herd@,
            date,
        )
}

/// Adds this year's calves to every herd, rolling the sex of each calf. Whatever the rolls,
/// each herd keeps its animals and gains the calves that some rolls give it.
pub fn breed_cows(farms: &mut Vec<CowFarm>, date: Date)
    ensures
        herds_calved(old(farms)@, final(farms)@, date),
{
    let mut i: usize = 0;
    while i < farms.len()
        invariant
            i <= farms.len(),
            farms.len() == old(farms).len(),
            forall|j: int|
                0 <= j < i ==> (#[trigger] farms[j]).size == old(farms)[j].size && has_calved(
                    old(farms)[j].herd@,
                    farms[j].herd@,
                    date,
                ),
            forall|j: int| i <= j < farms.len() ==> #[trigger] farms[j] == old(farms)[j],
        decreases farms.len() - i,
    {
        let rolls = uniform_many(farms[i].herd.len(), 0, 100);
        let ghost before = farms@;
        farms[i].breed_with(date, &rolls);
        proof {
            assert(farms[i as int].herd@ == old(farms)[i as int].herd@ + calves(
                old(farms)[i as int].herd@,
                date,
                rolls@,
            ));
            assert(has_calved(old(farms)[i as int].herd@, farms[i as int].herd@, date));
            assert forall|j: int| 0 <= j < i implies (#[trigger] farms[j]).size == old(farms)[j].size && has_calved(old(farms)[j].herd@, farms[j].herd@, date) by {
                assert(farms[j] == before[j]);
            }
        }
        i = i + 1;
    }
}

/// The requests for workers of the first `farms` cow farms of a colony: for each farm in
/// turn, one request for every place it has open.
pub open spec fn cow_requests(s: Seq<Option<Citizen>>, colony: usize, farms: nat) -> Seq<
    CowFarmNeedsWorker,
>
    decreases farms,
{
    if farms == 0 {
        Seq::empty()
    } else {
        let farm = (farms - 1) as usize;
        cow_requests(s, colony, (farms - 1) as nat) + Seq::new(
            open_places(workforce(s, Job::CowFarmer { farm })),
            |k: int| CowFarmNeedsWorker { colony, farm },
        )
    }
}

/// Asks for workers: one request for every open place on each of the colony's cow farms.
pub fn check_cow_farm_workers(colony: usize, farms: usize, registry: &Registry) -> (requests:
    Vec<CowFarmNeedsWorker>)
    ensures
        requests@ == cow_requests(registry@, colony, farms as nat),
{
    let mut requests: Vec<CowFarmNeedsWorker> = Vec::new();
    let mut farm: usize = 0;
    while farm < farms
        invariant
            farm <= farms,
            requests@ == cow_requests(registry@, colony, farm as nat),
        decreases farms - farm,
    {
        let workers = registry.workers(Job::CowFarmer { farm });
        let ghost before = requests@;
        let mut open: usize = 0;
        while workers < super::components::WORKERS_PER_FARM && open
            < super::components::WORKERS_PER_FARM - workers
            invariant
                open <= open_places(workers as nat),
                requests@ == before + Seq::new(
                    open as nat,
                    |k: int| CowFarmNeedsWorker { colony, farm },
                ),
            decreases super::components::WORKERS_PER_FARM - open,
        {
            requests.push(CowFarmNeedsWorker { colony, farm });
            open = open + 1;
            proof {
                assert(requests@ =~= before + Seq::new(
                    open as nat,
                    |k: int| CowFarmNeedsWorker { colony, farm },
                ));
            }
        }
        proof {
            assert(open == open_places(workers as nat));
            assert(before + Seq::new(0nat, |k: int| CowFarmNeedsWorker { colony, farm })
                =~= before);
        }
        farm = farm + 1;
    }
    requests
}

/// The jobs that requests for cow-farm workers offer.
pub open spec fn cow_jobs(requests: Seq<CowFarmNeedsWorker>) -> Seq<Job> {
    Seq::new(requests.len(), |k: int| Job::CowFarmer { farm: requests[k].farm })
}

/// Fills requests for cow-farm workers: the first request goes to the first citizen who is
/// free to work, the second to the second, until the requests or the free citizens run out.
pub fn get_cow_farm_workers(registry: &mut Registry, requests: &Vec<CowFarmNeedsWorker>)
    ensures
        final(registry)@ == with_jobs(old(registry)@, cow_jobs(requests@)),
        final(registry)@.len() == old(registry)@.len(),
        forall|k: int|
            0 <= k < requests.len() && k < free_workers(old(registry)@).len() ==> {
                let id = #[trigger] free_workers(old(registry)@)[k] as int;
                final(registry)@[id] == Some(
                    Citizen {
                        job: Some(Job::CowFarmer { farm: requests[k].farm }),
                        ..old(registry)@[id]->0
                    },
                )
            },
        forall|i: int|
            0 <= i < old(registry)@.len() && (forall|k: int|
                0 <= k < requests.len() && k < free_workers(old(registry)@).len()
                    ==> #[trigger] free_workers(old(registry)@)[k] != i) ==> #[trigger] final(registry)@[i]
                == old(registry)@[i],
        same_people(old(registry)@, final(registry)@),
        only_jobs_changed(old(registry)@, final(registry)@),
{
    let mut jobs: Vec<Job> = Vec::new();
    while jobs.len() < requests.len()
        invariant
            jobs.len() <= requests.len(),
            forall|k: int|
                0 <= k < jobs.len() ==> #[trigger] jobs[k] == (Job::CowFarmer {
                    farm: requests[k].farm,
                }),
        decreases requests.len() - jobs.len(),
    {
        jobs.push(Job::CowFarmer { farm: requests[jobs.len()].farm });
    }
    proof {
        assert(jobs@ =~= cow_jobs(requests@));
    }
    hire(registry, &jobs);
}

/// The number of animals culled in a day on the first `n` farms.
pub open spec fn total_culled(farms: Seq<CowFarm>, s: Seq<Option<Citizen>>, date: Date, n: int) -> nat
    decreases n,
{
    if n <= 0 {
        0
    } else {
        total_culled(farms, s, date, n - 1) + culled(
            farms[n - 1].herd@,
            date,
            cull_quota(farms[n - 1].herd@.len(), workforce(s, Job::CowFarmer { farm: (n - 1) as usize })),
        )
    }
}

/// Whether `after` are the farms of `before` after each herd was culled on `date` as far as
/// its workers in the registry manage: see [`survivors`].
pub open spec fn herds_culled(
    before: Seq<CowFarm>,
    after: Seq<CowFarm>,
    s: Seq<Option<Citizen>>,
    date: Date,
) -> bool {
    &&& after.len() == before.len()
    &&& forall|i: int|
        0 <= i < before.len() ==> (#[trigger] after[i]).size == before[i].size && after[i].herd@
            == survivors(
            before[i].herd@,
            date,
            cull_quota(before[i].herd@.len(), workforce(s, Job::CowFarmer { farm: i as usize })),
        )
}

/// A day's work on the cow farms. Each herd above its floor is culled as far as the farm's
/// workers manage: see [`survivors`]. Every animal taken adds a fixed amount
/// to the meat store.
pub fn work_cow_farm(
    farms: &mut Vec<CowFarm>,
    registry: &Registry,
    date: Date,
    meat: &mut MeatResource,
)
    ensures
        herds_culled(old(farms)@, final(farms)@, registry@, date),
        final(meat).amount == topped_up(
            old(meat).amount,
            MEAT_PER_COW * total_culled(old(farms)@, registry@, date, old(farms).len() as int),
        ),
{
    let mut i: usize = 0;
    while i < farms.len()
        invariant
            i <= farms.len(),
            farms.len() == old(farms).len(),
            forall|j: int|
                0 <= j < i ==> (#[trigger] farms[j]).size == old(farms)[j].size && farms[j].herd@
                    == survivors(
                    old(farms)[j].herd@,
                    date,
                    cull_quota(
                        old(farms)[j].herd@.len(),
                        workforce(registry@, Job::CowFarmer { farm: j as usize }),
                    ),
                ),
            forall|j: int| i <= j < farms.len() ==> #[trigger] farms[j] == old(farms)[j],
            meat.amount == topped_up(
                old(meat).amount,
                MEAT_PER_COW * total_culled(old(farms)@, registry@, date, i as int),
            ),
        decreases farms.len() - i,
    {
        let workers = registry.workers(Job::CowFarmer { farm: i });
        let taken = farms[i].cull(date, workers);
        proof {
            let so_far = total_culled(old(farms)@, registry@, date, i as int);
            assert(MEAT_PER_COW * (so_far + taken) == MEAT_PER_COW * so_far + taken * MEAT_PER_COW)
                by (nonlinear_arith);
            assert(MEAT_PER_COW * so_far >= 0) by (nonlinear_arith)
                requires
                    so_far >= 0,
            ;
            lemma_topped_up_twice(old(meat).amount, MEAT_PER_COW * so_far, taken * MEAT_PER_COW);
        }
        meat.amount = top_up_many(meat.amount, taken, MEAT_PER_COW);
        i = i + 1;
    }
}

} // verus!
