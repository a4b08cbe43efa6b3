//! Wheat: the season, the workers and the harvest.

use super::components::{
    top_up_many, topped_up, lemma_topped_up_twice, CarbResource, WheatFarm,
    CARB_PER_TENTH_HECTARE, SEASON_DAY, SEASON_MONTH,
};
use super::events::{CarbCreated, WheatFarmNeedsWorker};
use super::{hire, free_workers, only_jobs_changed, open_places, with_jobs};
use crate::time::Date;
use crate::worlds::population::components::{Citizen, Job};
use crate::worlds::population::registry::{same_people, workforce, Registry};
use vstd::prelude::*;

verus! {

/// The farms after the look at the calendar: on the first day of the season every farm
/// counts as unharvested, on any other day nothing changes.
pub open spec fn in_season(farms: Seq<WheatFarm>, date: Date) -> Seq<WheatFarm> {
    Seq::new(
        farms.len(),
        |i: int|
            if date.falls_on(SEASON_MONTH as int, SEASON_DAY as int) {
                WheatFarm { size: farms[i].size, harvested: 0 }
            } else {
                farms[i]
            },
    )
}

/// The farms after a day's work by the workers that the registry lists.
pub open spec fn worked_by(farms: Seq<WheatFarm>, s: Seq<Option<Citizen>>) -> Seq<WheatFarm> {
    Seq::new(
        farms.len(),
        |i: int| farms[i].worked(workforce(s, Job::WheatFarmer { farm: i as usize })),
    )
}

/// Opens the harvest season: on its first day every farm counts as unharvested again. On
/// any other day nothing changes.
pub fn season_check_wheat(farms: &mut Vec<WheatFarm>, date: Date)
    ensures
        final(farms)@ == in_season(old(farms)@, date),
        final(farms).len() == old(farms).len(),
        forall|i: int|
            0 <= i < old(farms).len() ==> #[trigger] final(farms)[i] == (if date.falls_on(
                SEASON_MONTH as int,
                SEASON_DAY as int,
            ) {
                WheatFarm { size: old(farms)[i].size, harvested: 0 }
            } else {
                old(farms)[i]
            }),
{
    if !date.is_month_day(SEASON_MONTH, SEASON_DAY) {
        proof {
            assert(farms@ =~= in_season(farms@, date));
        }
        return ;
    }
    let mut i: usize = 0;
    while i < farms.len()
        invariant
            i <= farms.len(),
            farms.len() == old(farms).len(),
            forall|j: int|
                0 <= j < i ==> #[trigger] farms[j] == (WheatFarm {
                    size: old(farms)[j].size,
                    harvested: 0,
                }),
            forall|j: int| i <= j < farms.len() ==> #[trigger] farms[j] == old(farms)[j],
        decreases farms.len() - i,
    {
        let size = farms[i].size;
        farms.set(i, WheatFarm { size, harvested: 0 });
        i = i + 1;
    }
    proof {
        assert(farms@ =~= in_season(old(farms)@, date));
    }
}

/// The requests for workers of the first `farms` wheat farms of a colony: for each farm in
/// turn, one request for every place it has open.
pub open spec fn wheat_requests(s: Seq<Option<Citizen>>, colony: usize, farms: nat) -> Seq<
    WheatFarmNeedsWorker,
>
    decreases farms,
{
    if farms == 0 {
        Seq::empty()
    } else {
        let farm = (farms - 1) as usize;
        wheat_requests(s, colony, (farms - 1) as nat) + Seq::new(
            open_places(workforce(s, Job::WheatFarmer { farm })),
            |k: int| WheatFarmNeedsWorker { colony, farm },
        )
    }
}

/// Asks for workers: one request for every open place on each of the colony's wheat farms.
pub fn check_farm_workers(colony: usize, farms: usize, registry: &Registry) -> (requests: Vec<
    WheatFarmNeedsWorker,
>)
    ensures
        requests@ == wheat_requests(registry@, colony, farms as nat),
{
    let mut requests: Vec<WheatFarmNeedsWorker> = Vec::new();
    let mut farm: usize = 0;
    while farm < farms
        invariant
            farm <= farms,
            requests@ == wheat_requests(registry@, colony, farm as nat),
        decreases farms - farm,
    {
        let workers = registry.workers(Job::WheatFarmer { farm });
        let ghost before = requests@;
        let mut open: usize = 0;
        while workers < super::components::WORKERS_PER_FARM && open
            < super::components::WORKERS_PER_FARM - workers
            invariant
                open <= open_places(workers as nat),
                requests@ == before + Seq::new(
                    open as nat,
                    |k: int| WheatFarmNeedsWorker { colony, farm },
                ),
            decreases super::components::WORKERS_PER_FARM - open,
        {
            requests.push(WheatFarmNeedsWorker { colony, farm });
            open = open + 1;
            proof {
                assert(requests@ =~= before + Seq::new(
                    open as nat,
                    |k: int| WheatFarmNeedsWorker { colony, farm },
                ));
            }
        }
        proof {
            assert(open == open_places(workers as nat));
            assert(before + Seq::new(0nat, |k: int| WheatFarmNeedsWorker { colony, farm })
                =~= before);
        }
        farm = farm + 1;
    }
    requests
}

/// The jobs that requests for wheat-farm workers offer.
pub open spec fn wheat_jobs(requests: Seq<WheatFarmNeedsWorker>) -> Seq<Job> {
    Seq::new(requests.len(), |k: int| Job::WheatFarmer { farm: requests[k].farm })
}

/// Fills requests for wheat-farm workers: the first request goes to the first citizen who is
/// free to work, the second to the second, until the requests or the free citizens run out.
pub fn get_farm_workers(registry: &mut Registry, requests: &Vec<WheatFarmNeedsWorker>)
    ensures
        final(registry)@ == with_jobs(old(registry)@, wheat_jobs(requests@)),
        final(registry)@.len() == old(registry)@.len(),
        forall|k: int|
            0 <= k < requests.len() && k < free_workers(old(registry)@).len() ==> {
                let id = #[trigger] free_workers(old(registry)@)[k] as int;
                final(registry)@[id] == Some(
                    Citizen {
                        job: Some(Job::WheatFarmer { farm: requests[k].farm }),
                        ..old(registry)@[id]->0
                    },
                )
            },
        forall|i: int|
            0 <= i < old(registry)@.len() && (forall|k: int|
                0 <= k < requests.len() && k < free_workers(old(registry)@).len()
                    ==> #[trigger] free_workers(old(registry)@)[k] != i) ==> #[trigger] final(registry)@[i]
                == old(registry)@[i],
        same_people(old(registry)@, final(registry)@),
        only_jobs_changed(old(registry)@, final(registry)@),
{
    let mut jobs: Vec<Job> = Vec::new();
    while jobs.len() < requests.len()
        invariant
            jobs.len() <= requests.len(),
            forall|k: int|
                0 <= k < jobs.len() ==> #[trigger] jobs[k] == (Job::WheatFarmer {
                    farm: requests[k].farm,
                }),
        decreases requests.len() - jobs.len(),
    {
        jobs.push(Job::WheatFarmer { farm: requests[jobs.len()].farm });
    }
    proof {
        assert(jobs@ =~= wheat_jobs(requests@));
    }
    hire(registry, &jobs);
}

/// Land harvested in a day on the first `n` farms.
pub open spec fn harvest(farms: Seq<WheatFarm>, s: Seq<Option<Citizen>>, n: int) -> int
    decreases n,
{
    if n <= 0 {
        0
    } else {
        harvest(farms, s, n - 1) + farms[n - 1].reaped(
            workforce(s, Job::WheatFarmer { farm: (n - 1) as usize }),
        )
    }
}

/// The notices of a day's harvest on the first `n` farms: one for each farm that yielded
/// anything, with the carbohydrate it yielded.
pub open spec fn harvest_notices(
    farms: Seq<WheatFarm>,
    s: Seq<Option<Citizen>>,
    colony: usize,
    n: int,
) -> Seq<CarbCreated>
    decreases n,
{
    if n <= 0 {
        Seq::empty()
    } else {
        let reaped = farms[n - 1].reaped(workforce(s, Job::WheatFarmer { farm: (n - 1) as usize }));
        if reaped > 0 {
            harvest_notices(farms, s, colony, n - 1).push(
                CarbCreated { colony, amount: (reaped * CARB_PER_TENTH_HECTARE) as u64 },
            )
        } else {
            harvest_notices(farms, s, colony, n - 1)
        }
    }
}

/// A day's work on the wheat farms. On each farm every worker harvests a hectare, as far as
/// the farm has land left this season; what is harvested goes to the carbohydrate store at
/// the fixed yield, and each farm that yielded anything is reported.
pub fn work_farm(
    farms: &mut Vec<WheatFarm>,
    registry: &Registry,
    colony: usize,
    carb: &mut CarbResource,
) -> (created: Vec<CarbCreated>)
    ensures
        final(farms)@ == worked_by(old(farms)@, registry@),
        final(farms).len() == old(farms).len(),
        forall|i: int|
            0 <= i < old(farms).len() ==> #[trigger] final(farms)[i] == old(farms)[i].worked(
                workforce(registry@, Job::WheatFarmer { farm: i as usize }),
            ),
        final(carb).amount == topped_up(
            old(carb).amount,
            CARB_PER_TENTH_HECTARE * harvest(old(farms)@, registry@, old(farms).len() as int),
        ),
        created@ == harvest_notices(old(farms)@, registry@, colony, old(farms).len() as int),
{
    let mut created: Vec<CarbCreated> = Vec::new();
    let mut i: usize = 0;
    while i < farms.len()
        invariant
            i <= farms.len(),
            farms.len() == old(farms).len(),
            forall|j: int|
                0 <= j < i ==> #[trigger] farms[j] == old(farms)[j].worked(
                    workforce(registry@, Job::WheatFarmer { farm: j as usize }),
                ),
            forall|j: int| i <= j < farms.len() ==> #[trigger] farms[j] == old(farms)[j],
            harvest(old(farms)@, registry@, i as int) >= 0,
            carb.amount == topped_up(
                old(carb).amount,
                CARB_PER_TENTH_HECTARE * harvest(old(farms)@, registry@, i as int),
            ),
            created@ == harvest_notices(old(farms)@, registry@, colony, i as int),
        decreases farms.len() - i,
    {
        let workers = registry.workers(Job::WheatFarmer { farm: i });
        let mut farm = farms[i];
        let reaped = farm.work(workers);
        farms.set(i, farm);
        proof {
            let so_far = harvest(old(farms)@, registry@, i as int);
            assert(CARB_PER_TENTH_HECTARE * (so_far + reaped) == CARB_PER_TENTH_HECTARE * so_far
                + reaped * CARB_PER_TENTH_HECTARE) by (nonlinear_arith);
            assert(CARB_PER_TENTH_HECTARE * so_far >= 0) by (nonlinear_arith)
                requires
                    so_far >= 0,
            ;
            lemma_topped_up_twice(
                old(carb).amount,
                CARB_PER_TENTH_HECTARE * so_far,
                reaped * CARB_PER_TENTH_HECTARE,
            );
        }
        carb.amount = top_up_many(carb.amount, reaped as usize, CARB_PER_TENTH_HECTARE);
        if reaped > 0 {
            created.push(CarbCreated { colony, amount: reaped as u64 * CARB_PER_TENTH_HECTARE });
        }
        i = i + 1;
    }
    proof {
        assert(farms@ =~= worked_by(old(farms)@, registry@));
    }
    created
}

} // verus!
