//! The wealth of a colony and what its government has to spend.

pub mod components;

use self::components::WealthAndSpending;
use super::population::components::Citizen;
use super::population::registry::{living, Registry};
use vstd::prelude::*;

verus! {

/// The number of living citizens who hold a job.
pub open spec fn employed(s: Seq<Option<Citizen>>) -> nat
    decreases s.len(),
{
    if s.len() == 0 {
        0
    } else {
        employed(s.drop_last()) + if s.last() is Some && s.last()->0.job is Some {
            1nat
        } else {
            0nat
        }
    }
}

/// Works out the colony's wealth anew from those who hold a job today, and what is left to
/// spend after every living citizen was paid.
pub fn calculate_wealth(registry: &Registry, wealth: &mut WealthAndSpending)
    ensures
        *final(wealth) == old(wealth).calculated(employed(registry@), living(registry@)),
{
    let n = registry.len();
    let mut workers: usize = 0;
    let mut count: usize = 0;
    let mut i: usize = 0;
    while i < n
        invariant
            i <= n,
            n == registry@.len(),
            workers == employed(registry@.take(i as int)),
            count == living(registry@.take(i as int)),
            workers <= i,
            count <= i,
        decreases n - i,
    {
        proof {
            assert(registry@.take(i + 1).drop_last() =~= registry@.take(i as int));
        }
        match registry.get(i) {
            Some(citizen) => {
                count = count + 1;
                if citizen.job.is_some() {
                    workers = workers + 1;
                }
            },
            None => {},
        }
        i = i + 1;
    }
    proof {
        assert(registry@.take(n as int) =~= registry@);
    }
    wealth.calc(workers, count);
}

} // verus!
