//! Wealth is counted in thousandths of what one worker earns in a day, spending in
//! hundred-thousandths.

use crate::worlds::config::GovernmentConfig;
use vstd::prelude::*;

verus! {

/// The shares of what is left to spend, in percent. They are meant to add up to 100.
#[derive(Clone, Copy, PartialEq, Eq, Structural, Debug)]
pub struct SpendingPolicy {
    pub civil_spending: u16,
    pub sanitation_spending: u16,
    pub social_spending: u16,
    pub environmental_spending: u16,
}

/// What a colony earns, pays out and has left.
#[derive(Clone, Copy, PartialEq, Eq, Structural, Debug)]
pub struct WealthAndSpending {
    /// What the colony earns in a day: one for each worker.
    pub total_wealth: usize,
    /// What is left after the payout, in thousandths. Negative where the payout exceeds
    /// the earnings.
    pub spending_available: i128,
    /// What each citizen is paid, in thousandths.
    pub citizen_payout: u32,
    pub policy: SpendingPolicy,
}

impl WealthAndSpending {
    /// The books of a new colony under the given government: nothing earned yet.
    pub open spec fn new_spec(government: GovernmentConfig) -> WealthAndSpending {
        WealthAndSpending {
            total_wealth: 0,
            spending_available: 0,
            citizen_payout: government.citizen_payout,
            policy: SpendingPolicy {
                civil_spending: government.civil_spending,
                sanitation_spending: government.sanitation_spending,
                social_spending: government.social_spending,
                environmental_spending: government.environmental_spending,
            },
        }
    }

    /// Opens the books of a new colony: see [`WealthAndSpending::new_spec`].
    pub fn new(government: GovernmentConfig) -> (wealth: Self)
        ensures
            wealth == Self::new_spec(government),
    {
        WealthAndSpending {
            total_wealth: 0,
            spending_available: 0,
            citizen_payout: government.citizen_payout,
            policy: SpendingPolicy {
                civil_spending: government.civil_spending,
                sanitation_spending: government.sanitation_spending,
                social_spending: government.social_spending,
                environmental_spending: government.environmental_spending,
            },
        }
    }

    /// The books after a day with `working` workers among `population_count` citizens: the
    /// wealth is one for each worker, and what is left is the wealth less the payout to
    /// every citizen.
    pub open spec fn calculated(self, working: nat, population_count: nat) -> WealthAndSpending {
        WealthAndSpending {
            total_wealth: working as usize,
            spending_available: (1000 * working - population_count * self.citizen_payout) as i128,
            ..self
        }
    }

    /// Works out the books of a day: see [`WealthAndSpending::calculated`].
    pub fn calc(&mut self, working: usize, population_count: usize)
        ensures
            *final(self) == old(self).calculated(working as nat, population_count as nat),
    {
        assert(0 <= population_count * self.citizen_payout <= usize::MAX * u32::MAX)
            by (nonlinear_arith)
            requires
                0 <= population_count <= usize::MAX,
                0 <= self.citizen_payout <= u32::MAX,
        ;
        let earned: i128 = 1000 * (working as i128);
        let paid: i128 = (population_count as i128) * (self.citizen_payout as i128);
        self.total_wealth = working;
        self.spending_available = earned - paid;
    }

    /// The part of what is left that a share in percent gets, in hundred-thousandths.
    pub open spec fn share(self, percent: u16) -> int {
        percent * self.spending_available
    }

    fn portion(&self, percent: u16) -> (amount: i128)
        requires
            -0x1_0000_0000_0000_0000_0000_0000 <= self.spending_available
                <= 0x1_0000_0000_0000_0000_0000_0000,
        ensures
            amount == self.share(percent),
    {
        assert(-0x1_0000_0000_0000_0000_0000_0000_0000 <= percent * self.spending_available
            <= 0x1_0000_0000_0000_0000_0000_0000_0000) by (nonlinear_arith)
            requires
                0 <= percent <= 0xffff,
                -0x1_0000_0000_0000_0000_0000_0000 <= self.spending_available
                    <= 0x1_0000_0000_0000_0000_0000_0000,
        ;
        (percent as i128) * self.spending_available
    }

    /// Whether what is left is of a size that the books can hold after a day: its absolute
    /// value is at most 2^96.
    pub open spec fn in_bounds(self) -> bool {
        -0x1_0000_0000_0000_0000_0000_0000 <= self.spending_available
            <= 0x1_0000_0000_0000_0000_0000_0000
    }

    /// Spending on power, water and sewers, in hundred-thousandths; `None` where what is
    /// left is out of bounds.
    pub fn total_civil_spending(&self) -> (amount: Option<i128>)
        ensures
            amount == (if self.in_bounds() {
                Some(self.share(self.policy.civil_spending) as i128)
            } else {
                None
            }),
    {
        if self.within() {
            Some(self.portion(self.policy.civil_spending))
        } else {
            None
        }
    }

    /// Spending on hospitals and hygiene, in hundred-thousandths; `None` where what is left
    /// is out of bounds.
    pub fn total_sanitation_spending(&self) -> (amount: Option<i128>)
        ensures
            amount == (if self.in_bounds() {
                Some(self.share(self.policy.sanitation_spending) as i128)
            } else {
                None
            }),
    {
        if self.within() {
            Some(self.portion(self.policy.sanitation_spending))
        } else {
            None
        }
    }

    /// Social spending, in hundred-thousandths; `None` where what is left is out of bounds.
    pub fn total_social_spending(&self) -> (amount: Option<i128>)
        ensures
            amount == (if self.in_bounds() {
                Some(self.share(self.policy.social_spending) as i128)
            } else {
                None
            }),
    {
        if self.within() {
            Some(self.portion(self.policy.social_spending))
        } else {
            None
        }
    }

    /// Spending on the environment, in hundred-thousandths; `None` where what is left is out
    /// of bounds.
    pub fn total_environmental_spending(&self) -> (amount: Option<i128>)
        ensures
            amount == (if self.in_bounds() {
                Some(self.share(self.policy.environmental_spending) as i128)
            } else {
                None
            }),
    {
        if self.within() {
            Some(self.portion(self.policy.environmental_spending))
        } else {
            None
        }
    }

    fn within(&self) -> (yes: bool)
        ensures
            yes == self.in_bounds(),
    {
        -0x1_0000_0000_0000_0000_0000_0000 <= self.spending_available && self.spending_available
            <= 0x1_0000_0000_0000_0000_0000_0000
    }
}

/// After a day's books, what is left is always within bounds, so that every kind of spending
/// has an amount.
pub proof fn lemma_calculated_in_bounds(books: WealthAndSpending, working: nat, population_count: nat)
    requires
        working <= usize::MAX,
        population_count <= usize::MAX,
    ensures
        books.calculated(working, population_count).in_bounds(),
{
    assert(0 <= population_count * books.citizen_payout <= usize::MAX * u32::MAX)
        by (nonlinear_arith)
        requires
            0 <= population_count <= usize::MAX,
            0 <= books.citizen_payout <= u32::MAX,
    ;
}

} // verus!
