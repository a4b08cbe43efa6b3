//! Rolls of the dice.

use rand::Rng;
use vstd::prelude::*;

verus! {

/// `Rng::gen_range` on the thread's generator with the inclusive range `low..=high`: some
/// number within the range. Which one is not known beforehand.
#[verifier::external_body]
fn random_in(low: u32, high: u32) -> (n: u32)
    requires
        low <= high,
    ensures
        low <= n <= high,
{
    rand::thread_rng().gen_range(low..=high)
}

/// A random number from `low` to `high`, both included; `low` where the range is empty.
pub fn uniform(low: u32, high: u32) -> (n: u32)
    ensures
        low <= high ==> low <= n <= high,
        low > high ==> n == low,
{
    if low <= high {
        random_in(low, high)
    } else {
        low
    }
}

/// `count` random numbers, each from `low` to `high`.
pub fn uniform_many(count: usize, low: u32, high: u32) -> (rolls: Vec<u32>)
    requires
        low <= high,
    ensures
        rolls.len() == count,
        forall|i: int| 0 <= i < count ==> low <= #[trigger] rolls[i] <= high,
{
    let mut rolls: Vec<u32> = Vec::new();
    while rolls.len() < count
        invariant
            low <= high,
            rolls.len() <= count,
            forall|i: int| 0 <= i < rolls.len() ==> low <= #[trigger] rolls[i] <= high,
        decreases count - rolls.len(),
    {
        rolls.push(random_in(low, high));
    }
    rolls
}

/// Whether a roll from 0 to 100 succeeds against a chance in percent: a chance of zero never
/// does, any other chance does on every roll up to itself.
pub open spec fn chance_met(chance: u8, roll: u32) -> bool {
    chance != 0 && roll <= chance
}

/// Decides a roll against a chance in percent.
pub fn roll_succeeds(chance: u8, roll: u32) -> (hit: bool)
    ensures
        hit == chance_met(chance, roll),
{
    chance != 0 && roll <= chance as u32
}

/// Rolls a number from 0 to 100 and says whether it succeeds against `chance` percent.
/// Whatever the roll, the answer is the one that [`chance_met`] gives for it.
pub fn roll_chance(chance: u8) -> (hit: bool)
    ensures
        exists|roll: u32| roll <= 100 && hit == #[trigger] chance_met(chance, roll),
        chance == 0 ==> !hit,
        chance >= 100 ==> hit,
{
    let roll = random_in(0, 100);
    roll_succeeds(chance, roll)
}

/// Whether a roll is at most a chance in percent.
pub open spec fn within_chance(chance: u8, roll: u32) -> bool {
    roll <= chance
}

/// Rolls a number from 0 to 100 and says whether it is at most `chance`. Unlike
/// [`roll_chance`], a chance of zero succeeds on a roll of zero.
pub fn percentage_chance(chance: u8) -> (hit: bool)
    ensures
        exists|roll: u32| roll <= 100 && hit == #[trigger] within_chance(chance, roll),
        chance >= 100 ==> hit,
{
    let roll = random_in(0, 100);
    assert(roll <= 100 && (roll <= chance) == within_chance(chance, roll));
    roll <= chance as u32
}

/// The roll kept for place `i`: the one at that place of the list, zero where the list is
/// too short.
pub open spec fn rolled(rolls: Seq<u32>, i: int) -> u32 {
    if 0 <= i < rolls.len() {
        rolls[i]
    } else {
        0
    }
}

/// Looks up the roll kept for place `i`.
pub fn roll_at(rolls: &Vec<u32>, i: usize) -> (roll: u32)
    ensures
        roll == rolled(rolls@, i as int),
{
    if i < rolls.len() {
        rolls[i]
    } else {
        0
    }
}

/// The positions at which a list of marks holds `true`, in rising order.
pub open spec fn marked(marks: Seq<bool>) -> Seq<usize>
    decreases marks.len(),
{
    if marks.len() == 0 {
        Seq::empty()
    } else if marks.last() {
        marked(marks.drop_last()).push((marks.len() - 1) as usize)
    } else {
        marked(marks.drop_last())
    }
}

/// What [`marked`] holds: every entry is a marked position, the entries rise, and no marked
/// position is missing.
pub proof fn lemma_marked(marks: Seq<bool>)
    requires
        marks.len() <= usize::MAX,
    ensures
        marked(marks).len() <= marks.len(),
        forall|k: int|
            0 <= k < marked(marks).len() ==> (#[trigger] marked(marks)[k]) < marks.len()
                && marks[marked(marks)[k] as int],
        forall|j: int, k: int|
            0 <= j < k < marked(marks).len() ==> (#[trigger] marked(marks)[j]) < (
            #[trigger] marked(marks)[k]),
        forall|i: int|
            0 <= i < marks.len() && #[trigger] marks[i] ==> marked(marks).contains(i as usize),
    decreases marks.len(),
{
    if marks.len() > 0 {
        let front = marks.drop_last();
        lemma_marked(front);
        let all = marked(marks);
        let n = marks.len() - 1;
        assert forall|k: int| 0 <= k < all.len() implies (#[trigger] all[k]) < marks.len()
            && marks[all[k] as int] by {
            if k < marked(front).len() {
                assert(all[k] == marked(front)[k]);
            }
        }
        assert forall|j: int, k: int| 0 <= j < k < all.len() implies (#[trigger] all[j]) < (
        #[trigger] all[k]) by {
            assert(all[j] == marked(front)[j]);
            if k < marked(front).len() {
                assert(all[k] == marked(front)[k]);
            }
        }
        assert forall|i: int| 0 <= i < marks.len() && #[trigger] marks[i] implies all.contains(
            i as usize,
        ) by {
            if i < n {
                assert(front[i]);
                assert(marked(front).contains(i as usize));
                let k = choose|k: int|
                    0 <= k < marked(front).len() && marked(front)[k] == i as usize;
                assert(all[k] == i as usize);
            } else {
                assert(all[all.len() - 1] == i as usize);
            }
        }
    }
}

/// Lists the positions at which `marks` holds `true`.
pub fn marked_positions(marks: &Vec<bool>) -> (positions: Vec<usize>)
    ensures
        positions@ == marked(marks@),
{
    let mut positions: Vec<usize> = Vec::new();
    let mut i: usize = 0;
    while i < marks.len()
        invariant
            i <= marks.len(),
            positions@ == marked(marks@.take(i as int)),
        decreases marks.len() - i,
    {
        proof {
            assert(marks@.take(i + 1).drop_last() =~= marks@.take(i as int));
        }
        if marks[i] {
            positions.push(i);
        }
        i = i + 1;
    }
    proof {
        assert(marks@.take(i as int) =~= marks@);
    }
    positions
}

} // verus!
