//! The store of a colony's citizens.
//!
//! Citizens are numbered in the order they arrive, and a number is never given twice: the
//! place of a citizen who died stays empty. Partners refer to each other by number.

use super::components::{Citizen, Job, Sex};
use vstd::prelude::*;

verus! {

/// The citizens of one colony, dead ones as empty places.
pub struct Registry {
    slots: Vec<Option<Citizen>>,
}

/// The partner of the citizen in place `i`, or -1 where the place is empty or the citizen
/// has no partner.
pub open spec fn partner_of(s: Seq<Option<Citizen>>, i: int) -> int {
    if 0 <= i < s.len() && s[i] is Some && s[i]->0.spouse is Some {
        s[i]->0.spouse->0 as int
    } else {
        -1
    }
}

/// Whether place `i` holds a living citizen.
pub open spec fn alive(s: Seq<Option<Citizen>>, i: int) -> bool {
    0 <= i < s.len() && s[i] is Some
}

/// Partnerships go both ways and join a woman and a man: the partner of a living citizen
/// is someone else who has a place in the registry and, while alive, names that citizen as
/// partner and is of the other sex.
pub open spec fn mutual(s: Seq<Option<Citizen>>) -> bool {
    forall|i: int| #[trigger]
        partner_of(s, i) >= 0 ==> {
            let j = partner_of(s, i);
            j != i && j < s.len() && (s[j] is Some ==> partner_of(s, j) == i && s[j]->0.sex
                != s[i]->0.sex)
        }
}

/// No citizen is paired with the dead: partnerships go both ways and every partner is alive.
pub open spec fn settled(s: Seq<Option<Citizen>>) -> bool {
    &&& mutual(s)
    &&& forall|i: int| #[trigger] partner_of(s, i) >= 0 ==> alive(s, partner_of(s, i))
}

/// The number of living citizens.
pub open spec fn living(s: Seq<Option<Citizen>>) -> nat
    decreases s.len(),
{
    if s.len() == 0 {
        0
    } else {
        living(s.drop_last()) + if s.last() is Some {
            1nat
        } else {
            0nat
        }
    }
}

/// Whether a place holds a living citizen with the given job.
pub open spec fn holds_job(place: Option<Citizen>, job: Job) -> bool {
    place is Some && place->0.job == Some(job)
}

/// The number of living citizens who hold the given job.
pub open spec fn workforce(s: Seq<Option<Citizen>>, job: Job) -> nat
    decreases s.len(),
{
    if s.len() == 0 {
        0
    } else {
        workforce(s.drop_last(), job) + if holds_job(s.last(), job) {
            1nat
        } else {
            0nat
        }
    }
}

/// The same places are taken in both: nobody has joined and nobody has left.
pub open spec fn same_people(a: Seq<Option<Citizen>>, b: Seq<Option<Citizen>>) -> bool {
    a.len() == b.len() && forall|i: int| 0 <= i < a.len() ==> (#[trigger] a[i]) is Some == b[i] is Some
}

/// Whoever had a partner in `a` and is alive in `b` has the same partner there.
pub open spec fn partners_kept(a: Seq<Option<Citizen>>, b: Seq<Option<Citizen>>) -> bool {
    forall|i: int|
        0 <= i < a.len() && i < b.len() && (#[trigger] a[i]) is Some && a[i]->0.spouse is Some
            && b[i] is Some ==> b[i]->0.spouse == a[i]->0.spouse
}

/// Nobody who was dead or absent in `a` is alive in one of the places of `a` in `b`.
pub open spec fn none_returned(a: Seq<Option<Citizen>>, b: Seq<Option<Citizen>>) -> bool {
    a.len() <= b.len() && forall|i: int| 0 <= i < a.len() && (#[trigger] b[i]) is Some ==> a[i] is Some
}

/// Keeping partners carries over from step to step where the dead stay dead.
pub proof fn lemma_partners_kept_on(
    a: Seq<Option<Citizen>>,
    b: Seq<Option<Citizen>>,
    c: Seq<Option<Citizen>>,
)
    requires
        partners_kept(a, b),
        partners_kept(b, c),
        none_returned(a, b),
        none_returned(b, c),
    ensures
        partners_kept(a, c),
        none_returned(a, c),
{
    assert forall|i: int|
        0 <= i < a.len() && i < c.len() && (#[trigger] a[i]) is Some && a[i]->0.spouse is Some
            && c[i] is Some implies c[i]->0.spouse == a[i]->0.spouse by {
        assert(c[i] is Some);
        assert(b[i] is Some);
    }
    assert forall|i: int| 0 <= i < a.len() && (#[trigger] c[i]) is Some implies a[i] is Some by {
        assert(b[i] is Some);
    }
}

/// Where nobody joins or leaves, nobody returns.
pub proof fn lemma_same_people_none_returned(a: Seq<Option<Citizen>>, b: Seq<Option<Citizen>>)
    requires
        same_people(a, b),
    ensures
        none_returned(a, b),
{
    assert forall|i: int| 0 <= i < a.len() && (#[trigger] b[i]) is Some implies a[i] is Some by {
        assert(a[i] is Some == b[i] is Some);
    }
}

/// Where nobody has joined or left, as many are alive as before.
pub proof fn lemma_same_people_same_count(a: Seq<Option<Citizen>>, b: Seq<Option<Citizen>>)
    requires
        same_people(a, b),
    ensures
        living(a) == living(b),
    decreases a.len(),
{
    if a.len() > 0 {
        assert(a.last() is Some == b.last() is Some) by {
            assert(a[a.len() - 1] is Some == b[a.len() - 1] is Some);
        }
        assert forall|i: int| 0 <= i < a.drop_last().len() implies (#[trigger] a.drop_last()[i]) is Some
            == b.drop_last()[i] is Some by {
            assert(a[i] is Some == b[i] is Some);
        }
        lemma_same_people_same_count(a.drop_last(), b.drop_last());
    }
}

/// A newcomer adds one to the living, an empty place none.
pub proof fn lemma_living_push(s: Seq<Option<Citizen>>, c: Option<Citizen>)
    ensures
        living(s.push(c)) == living(s) + if c is Some {
            1nat
        } else {
            0nat
        },
{
    assert(s.push(c).drop_last() =~= s);
}

/// Changing one place changes the number of the living by who leaves it and who takes it.
pub proof fn lemma_living_update(s: Seq<Option<Citizen>>, i: int, c: Option<Citizen>)
    requires
        0 <= i < s.len(),
    ensures
        living(s.update(i, c)) + (if s[i] is Some {
            1nat
        } else {
            0nat
        }) == living(s) + (if c is Some {
            1nat
        } else {
            0nat
        }),
    decreases s.len(),
{
    if i == s.len() - 1 {
        assert(s.update(i, c).drop_last() =~= s.drop_last());
    } else {
        lemma_living_update(s.drop_last(), i, c);
        assert(s.update(i, c).drop_last() =~= s.drop_last().update(i, c));
    }
}

impl View for Registry {
    type V = Seq<Option<Citizen>>;

    closed spec fn view(&self) -> Seq<Option<Citizen>> {
        self.slots@
    }
}

impl Registry {
    #[verifier::type_invariant]
    spec fn inv(&self) -> bool {
        mutual(self.slots@)
    }

    /// An empty registry.
    pub fn new() -> (registry: Registry)
        ensures
            registry@.len() == 0,
    {
        Registry { slots: Vec::new() }
    }

    /// The number of places, empty ones included. Every registry keeps its partnerships
    /// mutual; a caller learns so here.
    pub fn len(&self) -> (n: usize)
        ensures
            n == self@.len(),
            mutual(self@),
    {
        proof {
            use_type_invariant(self);
        }
        self.slots.len()
    }

    /// The citizen in place `id`, if one lives there.
    pub fn get(&self, id: usize) -> (citizen: Option<Citizen>)
        ensures
            citizen == (if id < self@.len() {
                self@[id as int]
            } else {
                None
            }),
    {
        if id < self.slots.len() {
            self.slots[id]
        } else {
            None
        }
    }

    /// Counts the living.
    pub fn count(&self) -> (n: usize)
        ensures
            n == living(self@),
    {
        let mut n: usize = 0;
        let mut i: usize = 0;
        while i < self.slots.len()
            invariant
                i <= self.slots.len(),
                n == living(self.slots@.take(i as int)),
                n <= i,
            decreases self.slots.len() - i,
        {
            proof {
                assert(self.slots@.take(i + 1).drop_last() =~= self.slots@.take(i as int));
            }
            if self.slots[i].is_some() {
                n = n + 1;
            }
            i = i + 1;
        }
        proof {
            assert(self.slots@.take(i as int) =~= self.slots@);
        }
        n
    }

    /// Counts the living citizens who hold the given job.
    pub fn workers(&self, job: Job) -> (n: usize)
        ensures
            n == workforce(self@, job),
    {
        let mut n: usize = 0;
        let mut i: usize = 0;
        while i < self.slots.len()
            invariant
                i <= self.slots.len(),
                n == workforce(self.slots@.take(i as int), job),
                n <= i,
            decreases self.slots.len() - i,
        {
            proof {
                assert(self.slots@.take(i + 1).drop_last() =~= self.slots@.take(i as int));
            }
            let hit = match self.slots[i] {
                Some(citizen) => match citizen.job {
                    Some(held) => held == job,
                    None => false,
                },
                None => false,
            };
            if hit {
                n = n + 1;
            }
            i = i + 1;
        }
        proof {
            assert(self.slots@.take(i as int) =~= self.slots@);
        }
        n
    }

    /// Gives a newcomer the next free number. A newcomer has no partner, whatever the record
    /// handed in says.
    pub fn spawn(&mut self, citizen: Citizen) -> (id: usize)
        ensures
            id == old(self)@.len(),
            final(self)@ == old(self)@.push(Some(Citizen { spouse: None, ..citizen })),
    {
        proof {
            use_type_invariant(&*self);
        }
        let mut slots = Vec::new();
        core::mem::swap(&mut slots, &mut self.slots);
        let id = slots.len();
        let ghost before = slots@;
        slots.push(Some(Citizen { spouse: None, ..citizen }));
        proof {
            assert forall|i: int| #[trigger] partner_of(slots@, i) >= 0 implies ({
                let j = partner_of(slots@, i);
                j != i && j < slots@.len() && (slots@[j] is Some ==> partner_of(slots@, j) == i
                    && slots@[j]->0.sex != slots@[i]->0.sex)
            }) by {
                assert(partner_of(before, i) >= 0);
            }
        }
        self.slots = slots;
        id
    }

    /// Replaces the record of the citizen in place `id`, but for the partner and the sex,
    /// which stay as they are. Nothing happens where nobody lives in that place.
    pub fn amend(&mut self, id: usize, citizen: Citizen)
        ensures
            final(self)@ == (if alive(old(self)@, id as int) {
                old(self)@.update(
                    id as int,
                    Some(
                        Citizen {
                            spouse: old(self)@[id as int]->0.spouse,
                            sex: old(self)@[id as int]->0.sex,
                            ..citizen
                        },
                    ),
                )
            } else {
                old(self)@
            }),
    {
        proof {
            use_type_invariant(&*self);
        }
        if id >= self.slots.len() {
            return ;
        }
        match self.slots[id] {
            None => {},
            Some(was) => {
                let mut slots = Vec::new();
                core::mem::swap(&mut slots, &mut self.slots);
                let ghost before = slots@;
                slots.set(id, Some(Citizen { spouse: was.spouse, sex: was.sex, ..citizen }));
                proof {
                    assert forall|i: int| #[trigger] partner_of(slots@, i) >= 0 implies ({
                        let j = partner_of(slots@, i);
                        j != i && j < slots@.len() && (slots@[j] is Some ==> partner_of(slots@, j) == i
                                    && slots@[j]->0.sex != slots@[i]->0.sex)
                    }) by {
                        assert(partner_of(before, i) >= 0);
                        assert(partner_of(before, partner_of(before, i)) == partner_of(
                            slots@,
                            partner_of(before, i),
                        ));
                    }
                }
                self.slots = slots;
            },
        }
    }

    /// Whether `a` and `b` can become partners: two living citizens, one a woman and one a
    /// man, neither of whom has a partner.
    pub open spec fn can_marry(s: Seq<Option<Citizen>>, a: int, b: int) -> bool {
        &&& a != b
        &&& alive(s, a)
        &&& alive(s, b)
        &&& s[a]->0.spouse is None
        &&& s[b]->0.spouse is None
        &&& s[a]->0.sex != s[b]->0.sex
    }

    /// The registry after `a` and `b` became partners.
    pub open spec fn married(s: Seq<Option<Citizen>>, a: int, b: int) -> Seq<Option<Citizen>> {
        s.update(a, Some(Citizen { spouse: Some(b as usize), ..s[a]->0 })).update(
            b,
            Some(Citizen { spouse: Some(a as usize), ..s[b]->0 }),
        )
    }

    /// Makes `a` and `b` partners of each other where they can be, and says whether it did.
    pub fn marry(&mut self, a: usize, b: usize) -> (done: bool)
        ensures
            done == Self::can_marry(old(self)@, a as int, b as int),
            final(self)@ == (if done {
                Self::married(old(self)@, a as int, b as int)
            } else {
                old(self)@
            }),
    {
        proof {
            use_type_invariant(&*self);
        }
        if a == b || a >= self.slots.len() || b >= self.slots.len() {
            return false;
        }
        match (self.slots[a], self.slots[b]) {
            (Some(ca), Some(cb)) => {
                if ca.spouse.is_some() || cb.spouse.is_some() {
                    return false;
                }
                let mixed = match (ca.sex, cb.sex) {
                    (Sex::Female, Sex::Male) => true,
                    (Sex::Male, Sex::Female) => true,
                    _ => false,
                };
                if !mixed {
                    return false;
                }
                let mut slots = Vec::new();
                core::mem::swap(&mut slots, &mut self.slots);
                let ghost before = slots@;
                slots.set(a, Some(Citizen { spouse: Some(b), ..ca }));
                slots.set(b, Some(Citizen { spouse: Some(a), ..cb }));
                proof {
                    assert forall|i: int| #[trigger] partner_of(slots@, i) >= 0 implies ({
                        let j = partner_of(slots@, i);
                        j != i && j < slots@.len() && (slots@[j] is Some ==> partner_of(slots@, j) == i
                                    && slots@[j]->0.sex != slots@[i]->0.sex)
                    }) by {
                        if i != a && i != b {
                            assert(partner_of(before, i) >= 0);
                            let j = partner_of(before, i);
                            if j == a || j == b {
                                assert(partner_of(before, j) == i);
                            }
                        }
                    }
                }
                self.slots = slots;
                true
            },
            _ => false,
        }
    }

    /// Removes the citizen of place `id` and hands back the record. The place stays empty
    /// for good; a partner left behind keeps the reference until [`Registry::widow`] clears it.
    pub fn bury(&mut self, id: usize) -> (gone: Option<Citizen>)
        ensures
            gone == (if id < old(self)@.len() {
                old(self)@[id as int]
            } else {
                None
            }),
            final(self)@ == (if id < old(self)@.len() {
                old(self)@.update(id as int, None)
            } else {
                old(self)@
            }),
    {
        proof {
            use_type_invariant(&*self);
        }
        if id >= self.slots.len() {
            return None;
        }
        let gone = self.slots[id];
        let mut slots = Vec::new();
        core::mem::swap(&mut slots, &mut self.slots);
        let ghost before = slots@;
        slots.set(id, None);
        proof {
            assert forall|i: int| #[trigger] partner_of(slots@, i) >= 0 implies ({
                let j = partner_of(slots@, i);
                j != i && j < slots@.len() && (slots@[j] is Some ==> partner_of(slots@, j) == i
                    && slots@[j]->0.sex != slots@[i]->0.sex)
            }) by {
                assert(partner_of(before, i) >= 0);
            }
        }
        self.slots = slots;
        gone
    }

    /// Whether the citizen of place `i` lives on after a partner who died.
    pub open spec fn bereaved(s: Seq<Option<Citizen>>, i: int) -> bool {
        partner_of(s, i) >= 0 && !alive(s, partner_of(s, i))
    }

    /// Turns the citizen of place `id` into a widow or widower where the partner has died:
    /// the reference to the partner goes, the mark stays. Says whether it did.
    pub fn widow(&mut self, id: usize) -> (done: bool)
        ensures
            done == Self::bereaved(old(self)@, id as int),
            final(self)@ == (if done {
                old(self)@.update(
                    id as int,
                    Some(Citizen { spouse: None, widowed: true, ..old(self)@[id as int]->0 }),
                )
            } else {
                old(self)@
            }),
    {
        proof {
            use_type_invariant(&*self);
        }
        if id >= self.slots.len() {
            return false;
        }
        match self.slots[id] {
            Some(citizen) => {
                match citizen.spouse {
                    Some(partner) => {
                        if partner < self.slots.len() && self.slots[partner].is_some() {
                            return false;
                        }
                        let mut slots = Vec::new();
                        core::mem::swap(&mut slots, &mut self.slots);
                        let ghost before = slots@;
                        slots.set(id, Some(Citizen { spouse: None, widowed: true, ..citizen }));
                        proof {
                            assert forall|i: int| #[trigger]
                                partner_of(slots@, i) >= 0 implies ({
                                let j = partner_of(slots@, i);
                                j != i && j < slots@.len() && (slots@[j] is Some ==> partner_of(slots@, j) == i
                                    && slots@[j]->0.sex != slots@[i]->0.sex)
                            }) by {
                                assert(partner_of(before, i) >= 0);
                                let j = partner_of(before, i);
                                if j == id {
                                    assert(partner_of(before, id as int) >= 0);
                                }
                            }
                        }
                        self.slots = slots;
                        true
                    },
                    None => false,
                }
            },
            None => false,
        }
    }
}

} // verus!
