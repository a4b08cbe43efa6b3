//! Couples and those they leave behind.

use super::components::{Citizen, Sex, WORKING_AGE};
use super::registry::{
    alive, mutual, partner_of, partners_kept, same_people, settled, Registry,
};
use crate::common::utils::{lemma_marked, marked, marked_positions};
use crate::time::Date;
use vstd::prelude::*;

verus! {

/// A man without a partner.
pub open spec fn is_groom(place: Option<Citizen>) -> bool {
    place is Some && place->0.sex == Sex::Male && place->0.spouse is None
}

/// A woman without a partner who is not with child and older than 18 on `date`.
pub open spec fn is_bride(place: Option<Citizen>, date: Date) -> bool {
    &&& place is Some
    &&& place->0.sex == Sex::Female
    &&& place->0.spouse is None
    &&& !place->0.is_pregnant()
    &&& date.age_of(place->0.birthday) > WORKING_AGE
}

/// The men who can be paired, by their numbers in rising order.
pub open spec fn grooms(s: Seq<Option<Citizen>>) -> Seq<usize> {
    marked(Seq::new(s.len(), |i: int| is_groom(s[i])))
}

/// The women who can be paired on `date`, by their numbers in rising order.
pub open spec fn brides(s: Seq<Option<Citizen>>, date: Date) -> Seq<usize> {
    marked(Seq::new(s.len(), |i: int| is_bride(s[i], date)))
}

/// The number of couples formed on `date`: as many as the shorter of the two lists allows.
pub open spec fn weddings(s: Seq<Option<Citizen>>, date: Date) -> int {
    if brides(s, date).len() <= grooms(s).len() {
        brides(s, date).len() as int
    } else {
        grooms(s).len() as int
    }
}

/// The groom of the `k`-th bride: the men are taken from the end of their list.
pub open spec fn groom_of(s: Seq<Option<Citizen>>, k: int) -> usize {
    grooms(s)[grooms(s).len() - 1 - k]
}

/// Whether `i` is one of the first `couples` women of `women` or one of the last `couples`
/// men of `men`.
pub open spec fn paired_off(women: Seq<usize>, men: Seq<usize>, couples: int, i: int) -> bool {
    exists|k: int|
        0 <= k < couples && (#[trigger] women[k] == i || men[men.len() - 1 - k] == i)
}

/// The registry after the first `k` women of `women` were paired, each with the man `k`
/// places from the end of `men`.
pub open spec fn paired_up(
    s: Seq<Option<Citizen>>,
    women: Seq<usize>,
    men: Seq<usize>,
    k: int,
) -> Seq<Option<Citizen>>
    decreases k,
{
    if k <= 0 {
        s
    } else {
        Registry::married(
            paired_up(s, women, men, k - 1),
            women[k - 1] as int,
            men[men.len() - k] as int,
        )
    }
}

/// The registry after the day's couples were formed.
pub open spec fn with_couples(s: Seq<Option<Citizen>>, date: Date) -> Seq<Option<Citizen>> {
    paired_up(s, brides(s, date), grooms(s), weddings(s, date))
}

/// Pairs the unpaired. The women who can be paired are taken in the order of their numbers,
/// the men from the highest number down; the first woman is paired with the last man, the
/// second with the last but one, until either list runs out. The two of a couple name each
/// other as partner; nothing else changes, and nobody else is touched. Afterwards as before,
/// every couple is a woman and a man who name each other, and where nobody was paired with
/// the dead before, nobody is afterwards.
pub fn init_couples(registry: &mut Registry, date: Date)
    ensures
        final(registry)@ == with_couples(old(registry)@, date),
        mutual(final(registry)@),
        settled(old(registry)@) ==> settled(final(registry)@),
        final(registry)@.len() == old(registry)@.len(),
        forall|k: int|
            0 <= k < weddings(old(registry)@, date) ==> {
                let bride = #[trigger] brides(old(registry)@, date)[k];
                let groom = groom_of(old(registry)@, k);
                &&& final(registry)@[bride as int] == Some(
                    Citizen { spouse: Some(groom), ..old(registry)@[bride as int]->0 },
                )
                &&& final(registry)@[groom as int] == Some(
                    Citizen { spouse: Some(bride), ..old(registry)@[groom as int]->0 },
                )
            },
        forall|i: int|
            0 <= i < old(registry)@.len() && !paired_off(
                brides(old(registry)@, date),
                grooms(old(registry)@),
                weddings(old(registry)@, date),
                i,
            ) ==> #[trigger] final(registry)@[i] == old(registry)@[i],
        same_people(old(registry)@, final(registry)@),
        partners_kept(old(registry)@, final(registry)@),
{
    let n = registry.len();
    let mut men_marks: Vec<bool> = Vec::new();
    let mut women_marks: Vec<bool> = Vec::new();
    while men_marks.len() < n
        invariant
            n == registry@.len(),
            men_marks.len() <= n,
            women_marks.len() == men_marks.len(),
            forall|i: int| 0 <= i < men_marks.len() ==> #[trigger] men_marks[i] == is_groom(registry@[i]),
            forall|i: int|
                0 <= i < women_marks.len() ==> #[trigger] women_marks[i] == is_bride(
                    registry@[i],
                    date,
                ),
        decreases n - men_marks.len(),
    {
        let (man, woman) = match registry.get(men_marks.len()) {
            Some(citizen) => {
                let single = citizen.spouse.is_none();
                match citizen.sex {
                    Sex::Male => (single, false),
                    Sex::Female => (
                        false,
                        single && !citizen.pregnant() && date.age(citizen.birthday) > WORKING_AGE,
                    ),
                }
            },
            None => (false, false),
        };
        men_marks.push(man);
        women_marks.push(woman);
    }
    proof {
        assert(men_marks@ =~= Seq::new(registry@.len(), |i: int| is_groom(registry@[i])));
        assert(women_marks@ =~= Seq::new(registry@.len(), |i: int| is_bride(registry@[i], date)));
        lemma_marked(men_marks@);
        lemma_marked(women_marks@);
    }
    let men = marked_positions(&men_marks);
    let women = marked_positions(&women_marks);
    let couples = if women.len() <= men.len() {
        women.len()
    } else {
        men.len()
    };
    let ghost start = registry@;
    let mut k: usize = 0;
    while k < couples
        invariant
            start == old(registry)@,
            men@ == grooms(start),
            women@ == brides(start, date),
            couples == weddings(start, date),
            couples <= men.len(),
            couples <= women.len(),
            k <= couples,
            registry@.len() == start.len(),
            registry@ == paired_up(start, women@, men@, k as int),
            mutual(registry@),
            settled(start) ==> settled(registry@),
            same_people(start, registry@),
            partners_kept(start, registry@),
            forall|j: int| 0 <= j < men.len() ==> (#[trigger] men[j]) < start.len() && is_groom(start[men[j] as int]),
            forall|j: int| 0 <= j < women.len() ==> (#[trigger] women[j]) < start.len() && is_bride(start[women[j] as int], date),
            forall|i: int, j: int| 0 <= i < j < men.len() ==> (#[trigger] men[i]) < (#[trigger] men[j]),
            forall|i: int, j: int| 0 <= i < j < women.len() ==> (#[trigger] women[i]) < (#[trigger] women[j]),
            forall|j: int|
                0 <= j < k ==> {
                    let bride = #[trigger] women[j];
                    let groom = men[men.len() - 1 - j];
                    &&& registry@[bride as int] == Some(
                        Citizen { spouse: Some(groom), ..start[bride as int]->0 },
                    )
                    &&& registry@[groom as int] == Some(
                        Citizen { spouse: Some(bride), ..start[groom as int]->0 },
                    )
                },
            forall|i: int|
                0 <= i < start.len() && !paired_off(women@, men@, k as int, i)
                    ==> #[trigger] registry@[i] == start[i],
        decreases couples - k,
    {
        let bride = women[k];
        let groom = men[men.len() - 1 - k];
        let ghost before = registry@;
        proof {
            assert(is_bride(start[bride as int], date));
            assert(is_groom(start[groom as int]));
            assert forall|j: int| 0 <= j < k implies #[trigger] women[j] != bride as int && men[men.len() - 1 - j] != bride as int by {
                assert(is_groom(start[men[men.len() - 1 - j] as int]));
            }
            assert forall|j: int| 0 <= j < k implies #[trigger] women[j] != groom as int && men[men.len() - 1 - j] != groom as int by {
                assert(is_bride(start[women[j] as int], date));
                assert(men[men.len() - 1 - k] < men[men.len() - 1 - j]);
            }
            assert(!paired_off(women@, men@, k as int, bride as int));
            assert(!paired_off(women@, men@, k as int, groom as int));
            assert(before[bride as int] == start[bride as int]);
            assert(before[groom as int] == start[groom as int]);
        }
        let done = registry.marry(bride, groom);
        proof {
            assert(done);
            assert forall|j: int| 0 <= j < k + 1 implies ({
                let b = #[trigger] women[j];
                let g = men[men.len() - 1 - j];
                &&& registry@[b as int] == Some(Citizen { spouse: Some(g), ..start[b as int]->0 })
                &&& registry@[g as int] == Some(Citizen { spouse: Some(b), ..start[g as int]->0 })
            }) by {
                if j < k {
                    let b = women[j];
                    let g = men[men.len() - 1 - j];
                    assert(b != bride);
                    assert(is_groom(start[g as int]));
                    assert(is_bride(start[b as int], date));
                    assert(men[men.len() - 1 - k] < men[men.len() - 1 - j]);
                }
            }
            assert forall|i: int|
                0 <= i < start.len() && !paired_off(women@, men@, k + 1, i)
                implies #[trigger] registry@[i] == start[i] by {
                assert(women[k as int] != i && men[men.len() - 1 - k] != i);
                if paired_off(women@, men@, k as int, i) {
                    let j = choose|j: int|
                        0 <= j < k && (#[trigger] women[j] == i || men[men.len() - 1 - j] == i);
                    assert(0 <= j < k + 1 && (women[j] == i || men[men.len() - 1 - j] == i));
                }
                assert(before[i] == start[i]);
            }
        }
        let places = registry.len();
        proof {
            if settled(start) {
                let now = registry@;
                assert forall|i: int| #[trigger] partner_of(now, i) >= 0 implies alive(
                    now,
                    partner_of(now, i),
                ) by {
                    if i != bride as int && i != groom as int {
                        assert(now[i] == before[i]);
                        assert(partner_of(before, i) >= 0);
                        assert(alive(before, partner_of(before, i)));
                    }
                }
            }
        }
        k = k + 1;
    }
}

/// The record of a citizen after the partner's death: no partner, and marked for good.
pub open spec fn widowed(citizen: Citizen) -> Citizen {
    Citizen { spouse: None, widowed: true, ..citizen }
}

/// The registry after those whose partner has died were seen to.
pub open spec fn with_widows(s: Seq<Option<Citizen>>) -> Seq<Option<Citizen>> {
    Seq::new(
        s.len(),
        |i: int|
            if Registry::bereaved(s, i) {
                Some(widowed(s[i]->0))
            } else {
                s[i]
            },
    )
}

/// Sees to those whose partner has died: each loses the reference to the partner and is
/// marked as widowed. Nobody else changes. Afterwards no citizen is paired with the dead.
pub fn create_widowed(registry: &mut Registry)
    ensures
        final(registry)@ == with_widows(old(registry)@),
        final(registry)@.len() == old(registry)@.len(),
        forall|i: int|
            0 <= i < old(registry)@.len() ==> #[trigger] final(registry)@[i] == (
            if Registry::bereaved(old(registry)@, i) {
                Some(widowed(old(registry)@[i]->0))
            } else {
                old(registry)@[i]
            }),
        settled(final(registry)@),
        same_people(old(registry)@, final(registry)@),
{
    let n = registry.len();
    let mut i: usize = 0;
    while i < n
        invariant
            i <= n,
            n == old(registry)@.len(),
            registry@.len() == n,
            forall|j: int|
                0 <= j < i ==> #[trigger] registry@[j] == (if Registry::bereaved(
                    old(registry)@,
                    j,
                ) {
                    Some(widowed(old(registry)@[j]->0))
                } else {
                    old(registry)@[j]
                }),
            forall|j: int| i <= j < n ==> #[trigger] registry@[j] == old(registry)@[j],
        decreases n - i,
    {
        proof {
            let p = partner_of(registry@, i as int);
            assert(p == partner_of(old(registry)@, i as int));
            if 0 <= p < n {
                assert(registry@[p] is Some <==> old(registry)@[p] is Some);
            }
        }
        registry.widow(i);
        i = i + 1;
    }
    let m = registry.len();
    proof {
        let s = registry@;
        let o = old(registry)@;
        assert(s =~= with_widows(o));
        assert forall|i: int| #[trigger] partner_of(s, i) >= 0 implies alive(s, partner_of(s, i)) by {
            assert(!Registry::bereaved(o, i));
            assert(s[i] == o[i]);
            let p = partner_of(o, i);
            assert(alive(o, p));
            assert(s[p] is Some);
        }
    }
}

/// In a settled registry a partnership goes both ways and joins a woman and a man: the
/// partner of a citizen is somebody else, is alive, has that citizen for a partner, and is of
/// the other sex.
pub proof fn lemma_partnership_is_symmetric(s: Seq<Option<Citizen>>, a: int)
    requires
        settled(s),
        partner_of(s, a) >= 0,
    ensures
        partner_of(s, a) != a,
        alive(s, partner_of(s, a)),
        partner_of(s, partner_of(s, a)) == a,
        s[a]->0.sex != s[partner_of(s, a)]->0.sex,
{
}

/// When a citizen of a settled registry dies, the partner is bereaved, and the record that
/// [`create_widowed`] gives the partner is marked as widowed and names no partner.
pub proof fn lemma_death_leaves_widow(s: Seq<Option<Citizen>>, a: int)
    requires
        settled(s),
        partner_of(s, a) >= 0,
    ensures
        Registry::bereaved(s.update(partner_of(s, a), None), a),
        widowed(s[a]->0).widowed,
        widowed(s[a]->0).spouse is None,
{
    let b = partner_of(s, a);
    let after = s.update(b, None);
    assert(partner_of(after, a) == b);
}

} // verus!
