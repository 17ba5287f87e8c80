//! A scene: a list of things to hit, which is hit where its nearest member
//! is hit.

use crate::hittable::{clip, HitRecord, Hittable};
use vstd::prelude::*;

verus! {

/// A list of things a ray can hit, in the order in which they are tried.
pub struct HittableList<H: Hittable> {
    pub list: Vec<H>,
}

/// Whether member `i` gives the hit of the whole list: it is hit inside the
/// interval, no member is hit nearer, and no member before it is hit as
/// near.
pub open spec fn wins<H: Hittable>(members: Seq<H>, t_min: i64, t_max: i64, i: int) -> bool {
    &&& 0 <= i < members.len()
    &&& members[i].nearest(t_min, t_max) matches Some(h)
    &&& forall|j: int|
        0 <= j < members.len() ==> (#[trigger] members[j].nearest(t_min, t_max) matches Some(g)
            ==> h.t <= g.t && (j < i ==> h.t < g.t))
}

/// The hit of a list of members: that of the member that wins, and none
/// where no member wins.
pub open spec fn nearest_of<H: Hittable>(
    members: Seq<H>,
    t_min: i64,
    t_max: i64,
) -> Option<HitRecord> {
    if exists|i: int| wins(members, t_min, t_max, i) {
        members[choose|i: int| wins(members, t_min, t_max, i)].nearest(t_min, t_max)
    } else {
        None
    }
}

/// Whether no member is hit inside the interval.
pub open spec fn all_miss<H: Hittable>(members: Seq<H>, t_min: i64, t_max: i64) -> bool {
    forall|j: int| 0 <= j < members.len() ==> #[trigger] members[j].nearest(t_min, t_max) is None
}

/// At most one member wins.
pub proof fn lemma_one_winner<H: Hittable>(
    members: Seq<H>,
    t_min: i64,
    t_max: i64,
    i: int,
    k: int,
)
    requires
        wins(members, t_min, t_max, i),
        wins(members, t_min, t_max, k),
    ensures
        i == k,
{
}

/// The hit of a list is the hit of its winner.
pub proof fn lemma_winner_is_nearest<H: Hittable>(members: Seq<H>, t_min: i64, t_max: i64, i: int)
    requires
        wins(members, t_min, t_max, i),
    ensures
        nearest_of(members, t_min, t_max) == members[i].nearest(t_min, t_max),
{
    let k = choose|k: int| wins(members, t_min, t_max, k);
    lemma_one_winner(members, t_min, t_max, i, k);
}

/// Where any member is hit, some member wins.
pub proof fn lemma_some_winner<H: Hittable>(members: Seq<H>, t_min: i64, t_max: i64, j: int)
    requires
        0 <= j < members.len(),
        members[j].nearest(t_min, t_max) is Some,
    ensures
        exists|i: int| wins(members, t_min, t_max, i),
    decreases members.len(),
{
    let front = members.drop_last();
    let last = members.len() - 1;
    assert(forall|k: int| 0 <= k < front.len() ==> front[k] == members[k]);
    if exists|k: int| 0 <= k < front.len() && (#[trigger] front[k].nearest(t_min, t_max)) is Some {
        let k = choose|k: int|
            0 <= k < front.len() && (#[trigger] front[k].nearest(t_min, t_max)) is Some;
        lemma_some_winner(front, t_min, t_max, k);
        let i = choose|i: int| wins(front, t_min, t_max, i);
        let h = front[i].nearest(t_min, t_max)->0;
        match members[last].nearest(t_min, t_max) {
            Some(g) => {
                if g.t < h.t {
                    assert(wins(members, t_min, t_max, last));
                } else {
                    assert(wins(members, t_min, t_max, i));
                }
            },
            None => {
                assert(wins(members, t_min, t_max, i));
            },
        }
    } else {
        assert(j == last);
        assert(wins(members, t_min, t_max, last));
    }
}

/// A list without a hit is a list none of whose members is hit.
pub proof fn lemma_no_hit<H: Hittable>(members: Seq<H>, t_min: i64, t_max: i64)
    ensures
        nearest_of(members, t_min, t_max) is None <==> all_miss(members, t_min, t_max),
{
    if nearest_of(members, t_min, t_max) is None {
        assert forall|j: int| 0 <= j < members.len() implies (#[trigger] members[j].nearest(
            t_min,
            t_max,
        )) is None by {
            if members[j].nearest(t_min, t_max) is Some {
                lemma_some_winner(members, t_min, t_max, j);
            }
        }
    }
}

/// The hit of a list is the nearest of all its members' hits: where member
/// `j` is hit, the list is hit, and no farther.
pub proof fn lemma_nearest_of_all<H: Hittable>(members: Seq<H>, t_min: i64, t_max: i64, j: int)
    requires
        0 <= j < members.len(),
        members[j].nearest(t_min, t_max) is Some,
    ensures
        nearest_of(members, t_min, t_max) is Some,
        nearest_of(members, t_min, t_max)->0.t <= members[j].nearest(t_min, t_max)->0.t,
{
    lemma_some_winner(members, t_min, t_max, j);
    let i = choose|i: int| wins(members, t_min, t_max, i);
    lemma_winner_is_nearest(members, t_min, t_max, i);
}

/// The hit of a list is the hit of one of its members.
pub proof fn lemma_hit_of_a_member<H: Hittable>(members: Seq<H>, t_min: i64, t_max: i64)
    requires
        nearest_of(members, t_min, t_max) is Some,
    ensures
        exists|i: int|
            wins(members, t_min, t_max, i) && nearest_of(members, t_min, t_max)
                == members[i].nearest(t_min, t_max),
{
    let i = choose|i: int| wins(members, t_min, t_max, i);
    assert(wins(members, t_min, t_max, i));
}

/// The order of the members decides nothing but ties: two lists with the
/// same members are hit at the same parameter, or both not at all.
pub proof fn lemma_order_is_free<H: Hittable>(a: Seq<H>, b: Seq<H>, t_min: i64, t_max: i64)
    requires
        forall|x: H| a.contains(x) <==> b.contains(x),
    ensures
        nearest_of(a, t_min, t_max) is Some <==> nearest_of(b, t_min, t_max) is Some,
        nearest_of(a, t_min, t_max) matches Some(h) ==> nearest_of(b, t_min, t_max)->0.t == h.t,
{
    lemma_no_farther(a, b, t_min, t_max);
    lemma_no_farther(b, a, t_min, t_max);
}

/// A list that holds every member of another is hit wherever that one is,
/// and no farther.
pub proof fn lemma_no_farther<H: Hittable>(a: Seq<H>, b: Seq<H>, t_min: i64, t_max: i64)
    requires
        forall|x: H| a.contains(x) ==> b.contains(x),
    ensures
        nearest_of(a, t_min, t_max) matches Some(h) ==> nearest_of(b, t_min, t_max) matches Some(g)
            && g.t <= h.t,
{
    if nearest_of(a, t_min, t_max) is Some {
        lemma_hit_of_a_member(a, t_min, t_max);
        let i = choose|i: int|
            wins(a, t_min, t_max, i) && nearest_of(a, t_min, t_max) == a[i].nearest(t_min, t_max);
        assert(a.contains(a[i]));
        let j = choose|j: int| 0 <= j < b.len() && b[j] == a[i];
        lemma_nearest_of_all(b, t_min, t_max, j);
    }
}

/// Trying one more member: it takes the hit where it is hit below the
/// nearest hit so far, and leaves the hit as it was otherwise.
pub proof fn lemma_one_more<H: Hittable>(members: Seq<H>, t_min: i64, t_max: i64)
    requires
        members.len() > 0,
    ensures
        nearest_of(members, t_min, t_max) == ({
            let before = nearest_of(members.drop_last(), t_min, t_max);
            let bound = match before {
                Some(h) => h.t,
                None => t_max,
            };
            match members.last().nearest(t_min, bound) {
                Some(g) => Some(g),
                None => before,
            }
        }),
{
    let front = members.drop_last();
    let last = members.len() - 1;
    let m = members[last];
    let before = nearest_of(front, t_min, t_max);
    assert(forall|k: int| 0 <= k < front.len() ==> front[k] == members[k]);
    m.lemma_inside(t_min, t_max);
    match before {
        Some(h) => {
            let i = choose|i: int| wins(front, t_min, t_max, i);
            front[i].lemma_inside(t_min, t_max);
            m.lemma_narrowed(t_min, t_max, h.t);
            match m.nearest(t_min, t_max) {
                Some(g) => {
                    if g.t < h.t {
                        assert(wins(members, t_min, t_max, last));
                        lemma_winner_is_nearest(members, t_min, t_max, last);
                    } else {
                        assert(wins(members, t_min, t_max, i));
                        lemma_winner_is_nearest(members, t_min, t_max, i);
                    }
                },
                None => {
                    assert(wins(members, t_min, t_max, i));
                    lemma_winner_is_nearest(members, t_min, t_max, i);
                },
            }
        },
        None => {
            lemma_no_hit(front, t_min, t_max);
            m.lemma_narrowed(t_min, t_max, t_max);
            match m.nearest(t_min, t_max) {
                Some(g) => {
                    assert(wins(members, t_min, t_max, last));
                    lemma_winner_is_nearest(members, t_min, t_max, last);
                },
                None => {
                    assert(all_miss(members, t_min, t_max));
                    lemma_no_hit(members, t_min, t_max);
                },
            }
        },
    }
}

impl<H: Hittable> HittableList<H> {
    /// Makes a scene of the members of `list`, in their order.
    pub fn new(list: Vec<H>) -> (scene: Self)
        ensures
            scene.list == list,
    {
        Self { list }
    }
}

impl<H: Hittable> Hittable for HittableList<H> {
    /// The hit of the member that wins.
    open spec fn nearest(&self, t_min: i64, t_max: i64) -> Option<HitRecord> {
        nearest_of(self.list@, t_min, t_max)
    }

    /// Tries the members in turn, each only below the nearest hit found so
    /// far, so that a later member can replace that hit but never tie with
    /// it.
    fn hit(&self, t_min: i64, t_max: i64) -> (rec: Option<HitRecord>)
        ensures
            rec is None <==> all_miss(self.list@, t_min, t_max),
            rec matches Some(h) ==> exists|i: int|
                wins(self.list@, t_min, t_max, i) && self.list@[i].nearest(t_min, t_max) == rec,
    {
        let mut closest_so_far: i64 = t_max;
        let mut rec: Option<HitRecord> = None;
        let mut k: usize = 0;
        while k < self.list.len()
            invariant
                k <= self.list.len(),
                rec == nearest_of(self.list@.take(k as int), t_min, t_max),
                closest_so_far == match rec {
                    Some(h) => h.t,
                    None => t_max,
                },
            decreases self.list.len() - k,
        {
            let found = self.list[k].hit(t_min, closest_so_far);
            proof {
                let tried = self.list@.take(k + 1);
                assert(tried.drop_last() =~= self.list@.take(k as int));
                assert(tried.last() == self.list@[k as int]);
                lemma_one_more(tried, t_min, t_max);
            }
            if let Some(h) = found {
                closest_so_far = h.t;
                rec = Some(h);
            }
            k = k + 1;
        }
        proof {
            assert(self.list@.take(k as int) =~= self.list@);
            lemma_no_hit(self.list@, t_min, t_max);
            if rec is Some {
                lemma_hit_of_a_member(self.list@, t_min, t_max);
            }
        }
        rec
    }

    proof fn lemma_inside(&self, t_min: i64, t_max: i64) {
        if nearest_of(self.list@, t_min, t_max) is Some {
            let i = choose|i: int| wins(self.list@, t_min, t_max, i);
            self.list@[i].lemma_inside(t_min, t_max);
        }
    }

    proof fn lemma_narrowed(&self, t_min: i64, t_max: i64, bound: i64) {
        let members = self.list@;
        assert forall|j: int| 0 <= j < members.len() implies #[trigger] members[j].nearest(
            t_min,
            bound,
        ) == clip(members[j].nearest(t_min, t_max), bound) by {
            members[j].lemma_narrowed(t_min, t_max, bound);
        }
        lemma_no_hit(members, t_min, t_max);
        lemma_no_hit(members, t_min, bound);
        match nearest_of(members, t_min, t_max) {
            Some(h) => {
                let i = choose|i: int| wins(members, t_min, t_max, i);
                if h.t < bound {
                    assert(wins(members, t_min, bound, i)) by {
                        assert forall|j: int| 0 <= j < members.len() implies (
                        #[trigger] members[j].nearest(t_min, bound) matches Some(g) ==> h.t <= g.t
                            && (j < i ==> h.t < g.t)) by {
                            assert(members[j].nearest(t_min, bound) == clip(
                                members[j].nearest(t_min, t_max),
                                bound,
                            ));
                        }
                    }
                    lemma_winner_is_nearest(members, t_min, bound, i);
                } else {
                    assert forall|j: int| 0 <= j < members.len() implies #[trigger] members[j].nearest(
                        t_min,
                        bound,
                    ) is None by {
                        assert(members[j].nearest(t_min, bound) == clip(
                            members[j].nearest(t_min, t_max),
                            bound,
                        ));
                    }
                }
            },
            None => {
                assert forall|j: int| 0 <= j < members.len() implies #[trigger] members[j].nearest(
                    t_min,
                    bound,
                ) is None by {
                    assert(members[j].nearest(t_min, bound) == clip(
                        members[j].nearest(t_min, t_max),
                        bound,
                    ));
                }
            },
        }
    }
}

} // verus!
