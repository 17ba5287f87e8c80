//! A sphere, as one ray crosses it.
//!
//! Putting the ray `origin + t * direction` into the equation of a sphere
//! gives a quadratic in `t`. The caller solves it; what is decided here is
//! which of its roots, if any, is the hit.

use crate::hittable::{within, HitRecord, Hittable};
use crate::scalar::{above, is_above, ZERO};
use vstd::prelude::*;

verus! {

/// A sphere as far as one ray is concerned: the roots at which the ray
/// crosses it.
#[derive(Clone, Copy, Debug, PartialEq, Eq, Structural)]
pub struct Sphere {
    /// The number of the sphere among the caller's surfaces.
    pub surface: usize,
    /// One root, absent where there is none or it is not a number.
    pub first: Option<i64>,
    /// The other root, likewise. The two may come in either order.
    pub second: Option<i64>,
}

/// Whether `root` is there and lies in the open interval from `t_min` to
/// `t_max`.
pub open spec fn accepted(root: Option<i64>, t_min: i64, t_max: i64) -> bool {
    root matches Some(t) && within(t, t_min, t_max)
}

impl Sphere {
    /// The sphere that `new` builds: the two roots where the discriminant
    /// is a number above zero, and no root otherwise.
    pub open spec fn spec_new(
        surface: usize,
        discriminant: Option<i64>,
        first: Option<i64>,
        second: Option<i64>,
    ) -> Sphere {
        if above(discriminant, ZERO) {
            Sphere { surface, first, second }
        } else {
            Sphere { surface, first: None, second: None }
        }
    }

    /// Builds sphere number `surface` as a ray crosses it, from the
    /// discriminant of their quadratic and its two roots. A discriminant
    /// that is zero, negative or not a number means that the ray misses the
    /// sphere, whatever was passed for the roots.
    pub fn new(
        surface: usize,
        discriminant: Option<i64>,
        first: Option<i64>,
        second: Option<i64>,
    ) -> (sphere: Sphere)
        ensures
            sphere == Sphere::spec_new(surface, discriminant, first, second),
    {
        if is_above(discriminant, ZERO) {
            Sphere { surface, first, second }
        } else {
            Sphere { surface, first: None, second: None }
        }
    }
}

impl Hittable for Sphere {
    /// The smaller of the roots inside the interval.
    open spec fn nearest(&self, t_min: i64, t_max: i64) -> Option<HitRecord> {
        let a = accepted(self.first, t_min, t_max);
        let b = accepted(self.second, t_min, t_max);
        if a && (!b || self.first->0 <= self.second->0) {
            Some(HitRecord { t: self.first->0, surface: self.surface })
        } else if b {
            Some(HitRecord { t: self.second->0, surface: self.surface })
        } else {
            None
        }
    }

    fn hit(&self, t_min: i64, t_max: i64) -> (rec: Option<HitRecord>) {
        let mut best: Option<i64> = None;
        if let Some(t) = self.first {
            if t_min < t && t < t_max {
                best = Some(t);
            }
        }
        if let Some(t) = self.second {
            if t_min < t && t < t_max {
                best = match best {
                    Some(s) => if s <= t {
                        Some(s)
                    } else {
                        Some(t)
                    },
                    None => Some(t),
                };
            }
        }
        match best {
            Some(t) => Some(HitRecord { t, surface: self.surface }),
            None => None,
        }
    }

    proof fn lemma_inside(&self, t_min: i64, t_max: i64) {
    }

    proof fn lemma_narrowed(&self, t_min: i64, t_max: i64, bound: i64) {
    }
}

/// A sphere is hit exactly where one of its roots lies inside the
/// interval, and then at one of its roots.
pub proof fn lemma_hit_at_a_root(s: Sphere, t_min: i64, t_max: i64)
    ensures
        s.nearest(t_min, t_max) is Some <==> accepted(s.first, t_min, t_max) || accepted(
            s.second,
            t_min,
            t_max,
        ),
        s.nearest(t_min, t_max) matches Some(h) ==> h.surface == s.surface && (s.first == Some(h.t)
            || s.second == Some(h.t)),
{
}

/// With the smaller root first, the hit is the first root where that lies
/// inside the interval, and the second root where only that does.
pub proof fn lemma_smaller_root_first(s: Sphere, t_min: i64, t_max: i64)
    requires
        s.first is Some && s.second is Some ==> s.first->0 <= s.second->0,
    ensures
        s.nearest(t_min, t_max) == (if accepted(s.first, t_min, t_max) {
            Some(HitRecord { t: s.first->0, surface: s.surface })
        } else if accepted(s.second, t_min, t_max) {
            Some(HitRecord { t: s.second->0, surface: s.surface })
        } else {
            None
        }),
{
}

/// A ray whose quadratic has no discriminant above zero hits nothing,
/// whatever the interval and whatever was passed for the roots.
pub proof fn lemma_no_root_no_hit(
    surface: usize,
    discriminant: Option<i64>,
    first: Option<i64>,
    second: Option<i64>,
    t_min: i64,
    t_max: i64,
)
    requires
        !above(discriminant, ZERO),
    ensures
        Sphere::spec_new(surface, discriminant, first, second).nearest(t_min, t_max) is None,
{
}

} // verus!
