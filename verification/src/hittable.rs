//! What it means to be hit by a ray.
//!
//! Everything here is seen along one ray: a surface is given by the
//! parameters at which that ray meets it, and a parameter is a rank (see
//! [`crate::scalar`]).

use vstd::prelude::*;

verus! {

/// One intersection of the ray with a surface.
#[derive(Clone, Copy, Debug, PartialEq, Eq, Structural)]
pub struct HitRecord {
    /// The ray parameter of the intersection.
    pub t: i64,
    /// The surface that was hit. The caller numbers its surfaces and finds
    /// the hit point, the normal and the material by this number.
    pub surface: usize,
}

/// Whether `t` lies in the open interval from `t_min` to `t_max`.
pub open spec fn within(t: i64, t_min: i64, t_max: i64) -> bool {
    t_min < t && t < t_max
}

/// The hit `rec` where it lies below `bound`, and no hit otherwise.
pub open spec fn clip(rec: Option<HitRecord>, bound: i64) -> Option<HitRecord> {
    match rec {
        Some(h) => if h.t < bound {
            Some(h)
        } else {
            None
        },
        None => None,
    }
}

/// Something a ray can hit.
///
/// `nearest` says which hit is returned for an interval; the two laws say
/// in what sense it is the nearest one. An implementation proves both.
pub trait Hittable {
    /// The hit that `hit` returns for the open interval from `t_min` to
    /// `t_max`.
    spec fn nearest(&self, t_min: i64, t_max: i64) -> Option<HitRecord>;

    /// Returns the nearest intersection inside the open interval from
    /// `t_min` to `t_max`, or `None` where there is none.
    fn hit(&self, t_min: i64, t_max: i64) -> (rec: Option<HitRecord>)
        ensures
            rec == self.nearest(t_min, t_max),
    ;

    /// A hit lies strictly inside the interval it was asked for.
    proof fn lemma_inside(&self, t_min: i64, t_max: i64)
        ensures
            self.nearest(t_min, t_max) matches Some(h) ==> within(h.t, t_min, t_max),
    ;

    /// Lowering the upper end of the interval keeps a hit that is still
    /// inside and reveals no other: nothing lay before the nearest hit.
    proof fn lemma_narrowed(&self, t_min: i64, t_max: i64, bound: i64)
        requires
            bound <= t_max,
        ensures
            self.nearest(t_min, bound) == clip(self.nearest(t_min, t_max), bound),
    ;
}

/// The hit of `world` in an interval whose ends come out of arithmetic:
/// nothing lies between two ends one of which is not a number.
pub open spec fn nearest_between<W: Hittable>(
    world: &W,
    t_min: Option<i64>,
    t_max: Option<i64>,
) -> Option<HitRecord> {
    match (t_min, t_max) {
        (Some(lo), Some(hi)) => world.nearest(lo, hi),
        _ => None,
    }
}

/// Returns the nearest intersection of `world` strictly between `t_min` and
/// `t_max`, and `None` where an end of the interval is not a number.
pub fn hit_between<W: Hittable>(
    world: &W,
    t_min: Option<i64>,
    t_max: Option<i64>,
) -> (rec: Option<HitRecord>)
    ensures
        rec == nearest_between(world, t_min, t_max),
{
    match (t_min, t_max) {
        (Some(lo), Some(hi)) => world.hit(lo, hi),
        _ => None,
    }
}

} // verus!
