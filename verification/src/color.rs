//! How the colour of a ray is put together: the decisions of the integrator.
//!
//! The colour of a ray that escapes the scene is the background. The colour
//! of a ray that is hit and scattered is the attenuation of the surface
//! times the colour of the scattered ray, one level deeper. Everything else
//! is black: a ray that is absorbed, and a ray at the depth limit.

use crate::hittable::{HitRecord, Hittable};
use crate::hittable_list::{lemma_no_hit, nearest_of};
use crate::scalar::{exponent, fraction, scaled, INFINITY};
use vstd::arithmetic::power2::{lemma2_to64_rest, lemma_pow2_adds, pow2};
use vstd::prelude::*;

verus! {

/// The depth at which a path is cut off.
pub const MAX_DEPTH: i32 = 50;

/// The lower end of the interval in which hits are sought: the rank of
/// 0.001, which keeps a scattered ray from hitting the surface it starts on.
pub const T_MIN: i64 = 0x3f50_624d_d2f1_a9fc;

/// The upper end of that interval: infinity.
pub const T_MAX: i64 = INFINITY;

/// What happened to one ray.
#[derive(Clone, Copy, Debug, PartialEq, Eq, Structural)]
pub enum Event {
    /// The ray hit nothing.
    Miss,
    /// The ray hit a surface, whose material scattered it or did not.
    Hit { scattered: bool },
}

/// The colour of one ray, as far as it is decided here.
#[derive(Clone, Copy, Debug, PartialEq, Eq, Structural)]
pub enum Shade {
    /// The colour of the background in the direction of the ray.
    Background,
    /// Black.
    Black,
    /// The attenuation of the surface times the colour of the scattered
    /// ray, which is traced at `depth`.
    Attenuated { depth: i32 },
}

/// The colour of a ray at `depth` to which `event` happened.
pub open spec fn shade_of(event: Event, depth: i32) -> Shade {
    match event {
        Event::Miss => Shade::Background,
        Event::Hit { scattered } => if depth < MAX_DEPTH && scattered {
            Shade::Attenuated { depth: (depth + 1) as i32 }
        } else {
            Shade::Black
        },
    }
}

/// How often a path is attenuated before it ends. The path starts at
/// `depth` with its ray number `from`, and `events(k)` is what happens to
/// its ray number `k`.
pub open spec fn bounces(events: spec_fn(nat) -> Event, from: nat, depth: i32) -> nat
    decreases MAX_DEPTH - depth,
{
    match shade_of(events(from), depth) {
        Shade::Attenuated { depth: deeper } => 1 + bounces(events, from + 1, deeper),
        _ => 0,
    }
}

/// The colour in which such a path ends: the background or black.
pub open spec fn last_shade(events: spec_fn(nat) -> Event, from: nat, depth: i32) -> Shade
    decreases MAX_DEPTH - depth,
{
    match shade_of(events(from), depth) {
        Shade::Attenuated { depth: deeper } => last_shade(events, from + 1, deeper),
        shade => shade,
    }
}

/// Finds the nearest surface that a ray hits in `world`, from just beyond
/// its origin to infinity.
pub fn seek<W: Hittable>(world: &W) -> (rec: Option<HitRecord>)
    ensures
        rec == world.nearest(T_MIN, T_MAX),
{
    world.hit(T_MIN, T_MAX)
}

/// Decides the colour of a ray at `depth` to which `event` happened.
pub fn color(event: Event, depth: i32) -> (shade: Shade)
    ensures
        shade == shade_of(event, depth),
{
    match event {
        Event::Miss => Shade::Background,
        Event::Hit { scattered } => if depth < MAX_DEPTH && scattered {
            Shade::Attenuated { depth: depth + 1 }
        } else {
            Shade::Black
        },
    }
}

/// `T_MIN` stands for the number nearest to one thousandth: a thousand
/// times that number exceeds one by 96 thousandths of the step to the next
/// number, which is less than half a step.
pub proof fn lemma_t_min()
    ensures
        1000 * scaled(T_MIN as u64) == pow2(1074) + 96 * pow2(1012),
{
    let p = pow2(1012) as int;
    let m: int = 0x10_624d_d2f1_a9fc;
    assert(exponent(T_MIN as u64) == 1013 && fraction(T_MIN as u64) == 0x624d_d2f1_a9fc);
    assert(scaled(T_MIN as u64) == m * p);
    assert(pow2(62) == 0x4000_0000_0000_0000) by {
        lemma2_to64_rest();
    }
    lemma_pow2_adds(62, 1012);
    assert(1000 * (m * p) == 0x4000_0000_0000_0000 * p + 96 * p) by (nonlinear_arith)
        requires
            1000 * m == 0x4000_0000_0000_0000 + 96,
    ;
}

/// Every path ends: whatever happens to its rays, a path that starts at
/// `depth` is attenuated no more often than the depth limit leaves room
/// for, and ends in the background or in black.
pub proof fn lemma_path_ends(events: spec_fn(nat) -> Event, from: nat, depth: i32)
    ensures
        depth <= MAX_DEPTH ==> bounces(events, from, depth) <= MAX_DEPTH - depth,
        depth >= MAX_DEPTH ==> bounces(events, from, depth) == 0,
        last_shade(events, from, depth) is Background || last_shade(events, from, depth) is Black,
    decreases MAX_DEPTH - depth,
{
    match shade_of(events(from), depth) {
        Shade::Attenuated { depth: deeper } => {
            lemma_path_ends(events, from + 1, deeper);
        },
        _ => {},
    }
}

/// A path whose every ray is scattered is cut off at the depth limit: from
/// depth 0 it is attenuated exactly 50 times, and it ends in black.
pub proof fn lemma_cut_off(events: spec_fn(nat) -> Event, from: nat, depth: i32)
    requires
        forall|k: nat| k >= from ==> #[trigger] events(k) == (Event::Hit { scattered: true }),
        depth <= MAX_DEPTH,
    ensures
        bounces(events, from, depth) == MAX_DEPTH - depth,
        last_shade(events, from, depth) == Shade::Black,
    decreases MAX_DEPTH - depth,
{
    assert(events(from) == (Event::Hit { scattered: true }));
    if depth < MAX_DEPTH {
        lemma_cut_off(events, from + 1, (depth + 1) as i32);
    }
}

/// A path ends in the background exactly when the ray at which it ends
/// hits nothing, and every ray before that one was scattered.
pub proof fn lemma_escape(events: spec_fn(nat) -> Event, from: nat, depth: i32)
    ensures
        last_shade(events, from, depth) is Background <==> events(
            from + bounces(events, from, depth),
        ) is Miss,
        forall|k: nat|
            from <= k < from + bounces(events, from, depth) ==> #[trigger] events(k) == (
            Event::Hit { scattered: true }),
    decreases MAX_DEPTH - depth,
{
    match shade_of(events(from), depth) {
        Shade::Attenuated { depth: deeper } => {
            lemma_escape(events, from + 1, deeper);
            let rest = bounces(events, from + 1, deeper);
            assert(from + bounces(events, from, depth) == (from + 1) + rest);
        },
        _ => {},
    }
}

/// In a scene without surfaces every ray sees the background.
pub proof fn lemma_empty_scene<H: Hittable>(members: Seq<H>, depth: i32)
    requires
        members.len() == 0,
    ensures
        nearest_of(members, T_MIN, T_MAX) is None,
        shade_of(Event::Miss, depth) == Shade::Background,
{
    lemma_no_hit(members, T_MIN, T_MAX);
}

} // verus!
