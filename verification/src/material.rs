//! What a material decides when a ray strikes it.
//!
//! The directions are the caller's arithmetic. A material here holds what
//! it was made of and answers the questions in between: by what colour is
//! the ray attenuated, does it go on, from which side did it come, is it
//! bent or thrown back.

use crate::scalar::{above, below, is_above, is_less, less, ONE, ZERO};
use vstd::prelude::*;

verus! {

/// A colour, by the ranks of its red, green and blue parts.
#[derive(Clone, Copy, Debug, PartialEq, Eq, Structural)]
pub struct Color {
    pub r: Option<i64>,
    pub g: Option<i64>,
    pub b: Option<i64>,
}

/// The colour that attenuates nothing: one in every part.
pub open spec fn white() -> Color {
    Color { r: Some(ONE), g: Some(ONE), b: Some(ONE) }
}

/// A surface that can pass a ray on.
pub trait Material {
    /// Whether a ray goes on after striking the surface. `facing` is the dot
    /// product of the direction in which it would go on with the surface
    /// normal.
    spec fn scatters(&self, facing: Option<i64>) -> bool;

    /// The colour by which the surface attenuates a ray that it passes on.
    spec fn spec_attenuation(&self) -> Color;

    /// Tells whether the ray goes on, or is absorbed.
    fn scatter(&self, facing: Option<i64>) -> (did_scatter: bool)
        ensures
            did_scatter == self.scatters(facing),
    ;

    /// Gives the colour by which the colour of the scattered ray is to be
    /// multiplied, part by part.
    fn attenuation(&self) -> (color: Color)
        ensures
            color == self.spec_attenuation(),
    ;
}

/// A diffuse surface.
#[derive(Clone, Copy, Debug, PartialEq, Eq, Structural)]
pub struct Lambertian {
    albedo: Color,
}

impl Lambertian {
    /// The albedo of this surface: the colour it was made with.
    pub closed spec fn spec_albedo(&self) -> Color {
        self.albedo
    }

    /// Makes a diffuse surface whose albedo has the parts `r`, `g` and `b`.
    pub fn new(r: Option<i64>, g: Option<i64>, b: Option<i64>) -> (diffuse: Self)
        ensures
            diffuse.spec_albedo() == (Color { r, g, b }),
    {
        Lambertian { albedo: Color { r, g, b } }
    }
}

impl Material for Lambertian {
    /// A diffuse surface absorbs nothing.
    open spec fn scatters(&self, facing: Option<i64>) -> bool {
        true
    }

    /// A diffuse surface attenuates by its albedo.
    open spec fn spec_attenuation(&self) -> Color {
        self.spec_albedo()
    }

    fn scatter(&self, facing: Option<i64>) -> (did_scatter: bool) {
        true
    }

    fn attenuation(&self) -> (color: Color) {
        self.albedo
    }
}

/// A mirror, blurred by its fuzz.
#[derive(Clone, Copy, Debug)]
pub struct Metal {
    albedo: Color,
    fuzz: i64,
}

impl Metal {
    /// The albedo of this metal: the colour it was made with.
    pub closed spec fn spec_albedo(&self) -> Color {
        self.albedo
    }

    /// The fuzz of this metal: never above one.
    pub closed spec fn spec_fuzz(&self) -> i64 {
        self.fuzz
    }

    #[verifier::type_invariant]
    spec fn at_most_one(&self) -> bool {
        self.fuzz <= ONE
    }

    /// The fuzz that a metal gets when `f` is asked for: `f` where that is a
    /// number below one, and one otherwise.
    pub open spec fn capped(f: Option<i64>) -> i64 {
        if below(f, ONE) {
            f->0
        } else {
            ONE
        }
    }

    /// Makes a metal whose albedo has the parts `r`, `g` and `b`, of fuzz
    /// `f`, cut down to one where `f` is more or is not a number.
    pub fn new(r: Option<i64>, g: Option<i64>, b: Option<i64>, f: Option<i64>) -> (metal: Self)
        ensures
            metal.spec_albedo() == (Color { r, g, b }),
            metal.spec_fuzz() == Self::capped(f),
    {
        let fuzz: i64 = match f {
            Some(x) => if x < ONE {
                x
            } else {
                ONE
            },
            None => ONE,
        };
        Metal { albedo: Color { r, g, b }, fuzz }
    }

    /// The fuzz of this metal.
    #[verifier::when_used_as_spec(spec_fuzz)]
    pub fn fuzz(&self) -> (f: i64)
        ensures
            f == self.spec_fuzz(),
            f <= ONE,
    {
        proof {
            use_type_invariant(self);
        }
        self.fuzz
    }
}

impl Material for Metal {
    /// A metal absorbs the ray that its fuzz has pushed below the surface:
    /// the ray goes on exactly where it points away from the surface.
    open spec fn scatters(&self, facing: Option<i64>) -> bool {
        above(facing, ZERO)
    }

    /// A metal attenuates by its albedo.
    open spec fn spec_attenuation(&self) -> Color {
        self.spec_albedo()
    }

    fn scatter(&self, facing: Option<i64>) -> (did_scatter: bool) {
        is_above(facing, ZERO)
    }

    fn attenuation(&self) -> (color: Color) {
        self.albedo
    }
}

/// The side of a surface from which a ray arrives.
#[derive(Clone, Copy, Debug, PartialEq, Eq, Structural)]
pub enum Side {
    /// The ray runs against the normal: it enters.
    Outside,
    /// The ray runs along the normal: it leaves.
    Inside,
}

/// What a clear surface does with a ray.
#[derive(Clone, Copy, Debug, PartialEq, Eq, Structural)]
pub enum Bounce {
    Reflected,
    Refracted,
}

/// A clear surface, such as glass.
#[derive(Clone, Copy, Debug, PartialEq, Eq, Structural)]
pub struct Dielectric {
    ref_idx: Option<i64>,
}

impl Dielectric {
    /// The refractive index of this surface: the one it was made with.
    pub closed spec fn spec_ref_idx(&self) -> Option<i64> {
        self.ref_idx
    }

    /// Makes a clear surface of refractive index `ri`.
    pub fn new(ri: Option<i64>) -> (clear: Self)
        ensures
            clear.spec_ref_idx() == ri,
    {
        Dielectric { ref_idx: ri }
    }

    /// The refractive index of this surface.
    #[verifier::when_used_as_spec(spec_ref_idx)]
    pub fn ref_idx(&self) -> (ri: Option<i64>)
        ensures
            ri == self.spec_ref_idx(),
    {
        self.ref_idx
    }

    /// The side from which a ray arrives whose direction has the dot product
    /// `facing` with the normal.
    pub open spec fn side_of(facing: Option<i64>) -> Side {
        if above(facing, ZERO) {
            Side::Inside
        } else {
            Side::Outside
        }
    }

    /// Whether a ray is bent rather than reflected totally: the discriminant
    /// of the refraction is a number above zero.
    pub open spec fn refracts(discriminant: Option<i64>) -> bool {
        above(discriminant, ZERO)
    }

    /// The chance that a ray is thrown back: the reflectance of the surface
    /// where the ray can be bent, and one where it cannot.
    pub open spec fn reflect_chance(
        discriminant: Option<i64>,
        reflectance: Option<i64>,
    ) -> Option<i64> {
        if Self::refracts(discriminant) {
            reflectance
        } else {
            Some(ONE)
        }
    }

    /// What becomes of a ray: thrown back where `draw` is less than the
    /// chance of that, bent otherwise.
    pub open spec fn bounce_of(
        discriminant: Option<i64>,
        reflectance: Option<i64>,
        draw: Option<i64>,
    ) -> Bounce {
        if less(draw, Self::reflect_chance(discriminant, reflectance)) {
            Bounce::Reflected
        } else {
            Bounce::Refracted
        }
    }

    /// Tells from which side a ray arrives.
    pub fn side(facing: Option<i64>) -> (side: Side)
        ensures
            side == Self::side_of(facing),
    {
        if is_above(facing, ZERO) {
            Side::Inside
        } else {
            Side::Outside
        }
    }

    /// Tells whether a ray can be bent.
    pub fn refract(discriminant: Option<i64>) -> (refracted: bool)
        ensures
            refracted == Self::refracts(discriminant),
    {
        is_above(discriminant, ZERO)
    }

    /// Chooses between reflection and refraction for one ray, by one draw
    /// from the unit interval against the reflectance of the surface.
    pub fn bounce(
        discriminant: Option<i64>,
        reflectance: Option<i64>,
        draw: Option<i64>,
    ) -> (b: Bounce)
        ensures
            b == Self::bounce_of(discriminant, reflectance, draw),
    {
        let chance: Option<i64> = if Self::refract(discriminant) {
            reflectance
        } else {
            Some(ONE)
        };
        if is_less(draw, chance) {
            Bounce::Reflected
        } else {
            Bounce::Refracted
        }
    }
}

impl Material for Dielectric {
    /// A clear surface absorbs nothing.
    open spec fn scatters(&self, facing: Option<i64>) -> bool {
        true
    }

    /// A clear surface takes no colour from a ray.
    open spec fn spec_attenuation(&self) -> Color {
        white()
    }

    fn scatter(&self, facing: Option<i64>) -> (did_scatter: bool) {
        true
    }

    fn attenuation(&self) -> (color: Color) {
        Color { r: Some(ONE), g: Some(ONE), b: Some(ONE) }
    }
}

/// A diffuse and a clear surface scatter every ray. A metal absorbs exactly
/// the ray whose new direction has a dot product of zero or less with the
/// normal.
pub proof fn lemma_who_scatters(diffuse: Lambertian, metal: Metal, clear: Dielectric, facing: i64)
    ensures
        forall|f: Option<i64>| #[trigger] diffuse.scatters(f),
        forall|f: Option<i64>| #[trigger] clear.scatters(f),
        !metal.scatters(Some(facing)) <==> facing <= ZERO,
{
}

/// A ray that cannot be bent is thrown back, whatever is drawn from the
/// unit interval.
pub proof fn lemma_total_reflection(
    discriminant: Option<i64>,
    reflectance: Option<i64>,
    draw: Option<i64>,
)
    requires
        !Dielectric::refracts(discriminant),
        below(draw, ONE),
    ensures
        Dielectric::bounce_of(discriminant, reflectance, draw) == Bounce::Reflected,
{
}

} // verus!
