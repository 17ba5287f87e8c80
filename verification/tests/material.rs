use raytracer::material::{Bounce, Color, Dielectric, Lambertian, Material, Metal, Side};
use raytracer::scalar::{pattern, rank, ONE};

fn r(x: f64) -> Option<i64> {
    rank(x.to_bits())
}

/// A metal of the given fuzz.
fn metal(f: Option<i64>) -> Metal {
    Metal::new(r(0.7), r(0.6), r(0.5), f)
}

const FACINGS: [f64; 9] = [
    f64::NEG_INFINITY,
    -3.0,
    -1e-300,
    -0.0,
    0.0,
    1e-300,
    0.25,
    7.0,
    f64::INFINITY,
];

#[test]
fn lambertian_always_scatters() {
    let m = Lambertian::new(r(0.4), r(0.2), r(0.1));
    for f in FACINGS {
        assert!(m.scatter(r(f)));
    }
    assert!(m.scatter(r(f64::NAN)));
    assert!(m.scatter(None));
}

#[test]
fn dielectric_always_scatters() {
    let m = Dielectric::new(r(1.5));
    for f in FACINGS {
        assert!(m.scatter(r(f)));
    }
    assert!(m.scatter(r(f64::NAN)));
    assert!(m.scatter(None));
}

#[test]
fn metal_absorbs_what_points_into_the_surface() {
    let m = metal(r(0.3));
    for f in FACINGS {
        assert_eq!(m.scatter(r(f)), f > 0.0, "{}", f);
    }
    assert!(!m.scatter(r(f64::NAN)));
    assert!(!m.scatter(None));
    assert!(m.scatter(Some(1)));
    assert!(!m.scatter(Some(0)));
    assert!(!m.scatter(Some(-1)));
}

#[test]
fn fuzz_is_cut_down_to_one() {
    assert_eq!(metal(r(0.0)).fuzz(), r(0.0).unwrap());
    assert_eq!(metal(r(0.3)).fuzz(), r(0.3).unwrap());
    assert_eq!(metal(r(0.999)).fuzz(), r(0.999).unwrap());
    assert_eq!(metal(r(1.0)).fuzz(), ONE);
    assert_eq!(metal(r(1.5)).fuzz(), ONE);
    assert_eq!(metal(r(f64::INFINITY)).fuzz(), ONE);
    assert_eq!(metal(r(f64::NAN)).fuzz(), ONE);
    assert_eq!(metal(None).fuzz(), ONE);
    // nothing is cut from below
    assert_eq!(metal(r(-2.0)).fuzz(), r(-2.0).unwrap());
}

#[test]
fn side_follows_the_sign_of_the_dot_product() {
    for f in FACINGS {
        let expected = if f > 0.0 { Side::Inside } else { Side::Outside };
        assert_eq!(Dielectric::side(r(f)), expected, "{}", f);
    }
    assert_eq!(Dielectric::side(r(f64::NAN)), Side::Outside);
    assert_eq!(Dielectric::side(None), Side::Outside);
}

#[test]
fn refraction_needs_a_discriminant_above_zero() {
    assert!(Dielectric::refract(r(0.5)));
    assert!(Dielectric::refract(r(1e-300)));
    assert!(Dielectric::refract(Some(1)));
    assert!(!Dielectric::refract(r(0.0)));
    assert!(!Dielectric::refract(r(-0.0)));
    assert!(!Dielectric::refract(r(-0.5)));
    assert!(!Dielectric::refract(r(f64::NAN)));
    assert!(!Dielectric::refract(None));
    // entering glass of index 1.5 at 45 degrees, and leaving it at 45 degrees
    let dt = -(0.5f64.sqrt());
    let entering = 1.0 - (1.0 / 1.5) * (1.0 / 1.5) * (1.0 - dt * dt);
    let leaving = 1.0 - 1.5 * 1.5 * (1.0 - dt * dt);
    assert!(Dielectric::refract(r(entering)));
    assert!(!Dielectric::refract(r(leaving)));
}

#[test]
fn the_draw_chooses_between_reflection_and_refraction() {
    let disc = r(0.7);
    let reflectance = r(0.04);
    assert_eq!(Dielectric::bounce(disc, reflectance, r(0.0)), Bounce::Reflected);
    assert_eq!(Dielectric::bounce(disc, reflectance, r(0.039_999)), Bounce::Reflected);
    assert_eq!(Dielectric::bounce(disc, reflectance, r(0.04)), Bounce::Refracted);
    assert_eq!(Dielectric::bounce(disc, reflectance, r(0.5)), Bounce::Refracted);
    assert_eq!(Dielectric::bounce(disc, reflectance, r(0.999_999)), Bounce::Refracted);
    // a reflectance of one reflects every draw, one of zero none
    assert_eq!(Dielectric::bounce(disc, r(1.0), r(0.999_999)), Bounce::Reflected);
    assert_eq!(Dielectric::bounce(disc, r(0.0), r(0.0)), Bounce::Refracted);
    // a reflectance that is no number is above no draw
    assert_eq!(Dielectric::bounce(disc, r(f64::NAN), r(0.0)), Bounce::Refracted);
    assert_eq!(Dielectric::bounce(disc, None, r(0.0)), Bounce::Refracted);
}

#[test]
fn total_internal_reflection_reflects_every_draw() {
    for disc in [r(0.0), r(-0.125), r(-3.0), r(f64::NAN), None] {
        for draw in [0.0, 1e-300, 0.04, 0.5, 0.999_999_999_999] {
            for reflectance in [r(0.0), r(0.04), r(1.0), r(f64::NAN), None] {
                assert_eq!(
                    Dielectric::bounce(disc, reflectance, r(draw)),
                    Bounce::Reflected
                );
            }
        }
    }
}

#[test]
fn lambertian_attenuates_by_its_albedo() {
    let m = Lambertian::new(r(0.4), r(0.2), r(0.1));
    assert_eq!(m.attenuation(), Color { r: r(0.4), g: r(0.2), b: r(0.1) });
    let grey = Lambertian::new(r(0.5), r(0.5), r(0.5));
    assert_eq!(grey.attenuation(), Color { r: r(0.5), g: r(0.5), b: r(0.5) });
    assert_ne!(grey.attenuation(), m.attenuation());
    // the parts come back as the numbers that went in
    let back = |part: Option<i64>| f64::from_bits(pattern(part.unwrap()).unwrap());
    let a = m.attenuation();
    assert_eq!((back(a.r), back(a.g), back(a.b)), (0.4, 0.2, 0.1));
    // a part that is no number stays none
    let odd = Lambertian::new(r(f64::NAN), r(0.0), None);
    assert_eq!(odd.attenuation(), Color { r: None, g: Some(0), b: None });
}

#[test]
fn metal_attenuates_by_its_albedo() {
    let m = Metal::new(r(0.7), r(0.6), r(0.5), r(0.0));
    assert_eq!(m.attenuation(), Color { r: r(0.7), g: r(0.6), b: r(0.5) });
    // the fuzz changes nothing of it, nor the albedo of the fuzz
    let rough = Metal::new(r(0.7), r(0.6), r(0.5), r(3.0));
    assert_eq!(rough.attenuation(), m.attenuation());
    assert_eq!(rough.fuzz(), ONE);
    let dark = Metal::new(r(0.1), r(0.2), r(0.3), r(0.25));
    assert_eq!(dark.attenuation(), Color { r: r(0.1), g: r(0.2), b: r(0.3) });
    assert_eq!(dark.fuzz(), r(0.25).unwrap());
}

#[test]
fn dielectric_attenuates_nothing() {
    for ri in [r(1.5), r(1.0), r(2.4), r(f64::NAN), None] {
        let m = Dielectric::new(ri);
        assert_eq!(m.attenuation(), Color { r: Some(ONE), g: Some(ONE), b: Some(ONE) });
        assert_eq!(m.attenuation(), Color { r: r(1.0), g: r(1.0), b: r(1.0) });
    }
}

#[test]
fn dielectric_keeps_its_refractive_index() {
    assert_eq!(Dielectric::new(r(1.5)).ref_idx(), r(1.5));
    assert_eq!(Dielectric::new(r(2.4)).ref_idx(), r(2.4));
    assert_ne!(Dielectric::new(r(2.4)).ref_idx(), r(1.5));
    assert_eq!(Dielectric::new(r(f64::NAN)).ref_idx(), None);
    assert_eq!(Dielectric::new(None).ref_idx(), None);
    let ri = Dielectric::new(r(1.5)).ref_idx().unwrap();
    assert_eq!(f64::from_bits(pattern(ri).unwrap()), 1.5);
}
