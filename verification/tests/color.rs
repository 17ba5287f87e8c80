use raytracer::color::{color, seek, Event, Shade, MAX_DEPTH, T_MAX, T_MIN};
use raytracer::hittable::HitRecord;
use raytracer::hittable_list::HittableList;
use raytracer::material::{Lambertian, Material, Metal};
use raytracer::scalar::{rank, INFINITY};
use raytracer::sphere::Sphere;

fn r(x: f64) -> Option<i64> {
    rank(x.to_bits())
}

/// Follows a path from depth 0 and returns how often it was attenuated and
/// the shade in which it ended. `event(k)` is what happens to ray `k`.
fn follow(event: impl Fn(usize) -> Event) -> (usize, Shade) {
    let mut depth = 0;
    let mut bounces = 0;
    loop {
        match color(event(bounces), depth) {
            Shade::Attenuated { depth: deeper } => {
                assert_eq!(deeper, depth + 1);
                depth = deeper;
                bounces += 1;
                assert!(bounces <= 1000, "the path does not end");
            }
            shade => return (bounces, shade),
        }
    }
}

#[test]
fn the_limits_of_the_search() {
    assert_eq!(MAX_DEPTH, 50);
    assert_eq!(Some(T_MIN), r(0.001));
    assert_eq!(T_MAX, INFINITY);
    assert_eq!(Some(T_MAX), r(f64::INFINITY));
}

#[test]
fn a_miss_shows_the_background() {
    for depth in [i32::MIN, -1, 0, 1, 49, 50, 51, i32::MAX] {
        assert_eq!(color(Event::Miss, depth), Shade::Background);
    }
}

#[test]
fn an_absorbed_ray_is_black() {
    for depth in [i32::MIN, -1, 0, 1, 49, 50, 51, i32::MAX] {
        assert_eq!(color(Event::Hit { scattered: false }, depth), Shade::Black);
    }
}

#[test]
fn a_scattered_ray_goes_one_level_deeper() {
    let scattered = Event::Hit { scattered: true };
    assert_eq!(color(scattered, 0), Shade::Attenuated { depth: 1 });
    assert_eq!(color(scattered, 1), Shade::Attenuated { depth: 2 });
    assert_eq!(color(scattered, 48), Shade::Attenuated { depth: 49 });
    assert_eq!(color(scattered, 49), Shade::Attenuated { depth: 50 });
    assert_eq!(color(scattered, -7), Shade::Attenuated { depth: -6 });
    assert_eq!(color(scattered, i32::MIN), Shade::Attenuated { depth: i32::MIN + 1 });
}

#[test]
fn the_depth_limit_is_black() {
    let scattered = Event::Hit { scattered: true };
    assert_eq!(color(scattered, 50), Shade::Black);
    assert_eq!(color(scattered, 51), Shade::Black);
    assert_eq!(color(scattered, i32::MAX), Shade::Black);
}

#[test]
fn endless_scattering_stops_after_fifty_bounces() {
    // nested diffuse spheres: every ray is hit, every hit scatters
    let diffuse = Lambertian::new(r(0.5), r(0.5), r(0.5));
    let path = follow(|_| Event::Hit { scattered: diffuse.scatter(None) });
    assert_eq!(path, (50, Shade::Black));
}

#[test]
fn a_path_ends_where_a_ray_escapes() {
    for escape in [0, 1, 7, 49] {
        let path = follow(|k| {
            if k == escape {
                Event::Miss
            } else {
                Event::Hit { scattered: true }
            }
        });
        assert_eq!(path, (escape, Shade::Background));
    }
    // the ray at the depth limit is still traced, and may escape
    let late = follow(|k| if k == 50 { Event::Miss } else { Event::Hit { scattered: true } });
    assert_eq!(late, (50, Shade::Background));
    // the one after it never is
    let never = follow(|k| if k == 51 { Event::Miss } else { Event::Hit { scattered: true } });
    assert_eq!(never, (50, Shade::Black));
}

#[test]
fn a_path_ends_where_a_ray_is_absorbed() {
    let metal = Metal::new(r(0.7), r(0.6), r(0.5), r(1.0));
    let facings = [0.5, 0.25, 0.125, -0.5, 0.5];
    let path = follow(|k| Event::Hit { scattered: metal.scatter(r(facings[k])) });
    assert_eq!(path, (3, Shade::Black));
}

#[test]
fn no_sphere_scene_shows_the_background() {
    let scene: HittableList<Sphere> = HittableList::new(Vec::new());
    let event = match seek(&scene) {
        None => Event::Miss,
        Some(_) => Event::Hit { scattered: true },
    };
    assert_eq!(event, Event::Miss);
    for depth in 0..=50 {
        assert_eq!(color(event, depth), Shade::Background);
    }
    assert_eq!(follow(|_| event), (0, Shade::Background));
}

#[test]
fn seek_looks_from_just_beyond_the_origin_to_infinity() {
    let scene = HittableList::new(vec![
        Sphere::new(0, r(1.0), r(0.0005), r(40.0)),
        Sphere::new(1, r(1.0), r(-3.0), r(f64::INFINITY)),
        Sphere::new(2, r(1.0), r(0.001), r(f64::MAX)),
    ]);
    assert_eq!(seek(&scene), Some(HitRecord { t: r(40.0).unwrap(), surface: 0 }));
    let far = HittableList::new(vec![
        Sphere::new(1, r(1.0), r(-3.0), r(f64::INFINITY)),
        Sphere::new(2, r(1.0), r(0.001), r(f64::MAX)),
    ]);
    assert_eq!(seek(&far), Some(HitRecord { t: r(f64::MAX).unwrap(), surface: 2 }));
}
