use rt::float_order::{less_than, nan_bits};
use rt::hit::{nearest_hit, sphere_hit_time};
use rt::material::{clamp_fuzz, dielectric_reflects, leaves_medium, scatters, MaterialKind};
use rt::path::{on_response, on_scene_query, PathAction, MAX_DEPTH};

fn b(x: f64) -> u64 {
    x.to_bits()
}

#[test]
fn less_than_orders_like_f64() {
    let values = [
        f64::NEG_INFINITY,
        -1000.0,
        -1.5,
        -0.001,
        -0.0,
        0.0,
        1e-300,
        0.001,
        0.5,
        1.0,
        2.0,
        f64::MAX,
        f64::INFINITY,
        f64::NAN,
    ];
    for x in values.iter() {
        for y in values.iter() {
            assert_eq!(less_than(b(*x), b(*y)), *x < *y, "{} < {}", x, y);
        }
    }
}

#[test]
fn zeros_compare_equal() {
    assert!(!less_than(b(-0.0), b(0.0)));
    assert!(!less_than(b(0.0), b(-0.0)));
}

#[test]
fn nan_is_recognised() {
    assert!(nan_bits(b(f64::NAN)));
    assert!(nan_bits(b(-f64::NAN)));
    assert!(!nan_bits(b(f64::INFINITY)));
    assert!(!nan_bits(b(f64::NEG_INFINITY)));
    assert!(!nan_bits(b(3.25)));
}

#[test]
fn near_root_taken_when_inside() {
    // Ray from the origin along -z toward a sphere of radius 0.5 at (0,0,-2):
    // it enters at t = 1.5 and leaves at t = 2.5.
    assert_eq!(sphere_hit_time(b(1.0), b(1.5), b(2.5), b(0.001), b(f64::MAX)), Some(b(1.5)));
}

#[test]
fn far_root_taken_from_inside_the_sphere() {
    assert_eq!(sphere_hit_time(b(1.0), b(-0.5), b(0.5), b(0.001), b(f64::MAX)), Some(b(0.5)));
}

#[test]
fn no_root_when_both_outside_interval() {
    assert_eq!(sphere_hit_time(b(1.0), b(-2.0), b(-1.0), b(0.001), b(f64::MAX)), None);
    assert_eq!(sphere_hit_time(b(1.0), b(5.0), b(6.0), b(0.001), b(4.0)), None);
}

#[test]
fn interval_bounds_are_open() {
    assert_eq!(sphere_hit_time(b(1.0), b(0.001), b(3.0), b(0.001), b(3.0)), None);
    assert_eq!(sphere_hit_time(b(1.0), b(0.001), b(2.0), b(0.001), b(3.0)), Some(b(2.0)));
}

#[test]
fn no_hit_without_positive_discriminant() {
    // A tangent ray (discriminant 0) and a missing one (negative) do not hit.
    assert_eq!(sphere_hit_time(b(0.0), b(1.0), b(1.0), b(0.001), b(f64::MAX)), None);
    assert_eq!(sphere_hit_time(b(-0.75), b(1.0), b(2.0), b(0.001), b(f64::MAX)), None);
    assert_eq!(sphere_hit_time(b(f64::NAN), b(1.0), b(2.0), b(0.001), b(f64::MAX)), None);
}

#[test]
fn nan_roots_are_rejected() {
    assert_eq!(sphere_hit_time(b(1.0), b(f64::NAN), b(f64::NAN), b(0.001), b(f64::MAX)), None);
}

#[test]
fn nearest_of_several_hits() {
    let times = vec![Some(b(4.0)), None, Some(b(1.25)), Some(b(3.0))];
    assert_eq!(nearest_hit(&times), Some(2));
}

#[test]
fn nearest_tie_goes_to_first() {
    let times = vec![None, Some(b(2.0)), Some(b(1.0)), Some(b(1.0))];
    assert_eq!(nearest_hit(&times), Some(2));
}

#[test]
fn no_hit_in_empty_or_missed_scene() {
    assert_eq!(nearest_hit(&vec![]), None);
    assert_eq!(nearest_hit(&vec![None, None]), None);
}

#[test]
fn escaped_ray_takes_background() {
    assert_eq!(on_scene_query(0, false), PathAction::Background);
    assert_eq!(on_scene_query(MAX_DEPTH, false), PathAction::Background);
}

#[test]
fn hit_scatters_below_max_depth() {
    assert_eq!(on_scene_query(0, true), PathAction::Scatter);
    assert_eq!(on_scene_query(49, true), PathAction::Scatter);
}

#[test]
fn hit_at_max_depth_is_black() {
    assert_eq!(MAX_DEPTH, 50);
    assert_eq!(on_scene_query(50, true), PathAction::Black);
    assert_eq!(on_scene_query(1000, true), PathAction::Black);
}

#[test]
fn response_moves_one_level_deeper() {
    assert_eq!(on_response(0, true), Some(1));
    assert_eq!(on_response(49, true), Some(50));
    assert_eq!(on_response(7, false), None);
}

#[test]
fn mirror_scene_path_stops_at_fifty_bounces() {
    // Every ray hits a mirror that scatters it: the path still ends.
    let mut depth: u32 = 0;
    let mut traces: u32 = 0;
    loop {
        traces += 1;
        match on_scene_query(depth, true) {
            PathAction::Scatter => match on_response(depth, true) {
                Some(d) => depth = d,
                None => break,
            },
            PathAction::Black => break,
            PathAction::Background => panic!("a mirror scene never escapes"),
        }
    }
    assert_eq!(depth, 50);
    assert_eq!(traces, 51);
}

#[test]
fn lambertian_never_absorbs() {
    for d in [-1.0, -0.0, 0.0, 0.5, f64::NAN].iter() {
        assert!(scatters(MaterialKind::Lambertian, b(*d)));
        assert!(scatters(MaterialKind::Dielectric, b(*d)));
    }
}

#[test]
fn metal_absorbs_rays_into_the_surface() {
    assert!(scatters(MaterialKind::Metal, b(0.25)));
    assert!(!scatters(MaterialKind::Metal, b(0.0)));
    assert!(!scatters(MaterialKind::Metal, b(-0.25)));
}

#[test]
fn fuzz_is_clamped_to_one() {
    assert_eq!(clamp_fuzz(b(3.0)), b(1.0));
    assert_eq!(clamp_fuzz(b(1.0)), b(1.0));
    assert_eq!(clamp_fuzz(b(0.3)), b(0.3));
    assert_eq!(clamp_fuzz(b(0.0)), b(0.0));
}

#[test]
fn ray_leaving_glass_detected_by_sign() {
    assert!(leaves_medium(b(0.7)));
    assert!(!leaves_medium(b(-0.7)));
    assert!(!leaves_medium(b(0.0)));
}

#[test]
fn glass_reflection_choice() {
    // Total internal reflection: always reflects.
    assert!(dielectric_reflects(false, b(0.99), b(0.04)));
    // Draw below the reflectance: reflects; above: refracts.
    assert!(dielectric_reflects(true, b(0.01), b(0.04)));
    assert!(!dielectric_reflects(true, b(0.5), b(0.04)));
    // Index 1.0 at normal incidence: reflectance 0, never reflects.
    assert!(!dielectric_reflects(true, b(0.0), b(0.0)));
}
