use raytracer::{Color, Hit, Ray, Roots, Scalar, Sphere, Vec3};
use roots::find_roots_quadratic;

fn s(x: f32) -> Scalar {
    Scalar::from_bits(x.to_bits())
}

fn f(x: Scalar) -> f32 {
    f32::from_bits(x.to_bits())
}

fn v(x: f32, y: f32, z: f32) -> Vec3 {
    Vec3::new(s(x), s(y), s(z))
}

const RED: Color = Color { r: 255, g: 0, b: 0 };
const BLUE: Color = Color { r: 0, g: 0, b: 255 };

fn red(t: f32) -> Hit {
    Hit { t: s(t), color: RED }
}

fn blue(t: f32) -> Hit {
    Hit { t: s(t), color: BLUE }
}

fn ray(mint: f32, maxt: f32) -> Ray {
    Ray::new(v(0.0, 0.0, 0.0), v(1.0, 0.0, 0.0), s(mint), s(maxt))
}

/// The roots of the sphere equation for a line, as the numeric kernel of a
/// renderer finds them.
fn solve(center: [f32; 3], radius: f32, origin: [f32; 3], direction: [f32; 3]) -> Roots {
    let oc = [origin[0] - center[0], origin[1] - center[1], origin[2] - center[2]];
    let a = direction[0] * direction[0] + direction[1] * direction[1] + direction[2] * direction[2];
    let b = 2.0 * (direction[0] * oc[0] + direction[1] * oc[1] + direction[2] * oc[2]);
    let c = oc[0] * oc[0] + oc[1] * oc[1] + oc[2] * oc[2] - radius * radius;
    match find_roots_quadratic(a, b, c) {
        roots::Roots::One(r) => Roots::One(red(r[0])),
        roots::Roots::Two(r) => Roots::Two(red(r[0]), blue(r[1])),
        _ => Roots::No,
    }
}

#[test]
fn sphere_new_keeps_its_arguments() {
    let ball = Sphere::new(v(30.0, 0.0, 0.0), s(10.0));
    assert_eq!(ball.center, v(30.0, 0.0, 0.0));
    assert_eq!(ball.radius, s(10.0));
}

#[test]
fn a_sphere_needs_a_radius_above_zero() {
    assert!(Sphere::new(v(0.0, 0.0, 0.0), s(10.0)).is_valid());
    assert!(Sphere::new(v(0.0, 0.0, 0.0), s(1.0e-45)).is_valid());
    assert!(!Sphere::new(v(0.0, 0.0, 0.0), s(0.0)).is_valid());
    assert!(!Sphere::new(v(0.0, 0.0, 0.0), s(-0.0)).is_valid());
    assert!(!Sphere::new(v(0.0, 0.0, 0.0), s(-10.0)).is_valid());
    assert!(!Sphere::new(v(0.0, 0.0, 0.0), s(f32::NAN)).is_valid());
}

#[test]
fn no_roots_no_hit() {
    assert_eq!(Roots::No.nearest(&ray(0.1, 1000.0)), None);
}

#[test]
fn one_root_inside_is_the_hit() {
    assert_eq!(Roots::One(red(5.0)).nearest(&ray(0.1, 1000.0)), Some(red(5.0)));
}

#[test]
fn one_root_outside_is_no_hit() {
    assert_eq!(Roots::One(red(0.05)).nearest(&ray(0.1, 1000.0)), None);
    assert_eq!(Roots::One(red(0.1)).nearest(&ray(0.1, 1000.0)), None);
    assert_eq!(Roots::One(red(1000.0)).nearest(&ray(0.1, 1000.0)), None);
    assert_eq!(Roots::One(red(2000.0)).nearest(&ray(0.1, 1000.0)), None);
    assert_eq!(Roots::One(red(-5.0)).nearest(&ray(0.1, 1000.0)), None);
    assert_eq!(Roots::One(red(f32::NAN)).nearest(&ray(0.1, 1000.0)), None);
}

#[test]
fn of_two_roots_inside_the_smaller_is_the_hit() {
    assert_eq!(Roots::Two(red(20.0), blue(40.0)).nearest(&ray(0.1, 1000.0)), Some(red(20.0)));
    assert_eq!(Roots::Two(blue(40.0), red(20.0)).nearest(&ray(0.1, 1000.0)), Some(red(20.0)));
}

#[test]
fn of_two_equal_roots_inside_the_first_is_the_hit() {
    assert_eq!(Roots::Two(red(20.0), blue(20.0)).nearest(&ray(0.1, 1000.0)), Some(red(20.0)));
    assert_eq!(Roots::Two(blue(20.0), red(20.0)).nearest(&ray(0.1, 1000.0)), Some(blue(20.0)));
}

#[test]
fn the_far_root_is_the_hit_when_the_near_one_is_behind() {
    assert_eq!(Roots::Two(red(-5.0), blue(15.0)).nearest(&ray(0.1, 1000.0)), Some(blue(15.0)));
    assert_eq!(Roots::Two(red(0.1), blue(15.0)).nearest(&ray(0.1, 1000.0)), Some(blue(15.0)));
}

#[test]
fn the_near_root_is_the_hit_when_the_far_one_is_past_the_end() {
    assert_eq!(Roots::Two(red(20.0), blue(40.0)).nearest(&ray(0.1, 30.0)), Some(red(20.0)));
    assert_eq!(Roots::Two(red(20.0), blue(40.0)).nearest(&ray(0.1, 40.0)), Some(red(20.0)));
}

#[test]
fn two_roots_outside_are_no_hit() {
    assert_eq!(Roots::Two(red(20.0), blue(40.0)).nearest(&ray(0.1, 20.0)), None);
    assert_eq!(Roots::Two(red(20.0), blue(40.0)).nearest(&ray(40.0, 1000.0)), None);
    assert_eq!(Roots::Two(red(20.0), blue(40.0)).nearest(&ray(25.0, 35.0)), None);
    assert_eq!(Roots::Two(red(-40.0), blue(-20.0)).nearest(&ray(0.1, 1000.0)), None);
    assert_eq!(Roots::Two(red(f32::NAN), blue(f32::NAN)).nearest(&ray(0.1, 1000.0)), None);
}

#[test]
fn a_ray_without_points_hits_nothing() {
    assert_eq!(Roots::Two(red(20.0), blue(40.0)).nearest(&ray(1000.0, 0.1)), None);
    assert_eq!(Roots::One(red(20.0)).nearest(&ray(20.0, 20.0)), None);
}

#[test]
fn a_ray_through_the_sphere_hits_its_near_side() {
    // radius 10 at (30, 0, 0), seen from the origin along x: the line enters
    // at 20 and leaves at 40
    let found = solve([30.0, 0.0, 0.0], 10.0, [0.0, 0.0, 0.0], [1.0, 0.0, 0.0]);
    assert_eq!(found, Roots::Two(red(20.0), blue(40.0)));
    assert_eq!(found.nearest(&ray(0.1, 1000.0)), Some(red(20.0)));
}

#[test]
fn the_hit_lies_on_the_sphere() {
    let center = [30.0f32, 2.0, -1.0];
    let radius = 10.0f32;
    let origin = [0.0f32, 0.0, 0.0];
    let length = (1.0f32 + 0.01 + 0.0025).sqrt();
    let direction = [1.0 / length, 0.1 / length, -0.05 / length];
    let found = solve(center, radius, origin, direction);
    let hit = found.nearest(&ray(0.1, 1000.0)).unwrap();
    let t = f(hit.t);
    let point = [
        origin[0] + direction[0] * t,
        origin[1] + direction[1] * t,
        origin[2] + direction[2] * t,
    ];
    let offset = [point[0] - center[0], point[1] - center[1], point[2] - center[2]];
    let distance =
        (offset[0] * offset[0] + offset[1] * offset[1] + offset[2] * offset[2]).sqrt();
    assert!((distance - radius).abs() < 1.0e-3, "{}", distance);
    let normal = [offset[0] / radius, offset[1] / radius, offset[2] / radius];
    let unit = (normal[0] * normal[0] + normal[1] * normal[1] + normal[2] * normal[2]).sqrt();
    assert!((unit - 1.0).abs() < 1.0e-4, "{}", unit);
    // the near root, not the far one
    assert_eq!(hit.color, RED);
    assert!(t < 30.0);
}

#[test]
fn a_ray_that_passes_the_sphere_by_hits_nothing() {
    // the line along x at height 11 stays 11 away from the centre of a
    // sphere of radius 10
    let found = solve([30.0, 0.0, 0.0], 10.0, [0.0, 11.0, 0.0], [1.0, 0.0, 0.0]);
    assert_eq!(found, Roots::No);
    assert_eq!(found.nearest(&ray(0.1, 1000.0)), None);
    let found = solve([30.0, 0.0, 0.0], 10.0, [0.0, 0.0, 0.0], [0.0, 1.0, 0.0]);
    assert_eq!(found.nearest(&ray(0.1, 1000.0)), None);
}

#[test]
fn a_sphere_behind_the_ray_is_not_hit() {
    let found = solve([-30.0, 0.0, 0.0], 10.0, [0.0, 0.0, 0.0], [1.0, 0.0, 0.0]);
    assert_eq!(found, Roots::Two(red(-40.0), blue(-20.0)));
    assert_eq!(found.nearest(&ray(0.1, 1000.0)), None);
}

#[test]
fn from_the_surface_outward_there_is_no_hit() {
    // origin on the sphere, heading away from the centre: the line meets the
    // sphere at 0 and behind the origin
    let found = solve([30.0, 0.0, 0.0], 10.0, [20.0, 0.0, 0.0], [-1.0, 0.0, 0.0]);
    match found {
        Roots::Two(a, b) => {
            assert_eq!(f(a.t), -20.0);
            assert_eq!(f(b.t), 0.0);
        }
        _ => panic!("two roots expected"),
    }
    assert_eq!(found.nearest(&ray(0.0, 1000.0)), None);
}

#[test]
fn from_the_surface_inward_the_far_side_is_hit() {
    // origin on the sphere, heading through the centre: the hit at 0 does
    // not count, the far side at 20 does
    let found = solve([30.0, 0.0, 0.0], 10.0, [20.0, 0.0, 0.0], [1.0, 0.0, 0.0]);
    match found {
        Roots::Two(a, b) => {
            assert_eq!(f(a.t), 0.0);
            assert_eq!(f(b.t), 20.0);
        }
        _ => panic!("two roots expected"),
    }
    let hit = found.nearest(&ray(0.0, 1000.0)).unwrap();
    assert_eq!(f(hit.t), 20.0);
    assert_eq!(hit.color, BLUE);
}

#[test]
fn a_root_at_either_zero_is_left_out_when_mint_is_zero() {
    assert_eq!(Roots::Two(red(0.0), blue(20.0)).nearest(&ray(0.0, 1000.0)), Some(blue(20.0)));
    assert_eq!(Roots::Two(red(-0.0), blue(20.0)).nearest(&ray(0.0, 1000.0)), Some(blue(20.0)));
    assert_eq!(Roots::Two(red(0.0), blue(20.0)).nearest(&ray(-0.0, 1000.0)), Some(blue(20.0)));
    assert_eq!(Roots::One(red(0.0)).nearest(&ray(0.0, 1000.0)), None);
}

#[test]
fn a_line_that_touches_the_sphere_has_one_root() {
    let found = solve([30.0, 10.0, 0.0], 10.0, [0.0, 0.0, 0.0], [1.0, 0.0, 0.0]);
    assert_eq!(found, Roots::One(red(30.0)));
    assert_eq!(found.nearest(&ray(0.1, 1000.0)), Some(red(30.0)));
    assert_eq!(found.nearest(&ray(0.1, 30.0)), None);
    assert_eq!(found.nearest(&ray(30.0, 1000.0)), None);
}

#[test]
fn drawing_the_far_end_in_keeps_or_loses_the_hit() {
    let found = Roots::Two(red(20.0), blue(40.0));
    let mut r = ray(0.1, 1000.0);
    assert_eq!(found.nearest(&r), Some(red(20.0)));
    r.narrow(s(30.0));
    assert_eq!(found.nearest(&r), Some(red(20.0)));
    r.narrow(s(20.0));
    assert_eq!(found.nearest(&r), None);
    // the far root never takes the place of a lost near one
    let mut r = ray(0.1, 1000.0);
    r.narrow(s(10.0));
    assert_eq!(found.nearest(&r), None);
}
