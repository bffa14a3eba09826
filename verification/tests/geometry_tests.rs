use raytrace::fixed::Fixed;
use raytrace::ray::Ray;
use raytrace::render::hit_sphere;
use raytrace::scene::{Camera, Hit, Scene, SceneObject, Sphere, Surface};
use raytrace::vec::{Point, Vec3};

fn v(x: i64, y: i64, z: i64) -> Vec3 {
    Vec3::new(Fixed::new(x), Fixed::new(y), Fixed::new(z))
}

const ONE: i64 = 1_000_000;

#[test]
fn vector_accessors_and_arithmetic() {
    let a = v(1_000_000, 2_000_000, 3_000_000);
    let b = v(400_000, 500_000, 600_000);
    assert_eq!(a.x().raw(), 1_000_000);
    assert_eq!(a.y().raw(), 2_000_000);
    assert_eq!(a.z().raw(), 3_000_000);
    let s = a.add(b);
    assert_eq!(
        (s.x().raw(), s.y().raw(), s.z().raw()),
        (1_400_000, 2_500_000, 3_600_000)
    );
    let d = a.sub(b);
    assert_eq!(
        (d.x().raw(), d.y().raw(), d.z().raw()),
        (600_000, 1_500_000, 2_400_000)
    );
    let n = a.neg();
    assert_eq!(n.z().raw(), -3_000_000);
    let e = Vec3::empty();
    assert_eq!((e.x().raw(), e.y().raw(), e.z().raw()), (0, 0, 0));
}

#[test]
fn dot_and_cross_products() {
    let a = v(ONE, 2 * ONE, 3 * ONE);
    let b = v(2 * ONE, 3 * ONE, 4 * ONE);
    // 1*2 + 2*3 + 3*4 = 20
    assert_eq!(a.dot(&b).raw(), 20 * ONE);
    let c = a.cross(&b);
    // (2*4-3*3, 3*2-1*4, 1*3-2*2) = (-1, 2, -1)
    assert_eq!(
        (c.x().raw(), c.y().raw(), c.z().raw()),
        (-ONE, 2 * ONE, -ONE)
    );
}

#[test]
fn length_and_unit_vector() {
    let a = v(0, 3 * ONE, 4 * ONE);
    assert_eq!(a.len_squared().raw(), 25 * ONE);
    assert_eq!(a.len().raw(), 5 * ONE);
    let u = a.unit();
    assert_eq!((u.x().raw(), u.y().raw(), u.z().raw()), (0, 600_000, 800_000));
}

#[test]
fn scalar_and_elementwise_scaling() {
    let a = v(ONE, -2 * ONE, 500_000);
    let twice = a.mul(Fixed::from_int(2));
    assert_eq!(
        (twice.x().raw(), twice.y().raw(), twice.z().raw()),
        (2 * ONE, -4 * ONE, ONE)
    );
    let halves = a.div(Fixed::from_int(2));
    assert_eq!(
        (halves.x().raw(), halves.y().raw(), halves.z().raw()),
        (500_000, -ONE, 250_000)
    );
    let tint = a.mul_elem(v(500_000, 500_000, 500_000));
    assert_eq!(
        (tint.x().raw(), tint.y().raw(), tint.z().raw()),
        (500_000, -ONE, 250_000)
    );
}

#[test]
fn ray_evaluates_parametrically() {
    let r = Ray::new(v(ONE, 2 * ONE, 3 * ONE), v(0, 0, -ONE));
    assert_eq!(r.origin().x().raw(), ONE);
    assert_eq!(r.direction().z().raw(), -ONE);
    let p = r.at(Fixed::from_int(2));
    assert_eq!((p.x().raw(), p.y().raw(), p.z().raw()), (ONE, 2 * ONE, ONE));
    // Negative parameters are legal.
    let q = r.at(Fixed::from_int(-1));
    assert_eq!(q.z().raw(), 4 * ONE);
}

#[test]
fn camera_basis_matches_the_derivation() {
    let cam = Camera::new();
    let r = cam.get_ray(Fixed::zero(), Fixed::zero());
    // With u = v = 0 the direction is the lower-left corner itself.
    assert_eq!(r.origin().x().raw(), 0);
    assert_eq!(r.direction().x().raw(), -1_777_777);
    assert_eq!(r.direction().y().raw(), -ONE);
    assert_eq!(r.direction().z().raw(), -ONE);
    // u = v = 1 lands in the opposite corner; the width truncation from
    // the sixteen-ninths aspect ratio carries through.
    let s = cam.get_ray(Fixed::one(), Fixed::one());
    assert_eq!(s.direction().x().raw(), 1_777_777);
    assert_eq!(s.direction().y().raw(), ONE);
    assert_eq!(s.direction().z().raw(), -ONE);
}

#[test]
fn head_on_hit_reports_front_face_and_near_root() {
    // A unit-radius sphere two units down the axis: the near root is the
    // center distance minus the radius, the normal exactly opposes the
    // ray.
    let sphere = Sphere::new(v(0, 0, -2 * ONE), Fixed::one());
    let ray = Ray::new(v(0, 0, 0), v(0, 0, -ONE));
    let mut hit = Hit::default();
    let got = sphere.hit(&ray, Fixed::zero(), Fixed::new(i64::MAX), &mut hit);
    assert!(got);
    assert_eq!(hit.t().raw(), ONE);
    assert!(hit.front_face());
    let n = hit.normal();
    assert_eq!((n.x().raw(), n.y().raw(), n.z().raw()), (0, 0, ONE));
    let p = hit.point();
    assert_eq!((p.x().raw(), p.y().raw(), p.z().raw()), (0, 0, -ONE));
}

#[test]
fn negative_discriminant_leaves_the_record_untouched() {
    // The ray points straight up, far from the sphere: a clean miss.
    let sphere = Sphere::new(v(0, 0, -2 * ONE), Fixed::new(500_000));
    let ray = Ray::new(v(0, 0, 0), v(0, ONE, 0));
    // Fill the record with a sentinel first.
    let probe = Sphere::new(v(0, 0, -2 * ONE), Fixed::one());
    let aim = Ray::new(v(0, 0, 0), v(0, 0, -ONE));
    let mut hit = Hit::default();
    assert!(probe.hit(&aim, Fixed::zero(), Fixed::new(i64::MAX), &mut hit));
    let (t0, ff0) = (hit.t().raw(), hit.front_face());
    let n0 = (hit.normal().x().raw(), hit.normal().y().raw(), hit.normal().z().raw());

    let got = sphere.hit(&ray, Fixed::zero(), Fixed::new(i64::MAX), &mut hit);
    assert!(!got);
    assert_eq!(hit.t().raw(), t0);
    assert_eq!(hit.front_face(), ff0);
    let n1 = (hit.normal().x().raw(), hit.normal().y().raw(), hit.normal().z().raw());
    assert_eq!(n1, n0);
}

#[test]
fn hit_inside_the_sphere_flips_the_normal() {
    // The ray starts at the center, so it strikes from inside.
    let sphere = Sphere::new(v(0, 0, -2 * ONE), Fixed::one());
    let ray = Ray::new(v(0, 0, -2 * ONE), v(0, 0, -ONE));
    let mut hit = Hit::default();
    assert!(sphere.hit(&ray, Fixed::zero(), Fixed::new(i64::MAX), &mut hit));
    assert_eq!(hit.t().raw(), ONE);
    assert!(!hit.front_face());
    assert_eq!(hit.normal().z().raw(), ONE);
}

#[test]
fn range_filtering_rejects_roots_outside_the_interval() {
    let sphere = Sphere::new(v(0, 0, -2 * ONE), Fixed::one());
    let ray = Ray::new(v(0, 0, 0), v(0, 0, -ONE));
    let mut hit = Hit::default();
    // Both roots (1 and 3) sit above the allowed range.
    assert!(!sphere.hit(&ray, Fixed::zero(), Fixed::new(500_000), &mut hit));
    // Only the far root (3) lies inside (2, 4).
    assert!(sphere.hit(&ray, Fixed::from_int(2), Fixed::from_int(4), &mut hit));
    assert_eq!(hit.t().raw(), 3 * ONE);
    assert!(!hit.front_face());
}

#[test]
fn aggregate_scene_returns_the_nearest_hit() {
    // Two overlapping spheres on the same ray: the nearer surface wins,
    // and its geometry shows in the returned record.
    let mut world = Scene::new();
    world.push(Surface::Sphere(Sphere::new(v(0, 0, -3 * ONE), Fixed::one())));
    world.push(Surface::Sphere(Sphere::new(
        v(0, 0, -2 * ONE),
        Fixed::new(500_000),
    )));
    assert_eq!(world.len(), 2);
    let ray = Ray::new(v(0, 0, 0), v(0, 0, -ONE));
    let mut hit = Hit::default();
    assert!(world.hit(&ray, Fixed::zero(), Fixed::new(i64::MAX), &mut hit));
    // The small sphere's near face is at t = 1.5; the big one's at 2.
    assert_eq!(hit.t().raw(), 1_500_000);
    assert!(hit.front_face());
    assert_eq!(hit.normal().z().raw(), ONE);

    // Insertion order does not change the outcome.
    let mut flipped = Scene::new();
    flipped.push(Surface::Sphere(Sphere::new(
        v(0, 0, -2 * ONE),
        Fixed::new(500_000),
    )));
    flipped.push(Surface::Sphere(Sphere::new(v(0, 0, -3 * ONE), Fixed::one())));
    let mut hit2 = Hit::default();
    assert!(flipped.hit(&ray, Fixed::zero(), Fixed::new(i64::MAX), &mut hit2));
    assert_eq!(hit2.t().raw(), 1_500_000);
}

#[test]
fn empty_scene_never_hits() {
    let world = Scene::new();
    let ray = Ray::new(v(0, 0, 0), v(0, 0, -ONE));
    let mut hit = Hit::default();
    assert!(!world.hit(&ray, Fixed::zero(), Fixed::new(i64::MAX), &mut hit));
}

#[test]
fn degenerate_geometry_stays_total() {
    // A zero-radius sphere and a zero-length direction produce defined
    // (saturated) answers instead of failing.
    let mut hit = Hit::default();
    let point_sphere = Sphere::new(v(0, 0, -2 * ONE), Fixed::zero());
    let ray = Ray::new(v(0, 0, 0), v(0, 0, -ONE));
    let _ = point_sphere.hit(&ray, Fixed::zero(), Fixed::new(i64::MAX), &mut hit);

    let sphere = Sphere::new(v(0, 0, -2 * ONE), Fixed::one());
    let still = Ray::new(v(0, 0, 0), v(0, 0, 0));
    let _ = sphere.hit(&still, Fixed::zero(), Fixed::new(i64::MAX), &mut hit);

    let zero_len = v(0, 0, 0).unit();
    assert_eq!(zero_len.x().raw(), 0);
}

#[test]
fn standalone_hit_sphere_reports_the_near_root() {
    let center: Point = v(0, 0, -2 * ONE);
    let ray = Ray::new(v(0, 0, 0), v(0, 0, -ONE));
    assert_eq!(hit_sphere(&center, Fixed::one(), &ray).raw(), ONE);
    // A miss answers minus one.
    let up = Ray::new(v(0, 0, 0), v(0, ONE, 0));
    assert_eq!(hit_sphere(&center, Fixed::new(500_000), &up).raw(), -ONE);
}
