use raytrace::color::{write_color, Pixel};
use raytrace::fixed::Fixed;
use raytrace::ray::Ray;
use raytrace::render::{ray_color, render, Error, Image};
use raytrace::scene::{Camera, Scene, Sphere, Surface};
use raytrace::util::{rand_float, rand_float_between, Prng};
use raytrace::vec::Vec3;

fn v(x: i64, y: i64, z: i64) -> Vec3 {
    Vec3::new(Fixed::new(x), Fixed::new(y), Fixed::new(z))
}

const ONE: i64 = 1_000_000;

#[test]
fn depth_zero_is_black_regardless_of_scene() {
    let mut world = Scene::new();
    world.push(Surface::Sphere(Sphere::new(v(0, 0, -ONE), Fixed::new(500_000))));
    let mut rng = Prng::new(7);
    let ray = Ray::new(v(0, 0, 0), v(0, 0, -ONE));
    let c = ray_color(&ray, &world, 0, &mut rng);
    assert_eq!((c.x().raw(), c.y().raw(), c.z().raw()), (0, 0, 0));
}

#[test]
fn background_straight_up_is_sky_blue() {
    let world = Scene::new();
    let mut rng = Prng::new(7);
    let ray = Ray::new(v(0, 0, 0), v(0, ONE, 0));
    let c = ray_color(&ray, &world, 5, &mut rng);
    assert_eq!(
        (c.x().raw(), c.y().raw(), c.z().raw()),
        (500_000, 700_000, ONE)
    );
}

#[test]
fn background_straight_down_is_white() {
    let world = Scene::new();
    let mut rng = Prng::new(7);
    let ray = Ray::new(v(0, 0, 0), v(0, -ONE, 0));
    let c = ray_color(&ray, &world, 5, &mut rng);
    assert_eq!((c.x().raw(), c.y().raw(), c.z().raw()), (ONE, ONE, ONE));
}

#[test]
fn one_bounce_off_a_sphere_halves_the_background() {
    // With a single bounce left after the hit, the recursion bottoms out
    // at depth zero and the result is half of black — still black.
    let mut world = Scene::new();
    world.push(Surface::Sphere(Sphere::new(v(0, 0, -2 * ONE), Fixed::one())));
    let mut rng = Prng::new(7);
    let ray = Ray::new(v(0, 0, 0), v(0, 0, -ONE));
    let c = ray_color(&ray, &world, 1, &mut rng);
    assert_eq!((c.x().raw(), c.y().raw(), c.z().raw()), (0, 0, 0));
}

#[test]
fn write_color_averages_clamps_and_quantizes() {
    let p = write_color(v(2 * ONE, -ONE, 500_000), 1);
    assert_eq!(p, Pixel { r: 255, g: 0, b: 128 });
    let q = write_color(v(2 * ONE, 4 * ONE, ONE), 4);
    assert_eq!(q, Pixel { r: 128, g: 255, b: 64 });
}

#[test]
fn write_color_never_leaves_the_eight_bit_range() {
    let p = write_color(v(i64::MAX, i64::MIN, 999_999_000), 1);
    assert!(p.r <= 255 && p.g <= 255 && p.b <= 255);
    assert_eq!(p.r, 255);
    assert_eq!(p.g, 0);
}

#[test]
fn prng_is_deterministic_and_in_range() {
    let mut a = Prng::new(0);
    assert_eq!(a.next_unit().raw(), 903_614);
    let mut b = Prng::new(42);
    assert_eq!(b.next_unit().raw(), 530_669);
    assert_eq!(b.next_unit().raw(), 358_053);
    let mut c = Prng::new(42);
    assert_eq!(c.next_unit().raw(), 530_669);
    for _ in 0..1000 {
        let f = c.next_unit().raw();
        assert!((0..ONE).contains(&f));
    }
}

#[test]
fn thread_random_values_stay_in_their_ranges() {
    for _ in 0..1000 {
        let f = rand_float().raw();
        assert!((0..ONE).contains(&f));
    }
    let lo = Fixed::from_int(-1);
    let hi = Fixed::one();
    for _ in 0..1000 {
        let f = rand_float_between(lo, hi).raw();
        assert!((-ONE..ONE).contains(&f));
    }
}

#[test]
fn image_reports_bounds_errors() {
    let mut img = Image::new(4, 3);
    assert_eq!(img.width(), 4);
    assert_eq!(img.height(), 3);
    assert_eq!(img.pixel_at(0, 0), Some(Pixel { r: 0, g: 0, b: 0 }));
    assert_eq!(img.pixel_at(4, 0), None);
    assert_eq!(img.pixel_at(0, 3), None);
    let red = Pixel { r: 255, g: 0, b: 0 };
    assert_eq!(img.set_pixel(2, 1, &red), Ok(()));
    assert_eq!(img.pixel_at(2, 1), Some(red));
    assert_eq!(img.set_pixel(4, 0, &red), Err(Error::OutOfBounds));
    assert_eq!(img.set_pixel(0, 3, &red), Err(Error::OutOfBounds));
}

fn tiny_world() -> Scene {
    let mut world = Scene::new();
    world.push(Surface::Sphere(Sphere::new(v(0, 0, -ONE), Fixed::new(500_000))));
    world
}

fn pixels_of(img: &Image) -> Vec<Pixel> {
    let mut out = Vec::new();
    for y in 0..img.height() {
        for x in 0..img.width() {
            out.push(img.pixel_at(x, y).unwrap());
        }
    }
    out
}

#[test]
fn seeded_render_is_bit_reproducible() {
    let world = tiny_world();
    let camera = Camera::new();
    let mut rng1 = Prng::new(12345);
    let img1 = render(&world, &camera, 2, 2, 1, 4, &mut rng1);
    let mut rng2 = Prng::new(12345);
    let img2 = render(&world, &camera, 2, 2, 1, 4, &mut rng2);
    assert_eq!(img1.width(), 2);
    assert_eq!(img1.height(), 2);
    assert_eq!(pixels_of(&img1), pixels_of(&img2));
    // A different seed jitters differently somewhere in a larger grid.
    let mut rng3 = Prng::new(54321);
    let img3 = render(&world, &camera, 8, 8, 1, 4, &mut rng3);
    let mut rng4 = Prng::new(12345);
    let img4 = render(&world, &camera, 8, 8, 1, 4, &mut rng4);
    assert_ne!(pixels_of(&img3), pixels_of(&img4));
}

#[test]
fn rendered_pixels_stay_in_the_eight_bit_range() {
    let world = tiny_world();
    let camera = Camera::new();
    let mut rng = Prng::new(9);
    let img = render(&world, &camera, 4, 3, 2, 3, &mut rng);
    for p in pixels_of(&img) {
        assert!(p.r <= 255 && p.g <= 255 && p.b <= 255);
    }
}

#[test]
fn empty_scene_renders_the_gradient_top_down() {
    // Against an empty scene every sample is background; rows are stored
    // top of the picture first, so the upper rows are bluer than the
    // lower ones.
    let world = Scene::new();
    let camera = Camera::new();
    let mut rng = Prng::new(1);
    let img = render(&world, &camera, 2, 8, 1, 2, &mut rng);
    let top = img.pixel_at(0, 0).unwrap();
    let bottom = img.pixel_at(0, 7).unwrap();
    assert!(top.b >= top.r);
    assert!(bottom.r >= top.r);
}
