//! The shading function, the sampling loop and the rendered image.
//!
//! [`ray_color`] is the recursive, depth-limited diffuse integrator:
//! an exhausted bounce budget is black, a hit bounces toward a randomly
//! perturbed direction near the normal and halves the recursive result,
//! and a miss falls through to the vertical background gradient.
//! [`render`] drives it per pixel with jittered samples and hands each
//! averaged, clamped, quantized triple to the [`Image`], row-major from
//! the top row of the picture down.
use crate::color::{write_color, write_color_spec, Color, Pixel, PixelV};
use crate::fixed::{fx_add, fx_div, fx_mul, fx_neg, fx_sub, Fixed, SCALE};
use crate::ray::{Ray, RayV};
use crate::scene::{
    camera_ray, scene_hit_spec, sphere_disc, sphere_root1, Camera, CameraV, Hit, Scene,
    SceneObject, SphereV,
};
use crate::util::{prng_next, prng_out, random_in_unit_sphere, unit_sphere_rec, Prng,
    UNIT_SPHERE_TRIES};
use crate::vec::{v3_add, v3_muls, v3_sub, v3_unit, Point, V3};
use vstd::prelude::*;

verus! {

/// Mantissa of one half, the diffuse reflectance.
pub const HALF: i64 = 500_000;

/// Black, the color of an exhausted bounce budget.
pub open spec fn black() -> V3 {
    V3 { x: 0, y: 0, z: 0 }
}

/// White, the low end of the background gradient.
pub open spec fn white() -> V3 {
    V3 { x: SCALE as int, y: SCALE as int, z: SCALE as int }
}

/// Sky blue, the high end of the background gradient.
pub open spec fn sky_blue() -> V3 {
    V3 { x: HALF as int, y: 700_000, z: SCALE as int }
}

/// The background gradient: white at the bottom of the view blending
/// into sky blue straight up, independent of the horizontal direction.
pub open spec fn background_color(ray: RayV) -> V3 {
    let unit_direction = v3_unit(ray.direction);
    let t = fx_mul(fx_add(unit_direction.y, SCALE as int), HALF as int);
    v3_add(v3_muls(white(), fx_sub(SCALE as int, t)), v3_muls(sky_blue(), t))
}

/// What the shading recursion returns and in what state it leaves the
/// generator.  Depth zero is black before anything is probed; a hit
/// bounces toward the normal perturbed by a point in the unit sphere and
/// halves the recursive color; a miss is the background gradient.
#[verifier::opaque]
pub open spec fn ray_color_spec(objs: Seq<SphereV>, ray: RayV, depth: nat, s: int) -> (V3, int)
    decreases depth,
{
    if depth == 0 {
        (black(), s)
    } else {
        match scene_hit_spec(objs, ray, 0, i64::MAX as int) {
            Some(h) => {
                let (rv, s1) = unit_sphere_rec(s, UNIT_SPHERE_TRIES as nat);
                let target = v3_add(v3_add(h.normal, h.point), rv);
                let bounce = RayV { origin: h.point, direction: v3_sub(target, h.point) };
                let (c, s2) = ray_color_spec(objs, bounce, (depth - 1) as nat, s1);
                (v3_muls(c, HALF as int), s2)
            },
            None => (background_color(ray), s),
        }
    }
}

/// Shades one ray against the scene with `depth` bounces left, drawing
/// bounce directions from `rng`.
pub fn ray_color(ray: &Ray, world: &Scene, depth: u32, rng: &mut Prng) -> (r: Color)
    ensures
        (r@, final(rng)@) == ray_color_spec(world@, ray@, depth as nat, old(rng)@),
        depth == 0 ==> r@ == black(),
    decreases depth,
{
    proof {
        reveal_with_fuel(ray_color_spec, 1);
    }
    if depth == 0 {
        return Color::empty();
    }
    let mut hit = Hit::default();

    if world.hit(ray, Fixed::zero(), Fixed::new(i64::MAX), &mut hit) {
        let rv = random_in_unit_sphere(rng);
        let target = hit.normal().add(*hit.point()).add(rv);
        let bounce = Ray::new(*hit.point(), target.sub(*hit.point()));
        let c = ray_color(&bounce, world, depth - 1, rng);
        return c.mul(Fixed::new(HALF));
    }

    let unit_direction = ray.direction().unit();
    let t = unit_direction.y().add(Fixed::one()).mul(Fixed::new(HALF));

    let c1 = Color::new(Fixed::one(), Fixed::one(), Fixed::one()).mul(Fixed::one().sub(t));
    let c2 = Color::new(Fixed::new(HALF), Fixed::new(700_000), Fixed::one()).mul(t);

    c1.add(c2)
}

/// The parameter at which a ray first meets a sphere, by the quadratic
/// formula directly; a negative discriminant answers minus one.  The
/// full record-producing probe lives on [`crate::scene::Sphere`]; this
/// standalone form only reports the smaller root.
pub open spec fn hit_sphere_spec(center: V3, radius: int, ray: RayV) -> int {
    let s = SphereV { center, radius };
    if sphere_disc(s, ray) < 0 {
        fx_neg(SCALE as int)
    } else {
        sphere_root1(s, ray)
    }
}

/// Where the ray meets the sphere, or minus one when it misses.
pub fn hit_sphere(center: &Point, radius: Fixed, ray: &Ray) -> (r: Fixed)
    ensures
        r@ == hit_sphere_spec(center@, radius@, ray@),
{
    proof {
        reveal(crate::scene::sphere_a);
        reveal(crate::scene::sphere_b);
        reveal(crate::scene::sphere_c);
        reveal(crate::scene::sphere_disc);
        reveal(crate::scene::sphere_root1);
    }
    let oc = ray.origin().sub(*center);

    let a = ray.direction().len_squared();
    let b = oc.dot(ray.direction());
    let c = oc.len_squared().sub(radius.mul(radius));

    let discriminant = b.mul(b).sub(a.mul(c));

    if discriminant.lt(Fixed::zero()) {
        Fixed::from_int(-1)
    } else {
        b.neg().sub(discriminant.sqrt()).div(a)
    }
}

/// A bounds error from the image.
#[derive(Debug, PartialEq, Eq, Structural)]
pub enum Error {
    OutOfBounds,
}

/// The mathematical content of an [`Image`].
pub ghost struct ImageV {
    pub width: int,
    pub height: int,
    pub pixels: Seq<PixelV>,
}

/// The mathematical content of a pixel sequence.
pub open spec fn pixels_view(s: Seq<Pixel>) -> Seq<PixelV> {
    s.map_values(|p: Pixel| p@)
}

/// A finished raster: quantized triples in row-major order, the top row
/// of the picture first.
#[derive(Debug)]
pub struct Image {
    width: usize,
    height: usize,
    pixels: Vec<Pixel>,
}

impl View for Image {
    type V = ImageV;

    closed spec fn view(&self) -> ImageV {
        ImageV {
            width: self.width as int,
            height: self.height as int,
            pixels: pixels_view(self.pixels@),
        }
    }
}

/// An image is well formed when it holds exactly one pixel per grid
/// cell.
pub open spec fn image_wf(v: ImageV) -> bool {
    v.pixels.len() == v.width * v.height &&
    0 <= v.width && 0 <= v.height
}

impl Image {
    /// An all-black image of the given size.
    pub fn new(width: usize, height: usize) -> (r: Image)
        requires
            width * height <= usize::MAX,
        ensures
            image_wf(r@),
            r@.width == width,
            r@.height == height,
            forall|i: int| 0 <= i < r@.pixels.len() ==> r@.pixels[i] == (PixelV { r: 0, g: 0, b: 0 }),
    {
        let total: usize = width * height;
        let mut pixels: Vec<Pixel> = Vec::new();
        let mut i: usize = 0;
        while i < total
            invariant
                i <= total,
                pixels@.len() == i,
                forall|j: int| 0 <= j < i ==> pixels@[j] == (Pixel { r: 0, g: 0, b: 0 }),
            decreases total - i,
        {
            pixels.push(Pixel { r: 0, g: 0, b: 0 });
            i = i + 1;
        }
        let r = Image { width, height, pixels };
        proof {
            assert forall|k: int| 0 <= k < r@.pixels.len() implies r@.pixels[k] == (PixelV {
                r: 0,
                g: 0,
                b: 0,
            }) by {
                assert(r@.pixels[k] == pixels@[k]@);
            }
        }
        r
    }

    /// How many columns the image has.
    pub fn width(&self) -> (r: usize)
        ensures
            r == self@.width,
    {
        self.width
    }

    /// How many rows the image has.
    pub fn height(&self) -> (r: usize)
        ensures
            r == self@.height,
    {
        self.height
    }

    /// The pixel of column `x` in row `y`, rows counted from the top of
    /// the picture; nothing when either coordinate is out of bounds.
    pub fn pixel_at(&self, x: usize, y: usize) -> (r: Option<Pixel>)
        requires
            image_wf(self@),
        ensures
            (match r {
                Some(p) => x < self@.width && y < self@.height && p@ == self@.pixels[y * self@.width
                    + x],
                None => x >= self@.width || y >= self@.height,
            }),
    {
        if x < self.width && y < self.height {
            // Binding the length brings its machine bound into scope.
            let n = self.pixels.len();
            proof {
                lemma_grid_index(self@.width, self@.height, x as int, y as int);
                assert(y * self@.width + x < n);
            }
            Some(self.pixels[y * self.width + x])
        } else {
            None
        }
    }

    /// Replaces the pixel of column `x` in row `y`; answers the bounds
    /// error, changing nothing, when either coordinate is out of bounds.
    pub fn set_pixel(&mut self, x: usize, y: usize, pixel: &Pixel) -> (r: Result<(), Error>)
        requires
            image_wf(old(self)@),
        ensures
            image_wf(final(self)@),
            final(self)@.width == old(self)@.width,
            final(self)@.height == old(self)@.height,
            (match r {
                Ok(()) => x < old(self)@.width && y < old(self)@.height && final(self)@.pixels
                    =~= old(self)@.pixels.update(y * old(self)@.width + x, pixel@),
                Err(Error::OutOfBounds) => (x >= old(self)@.width || y >= old(self)@.height)
                    && final(self)@ == old(self)@,
            }),
    {
        if x < self.width && y < self.height {
            // Binding the length brings its machine bound into scope.
            let n = self.pixels.len();
            proof {
                lemma_grid_index(self@.width, self@.height, x as int, y as int);
                assert(y * self@.width + x < n);
            }
            let idx: usize = y * self.width + x;
            self.pixels[idx] = *pixel;
            proof {
                assert(self@.pixels =~= old(self)@.pixels.update(idx as int, pixel@));
            }
            Ok(())
        } else {
            Err(Error::OutOfBounds)
        }
    }
}

/// Mapping a pushed pixel commutes with viewing the sequence.
proof fn lemma_pixels_view_push(s: Seq<Pixel>, p: Pixel)
    ensures
        pixels_view(s.push(p)) == pixels_view(s).push(p@),
{
    assert(pixels_view(s.push(p)) =~= pixels_view(s).push(p@));
}

/// One sample: the normalized image-plane coordinates jittered by a
/// unit draw each, the camera ray through them cast and shaded.
#[verifier::opaque]
pub open spec fn sample_step(
    objs: Seq<SphereV>,
    cam: CameraV,
    w: int,
    h: int,
    width: int,
    height: int,
    depth: nat,
    s: int,
) -> (V3, int) {
    let u = fx_div(fx_add(w * SCALE, prng_out(s)), (width - 1) * SCALE);
    let s1 = prng_next(s);
    let v = fx_div(fx_add(h * SCALE, prng_out(s1)), (height - 1) * SCALE);
    let s2 = prng_next(s1);
    ray_color_spec(objs, camera_ray(cam, u, v), depth, s2)
}

/// One pixel's sample accumulation: each sample jitters the normalized
/// image-plane coordinates by a unit draw, casts the camera ray, shades
/// it, and adds the color onto `acc`.
#[verifier::opaque]
pub open spec fn sample_pixel(
    objs: Seq<SphereV>,
    cam: CameraV,
    w: int,
    h: int,
    width: int,
    height: int,
    depth: nat,
    samples_left: nat,
    acc: V3,
    s: int,
) -> (V3, int)
    decreases samples_left,
{
    if samples_left == 0 {
        (acc, s)
    } else {
        let (c, s3) = sample_step(objs, cam, w, h, width, height, depth, s);
        sample_pixel(
            objs,
            cam,
            w,
            h,
            width,
            height,
            depth,
            (samples_left - 1) as nat,
            v3_add(acc, c),
            s3,
        )
    }
}

/// Draws one sample for the pixel of column `w` in `v`-row `h`.
#[verifier::rlimit(100)]
fn sample_once(
    world: &Scene,
    camera: &Camera,
    w: u32,
    h: u32,
    width: u32,
    height: u32,
    max_depth: u32,
    rng: &mut Prng,
) -> (c: Color)
    requires
        0 < width,
        0 < height,
    ensures
        (c@, final(rng)@) == sample_step(
            world@,
            camera@,
            w as int,
            h as int,
            width as int,
            height as int,
            max_depth as nat,
            old(rng)@,
        ),
{
    proof {
        reveal(sample_step);
    }
    let mut gen: Prng = *rng;
    let ghost s0 = gen@;
    let u = Fixed::from_int(w as i64).add(gen.next_unit()).div(
        Fixed::from_int((width - 1) as i64),
    );
    proof {
        assert(u@ == fx_div(fx_add(w as int * SCALE, prng_out(s0)), (width - 1) * SCALE));
        assert(gen@ == prng_next(s0));
    }
    let v = Fixed::from_int(h as i64).add(gen.next_unit()).div(
        Fixed::from_int((height - 1) as i64),
    );
    proof {
        assert(v@ == fx_div(fx_add(h as int * SCALE, prng_out(prng_next(s0))), (height - 1) * SCALE));
        assert(gen@ == prng_next(prng_next(s0)));
    }

    let ray = camera.get_ray(u, v);
    proof {
        assert(ray@ == camera_ray(camera@, u@, v@));
    }
    let c = ray_color(&ray, world, max_depth, &mut gen);
    *rng = gen;
    c
}

/// The column scan of one row: every remaining column's pixel is sampled,
/// quantized and appended onto `acc`.
#[verifier::opaque]
pub open spec fn render_cols(
    objs: Seq<SphereV>,
    cam: CameraV,
    h: int,
    width: int,
    height: int,
    samples: nat,
    depth: nat,
    w: int,
    acc: Seq<PixelV>,
    s: int,
) -> (Seq<PixelV>, int)
    decreases width - w,
{
    if w >= width {
        (acc, s)
    } else {
        let (color, s1) = sample_pixel(objs, cam, w, h, width, height, depth, samples, black(), s);
        let p = write_color_spec(color, samples as int);
        render_cols(objs, cam, h, width, height, samples, depth, w + 1, acc.push(p), s1)
    }
}

/// The row scan: rows are rendered from the top of the picture down, so
/// the row with the highest `v` coordinate comes first.
#[verifier::opaque]
pub open spec fn render_rows(
    objs: Seq<SphereV>,
    cam: CameraV,
    width: int,
    height: int,
    samples: nat,
    depth: nat,
    rows_left: nat,
    acc: Seq<PixelV>,
    s: int,
) -> (Seq<PixelV>, int)
    decreases rows_left,
{
    if rows_left == 0 {
        (acc, s)
    } else {
        let h = rows_left - 1;
        let (acc2, s1) = render_cols(objs, cam, h, width, height, samples, depth, 0, acc, s);
        render_rows(objs, cam, width, height, samples, depth, (rows_left - 1) as nat, acc2, s1)
    }
}

/// The whole raster a render yields, with the state the generator is
/// left in: rows top-down, columns left to right, `samples` jittered
/// rays per pixel, every pixel averaged, clamped and quantized.
pub open spec fn render_spec(
    objs: Seq<SphereV>,
    cam: CameraV,
    width: nat,
    height: nat,
    samples: nat,
    depth: nat,
    s: int,
) -> (Seq<PixelV>, int) {
    render_rows(
        objs,
        cam,
        width as int,
        height as int,
        samples,
        depth,
        height,
        Seq::<PixelV>::empty(),
        s,
    )
}

/// Samples one pixel: `samples` jittered rays, accumulated and then
/// averaged, clamped and quantized.
#[verifier::rlimit(100)]
fn sample_one_pixel(
    world: &Scene,
    camera: &Camera,
    w: u32,
    h: u32,
    width: u32,
    height: u32,
    samples_per_pixel: u32,
    max_depth: u32,
    rng: &mut Prng,
) -> (p: Pixel)
    requires
        0 < width,
        0 < height,
    ensures
        ({
            let (c, s1) = sample_pixel(
                world@,
                camera@,
                w as int,
                h as int,
                width as int,
                height as int,
                max_depth as nat,
                samples_per_pixel as nat,
                black(),
                old(rng)@,
            );
            p@ == write_color_spec(c, samples_per_pixel as int) && final(rng)@ == s1
        }),
{
    proof {
        reveal_with_fuel(sample_pixel, 1);
    }
    let mut gen: Prng = *rng;
    let ghost sp = gen@;
    let mut pixel_color = Color::empty();
    let mut s_i: u32 = 0;
    while s_i < samples_per_pixel
        invariant
            0 < width,
            0 < height,
            s_i <= samples_per_pixel,
            sample_pixel(
                world@,
                camera@,
                w as int,
                h as int,
                width as int,
                height as int,
                max_depth as nat,
                (samples_per_pixel - s_i) as nat,
                pixel_color@,
                gen@,
            ) == sample_pixel(
                world@,
                camera@,
                w as int,
                h as int,
                width as int,
                height as int,
                max_depth as nat,
                samples_per_pixel as nat,
                black(),
                sp,
            ),
        decreases samples_per_pixel - s_i,
    {
        proof {
            reveal_with_fuel(sample_pixel, 1);
        }
        let c = sample_once(world, camera, w, h, width, height, max_depth, &mut gen);
        pixel_color = pixel_color.add(c);
        s_i = s_i + 1;
    }
    *rng = gen;
    write_color(pixel_color, samples_per_pixel)
}

/// Renders one row of the image, appending its pixels left to right.
fn render_one_row(
    world: &Scene,
    camera: &Camera,
    h: u32,
    width: u32,
    height: u32,
    samples_per_pixel: u32,
    max_depth: u32,
    rng: &mut Prng,
    pixels: &mut Vec<Pixel>,
)
    requires
        0 < height,
    ensures
        final(pixels)@.len() == old(pixels)@.len() + width,
        (pixels_view(final(pixels)@), final(rng)@) == render_cols(
            world@,
            camera@,
            h as int,
            width as int,
            height as int,
            samples_per_pixel as nat,
            max_depth as nat,
            0,
            pixels_view(old(pixels)@),
            old(rng)@,
        ),
{
    proof {
        reveal_with_fuel(render_cols, 1);
    }
    let mut gen: Prng = *rng;
    let ghost target = render_cols(
        world@,
        camera@,
        h as int,
        width as int,
        height as int,
        samples_per_pixel as nat,
        max_depth as nat,
        0,
        pixels_view(pixels@),
        gen@,
    );
    let ghost len0 = pixels@.len();
    let mut w: u32 = 0;
    while w < width
        invariant
            0 < height,
            w <= width,
            pixels@.len() == len0 + w,
            render_cols(
                world@,
                camera@,
                h as int,
                width as int,
                height as int,
                samples_per_pixel as nat,
                max_depth as nat,
                w as int,
                pixels_view(pixels@),
                gen@,
            ) == target,
        decreases width - w,
    {
        proof {
            reveal_with_fuel(render_cols, 1);
        }
        let p = sample_one_pixel(
            world,
            camera,
            w,
            h,
            width,
            height,
            samples_per_pixel,
            max_depth,
            &mut gen,
        );
        proof {
            lemma_pixels_view_push(pixels@, p);
        }
        pixels.push(p);
        w = w + 1;
    }
    *rng = gen;
}

/// Renders the scene through the camera into a `width` by `height`
/// raster, drawing every jitter and bounce from `rng` — so the whole
/// image is a function of the scene, the camera and the generator's
/// starting state.
pub fn render(
    world: &Scene,
    camera: &Camera,
    width: u32,
    height: u32,
    samples_per_pixel: u32,
    max_depth: u32,
    rng: &mut Prng,
) -> (img: Image)
    requires
        (width as int) * (height as int) <= usize::MAX,
    ensures
        image_wf(img@),
        img@.width == width as int,
        img@.height == height as int,
        (img@.pixels, final(rng)@) == render_spec(
            world@,
            camera@,
            width as nat,
            height as nat,
            samples_per_pixel as nat,
            max_depth as nat,
            old(rng)@,
        ),
{
    proof {
        reveal_with_fuel(render_rows, 1);
    }
    let mut gen: Prng = *rng;
    let ghost target = render_rows(
        world@,
        camera@,
        width as int,
        height as int,
        samples_per_pixel as nat,
        max_depth as nat,
        height as nat,
        Seq::<PixelV>::empty(),
        gen@,
    );

    let mut pixels: Vec<Pixel> = Vec::new();
    proof {
        assert(pixels_view(pixels@) =~= Seq::<PixelV>::empty());
    }
    let mut rows_left: u32 = height;
    while rows_left > 0
        invariant
            rows_left <= height,
            pixels@.len() == (height - rows_left) * width,
            render_rows(
                world@,
                camera@,
                width as int,
                height as int,
                samples_per_pixel as nat,
                max_depth as nat,
                rows_left as nat,
                pixels_view(pixels@),
                gen@,
            ) == target,
        decreases rows_left,
    {
        proof {
            reveal_with_fuel(render_rows, 1);
        }
        let h: u32 = rows_left - 1;
        render_one_row(
            world,
            camera,
            h,
            width,
            height,
            samples_per_pixel,
            max_depth,
            &mut gen,
            &mut pixels,
        );
        proof {
            assert((height - (rows_left - 1)) * width == (height - rows_left) * width + width)
                by (nonlinear_arith);
        }
        rows_left = rows_left - 1;
    }
    *rng = gen;
    proof {
        assert(pixels@.len() == (height as int) * (width as int)) by (nonlinear_arith)
            requires
                pixels@.len() == (height - 0) * width;
        assert((width as int) * (height as int) == (height as int) * (width as int))
            by (nonlinear_arith);
    }
    Image { width: width as usize, height: height as usize, pixels }
}

/// Rendering is reproducible: the raster is a function of the scene, the
/// camera, the image parameters and the generator's starting state alone,
/// so two renders that agree on all of them agree bit for bit — which is
/// what [`render`]'s contract hands every caller that seeds its own
/// generator.
pub proof fn lemma_render_deterministic(
    objs: Seq<SphereV>,
    cam: CameraV,
    width: nat,
    height: nat,
    samples: nat,
    depth: nat,
    s1: int,
    s2: int,
)
    requires
        s1 == s2,
    ensures
        render_spec(objs, cam, width, height, samples, depth, s1) == render_spec(
            objs,
            cam,
            width,
            height,
            samples,
            depth,
            s2,
        ),
{
}

/// A row-major grid index stays inside the pixel count.
proof fn lemma_grid_index(width: int, height: int, x: int, y: int)
    requires
        0 <= x < width,
        0 <= y < height,
    ensures
        0 <= y * width + x < width * height,
{
    assert(0 <= y * width + x < width * height) by (nonlinear_arith)
        requires
            0 <= x < width,
            0 <= y < height;
}

} // verus!
