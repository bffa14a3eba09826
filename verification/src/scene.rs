//! Scene geometry: spheres, hit records, the aggregate scene and the camera.
//!
//! Every surface answers the same question — does a ray strike it at a
//! parameter strictly inside `(t_min, t_max)`?  On a miss the caller's
//! hit record is left untouched, which the aggregate's shrinking-interval
//! scan relies on.
use crate::fixed::{fx_add, fx_div, fx_mul, fx_neg, fx_sqrt, fx_sub, Fixed, SCALE};
use crate::ray::{ray_at, Ray, RayV};
use crate::vec::{
    lemma_v3_len_sq_nonneg, v3_add, v3_divs, v3_dot, v3_len_sq, v3_muls, v3_neg, v3_sub, Point,
    Vec3, V3,
};
use vstd::prelude::*;

verus! {

/// The mathematical content of a [`Hit`].
pub ghost struct HitV {
    pub front_face: bool,
    pub point: V3,
    pub normal: V3,
    pub t: int,
}

/// The nearest accepted intersection, as an intersection call populates it.
/// The normal always points against the incoming ray; `front_face` records
/// whether the ray came from outside.
#[derive(Clone, Copy, Debug)]
pub struct Hit {
    front_face: bool,
    point: Point,
    normal: Vec3,
    t: Fixed,
}

impl View for Hit {
    type V = HitV;

    closed spec fn view(&self) -> HitV {
        HitV {
            front_face: self.front_face,
            point: self.point@,
            normal: self.normal@,
            t: self.t@,
        }
    }
}

/// The record a hit at parameter `t` stores: the reached point, and the
/// outward normal turned against the incoming ray.
pub open spec fn hit_record_at(t: int, point: V3, ray: RayV, outward: V3) -> HitV {
    let front = v3_dot(ray.direction, outward) < 0;
    HitV {
        front_face: front,
        point,
        normal: if front {
            outward
        } else {
            v3_neg(outward)
        },
        t,
    }
}

impl Hit {
    /// The stored normal.
    pub fn normal(&self) -> (r: &Vec3)
        ensures
            r@ == self@.normal,
    {
        &self.normal
    }

    /// The stored point.
    pub fn point(&self) -> (r: &Point)
        ensures
            r@ == self@.point,
    {
        &self.point
    }

    /// The stored parameter.
    pub fn t(&self) -> (r: Fixed)
        ensures
            r@ == self@.t,
    {
        self.t
    }

    /// Whether the ray struck from outside.
    pub fn front_face(&self) -> (r: bool)
        ensures
            r == self@.front_face,
    {
        self.front_face
    }

    /// Stores `outward_normal` oriented against the incoming ray and
    /// records on which side the ray originated.
    fn set_face_normal(&mut self, ray: &Ray, outward_normal: Vec3)
        ensures
            final(self)@ == hit_record_at(old(self)@.t, old(self)@.point, ray@, outward_normal@),
    {
        self.front_face = ray.direction().dot(&outward_normal).lt(Fixed::zero());
        self.normal = if self.front_face {
            outward_normal
        } else {
            outward_normal.neg()
        };
    }
}

impl Default for Hit {
    /// An all-zero record, handy as the sentinel a probe may overwrite.
    fn default() -> (r: Hit)
        ensures
            r@ == (HitV {
                front_face: false,
                point: V3 { x: 0, y: 0, z: 0 },
                normal: V3 { x: 0, y: 0, z: 0 },
                t: 0,
            }),
    {
        Hit { front_face: false, point: Point::empty(), normal: Vec3::empty(), t: Fixed::zero() }
    }
}

/// Anything a ray can strike within an open parameter range.
pub trait SceneObject {
    /// Reports whether the ray strikes the surface at some parameter
    /// strictly inside `(t_min, t_max)`, and populates `hit` exactly when
    /// it does.
    fn hit(&self, ray: &Ray, t_min: Fixed, t_max: Fixed, hit: &mut Hit) -> (r: bool)
        ensures
            !r ==> *final(hit) == *old(hit),
            r ==> t_min@ < final(hit)@.t < t_max@,
    ;
}

/// The mathematical content of a [`Sphere`].
pub ghost struct SphereV {
    pub center: V3,
    pub radius: int,
}

/// Immutable scene geometry: a center and a radius.
#[derive(Clone, Copy, Debug)]
pub struct Sphere {
    center: Point,
    radius: Fixed,
}

impl View for Sphere {
    type V = SphereV;

    closed spec fn view(&self) -> SphereV {
        SphereV { center: self.center@, radius: self.radius@ }
    }
}

/// Leading quadratic coefficient of the intersection equation.
#[verifier::opaque]
pub open spec fn sphere_a(ray: RayV) -> int {
    v3_len_sq(ray.direction)
}

/// Half the linear coefficient.
#[verifier::opaque]
pub open spec fn sphere_b(s: SphereV, ray: RayV) -> int {
    v3_dot(v3_sub(ray.origin, s.center), ray.direction)
}

/// Constant coefficient.
#[verifier::opaque]
pub open spec fn sphere_c(s: SphereV, ray: RayV) -> int {
    fx_sub(v3_len_sq(v3_sub(ray.origin, s.center)), fx_mul(s.radius, s.radius))
}

/// Discriminant deciding whether the ray meets the sphere at all.
#[verifier::opaque]
pub open spec fn sphere_disc(s: SphereV, ray: RayV) -> int {
    fx_sub(
        fx_mul(sphere_b(s, ray), sphere_b(s, ray)),
        fx_mul(sphere_a(ray), sphere_c(s, ray)),
    )
}

/// The smaller candidate root.
#[verifier::opaque]
pub open spec fn sphere_root1(s: SphereV, ray: RayV) -> int {
    fx_div(fx_sub(fx_neg(sphere_b(s, ray)), fx_sqrt(sphere_disc(s, ray))), sphere_a(ray))
}

/// The larger candidate root.
#[verifier::opaque]
pub open spec fn sphere_root2(s: SphereV, ray: RayV) -> int {
    fx_div(fx_add(fx_neg(sphere_b(s, ray)), fx_sqrt(sphere_disc(s, ray))), sphere_a(ray))
}

/// The record a sphere hit at parameter `t` stores.
#[verifier::opaque]
pub open spec fn sphere_record(s: SphereV, ray: RayV, t: int) -> HitV {
    hit_record_at(
        t,
        ray_at(ray, t),
        ray,
        v3_divs(v3_sub(ray_at(ray, t), s.center), s.radius),
    )
}

/// What a sphere intersection returns: nothing when the discriminant is
/// negative; otherwise the smaller root if it lies strictly inside
/// `(t_min, t_max)`, else the larger root under the same test, else
/// nothing.
pub open spec fn sphere_hit_spec(s: SphereV, ray: RayV, t_min: int, t_max: int) -> Option<HitV> {
    if sphere_disc(s, ray) < 0 {
        None
    } else if t_min < sphere_root1(s, ray) < t_max {
        Some(sphere_record(s, ray, sphere_root1(s, ray)))
    } else if t_min < sphere_root2(s, ray) < t_max {
        Some(sphere_record(s, ray, sphere_root2(s, ray)))
    } else {
        None
    }
}

impl Sphere {
    /// A sphere from its center and radius.  Degenerate geometry is the
    /// caller's responsibility; every probe still returns a defined
    /// answer.
    pub fn new(center: Point, radius: Fixed) -> (r: Sphere)
        ensures
            r@ == (SphereV { center: center@, radius: radius@ }),
    {
        Sphere { center, radius }
    }
}

impl SceneObject for Sphere {
    fn hit(&self, ray: &Ray, t_min: Fixed, t_max: Fixed, hit: &mut Hit) -> (r: bool)
        ensures
            (match sphere_hit_spec(self@, ray@, t_min@, t_max@) {
                Some(h) => r && final(hit)@ == h,
                None => !r && *final(hit) == *old(hit),
            }),
    {
        proof {
            reveal(sphere_a);
            reveal(sphere_b);
            reveal(sphere_c);
            reveal(sphere_disc);
            reveal(sphere_root1);
            reveal(sphere_root2);
            reveal(sphere_record);
        }
        let oc = ray.origin().sub(self.center);

        let a = ray.direction().len_squared();
        let b = oc.dot(ray.direction());
        let c = oc.len_squared().sub(self.radius.mul(self.radius));

        let discriminant = b.mul(b).sub(a.mul(c));

        if discriminant.lt(Fixed::zero()) {
            return false;
        }

        let sqrtd = discriminant.sqrt();

        // Find the nearest root that lies strictly inside the range.
        let mut root = b.neg().sub(sqrtd).div(a);
        if !(t_min.lt(root) && root.lt(t_max)) {
            root = b.neg().add(sqrtd).div(a);
            if !(t_min.lt(root) && root.lt(t_max)) {
                return false;
            }
        }

        let outward_normal = ray.at(root).sub(self.center).div(self.radius);

        hit.t = root;
        hit.point = ray.at(root);
        hit.set_face_normal(ray, outward_normal);

        true
    }
}

/// `t` is one of the candidate parameters the probe of sphere `s`
/// computes for `ray`: a root of its intersection quadratic, as the
/// fixed-point arithmetic evaluates it.
pub open spec fn is_candidate_root(s: SphereV, ray: RayV, t: int) -> bool {
    sphere_disc(s, ray) >= 0 && (t == sphere_root1(s, ray) || t == sphere_root2(s, ray))
}

/// The record a hit stores carries the parameter it was accepted at.
pub proof fn lemma_sphere_record_t(s: SphereV, ray: RayV, t: int)
    ensures
        sphere_record(s, ray, t).t == t,
{
    reveal(sphere_record);
}

/// The smaller candidate root really is the smaller one, for a ray whose
/// direction has positive squared length.
proof fn lemma_root_order(s: SphereV, ray: RayV)
    requires
        sphere_a(ray) > 0,
        sphere_disc(s, ray) >= 0,
    ensures
        sphere_root1(s, ray) <= sphere_root2(s, ray),
{
    reveal(sphere_root1);
    reveal(sphere_root2);
    let nb = fx_neg(sphere_b(s, ray));
    let disc = sphere_disc(s, ray);
    crate::fixed::lemma_fx_sqrt_nonneg(disc);
    crate::fixed::lemma_fx_div_ordered(
        fx_sub(nb, fx_sqrt(disc)),
        fx_add(nb, fx_sqrt(disc)),
        sphere_a(ray),
    );
}

/// A sphere probe accepts the smallest candidate root strictly inside
/// the range, and reports a miss exactly when no candidate lies there.
pub proof fn lemma_sphere_hit_min(s: SphereV, ray: RayV, t_min: int, t_max: int)
    requires
        sphere_a(ray) > 0,
    ensures
        (match sphere_hit_spec(s, ray, t_min, t_max) {
            Some(h) => is_candidate_root(s, ray, h.t) && t_min < h.t < t_max && h
                == sphere_record(s, ray, h.t) && forall|t: int|
                #[trigger] is_candidate_root(s, ray, t) && t_min < t < t_max ==> h.t <= t,
            None => forall|t: int| #[trigger]
                is_candidate_root(s, ray, t) ==> !(t_min < t < t_max),
        }),
{
    if sphere_disc(s, ray) >= 0 {
        lemma_root_order(s, ray);
        lemma_sphere_record_t(s, ray, sphere_root1(s, ray));
        lemma_sphere_record_t(s, ray, sphere_root2(s, ray));
    }
}

/// A negative discriminant is a miss: no parameter range makes the probe
/// report an intersection, so the caller's record is never touched.
pub proof fn lemma_negative_discriminant_misses(s: SphereV, ray: RayV, t_min: int, t_max: int)
    requires
        sphere_disc(s, ray) < 0,
    ensures
        sphere_hit_spec(s, ray, t_min, t_max) is None,
{
}

/// A ray aimed straight at a sphere's center from outside hits it
/// front-face, with the stored normal exactly opposite the ray's
/// direction, and the accepted parameter — the smaller root — exactly
/// the center distance minus the radius.
///
/// The ray looks down the third axis with a unit direction, and the
/// radius is a whole multiple of the mantissa grid, so every step of the
/// intersection arithmetic is exact; the magnitude bounds keep all
/// intermediates far from saturation.
pub proof fn lemma_head_on_hit(o: V3, dist: int, r: int, t_min: int, t_max: int)
    requires
        0 < r < dist <= 1_000_000_000_000,
        (r * r) % (SCALE as int) == 0,
        -1_000_000_000_000 <= o.x <= 1_000_000_000_000,
        -1_000_000_000_000 <= o.y <= 1_000_000_000_000,
        -1_000_000_000_000 <= o.z <= 1_000_000_000_000,
        t_min < dist - r < t_max,
    ensures
        ({
            let ray = RayV { origin: o, direction: V3 { x: 0, y: 0, z: -(SCALE as int) } };
            let s = SphereV { center: V3 { x: o.x, y: o.y, z: o.z - dist }, radius: r };
            sphere_hit_spec(s, ray, t_min, t_max) matches Some(h) && h.t == dist - r
                && h.front_face && h.normal == v3_neg(ray.direction)
        }),
{
    reveal(sphere_a);
    reveal(sphere_b);
    reveal(sphere_c);
    reveal(sphere_disc);
    reveal(sphere_root1);
    reveal(sphere_root2);
    reveal(sphere_record);
    let ray = RayV { origin: o, direction: V3 { x: 0, y: 0, z: -(SCALE as int) } };
    let s = SphereV { center: V3 { x: o.x, y: o.y, z: o.z - dist }, radius: r };

    let oc = v3_sub(ray.origin, s.center);
    assert(oc == V3 { x: 0, y: 0, z: dist });

    // a = 1: the direction is a unit vector on the grid.
    crate::fixed::lemma_tdiv_scale_cancel(SCALE as int);
    crate::fixed::lemma_tdiv_scale_cancel(0);
    assert((-(SCALE as int)) * (-(SCALE as int)) == (SCALE as int) * (SCALE as int))
        by (nonlinear_arith);
    let a = sphere_a(ray);
    assert(a == SCALE);

    // b = -dist: the center lies `dist` ahead along the axis.
    crate::fixed::lemma_fx_mul_neg_one(dist);
    let b = sphere_b(s, ray);
    assert(b == -dist);

    // The two quadratic coefficients share the truncated square of the
    // center distance, so it drops out of the discriminant, which is
    // exactly the rescaled square of the radius.
    let dd = fx_mul(dist, dist);
    assert(dist * dist <= 1_000_000_000_000_000_000_000_000) by (nonlinear_arith)
        requires
            0 < dist <= 1_000_000_000_000;
    assert(dist * dist >= 0) by (nonlinear_arith);
    vstd::arithmetic::div_mod::lemma_div_is_ordered(
        dist * dist,
        1_000_000_000_000_000_000_000_000,
        SCALE as int,
    );
    vstd::arithmetic::div_mod::lemma_div_pos_is_pos(dist * dist, SCALE as int);
    assert(0 <= dd <= 1_000_000_000_000_000_000);

    let rr = fx_mul(r, r);
    assert(r * r <= dist * dist) by (nonlinear_arith)
        requires
            0 < r <= dist;
    vstd::arithmetic::div_mod::lemma_div_is_ordered(r * r, dist * dist, SCALE as int);
    vstd::arithmetic::div_mod::lemma_div_pos_is_pos(r * r, SCALE as int);
    assert(0 <= rr <= dd);

    assert(fx_mul(b, b) == dd) by {
        assert((-dist) * (-dist) == dist * dist) by (nonlinear_arith);
    }
    let cv = sphere_c(s, ray);
    assert(cv == dd - rr);
    crate::fixed::lemma_fx_mul_one(cv);
    let disc = sphere_disc(s, ray);
    assert(disc == rr);

    // The radius square sits on the grid, so its root is exact.
    vstd::arithmetic::div_mod::lemma_fundamental_div_mod(r * r, SCALE as int);
    assert(rr * SCALE == r * r);
    crate::fixed::lemma_isqrt_of_square(r);
    assert(fx_sqrt(disc) == r);

    crate::fixed::lemma_fx_div_one(dist - r);
    let root1 = sphere_root1(s, ray);
    assert(root1 == dist - r);

    let t = dist - r;
    let point = ray_at(ray, t);
    crate::fixed::lemma_fx_mul_neg_one(t);
    assert(point == V3 { x: o.x, y: o.y, z: o.z - t });

    let outward = v3_divs(v3_sub(point, s.center), r);
    crate::fixed::lemma_fx_div_zero(r);
    crate::fixed::lemma_fx_div_self(r);
    assert(v3_sub(point, s.center) == V3 { x: 0, y: 0, z: r });
    assert(outward == V3 { x: 0, y: 0, z: SCALE as int });

    assert(v3_dot(ray.direction, outward) == -SCALE);
    let rec = sphere_record(s, ray, t);
    assert(rec.front_face);
    assert(rec.normal == outward);
    assert(v3_neg(ray.direction) == V3 { x: 0, y: 0, z: SCALE as int });
    assert(sphere_hit_spec(s, ray, t_min, t_max) == Some(rec));
}

/// The closed set of surface kinds a scene can hold, dispatched over one
/// `hit` entry point.
#[derive(Clone, Copy, Debug)]
pub enum Surface {
    Sphere(Sphere),
}

impl View for Surface {
    type V = SphereV;

    closed spec fn view(&self) -> SphereV {
        match self {
            Surface::Sphere(s) => s@,
        }
    }
}

impl SceneObject for Surface {
    fn hit(&self, ray: &Ray, t_min: Fixed, t_max: Fixed, hit: &mut Hit) -> (r: bool)
        ensures
            (match sphere_hit_spec(self@, ray@, t_min@, t_max@) {
                Some(h) => r && final(hit)@ == h,
                None => !r && *final(hit) == *old(hit),
            }),
    {
        match self {
            Surface::Sphere(s) => s.hit(ray, t_min, t_max, hit),
        }
    }
}

/// One scan step of the aggregate: probe the first remaining surface
/// against the shrunk interval, keep the nearer record, and continue.
pub open spec fn scene_hit_rec(
    objs: Seq<SphereV>,
    ray: RayV,
    t_min: int,
    closest: int,
    best: Option<HitV>,
) -> Option<HitV>
    decreases objs.len(),
{
    if objs.len() == 0 {
        best
    } else {
        match sphere_hit_spec(objs[0], ray, t_min, closest) {
            Some(h) => scene_hit_rec(objs.drop_first(), ray, t_min, h.t, Some(h)),
            None => scene_hit_rec(objs.drop_first(), ray, t_min, closest, best),
        }
    }
}

/// What the aggregate scan returns: the record of the nearest accepted
/// intersection across all surfaces, if any parameter strictly inside
/// `(t_min, t_max)` is accepted at all.
pub open spec fn scene_hit_spec(objs: Seq<SphereV>, ray: RayV, t_min: int, t_max: int) -> Option<
    HitV,
> {
    scene_hit_rec(objs, ray, t_min, t_max, None)
}

/// What one scan step guarantees, generalized over the running state:
/// the best record so far (with the shrunk upper bound equal to its
/// parameter) and the surfaces still to probe.
proof fn lemma_scene_scan(
    objs: Seq<SphereV>,
    ray: RayV,
    t_min: int,
    t_max: int,
    closest: int,
    best: Option<HitV>,
)
    requires
        sphere_a(ray) > 0,
        (match best {
            None => closest == t_max,
            Some(bh) => closest == bh.t && t_min < bh.t < t_max,
        }),
        closest <= t_max,
    ensures
        (match scene_hit_rec(objs, ray, t_min, closest, best) {
            Some(h) => {
                &&& t_min < h.t < t_max
                &&& h.t <= closest || best is None
                &&& best == Some(h) || exists|i: int|
                    0 <= i < objs.len() && #[trigger] is_candidate_root(objs[i], ray, h.t) && h
                        == sphere_record(objs[i], ray, h.t) && t_min < h.t < closest
                &&& forall|i: int, t: int|
                    0 <= i < objs.len() && #[trigger] is_candidate_root(objs[i], ray, t) && t_min
                        < t < closest ==> h.t <= t
            },
            None => best is None && forall|i: int, t: int|
                0 <= i < objs.len() && #[trigger] is_candidate_root(objs[i], ray, t) ==> !(t_min
                    < t < closest),
        }),
    decreases objs.len(),
{
    if objs.len() == 0 {
    } else {
        let first = objs[0];
        let rest = objs.drop_first();
        assert(forall|j: int| 0 <= j < rest.len() ==> rest[j] == objs[j + 1]);
        lemma_sphere_hit_min(first, ray, t_min, closest);
        match sphere_hit_spec(first, ray, t_min, closest) {
            Some(h0) => {
                lemma_scene_scan(rest, ray, t_min, t_max, h0.t, Some(h0));
                let res = scene_hit_rec(rest, ray, t_min, h0.t, Some(h0));
                match res {
                    Some(h) => {
                        if h != h0 {
                            let j = choose|j: int|
                                0 <= j < rest.len() && #[trigger] is_candidate_root(
                                    rest[j],
                                    ray,
                                    h.t,
                                ) && h == sphere_record(rest[j], ray, h.t) && t_min < h.t < h0.t;
                            assert(is_candidate_root(objs[j + 1], ray, h.t));
                        } else {
                            assert(is_candidate_root(objs[0], ray, h.t));
                        }
                        assert forall|i: int, t: int|
                            0 <= i < objs.len() && #[trigger] is_candidate_root(objs[i], ray, t)
                                && t_min < t < closest implies h.t <= t by {
                            if i == 0 {
                                assert(h0.t <= t);
                            } else {
                                assert(is_candidate_root(rest[i - 1], ray, t));
                                if t < h0.t {
                                } else {
                                    assert(h.t <= h0.t);
                                }
                            }
                        }
                    },
                    None => {
                        assert(false);
                    },
                }
            },
            None => {
                lemma_scene_scan(rest, ray, t_min, t_max, closest, best);
                let res = scene_hit_rec(rest, ray, t_min, closest, best);
                match res {
                    Some(h) => {
                        if best != Some(h) {
                            let j = choose|j: int|
                                0 <= j < rest.len() && #[trigger] is_candidate_root(
                                    rest[j],
                                    ray,
                                    h.t,
                                ) && h == sphere_record(rest[j], ray, h.t) && t_min < h.t
                                    < closest;
                            assert(is_candidate_root(objs[j + 1], ray, h.t));
                        }
                        assert forall|i: int, t: int|
                            0 <= i < objs.len() && #[trigger] is_candidate_root(objs[i], ray, t)
                                && t_min < t < closest implies h.t <= t by {
                            if i == 0 {
                            } else {
                                assert(is_candidate_root(rest[i - 1], ray, t));
                            }
                        }
                    },
                    None => {
                        assert forall|i: int, t: int|
                            0 <= i < objs.len() && #[trigger] is_candidate_root(objs[i], ray, t)
                                implies !(t_min < t < closest) by {
                            if i == 0 {
                            } else {
                                assert(is_candidate_root(rest[i - 1], ray, t));
                            }
                        }
                    },
                }
            },
        }
    }
}

/// The aggregate scan resolves the globally nearest intersection: when it
/// reports a hit, the record belongs to some surface whose probe computed
/// that parameter, the parameter lies strictly inside the range, and no
/// surface has a candidate root strictly inside the range that is nearer;
/// when it reports a miss, no surface has a candidate root inside the
/// range at all.
pub proof fn lemma_scene_hit_nearest(objs: Seq<SphereV>, ray: RayV, t_min: int, t_max: int)
    requires
        sphere_a(ray) > 0,
    ensures
        (match scene_hit_spec(objs, ray, t_min, t_max) {
            Some(h) => {
                &&& t_min < h.t < t_max
                &&& exists|i: int|
                    0 <= i < objs.len() && #[trigger] is_candidate_root(objs[i], ray, h.t) && h
                        == sphere_record(objs[i], ray, h.t)
                &&& forall|i: int, t: int|
                    0 <= i < objs.len() && #[trigger] is_candidate_root(objs[i], ray, t) && t_min
                        < t < t_max ==> h.t <= t
            },
            None => forall|i: int, t: int|
                0 <= i < objs.len() && #[trigger] is_candidate_root(objs[i], ray, t) ==> !(t_min
                    < t < t_max),
        }),
{
    lemma_scene_scan(objs, ray, t_min, t_max, t_max, None);
}

/// An ordered collection of surfaces, probed as one.
#[derive(Debug)]
pub struct Scene {
    objects: Vec<Surface>,
}

impl View for Scene {
    type V = Seq<SphereV>;

    closed spec fn view(&self) -> Seq<SphereV> {
        self.objects@.map_values(|s: Surface| s@)
    }
}

impl Scene {
    /// An empty scene.
    pub fn new() -> (r: Scene)
        ensures
            r@ =~= Seq::<SphereV>::empty(),
    {
        Scene { objects: Vec::new() }
    }

    /// Appends a surface; the scan visits surfaces in insertion order.
    pub fn push(&mut self, object: Surface)
        ensures
            final(self)@ =~= old(self)@.push(object@),
    {
        self.objects.push(object);
    }

    /// How many surfaces the scene holds.
    pub fn len(&self) -> (r: usize)
        ensures
            r == self@.len(),
    {
        self.objects.len()
    }
}

impl SceneObject for Scene {
    fn hit(&self, ray: &Ray, t_min: Fixed, t_max: Fixed, hit: &mut Hit) -> (r: bool)
        ensures
            (match scene_hit_spec(self@, ray@, t_min@, t_max@) {
                Some(h) => r && final(hit)@ == h,
                None => !r && *final(hit) == *old(hit),
            }),
    {
        let mut temp_hit = Hit::default();
        let mut best = Hit::default();
        let mut has_hit = false;
        let mut closest_so_far = t_max;

        let n = self.objects.len();
        let mut i: usize = 0;
        proof {
            assert(self@.skip(0) =~= self@);
        }
        while i < n
            invariant
                n == self.objects.len(),
                i <= n,
                has_hit ==> closest_so_far@ == best@.t,
                !has_hit ==> closest_so_far@ == t_max@,
                has_hit ==> t_min@ < best@.t < t_max@,
                scene_hit_rec(
                    self@.skip(i as int),
                    ray@,
                    t_min@,
                    closest_so_far@,
                    if has_hit {
                        Some(best@)
                    } else {
                        None
                    },
                ) == scene_hit_spec(self@, ray@, t_min@, t_max@),
            decreases n - i,
        {
            proof {
                assert(self@.skip(i as int)[0] == self@[i as int]);
                assert(self@.skip(i as int).drop_first() =~= self@.skip(i + 1));
            }
            if self.objects[i].hit(ray, t_min, closest_so_far, &mut temp_hit) {
                has_hit = true;
                closest_so_far = temp_hit.t();
                best = temp_hit;
            }
            i = i + 1;
        }

        if has_hit {
            *hit = best;
        }
        has_hit
    }
}

/// The mathematical content of a [`Camera`].
pub ghost struct CameraV {
    pub origin: V3,
    pub lower_left_corner: V3,
    pub horizontal: V3,
    pub vertical: V3,
}

/// Maps normalized image-plane coordinates to world-space rays.  Derived
/// once from the fixed aspect ratio, viewport height and focal length.
#[derive(Clone, Copy, Debug)]
pub struct Camera {
    origin: Point,
    lower_left_corner: Point,
    horizontal: Vec3,
    vertical: Vec3,
}

impl View for Camera {
    type V = CameraV;

    closed spec fn view(&self) -> CameraV {
        CameraV {
            origin: self.origin@,
            lower_left_corner: self.lower_left_corner@,
            horizontal: self.horizontal@,
            vertical: self.vertical@,
        }
    }
}

/// The basis the default camera derives: a sixteen-by-nine viewport of
/// height two at focal length one, seen from the world origin.
pub open spec fn camera_default() -> CameraV {
    let aspect_ratio = fx_div(16 * SCALE, 9 * SCALE);
    let viewport_height = 2 * SCALE;
    let viewport_width = fx_mul(aspect_ratio, viewport_height);
    let focal_length = 1 * SCALE;
    let origin = V3 { x: 0, y: 0, z: 0 };
    let horizontal = V3 { x: viewport_width, y: 0, z: 0 };
    let vertical = V3 { x: 0, y: viewport_height, z: 0 };
    let lower_left_corner = v3_sub(
        v3_sub(v3_sub(origin, v3_divs(horizontal, 2 * SCALE)), v3_divs(vertical, 2 * SCALE)),
        V3 { x: 0, y: 0, z: focal_length },
    );
    CameraV { origin, lower_left_corner, horizontal, vertical }
}

/// The ray the camera casts through normalized image-plane coordinates
/// `(u, v)`, with `u` running left to right and `v` bottom to top.
pub open spec fn camera_ray(c: CameraV, u: int, v: int) -> RayV {
    RayV {
        origin: c.origin,
        direction: v3_sub(
            v3_add(
                v3_add(v3_muls(c.horizontal, u), v3_muls(c.vertical, v)),
                c.lower_left_corner,
            ),
            c.origin,
        ),
    }
}

impl Camera {
    /// The default camera basis.
    pub fn new() -> (r: Camera)
        ensures
            r@ == camera_default(),
    {
        let aspect_ratio = Fixed::from_int(16).div(Fixed::from_int(9));
        let viewport_height = Fixed::from_int(2);
        let viewport_width = aspect_ratio.mul(viewport_height);
        let focal_length = Fixed::from_int(1);

        let origin = Point::empty();
        let horizontal = Vec3::new(viewport_width, Fixed::zero(), Fixed::zero());
        let vertical = Vec3::new(Fixed::zero(), viewport_height, Fixed::zero());
        let two = Fixed::from_int(2);
        let lower_left_corner = origin
            .sub(horizontal.div(two))
            .sub(vertical.div(two))
            .sub(Vec3::new(Fixed::zero(), Fixed::zero(), focal_length));

        Camera { origin, lower_left_corner, horizontal, vertical }
    }

    /// The ray through normalized image-plane coordinates `(u, v)`.
    pub fn get_ray(&self, u: Fixed, v: Fixed) -> (r: Ray)
        ensures
            r@ == camera_ray(self@, u@, v@),
    {
        Ray::new(
            self.origin,
            self.horizontal.mul(u).add(self.vertical.mul(v)).add(self.lower_left_corner).sub(
                self.origin,
            ),
        )
    }
}

} // verus!
