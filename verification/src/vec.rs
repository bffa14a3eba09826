//! Three-component vectors over fixed-point numbers.
//!
//! The same type serves as a free displacement, a position and a color;
//! the semantic role is by convention, as the aliases [`Point`] and
//! [`crate::color::Color`] record.  Every operation returns a new value
//! and is specified exactly, component by component, over the ghost
//! view [`V3`].
use crate::fixed::{fx_add, fx_div, fx_mul, fx_neg, fx_sqrt, fx_sub, Fixed, SCALE};
use vstd::prelude::*;

verus! {

/// The mathematical content of a [`Vec3`]: three mantissas.
pub ghost struct V3 {
    pub x: int,
    pub y: int,
    pub z: int,
}

/// A three-component vector; also a position under the alias [`Point`].
#[derive(Clone, Copy, Debug)]
pub struct Vec3 {
    x: Fixed,
    y: Fixed,
    z: Fixed,
}

/// A position in space, by convention.
pub type Point = Vec3;

impl View for Vec3 {
    type V = V3;

    closed spec fn view(&self) -> V3 {
        V3 { x: self.x@, y: self.y@, z: self.z@ }
    }
}

/// Component-wise sum.
pub open spec fn v3_add(a: V3, b: V3) -> V3 {
    V3 { x: fx_add(a.x, b.x), y: fx_add(a.y, b.y), z: fx_add(a.z, b.z) }
}

/// Component-wise difference.
pub open spec fn v3_sub(a: V3, b: V3) -> V3 {
    V3 { x: fx_sub(a.x, b.x), y: fx_sub(a.y, b.y), z: fx_sub(a.z, b.z) }
}

/// Component-wise negation.
pub open spec fn v3_neg(a: V3) -> V3 {
    V3 { x: fx_neg(a.x), y: fx_neg(a.y), z: fx_neg(a.z) }
}

/// Every component scaled by `k`.
pub open spec fn v3_muls(a: V3, k: int) -> V3 {
    V3 { x: fx_mul(a.x, k), y: fx_mul(a.y, k), z: fx_mul(a.z, k) }
}

/// Every component divided by `k`.
pub open spec fn v3_divs(a: V3, k: int) -> V3 {
    V3 { x: fx_div(a.x, k), y: fx_div(a.y, k), z: fx_div(a.z, k) }
}

/// Component-wise product, as color tinting uses.
pub open spec fn v3_mul_elem(a: V3, b: V3) -> V3 {
    V3 { x: fx_mul(a.x, b.x), y: fx_mul(a.y, b.y), z: fx_mul(a.z, b.z) }
}

/// Dot product, summed left to right.
pub open spec fn v3_dot(a: V3, b: V3) -> int {
    fx_add(fx_add(fx_mul(a.x, b.x), fx_mul(a.y, b.y)), fx_mul(a.z, b.z))
}

/// Cross product.
pub open spec fn v3_cross(a: V3, b: V3) -> V3 {
    V3 {
        x: fx_sub(fx_mul(a.y, b.z), fx_mul(a.z, b.y)),
        y: fx_sub(fx_mul(a.z, b.x), fx_mul(a.x, b.z)),
        z: fx_sub(fx_mul(a.x, b.y), fx_mul(a.y, b.x)),
    }
}

/// Squared length: the dot product of a vector with itself.
pub open spec fn v3_len_sq(a: V3) -> int {
    v3_dot(a, a)
}

/// Length: the square root of the squared length.
pub open spec fn v3_len(a: V3) -> int {
    fx_sqrt(v3_len_sq(a))
}

/// The vector scaled by the reciprocal of its length.  A zero vector has
/// length zero and maps to the zero vector, the total stand-in for the
/// undefined result the caller was warned about.
pub open spec fn v3_unit(a: V3) -> V3 {
    v3_divs(a, v3_len(a))
}

/// A fixed-point square is nonnegative.
pub proof fn lemma_fx_square_nonneg(x: int)
    ensures
        fx_mul(x, x) >= 0,
{
    assert(x * x >= 0) by (nonlinear_arith);
    assert((x * x) / (SCALE as int) >= 0) by (nonlinear_arith)
        requires
            x * x >= 0;
}

/// A squared length is nonnegative, so taking its square root is always
/// allowed.
pub proof fn lemma_v3_len_sq_nonneg(a: V3)
    ensures
        v3_len_sq(a) >= 0,
{
    lemma_fx_square_nonneg(a.x);
    lemma_fx_square_nonneg(a.y);
    lemma_fx_square_nonneg(a.z);
}

impl Vec3 {
    /// A vector from its three components.
    pub fn new(x: Fixed, y: Fixed, z: Fixed) -> (r: Vec3)
        ensures
            r@ == (V3 { x: x@, y: y@, z: z@ }),
    {
        Vec3 { x, y, z }
    }

    /// The zero vector.
    pub fn empty() -> (r: Vec3)
        ensures
            r@ == (V3 { x: 0, y: 0, z: 0 }),
    {
        Vec3 { x: Fixed::zero(), y: Fixed::zero(), z: Fixed::zero() }
    }

    /// First component.
    pub fn x(&self) -> (r: Fixed)
        ensures
            r@ == self@.x,
    {
        self.x
    }

    /// Second component.
    pub fn y(&self) -> (r: Fixed)
        ensures
            r@ == self@.y,
    {
        self.y
    }

    /// Third component.
    pub fn z(&self) -> (r: Fixed)
        ensures
            r@ == self@.z,
    {
        self.z
    }

    /// Squared length.
    pub fn len_squared(&self) -> (r: Fixed)
        ensures
            r@ == v3_len_sq(self@),
            r@ >= 0,
    {
        proof {
            lemma_v3_len_sq_nonneg(self@);
        }
        self.x.mul(self.x).add(self.y.mul(self.y)).add(self.z.mul(self.z))
    }

    /// Length.
    pub fn len(&self) -> (r: Fixed)
        ensures
            r@ == v3_len(self@),
            r@ >= 0,
    {
        let sq = self.len_squared();
        let r = sq.sqrt();
        proof {
            crate::fixed::lemma_isqrt_exists(sq@ * SCALE);
        }
        r
    }

    /// Dot product.
    pub fn dot(&self, rhs: &Vec3) -> (r: Fixed)
        ensures
            r@ == v3_dot(self@, rhs@),
    {
        self.x.mul(rhs.x).add(self.y.mul(rhs.y)).add(self.z.mul(rhs.z))
    }

    /// Cross product.
    pub fn cross(&self, rhs: &Vec3) -> (r: Vec3)
        ensures
            r@ == v3_cross(self@, rhs@),
    {
        Vec3 {
            x: self.y.mul(rhs.z).sub(self.z.mul(rhs.y)),
            y: self.z.mul(rhs.x).sub(self.x.mul(rhs.z)),
            z: self.x.mul(rhs.y).sub(self.y.mul(rhs.x)),
        }
    }

    /// The vector divided by its own length.
    pub fn unit(self) -> (r: Vec3)
        ensures
            r@ == v3_unit(self@),
    {
        let l = self.len();
        self.div(l)
    }

    /// Component-wise sum.
    pub fn add(self, rhs: Vec3) -> (r: Vec3)
        ensures
            r@ == v3_add(self@, rhs@),
    {
        Vec3 { x: self.x.add(rhs.x), y: self.y.add(rhs.y), z: self.z.add(rhs.z) }
    }

    /// Component-wise difference.
    pub fn sub(self, rhs: Vec3) -> (r: Vec3)
        ensures
            r@ == v3_sub(self@, rhs@),
    {
        Vec3 { x: self.x.sub(rhs.x), y: self.y.sub(rhs.y), z: self.z.sub(rhs.z) }
    }

    /// Component-wise negation.
    pub fn neg(self) -> (r: Vec3)
        ensures
            r@ == v3_neg(self@),
    {
        Vec3 { x: self.x.neg(), y: self.y.neg(), z: self.z.neg() }
    }

    /// Every component scaled by `k`.
    pub fn mul(self, k: Fixed) -> (r: Vec3)
        ensures
            r@ == v3_muls(self@, k@),
    {
        Vec3 { x: self.x.mul(k), y: self.y.mul(k), z: self.z.mul(k) }
    }

    /// Component-wise product, as color tinting uses.
    pub fn mul_elem(self, rhs: Vec3) -> (r: Vec3)
        ensures
            r@ == v3_mul_elem(self@, rhs@),
    {
        Vec3 { x: self.x.mul(rhs.x), y: self.y.mul(rhs.y), z: self.z.mul(rhs.z) }
    }

    /// Every component divided by `k`.
    pub fn div(self, k: Fixed) -> (r: Vec3)
        ensures
            r@ == v3_divs(self@, k@),
    {
        Vec3 { x: self.x.div(k), y: self.y.div(k), z: self.z.div(k) }
    }
}

} // verus!
