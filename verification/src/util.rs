//! Randomness and small numeric helpers.
//!
//! Rendering needs two kinds of random numbers.  [`rand_float`] and
//! [`rand_float_between`] draw from the process-wide generator of the
//! `rand` crate, so nothing beyond their range can be promised about
//! them.  The render pipeline itself instead threads a [`Prng`], a
//! deterministic linear-congruential generator, so a whole render is a
//! function of its seed and can be reproduced bit for bit.
use crate::fixed::{fx_mul, fx_sub, Fixed, SCALE};
use crate::vec::{v3_len_sq, Vec3, V3};
use vstd::prelude::*;

verus! {

/// Where clamping leaves `x`: pulled up to `min`, down to `max`, or kept.
pub open spec fn clamp_spec(x: int, min: int, max: int) -> int {
    if x < min {
        min
    } else if x > max {
        max
    } else {
        x
    }
}

/// Clamps `x` into `[min, max]`.
pub fn clamp(x: Fixed, min: Fixed, max: Fixed) -> (r: Fixed)
    ensures
        r@ == clamp_spec(x@, min@, max@),
{
    if x.lt(min) {
        min
    } else if max.lt(x) {
        max
    } else {
        x
    }
}

/// Relies on rand's `Rng::gen_range` over the half-open range `0..n`: it
/// returns a value of that range, drawn uniformly, and panics only when
/// the range is empty, which the precondition rules out.
#[verifier::external_body]
fn gen_below(n: u64) -> (r: u64)
    requires
        n > 0,
    ensures
        r < n,
{
    rand::Rng::gen_range(&mut rand::thread_rng(), 0..n)
}

/// Relies on rand's `random`: an arbitrary draw, used only as a seed, so
/// nothing is promised about it.
#[verifier::external_body]
fn gen_seed() -> u64 {
    rand::random()
}

/// A uniform fixed-point value in `[0, 1)`, from the process-wide
/// generator.
pub fn rand_float() -> (r: Fixed)
    ensures
        0 <= r@ < SCALE,
{
    let draw = gen_below(SCALE as u64);
    Fixed::new(draw as i64)
}

/// A uniform fixed-point value in `[min, max)`, from the process-wide
/// generator.  The range must be nonempty.
pub fn rand_float_between(min: Fixed, max: Fixed) -> (r: Fixed)
    requires
        min@ < max@,
    ensures
        min@ <= r@ < max@,
{
    let lo: i64 = min.raw();
    let hi: i64 = max.raw();
    let span: u64 = ((hi as i128) - (lo as i128)) as u64;
    let off = gen_below(span);
    Fixed::new(((lo as i128) + (off as i128)) as i64)
}

/// Multiplier of the linear-congruential step.
pub const LCG_MULTIPLIER: u64 = 6364136223846793005;

/// Increment of the linear-congruential step.
pub const LCG_INCREMENT: u64 = 1442695040888963407;

/// The generator state after one step.
#[verifier::opaque]
pub open spec fn prng_next(s: int) -> int {
    (s * LCG_MULTIPLIER + LCG_INCREMENT) % 0x10000000000000000
}

/// The mantissa in `[0, SCALE)` one step yields: the stepped state's high
/// half, reduced.
#[verifier::opaque]
pub open spec fn prng_out(s: int) -> int {
    (prng_next(s) / 0x100000000) % (SCALE as int)
}

/// A deterministic random source: a 64-bit linear-congruential generator,
/// passed explicitly wherever sampling happens so a render can be
/// reproduced from its seed.
#[derive(Clone, Copy, Debug)]
pub struct Prng {
    state: u64,
}

impl View for Prng {
    type V = int;

    closed spec fn view(&self) -> int {
        self.state as int
    }
}

impl Prng {
    /// A generator starting from `seed`.
    pub fn new(seed: u64) -> (r: Prng)
        ensures
            r@ == seed as int,
    {
        Prng { state: seed }
    }

    /// A generator seeded from the process-wide random source.
    pub fn from_entropy() -> Prng {
        Prng { state: gen_seed() }
    }

    /// Steps the generator and yields a fixed-point value in `[0, 1)`.
    pub fn next_unit(&mut self) -> (f: Fixed)
        ensures
            final(self)@ == prng_next(old(self)@),
            f@ == prng_out(old(self)@),
            0 <= f@ < SCALE,
    {
        proof {
            reveal(prng_next);
            reveal(prng_out);
            let s = self.state as int;
            assert((s * LCG_MULTIPLIER + LCG_INCREMENT) < 0x100000000000000000000000000000000)
                by (nonlinear_arith)
                requires
                    0 <= s < 0x10000000000000000;
        }
        let wide: u128 = (self.state as u128) * (LCG_MULTIPLIER as u128) + (LCG_INCREMENT as u128);
        self.state = (wide % 0x10000000000000000u128) as u64;
        let out: u64 = (self.state / 0x100000000) % (SCALE as u64);
        Fixed::new(out as i64)
    }
}

/// The component in `[-1, 1)` a unit draw maps to.
pub open spec fn symmetric_unit(u: int) -> int {
    fx_sub(fx_mul(u, 2 * SCALE), SCALE as int)
}

/// One rejection-sampling pass: what vector comes out and what state the
/// generator is left in, given `tries` remaining attempts.  Each attempt
/// draws three components in `[-1, 1)` and accepts the vector when its
/// squared length is below one; when every attempt is rejected, the zero
/// vector — inside the sphere — stands in.
pub open spec fn unit_sphere_rec(s: int, tries: nat) -> (V3, int)
    decreases tries,
{
    if tries == 0 {
        (V3 { x: 0, y: 0, z: 0 }, s)
    } else {
        let x = symmetric_unit(prng_out(s));
        let s1 = prng_next(s);
        let y = symmetric_unit(prng_out(s1));
        let s2 = prng_next(s1);
        let z = symmetric_unit(prng_out(s2));
        let s3 = prng_next(s2);
        let v = V3 { x, y, z };
        if v3_len_sq(v) < SCALE {
            (v, s3)
        } else {
            unit_sphere_rec(s3, (tries - 1) as nat)
        }
    }
}

/// How many rejection-sampling attempts a draw makes before settling for
/// the zero vector; with acceptance odds above one half per attempt, the
/// fallback is practically unreachable.
pub const UNIT_SPHERE_TRIES: u32 = 32;

/// A point inside the unit sphere, by rejection sampling from `rng`.
pub fn random_in_unit_sphere(rng: &mut Prng) -> (r: Vec3)
    ensures
        (r@, final(rng)@) == unit_sphere_rec(old(rng)@, UNIT_SPHERE_TRIES as nat),
        v3_len_sq(r@) < SCALE,
{
    unit_sphere_attempt(rng, UNIT_SPHERE_TRIES)
}

/// Rejection sampling with an explicit attempt budget.
fn unit_sphere_attempt(rng: &mut Prng, tries: u32) -> (r: Vec3)
    ensures
        (r@, final(rng)@) == unit_sphere_rec(old(rng)@, tries as nat),
        v3_len_sq(r@) < SCALE,
    decreases tries,
{
    if tries == 0 {
        Vec3::empty()
    } else {
        let two = Fixed::from_int(2);
        let one = Fixed::one();
        let x = rng.next_unit().mul(two).sub(one);
        let y = rng.next_unit().mul(two).sub(one);
        let z = rng.next_unit().mul(two).sub(one);
        let v = Vec3::new(x, y, z);
        if v.len_squared().lt(one) {
            v
        } else {
            unit_sphere_attempt(rng, tries - 1)
        }
    }
}

} // verus!
