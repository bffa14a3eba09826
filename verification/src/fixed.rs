//! Saturating fixed-point numbers.
//!
//! A [`Fixed`] stores a quantity as an `i64` count of millionths
//! ([`SCALE`] units make one).  Arithmetic that would leave the `i64`
//! range saturates at the nearest representable extreme instead of
//! failing, so every operation is total and the whole rendering
//! pipeline stays a pure function of its inputs.
use vstd::prelude::*;

verus! {

/// Number of mantissa units in one whole unit.
pub const SCALE: i64 = 1_000_000;

/// A fixed-point number: the real value `m / SCALE`, stored as `m`.
#[derive(Clone, Copy, Debug, PartialEq, Eq, Structural)]
pub struct Fixed {
    m: i64,
}

impl View for Fixed {
    type V = int;

    closed spec fn view(&self) -> int {
        self.m as int
    }
}

/// Clamps a mathematical integer into the `i64` range.
pub open spec fn sat64(x: int) -> int {
    if x > i64::MAX {
        i64::MAX as int
    } else if x < i64::MIN {
        i64::MIN as int
    } else {
        x
    }
}

/// Division truncating toward zero, as machine division does.
pub open spec fn tdiv(n: int, d: int) -> int {
    if n >= 0 {
        n / d
    } else {
        -((-n) / d)
    }
}

/// Mantissa of the sum.
pub open spec fn fx_add(a: int, b: int) -> int {
    sat64(a + b)
}

/// Mantissa of the difference.
pub open spec fn fx_sub(a: int, b: int) -> int {
    sat64(a - b)
}

/// Mantissa of the negation.
pub open spec fn fx_neg(a: int) -> int {
    sat64(-a)
}

/// Mantissa of the product: the wide product rescaled, truncating toward zero.
pub open spec fn fx_mul(a: int, b: int) -> int {
    sat64(tdiv(a * b, SCALE as int))
}

/// Mantissa of the quotient.  A zero divisor saturates by the sign of the
/// dividend, standing in for the infinities a permissive numeric tower
/// would produce.
pub open spec fn fx_div(a: int, b: int) -> int {
    if b == 0 {
        if a > 0 {
            i64::MAX as int
        } else if a < 0 {
            i64::MIN as int
        } else {
            0
        }
    } else if b > 0 {
        sat64(tdiv(a * SCALE, b))
    } else {
        sat64(-tdiv(a * SCALE, -b))
    }
}

/// `r` is the integer square root of `x`: the greatest integer whose
/// square does not exceed `x`.
pub open spec fn is_isqrt(x: int, r: int) -> bool {
    0 <= r && r * r <= x && x < (r + 1) * (r + 1)
}

/// The integer square root.  [`lemma_isqrt_exists`] shows the chosen
/// value satisfies [`is_isqrt`] whenever `x` is nonnegative.
pub closed spec fn isqrt(x: int) -> int {
    choose|r: int| is_isqrt(x, r)
}

/// Mantissa of the square root: since the stored value is `a / SCALE`,
/// the root's mantissa is the integer square root of `a * SCALE`.
pub open spec fn fx_sqrt(a: int) -> int {
    isqrt(a * SCALE)
}

/// No two integers satisfy [`is_isqrt`] for the same `x`.
pub proof fn lemma_isqrt_unique(x: int, r1: int, r2: int)
    requires
        is_isqrt(x, r1),
        is_isqrt(x, r2),
    ensures
        r1 == r2,
{
    assert(r1 == r2) by (nonlinear_arith)
        requires
            is_isqrt(x, r1),
            is_isqrt(x, r2);
}

/// Every nonnegative integer has an integer square root, and [`isqrt`]
/// picks it.
pub proof fn lemma_isqrt_exists(x: int)
    requires
        x >= 0,
    ensures
        is_isqrt(x, isqrt(x)),
    decreases x,
{
    if x == 0 {
        assert(is_isqrt(0, 0));
    } else {
        lemma_isqrt_exists(x - 1);
        let r0 = isqrt(x - 1);
        if (r0 + 1) * (r0 + 1) <= x {
            assert(x - 1 < (r0 + 1) * (r0 + 1));
            assert(x == (r0 + 1) * (r0 + 1));
            assert((r0 + 1) * (r0 + 1) < (r0 + 2) * (r0 + 2)) by (nonlinear_arith)
                requires
                    r0 >= 0;
            assert(is_isqrt(x, r0 + 1));
        } else {
            assert(is_isqrt(x, r0));
        }
    }
}

/// The integer square root of a perfect square is its root.
pub proof fn lemma_isqrt_of_square(r: int)
    requires
        r >= 0,
    ensures
        isqrt(r * r) == r,
{
    assert(r * r < (r + 1) * (r + 1)) by (nonlinear_arith)
        requires
            r >= 0;
    assert(is_isqrt(r * r, r));
    assert(r * r >= 0) by (nonlinear_arith)
        requires
            r >= 0;
    lemma_isqrt_exists(r * r);
    lemma_isqrt_unique(r * r, isqrt(r * r), r);
}

/// Rescaling a whole number of units gives the mantissa back: the scale
/// cancels under truncating division.
pub proof fn lemma_tdiv_scale_cancel(x: int)
    ensures
        tdiv(x * SCALE, SCALE as int) == x,
{
    if x >= 0 {
        vstd::arithmetic::div_mod::lemma_div_by_multiple(x, SCALE as int);
    } else {
        assert(-(x * SCALE) == (-x) * SCALE);
        vstd::arithmetic::div_mod::lemma_div_by_multiple(-x, SCALE as int);
    }
}

/// Multiplying by one is the identity, up to saturation.
pub proof fn lemma_fx_mul_one(a: int)
    requires
        i64::MIN <= a <= i64::MAX,
    ensures
        fx_mul(a, SCALE as int) == a,
        fx_mul(SCALE as int, a) == a,
{
    lemma_tdiv_scale_cancel(a);
    assert(a * SCALE == SCALE * a);
}

/// Multiplying by minus one negates, up to saturation.
pub proof fn lemma_fx_mul_neg_one(a: int)
    requires
        i64::MIN <= a <= i64::MAX,
    ensures
        fx_mul(a, -(SCALE as int)) == sat64(-a),
        fx_mul(-(SCALE as int), a) == sat64(-a),
{
    lemma_tdiv_scale_cancel(-a);
    assert(a * -(SCALE as int) == (-a) * SCALE) by (nonlinear_arith);
    assert(-(SCALE as int) * a == (-a) * SCALE) by (nonlinear_arith);
}

/// Dividing by one is the identity, up to saturation.
pub proof fn lemma_fx_div_one(a: int)
    requires
        i64::MIN <= a <= i64::MAX,
    ensures
        fx_div(a, SCALE as int) == a,
{
    lemma_tdiv_scale_cancel(a);
}

/// A positive value divided by itself is one.
pub proof fn lemma_fx_div_self(a: int)
    requires
        0 < a <= i64::MAX,
    ensures
        fx_div(a, a) == SCALE,
{
    vstd::arithmetic::div_mod::lemma_div_by_multiple(SCALE as int, a);
    assert(a * SCALE == SCALE * a);
    assert(tdiv(a * SCALE, a) == SCALE);
}

/// Zero divided by anything positive is zero.
pub proof fn lemma_fx_div_zero(b: int)
    requires
        0 < b,
    ensures
        fx_div(0, b) == 0,
{
    vstd::arithmetic::div_mod::lemma_div_of0(b);
}

/// Truncating division by a positive divisor preserves order.
pub proof fn lemma_tdiv_ordered(n1: int, n2: int, d: int)
    requires
        n1 <= n2,
        d > 0,
    ensures
        tdiv(n1, d) <= tdiv(n2, d),
{
    if n1 >= 0 {
        vstd::arithmetic::div_mod::lemma_div_is_ordered(n1, n2, d);
    } else if n2 >= 0 {
        vstd::arithmetic::div_mod::lemma_div_pos_is_pos(n2, d);
        vstd::arithmetic::div_mod::lemma_div_pos_is_pos(-n1, d);
    } else {
        vstd::arithmetic::div_mod::lemma_div_is_ordered(-n2, -n1, d);
    }
}

/// Fixed-point division by a positive divisor preserves order.
pub proof fn lemma_fx_div_ordered(a1: int, a2: int, b: int)
    requires
        a1 <= a2,
        b > 0,
    ensures
        fx_div(a1, b) <= fx_div(a2, b),
{
    lemma_tdiv_ordered(a1 * SCALE, a2 * SCALE, b);
}

/// The square root of a nonnegative value is nonnegative.
pub proof fn lemma_fx_sqrt_nonneg(a: int)
    requires
        a >= 0,
    ensures
        fx_sqrt(a) >= 0,
{
    lemma_isqrt_exists(a * SCALE);
}

/// The product of two values in the `i64` range stays well inside the
/// `i128` range.
proof fn lemma_i64_prod_in_i128(a: int, b: int)
    requires
        i64::MIN <= a <= i64::MAX,
        i64::MIN <= b <= i64::MAX,
    ensures
        -0x40000000000000000000000000000000 <= a * b
            <= 0x40000000000000000000000000000000,
{
    assert(-0x40000000000000000000000000000000 <= a * b
        <= 0x40000000000000000000000000000000) by (nonlinear_arith)
        requires
            -0x8000000000000000 <= a <= 0x7fffffffffffffff,
            -0x8000000000000000 <= b <= 0x7fffffffffffffff;
}

impl Fixed {
    /// Wraps a raw mantissa.
    pub fn new(m: i64) -> (r: Fixed)
        ensures
            r@ == m as int,
    {
        Fixed { m }
    }

    /// The zero value.
    pub fn zero() -> (r: Fixed)
        ensures
            r@ == 0,
    {
        Fixed { m: 0 }
    }

    /// The unit value.
    pub fn one() -> (r: Fixed)
        ensures
            r@ == SCALE,
    {
        Fixed { m: SCALE }
    }

    /// The raw mantissa.
    pub fn raw(self) -> (r: i64)
        ensures
            r as int == self@,
    {
        self.m
    }

    /// The fixed-point number with value `i`.
    pub fn from_int(i: i64) -> (r: Fixed)
        requires
            i * SCALE <= i64::MAX,
            i64::MIN <= i * SCALE,
        ensures
            r@ == i * SCALE,
    {
        Fixed { m: i * SCALE }
    }

    /// Sum, saturating at the extremes.
    pub fn add(self, rhs: Fixed) -> (r: Fixed)
        ensures
            r@ == fx_add(self@, rhs@),
    {
        let wide: i128 = self.m as i128 + rhs.m as i128;
        Fixed { m: sat_i128(wide) }
    }

    /// Difference, saturating at the extremes.
    pub fn sub(self, rhs: Fixed) -> (r: Fixed)
        ensures
            r@ == fx_sub(self@, rhs@),
    {
        let wide: i128 = self.m as i128 - rhs.m as i128;
        Fixed { m: sat_i128(wide) }
    }

    /// Negation, saturating at the extremes.
    pub fn neg(self) -> (r: Fixed)
        ensures
            r@ == fx_neg(self@),
    {
        let wide: i128 = -(self.m as i128);
        Fixed { m: sat_i128(wide) }
    }

    /// Product, rescaled and truncated toward zero, saturating at the
    /// extremes.
    pub fn mul(self, rhs: Fixed) -> (r: Fixed)
        ensures
            r@ == fx_mul(self@, rhs@),
    {
        proof {
            lemma_i64_prod_in_i128(self.m as int, rhs.m as int);
        }
        let wide: i128 = (self.m as i128) * (rhs.m as i128);
        let q: i128 = tdiv_i128(wide, SCALE as i128);
        Fixed { m: sat_i128(q) }
    }

    /// Quotient, truncated toward zero, saturating at the extremes.
    /// Dividing by zero saturates by the sign of the dividend.
    pub fn div(self, rhs: Fixed) -> (r: Fixed)
        ensures
            r@ == fx_div(self@, rhs@),
    {
        if rhs.m == 0 {
            if self.m > 0 {
                Fixed { m: i64::MAX }
            } else if self.m < 0 {
                Fixed { m: i64::MIN }
            } else {
                Fixed { m: 0 }
            }
        } else {
            proof {
                lemma_i64_prod_in_i128(self.m as int, SCALE as int);
            }
            let n: i128 = (self.m as i128) * (SCALE as i128);
            if rhs.m > 0 {
                let q: i128 = tdiv_i128(n, rhs.m as i128);
                Fixed { m: sat_i128(q) }
            } else {
                let q: i128 = tdiv_i128(n, -(rhs.m as i128));
                Fixed { m: sat_i128(-q) }
            }
        }
    }

    /// Square root of a nonnegative value, rounded down to the nearest
    /// representable mantissa.
    pub fn sqrt(self) -> (r: Fixed)
        requires
            self@ >= 0,
        ensures
            r@ == fx_sqrt(self@),
            is_isqrt(self@ * SCALE, r@),
    {
        let x: u128 = (self.m as u128) * (SCALE as u128);
        let root: u64 = isqrt_u128(x);
        proof {
            lemma_isqrt_exists(x as int);
            lemma_isqrt_unique(x as int, isqrt(x as int), root as int);
            assert((root as int) * (root as int) <= x < 0x1000000000000000000000);
            assert(root < 0x8000_0000_0000_0000) by (nonlinear_arith)
                requires
                    (root as int) * (root as int) < 0x1000000000000000000000;
        }
        Fixed { m: root as i64 }
    }

    /// Strict order on the stored values.
    pub fn lt(self, rhs: Fixed) -> (r: bool)
        ensures
            r == (self@ < rhs@),
    {
        self.m < rhs.m
    }

    /// Non-strict order on the stored values.
    pub fn le(self, rhs: Fixed) -> (r: bool)
        ensures
            r == (self@ <= rhs@),
    {
        self.m <= rhs.m
    }
}

/// Truncating division on wide intermediates, for a positive divisor.
fn tdiv_i128(n: i128, d: i128) -> (q: i128)
    requires
        d > 0,
        n > i128::MIN,
    ensures
        q == tdiv(n as int, d as int),
{
    if n >= 0 {
        let q: u128 = (n as u128) / (d as u128);
        q as i128
    } else {
        let m: u128 = (-n) as u128;
        let q: u128 = m / (d as u128);
        proof {
            assert(q <= m) by (nonlinear_arith)
                requires
                    q == m as int / d as int,
                    d >= 1,
                    m >= 0;
        }
        -(q as i128)
    }
}

/// Integer square root by bisection.
fn isqrt_u128(x: u128) -> (r: u64)
    requires
        x < 0x1000000000000000000000,
    ensures
        is_isqrt(x as int, r as int),
{
    let mut lo: u64 = 0;
    let mut hi: u64 = 0x40000000000;
    proof {
        assert((hi as int) * (hi as int) == 0x1000000000000000000000);
    }
    while hi - lo > 1
        invariant
            lo < hi,
            hi <= 0x40000000000,
            (lo as int) * (lo as int) <= x as int,
            (x as int) < (hi as int) * (hi as int),
        decreases hi - lo,
    {
        let mid: u64 = lo + (hi - lo) / 2;
        proof {
            assert((mid as int) * (mid as int) <= 0x1000000000000000000000)
                by (nonlinear_arith)
                requires
                    0 <= mid <= 0x40000000000;
        }
        let msq: u128 = (mid as u128) * (mid as u128);
        if msq <= x {
            lo = mid;
        } else {
            hi = mid;
        }
    }
    lo
}

/// Clamps a wide intermediate into the `i64` range.
fn sat_i128(w: i128) -> (r: i64)
    ensures
        r as int == sat64(w as int),
{
    if w > i64::MAX as i128 {
        i64::MAX
    } else if w < i64::MIN as i128 {
        i64::MIN
    } else {
        w as i64
    }
}

} // verus!
