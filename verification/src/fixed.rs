//! Signed fixed-point numbers with 24 fractional bits and saturating arithmetic.
//!
//! Every quantity of the simulation (a coordinate, a velocity component, a
//! radius, a time step) is a [`Fixed`]. Its view is the number of raw units it
//! holds, a mathematical integer; the real number it stands for is that integer
//! divided by [`ONE`]. All contracts of the crate are stated over raw units.

use vstd::prelude::*;

verus! {

/// Raw units in the value one: two to the power 24.
pub const ONE: i64 = 16_777_216;

/// Largest magnitude, in raw units, that a [`Fixed`] holds: two to the power 40.
pub const LIMIT: i64 = 1_099_511_627_776;

/// Whether `x` raw units fit in a [`Fixed`].
pub open spec fn in_range(x: int) -> bool {
    -LIMIT <= x <= LIMIT
}

/// The value in range that is nearest to `x`.
pub open spec fn clamp(x: int) -> int {
    if x < -LIMIT {
        -(LIMIT as int)
    } else if x > LIMIT {
        LIMIT as int
    } else {
        x
    }
}

/// The quotient of `a` by a positive `b`, rounded towards zero.
pub open spec fn trunc_div(a: int, b: int) -> int
    recommends
        b > 0,
{
    if a >= 0 {
        a / b
    } else {
        -((-a) / b)
    }
}

/// The magnitude of `a`.
pub open spec fn magnitude(a: int) -> int {
    if a < 0 {
        -a
    } else {
        a
    }
}

/// Saturating sum.
pub open spec fn fx_add(a: int, b: int) -> int {
    clamp(a + b)
}

/// Saturating difference.
pub open spec fn fx_sub(a: int, b: int) -> int {
    clamp(a - b)
}

/// Saturating product of two fixed-point values, rounded towards zero.
pub open spec fn fx_mul(a: int, b: int) -> int {
    clamp(trunc_div(a * b, ONE as int))
}

/// Half of `a`, rounded towards zero.
pub open spec fn fx_half(a: int) -> int {
    trunc_div(a, 2)
}

/// Whether `r` is the square root of `n`, rounded down.
pub open spec fn is_floor_sqrt(n: int, r: int) -> bool {
    0 <= r && r * r <= n < (r + 1) * (r + 1)
}

/// The square root of a non-negative `n`, rounded down.
pub open spec fn floor_sqrt(n: int) -> int {
    choose|r: int| is_floor_sqrt(n, r)
}

/// The square root of a non-negative fixed-point value, rounded down to a raw unit.
pub open spec fn fx_sqrt(a: int) -> int {
    floor_sqrt(a * ONE)
}

/// Squares grow with their non-negative argument.
pub proof fn lemma_square_monotonic(a: int, b: int)
    requires
        0 <= a <= b,
    ensures
        a * a <= b * b,
{
    assert(a * a <= b * b) by (nonlinear_arith)
        requires
            0 <= a <= b,
    ;
}

/// A number has at most one rounded-down square root.
pub proof fn lemma_floor_sqrt_unique(n: int, r1: int, r2: int)
    requires
        is_floor_sqrt(n, r1),
        is_floor_sqrt(n, r2),
    ensures
        r1 == r2,
{
    if r1 < r2 {
        lemma_square_monotonic(r1 + 1, r2);
    } else if r2 < r1 {
        lemma_square_monotonic(r2 + 1, r1);
    }
}

/// Every non-negative number has a rounded-down square root, and
/// [`floor_sqrt`] is it.
pub proof fn lemma_floor_sqrt(n: int)
    requires
        n >= 0,
    ensures
        is_floor_sqrt(n, floor_sqrt(n)),
    decreases n,
{
    if n == 0 {
        assert(is_floor_sqrt(0, 0));
    } else {
        lemma_floor_sqrt(n - 1);
        let r = floor_sqrt(n - 1);
        if (r + 1) * (r + 1) <= n {
            assert((r + 1) * (r + 1) < (r + 2) * (r + 2)) by (nonlinear_arith)
                requires
                    r >= 0,
            ;
            assert(is_floor_sqrt(n, r + 1));
        } else {
            assert(is_floor_sqrt(n, r));
        }
    }
}

/// Whatever passes [`is_floor_sqrt`] is the value of [`floor_sqrt`].
pub proof fn lemma_floor_sqrt_is(n: int, r: int)
    requires
        is_floor_sqrt(n, r),
    ensures
        floor_sqrt(n) == r,
{
    let chosen = floor_sqrt(n);
    assert(is_floor_sqrt(n, chosen));
    lemma_floor_sqrt_unique(n, r, chosen);
}

/// The rounded-down square root of a perfect square is its non-negative root.
pub proof fn lemma_floor_sqrt_of_square(r: int)
    requires
        0 <= r,
    ensures
        floor_sqrt(r * r) == r,
{
    assert(r * r < (r + 1) * (r + 1)) by (nonlinear_arith)
        requires
            0 <= r,
    ;
    lemma_floor_sqrt_is(r * r, r);
}

/// The square root of `n`, rounded down.
pub fn integer_sqrt(n: u128) -> (r: u128)
    ensures
        is_floor_sqrt(n as int, r as int),
        r as int == floor_sqrt(n as int),
        r < 0x1_0000_0000_0000_0000,
{
    let mut lo: u128 = 0;
    let mut hi: u128 = 0x1_0000_0000_0000_0000;
    assert(n < hi * hi) by {
        assert(0x1_0000_0000_0000_0000int * 0x1_0000_0000_0000_0000int
            == 0x1_0000_0000_0000_0000_0000_0000_0000_0000int);
    }
    while hi - lo > 1
        invariant
            lo < hi <= 0x1_0000_0000_0000_0000,
            lo * lo <= n,
            n < hi * hi,
        decreases hi - lo,
    {
        let mid: u128 = lo + (hi - lo) / 2;
        assert(mid * mid <= 0xffff_ffff_ffff_ffff * 0xffff_ffff_ffff_ffff) by {
            lemma_square_monotonic(mid as int, 0xffff_ffff_ffff_ffff);
        }
        assert(0xffff_ffff_ffff_ffffint * 0xffff_ffff_ffff_ffffint
            < 0x1_0000_0000_0000_0000_0000_0000_0000_0000int);
        if mid * mid <= n {
            lo = mid;
        } else {
            hi = mid;
        }
    }
    proof {
        lemma_floor_sqrt_is(n as int, lo as int);
    }
    lo
}

/// A fixed-point number: `raw` units of one part in [`ONE`], within [`LIMIT`]
/// of zero on either side.
#[derive(Clone, Copy, Debug, PartialEq, Eq)]
pub struct Fixed {
    raw: i64,
}

impl View for Fixed {
    type V = int;

    /// The raw units held.
    closed spec fn view(&self) -> int {
        self.raw as int
    }
}

impl Fixed {
    /// Every value stays within [`LIMIT`] of zero.
    #[verifier::type_invariant]
    pub open spec fn bounded(self) -> bool {
        in_range(self@)
    }

    /// The value of `raw` units, saturated to the range of the type.
    pub fn from_raw(raw: i64) -> (r: Fixed)
        ensures
            r@ == clamp(raw as int),
    {
        if raw < -LIMIT {
            Fixed { raw: -LIMIT }
        } else if raw > LIMIT {
            Fixed { raw: LIMIT }
        } else {
            Fixed { raw }
        }
    }

    /// The value of `wide` raw units, saturated to the range of the type.
    pub fn saturating(wide: i128) -> (r: Fixed)
        ensures
            r@ == clamp(wide as int),
    {
        if wide < -(LIMIT as i128) {
            Fixed { raw: -LIMIT }
        } else if wide > LIMIT as i128 {
            Fixed { raw: LIMIT }
        } else {
            Fixed { raw: wide as i64 }
        }
    }

    /// Zero.
    pub fn zero() -> (r: Fixed)
        ensures
            r@ == 0,
    {
        Fixed { raw: 0 }
    }

    /// One.
    pub fn one() -> (r: Fixed)
        ensures
            r@ == ONE,
    {
        Fixed { raw: ONE }
    }

    /// The raw units held.
    pub fn raw(self) -> (r: i64)
        ensures
            r == self@,
            in_range(r as int),
    {
        proof {
            use_type_invariant(&self);
        }
        self.raw
    }

    /// The value with its sign changed.
    pub fn neg(self) -> (r: Fixed)
        ensures
            r@ == -self@,
    {
        proof {
            use_type_invariant(&self);
        }
        Fixed { raw: -self.raw }
    }

    /// Saturating sum.
    pub fn add(self, other: Fixed) -> (r: Fixed)
        ensures
            r@ == fx_add(self@, other@),
    {
        proof {
            use_type_invariant(&self);
            use_type_invariant(&other);
        }
        Fixed::from_raw(self.raw + other.raw)
    }

    /// Saturating difference.
    pub fn sub(self, other: Fixed) -> (r: Fixed)
        ensures
            r@ == fx_sub(self@, other@),
    {
        proof {
            use_type_invariant(&self);
            use_type_invariant(&other);
        }
        Fixed::from_raw(self.raw - other.raw)
    }

    /// Saturating product, rounded towards zero.
    pub fn mul(self, other: Fixed) -> (r: Fixed)
        ensures
            r@ == fx_mul(self@, other@),
    {
        let product: i128 = wide_product(self.raw(), other.raw());
        Fixed::saturating(product / (ONE as i128))
    }

    /// The square root of a non-negative value, rounded down to a raw unit.
    pub fn sqrt(self) -> (r: Fixed)
        requires
            self@ >= 0,
        ensures
            r@ == fx_sqrt(self@),
    {
        proof {
            use_type_invariant(&self);
        }
        let scaled: u128 = (self.raw as u128) * (ONE as u128);
        let root: u128 = integer_sqrt(scaled);
        proof {
            // scaled <= LIMIT * ONE = 2^64, so its root is at most 2^32.
            if root > 0x1_0000_0000 {
                lemma_square_monotonic(0x1_0000_0001, root as int);
                assert(0x1_0000_0001int * 0x1_0000_0001int > 0x1_0000_0000_0000_0000int);
            }
        }
        Fixed { raw: root as i64 }
    }
}

/// Rounding a quotient towards zero does not take it past the dividend.
pub proof fn lemma_trunc_div_bound(a: int, b: int)
    requires
        b > 0,
    ensures
        magnitude(trunc_div(a, b)) <= magnitude(a),
        a >= 0 ==> trunc_div(a, b) >= 0,
        a <= 0 ==> trunc_div(a, b) <= 0,
{
    let m = magnitude(a);
    assert(0 <= m / b <= m) by (nonlinear_arith)
        requires
            m >= 0,
            b > 0,
    ;
}

/// The exact product of two numbers of at most twice [`LIMIT`] in magnitude:
/// raw values, and sums and differences of two of them.
pub(crate) fn wide_product(a: i64, b: i64) -> (p: i128)
    requires
        -2 * LIMIT <= a <= 2 * LIMIT,
        -2 * LIMIT <= b <= 2 * LIMIT,
    ensures
        p == a * b,
        -0x4_0000_0000_0000_0000_0000 <= p <= 0x4_0000_0000_0000_0000_0000,
        in_range(a as int) && in_range(b as int) ==> -0x1_0000_0000_0000_0000_0000 <= p
            <= 0x1_0000_0000_0000_0000_0000,
{
    if -LIMIT <= a && a <= LIMIT && -LIMIT <= b && b <= LIMIT {
        assert(-0x1_0000_0000_0000_0000_0000 <= a * b <= 0x1_0000_0000_0000_0000_0000)
            by (nonlinear_arith)
            requires
                -0x100_0000_0000 <= a <= 0x100_0000_0000,
                -0x100_0000_0000 <= b <= 0x100_0000_0000,
        ;
    }
    assert(-0x4_0000_0000_0000_0000_0000 <= a * b <= 0x4_0000_0000_0000_0000_0000)
        by (nonlinear_arith)
        requires
            -0x200_0000_0000 <= a <= 0x200_0000_0000,
            -0x200_0000_0000 <= b <= 0x200_0000_0000,
    ;
    (a as i128) * (b as i128)
}

} // verus!
