use vstd::prelude::*;
use vstd::arithmetic::div_mod::{lemma_fundamental_div_mod, lemma_fundamental_div_mod_converse_div};
use vstd::arithmetic::mul::{
    lemma_mul_is_commutative, lemma_mul_is_distributive_add, lemma_mul_unary_negation,
};
use crate::arith::{lemma_floor, lemma_product_bound};
use crate::geometry::UNIT;

verus! {

/// The value nearest to `v` that a coordinate can hold.
pub open spec fn sat(v: int) -> int {
    if v < i64::MIN {
        i64::MIN as int
    } else if v > i64::MAX {
        i64::MAX as int
    } else {
        v
    }
}

/// Brings a value into the range of a coordinate.
pub fn clamp(v: i128) -> (r: i64)
    ensures
        r == sat(v as int),
{
    if v < i64::MIN as i128 {
        i64::MIN
    } else if v > i64::MAX as i128 {
        i64::MAX
    } else {
        v as i64
    }
}

/// The quotient of `n` by a positive `d`, rounded down.
pub fn floor_div(n: i128, d: i128) -> (q: i128)
    requires
        d > 0,
        n > i128::MIN,
    ensures
        q == (n as int) / (d as int),
{
    if n >= 0 {
        n / d
    } else {
        // n = -(below + 1): its quotient mirrors that of below.
        let below: i128 = -(n + 1);
        let quotient: i128 = below / d;
        proof {
            let rem = (below as int) % (d as int);
            lemma_fundamental_div_mod(below as int, d as int);
            lemma_floor(below as int, d as int);
            lemma_mul_is_distributive_add(d as int, -(quotient as int), -1);
            lemma_mul_unary_negation(d as int, quotient as int);
            lemma_mul_is_commutative(d as int, quotient as int);
            assert(n as int == d * (-quotient - 1) + (d - 1 - rem));
            lemma_fundamental_div_mod_converse_div(
                n as int,
                d as int,
                -quotient - 1,
                d as int - 1 - rem,
            );
        }
        -quotient - 1
    }
}

/// The largest number whose square is not above `n`.
pub open spec fn is_sqrt_of(r: int, n: int) -> bool {
    0 <= r && r * r <= n < (r + 1) * (r + 1)
}

/// The square root of `n`, rounded down.
pub fn isqrt(n: u128) -> (r: u64)
    ensures
        is_sqrt_of(r as int, n as int),
{
    let mut lo: u128 = 0;
    let mut hi: u128 = 0x1_0000_0000_0000_0000;
    proof {
        lemma_product_bound(0, 0, 0, 0);
        assert(0x1_0000_0000_0000_0000int * 0x1_0000_0000_0000_0000int
            == 0x1_0000_0000_0000_0000_0000_0000_0000_0000int);
    }
    while hi - lo > 1
        invariant
            0 <= lo < hi <= 0x1_0000_0000_0000_0000,
            lo * lo <= n < hi * hi,
        decreases hi - lo,
    {
        let mid: u128 = lo + (hi - lo) / 2;
        proof {
            lemma_product_bound(
                mid as int,
                0xffff_ffff_ffff_ffff,
                mid as int,
                0xffff_ffff_ffff_ffff,
            );
        }
        if mid * mid <= n {
            lo = mid;
        } else {
            hi = mid;
        }
    }
    lo as u64
}

/// A number with nine decimals: the count of its billionths. One whole is
/// `UNIT`. Coordinates, lengths and ratios are all numbers of this kind.
pub type Fixed = i64;

/// The sum, brought into range.
pub open spec fn spec_plus(a: int, b: int) -> int {
    sat(a + b)
}

/// The difference, brought into range.
pub open spec fn spec_minus(a: int, b: int) -> int {
    sat(a - b)
}

/// The sum of two products of whole numbers divided by a positive whole
/// number, rounded down and brought into range.
pub open spec fn spec_dot_over(a: int, b: int, c: int, d: int, den: int) -> int {
    sat((a * b + c * d) / den)
}

/// The product of two numbers, rounded down and brought into range.
pub open spec fn spec_times(a: int, b: int) -> int {
    spec_dot_over(a, b, 0, 0, UNIT as int)
}

/// The product `a * b` divided by `den`, rounded down and brought into range;
/// 0 when `den` is 0.
pub open spec fn spec_mul_div(a: int, b: int, den: int) -> int {
    if den > 0 {
        spec_dot_over(a, b, 0, 0, den)
    } else if den < 0 {
        spec_dot_over(-a, b, 0, 0, -den)
    } else {
        0
    }
}

/// The quotient of two numbers, rounded down and brought into range; 0 when
/// the divisor is 0.
pub open spec fn spec_over(a: int, b: int) -> int {
    spec_mul_div(a, UNIT as int, b)
}

/// The absolute value, brought into range.
pub open spec fn spec_magnitude(a: int) -> int {
    if a < 0 {
        sat(-a)
    } else {
        a
    }
}

/// The square root of a whole number that is not negative, rounded down.
pub open spec fn spec_isqrt(n: int) -> int {
    choose|r: int| is_sqrt_of(r, n)
}

/// There is one square root, rounded down, of each number that is not
/// negative.
pub proof fn lemma_isqrt_unique(r: int, n: int)
    requires
        is_sqrt_of(r, n),
    ensures
        spec_isqrt(n) == r,
{
    let q = spec_isqrt(n);
    assert(is_sqrt_of(q, n));
    if q < r {
        lemma_square_ordered(q + 1, r);
    } else if r < q {
        lemma_square_ordered(r + 1, q);
    }
}

/// Of two numbers that are not negative, the larger has the larger square.
pub proof fn lemma_square_ordered(a: int, b: int)
    requires
        0 <= a <= b,
    ensures
        a * a <= b * b,
{
    lemma_product_bound(a, b, a, b);
}

/// The length of the vector `(x, y)`: the root of the sum of the squares,
/// rounded down and brought into range.
pub open spec fn spec_hypot(x: int, y: int) -> int {
    sat(spec_isqrt(x * x + y * y))
}

/// The square root of a number, rounded down; 0 for a negative number.
pub open spec fn spec_sqrt(a: int) -> int {
    if a <= 0 {
        0
    } else {
        spec_isqrt(a * UNIT)
    }
}

pub fn plus(a: Fixed, b: Fixed) -> (r: Fixed)
    ensures
        r == spec_plus(a as int, b as int),
{
    clamp(a as i128 + b as i128)
}

pub fn minus(a: Fixed, b: Fixed) -> (r: Fixed)
    ensures
        r == spec_minus(a as int, b as int),
{
    clamp(a as i128 - b as i128)
}

pub fn magnitude(a: Fixed) -> (r: Fixed)
    ensures
        r == spec_magnitude(a as int),
        r >= 0,
{
    if a < 0 {
        clamp(-(a as i128))
    } else {
        a
    }
}

/// The product of two coordinates can be held as a whole number.
pub proof fn lemma_coordinate_product(a: i64, b: i64)
    ensures
        -0x3fff_ffff_ffff_ffff_8000_0000_0000_0000 <= a * b
            <= 0x4000_0000_0000_0000_0000_0000_0000_0000,
{
    let ma = spec_magnitude_wide(a as int);
    let mb = spec_magnitude_wide(b as int);
    lemma_mul_unary_negation(a as int, b as int);
    lemma_mul_unary_negation(-(a as int), b as int);
    lemma_mul_unary_negation(a as int, -(b as int));
    assert(0x8000_0000_0000_0000int * 0x8000_0000_0000_0000int
        == 0x4000_0000_0000_0000_0000_0000_0000_0000int);
    assert(0x7fff_ffff_ffff_ffffint * 0x8000_0000_0000_0000int
        == 0x3fff_ffff_ffff_ffff_8000_0000_0000_0000int);
    assert(0x8000_0000_0000_0000int * 0x7fff_ffff_ffff_ffffint
        == 0x3fff_ffff_ffff_ffff_8000_0000_0000_0000int);
    if a >= 0 && b < 0 {
        lemma_product_bound(ma, 0x7fff_ffff_ffff_ffff, mb, 0x8000_0000_0000_0000);
    } else if a < 0 && b >= 0 {
        lemma_product_bound(ma, 0x8000_0000_0000_0000, mb, 0x7fff_ffff_ffff_ffff);
    } else {
        lemma_product_bound(ma, 0x8000_0000_0000_0000, mb, 0x8000_0000_0000_0000);
    }
}

/// A square is never negative.
pub proof fn lemma_square_not_negative(a: int)
    ensures
        a * a >= 0,
{
    if a >= 0 {
        lemma_product_bound(a, a, a, a);
    } else {
        lemma_product_bound(-a, -a, -a, -a);
        lemma_mul_unary_negation(a, a);
        lemma_mul_unary_negation(-a, a);
    }
}

/// The product of two coordinates as a whole number.
pub fn wide_product(a: i64, b: i64) -> (r: i128)
    ensures
        r == a * b,
        -0x3fff_ffff_ffff_ffff_8000_0000_0000_0000 <= r <= 0x4000_0000_0000_0000_0000_0000_0000_0000,
{
    proof {
        lemma_coordinate_product(a, b);
    }
    (a as i128) * (b as i128)
}

/// The absolute value of a whole number.
pub open spec fn spec_magnitude_wide(a: int) -> int {
    if a < 0 {
        -a
    } else {
        a
    }
}

pub fn dot_over(a: i64, b: i64, c: i64, d: i64, den: i64) -> (r: Fixed)
    requires
        den > 0,
    ensures
        r == spec_dot_over(a as int, b as int, c as int, d as int, den as int),
{
    let first: i128 = wide_product(a, b);
    let second: i128 = wide_product(c, d);
    let top: i128 = 0x4000_0000_0000_0000_0000_0000_0000_0000;
    if first == top && second == top {
        // The one sum that cannot be held: it is far out of range anyway.
        proof {
            lemma_floor(first + second, den as int);
            lemma_product_bound(
                (first + second) / (den as int),
                (first + second) / (den as int),
                den as int,
                0x7fff_ffff_ffff_ffff,
            );
        }
        i64::MAX
    } else {
        clamp(floor_div(first + second, den as i128))
    }
}

pub fn times(a: Fixed, b: Fixed) -> (r: Fixed)
    ensures
        r == spec_times(a as int, b as int),
{
    proof {
        lemma_product_bound(0, 0, 0, 0);
    }
    dot_over(a, b, 0, 0, UNIT)
}

pub fn mul_div(a: Fixed, b: Fixed, den: Fixed) -> (r: Fixed)
    ensures
        r == spec_mul_div(a as int, b as int, den as int),
{
    proof {
        lemma_product_bound(0, 0, 0, 0);
    }
    if den > 0 {
        dot_over(a, b, 0, 0, den)
    } else if den < 0 {
        // Turn the signs round so that the divisor is positive.
        let product: i128 = -wide_product(a, b);
        proof {
            lemma_mul_unary_negation(a as int, b as int);
        }
        if den == i64::MIN {
            clamp(floor_div(product, 0x8000_0000_0000_0000))
        } else {
            clamp(floor_div(product, (-den) as i128))
        }
    } else {
        0
    }
}

pub fn over(a: Fixed, b: Fixed) -> (r: Fixed)
    ensures
        r == spec_over(a as int, b as int),
{
    mul_div(a, UNIT, b)
}

pub fn hypot(x: Fixed, y: Fixed) -> (r: Fixed)
    ensures
        r == spec_hypot(x as int, y as int),
        r >= 0,
{
    let xx: i128 = wide_product(x, x);
    let yy: i128 = wide_product(y, y);
    proof {
        lemma_mul_unary_negation(x as int, x as int);
        lemma_mul_unary_negation(-(x as int), x as int);
        lemma_mul_unary_negation(y as int, y as int);
        lemma_mul_unary_negation(-(y as int), y as int);
        let mx = spec_magnitude_wide(x as int);
        let my = spec_magnitude_wide(y as int);
        lemma_product_bound(mx, mx, mx, mx);
        lemma_product_bound(my, my, my, my);
        assert(xx >= 0 && yy >= 0);
    }
    let root: u64 = isqrt(xx as u128 + yy as u128);
    proof {
        lemma_isqrt_unique(root as int, x * x + y * y);
    }
    if root > i64::MAX as u64 {
        i64::MAX
    } else {
        root as i64
    }
}

pub fn sqrt(a: Fixed) -> (r: Fixed)
    ensures
        r == spec_sqrt(a as int),
        r >= 0,
{
    if a <= 0 {
        0
    } else {
        let scaled: i128 = wide_product(a, UNIT);
        let root: u64 = isqrt(scaled as u128);
        proof {
            lemma_product_bound(a as int, 0x7fff_ffff_ffff_ffff, UNIT as int, 1_000_000_000);
            lemma_isqrt_unique(root as int, a * UNIT);
            // The root of less than 2^93 is below 2^47.
            if root >= 0x8000_0000_0000 {
                lemma_square_ordered(0x8000_0000_0000, root as int);
                assert(0x8000_0000_0000int * 0x8000_0000_0000int
                    == 0x4000_0000_0000_0000_0000_0000int);
            }
        }
        root as i64
    }
}

} // verus!
