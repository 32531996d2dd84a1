use vstd::prelude::*;
use vstd::arithmetic::div_mod::{lemma_fundamental_div_mod, lemma_mod_bound};
use vstd::arithmetic::mul::{
    lemma_mul_is_associative, lemma_mul_is_commutative, lemma_mul_is_distributive_add_other_way,
    lemma_mul_unary_negation,
};
use crate::arith::{
    lemma_floor, lemma_product_bound, lemma_quotient_in_parts, lemma_quotient_ordered,
};
use crate::fixed::{
    clamp, floor_div, isqrt, lemma_isqrt_unique, lemma_square_ordered, sat, spec_isqrt, Fixed,
};
use crate::geometry::UNIT;

verus! {

/// `UNIT` squared: the scale of the weights of a quadratic curve's points.
pub const UNIT_SQUARED: i64 = 1_000_000_000_000_000_000;

/// `UNIT` cubed: the scale of the weights of a cubic curve's points.
pub const UNIT_CUBED: i128 = 1_000_000_000_000_000_000_000_000_000;

/// The weights of the four points of a cubic curve at the parameter `t`, in
/// units of which `UNIT_CUBED` make one: `(1 - t)^3`, `3 t (1 - t)^2`,
/// `3 t^2 (1 - t)` and `t^3`.
pub open spec fn spec_cubic_weights(t: int) -> (int, int, int, int) {
    let u = UNIT - t;
    (u * u * u, 3 * t * u * u, 3 * t * t * u, t * t * t)
}

/// One coordinate of the point of a cubic curve at the parameter `t`: the
/// coordinates of the four points, each with its weight, summed up and
/// rounded down once.
pub open spec fn spec_cubic_at(a0: int, c0: int, c1: int, a1: int, t: int) -> int {
    let w = spec_cubic_weights(t);
    sat((a0 * w.0 + c0 * w.1 + c1 * w.2 + a1 * w.3) / (UNIT_CUBED as int))
}

/// One coordinate of the point of a quadratic curve at the parameter `t`:
/// the three points with the weights `(1 - t)^2`, `2 t (1 - t)` and `t^2`,
/// summed up and rounded down once.
pub open spec fn spec_quadratic_at(p0: int, p1: int, p2: int, t: int) -> int {
    let u = UNIT - t;
    sat((p0 * (u * u) + p1 * (2 * t * u) + p2 * (t * t)) / (UNIT_SQUARED as int))
}

/// The weights at `t` are those at `1 - t` in reverse order.
pub proof fn lemma_weights_mirror(t: int)
    requires
        0 <= t <= UNIT,
    ensures
        spec_cubic_weights(UNIT - t) == (
            spec_cubic_weights(t).3,
            spec_cubic_weights(t).2,
            spec_cubic_weights(t).1,
            spec_cubic_weights(t).0,
        ),
{
    let u = UNIT - t;
    assert(UNIT - u == t);
    assert(3 * u * t * t == 3 * t * t * u) by {
        vstd::arithmetic::mul::lemma_mul_is_commutative(3 * u, t);
        vstd::arithmetic::mul::lemma_mul_is_associative(t, 3, u);
        vstd::arithmetic::mul::lemma_mul_is_commutative(t, 3);
        vstd::arithmetic::mul::lemma_mul_is_associative(3, t, u);
        vstd::arithmetic::mul::lemma_mul_is_commutative(3 * t * u, t);
        vstd::arithmetic::mul::lemma_mul_is_associative(t, 3 * t, u);
        vstd::arithmetic::mul::lemma_mul_is_associative(t, 3, t);
        vstd::arithmetic::mul::lemma_mul_is_associative(3, t, t);
    }
    assert(3 * u * u * t == 3 * t * u * u) by {
        vstd::arithmetic::mul::lemma_mul_is_commutative(3 * u * u, t);
        vstd::arithmetic::mul::lemma_mul_is_associative(3, u, u);
        vstd::arithmetic::mul::lemma_mul_is_associative(t, 3, u * u);
        vstd::arithmetic::mul::lemma_mul_is_commutative(t, 3);
        vstd::arithmetic::mul::lemma_mul_is_associative(3 * t, u, u);
    }
}

/// A coordinate of the reversed curve at `t` is that of the curve at `1 - t`.
pub proof fn lemma_cubic_at_mirror(a0: int, c0: int, c1: int, a1: int, t: int)
    requires
        0 <= t <= UNIT,
    ensures
        spec_cubic_at(a1, c1, c0, a0, t) == spec_cubic_at(a0, c0, c1, a1, UNIT - t),
{
    lemma_weights_mirror(t);
}

/// The four weights at `t`, with their bounds.
fn cubic_weights(t: Fixed) -> (w: (i128, i128, i128, i128))
    requires
        0 <= t <= UNIT,
    ensures
        (w.0 as int, w.1 as int, w.2 as int, w.3 as int) == spec_cubic_weights(t as int),
        0 <= w.0 <= UNIT_CUBED,
        0 <= w.1 <= 3 * UNIT_CUBED,
        0 <= w.2 <= 3 * UNIT_CUBED,
        0 <= w.3 <= UNIT_CUBED,
{
    let unit: i128 = UNIT as i128;
    let t: i128 = t as i128;
    let u: i128 = unit - t;
    proof {
        lemma_product_bound(u as int, 1_000_000_000, u as int, 1_000_000_000);
        lemma_product_bound(t as int, 1_000_000_000, u as int, 1_000_000_000);
        lemma_product_bound(t as int, 1_000_000_000, t as int, 1_000_000_000);
        lemma_product_bound(u * u, 1_000_000_000_000_000_000, u as int, 1_000_000_000);
        lemma_product_bound(3 * t, 3_000_000_000, u as int, 1_000_000_000);
        lemma_product_bound(3 * t * u, 3_000_000_000_000_000_000, u as int, 1_000_000_000);
        lemma_product_bound(3 * t, 3_000_000_000, t as int, 1_000_000_000);
        lemma_product_bound(3 * t * t, 3_000_000_000_000_000_000, u as int, 1_000_000_000);
        lemma_product_bound(t * t, 1_000_000_000_000_000_000, t as int, 1_000_000_000);
    }
    (u * u * u, 3 * t * u * u, 3 * t * t * u, t * t * t)
}

/// A coordinate times a weight, in two parts: the product is `UNIT` times
/// the first part plus the second. The coordinate is taken apart into its
/// whole units and the rest, so that neither part leaves the range of the
/// numbers it is held in.
fn weighted_parts(coordinate: Fixed, weight: i128) -> (r: (i128, i128))
    requires
        0 <= weight <= 3 * UNIT_CUBED,
    ensures
        coordinate * weight == UNIT * r.0 + r.1,
        -27_670_116_111_000_000_000_000_000_000_000_000_000 <= r.0
            <= 27_670_116_111_000_000_000_000_000_000_000_000_000,
        0 <= r.1 <= 2_999_999_997_000_000_000_000_000_000_000_000_000,
{
    let unit: i128 = 1_000_000_000;
    let whole: i128 = floor_div(coordinate as i128, unit);
    let rest: i128 = coordinate as i128 - whole * unit;
    proof {
        let c = coordinate as int;
        let w = weight as int;
        lemma_fundamental_div_mod(c, 1_000_000_000);
        lemma_mod_bound(c, 1_000_000_000);
        lemma_mul_is_commutative(whole as int, 1_000_000_000);
        assert(rest == c % 1_000_000_000);
        lemma_quotient_ordered(c, 0x7fff_ffff_ffff_ffff, 1_000_000_000);
        lemma_quotient_ordered(-0x8000_0000_0000_0000, c, 1_000_000_000);
        assert(0x7fff_ffff_ffff_ffffint / 1_000_000_000 == 9_223_372_036);
        assert((-0x8000_0000_0000_0000int) / 1_000_000_000 == -9_223_372_037);
        // The two parts stay in range.
        lemma_product_bound(rest as int, 999_999_999, w, 3_000_000_000_000_000_000_000_000_000);
        if whole >= 0 {
            lemma_product_bound(
                whole as int,
                9_223_372_037,
                w,
                3_000_000_000_000_000_000_000_000_000,
            );
        } else {
            lemma_product_bound(
                -(whole as int),
                9_223_372_037,
                w,
                3_000_000_000_000_000_000_000_000_000,
            );
            lemma_mul_unary_negation(whole as int, w);
        }
        assert(9_223_372_037int * 3_000_000_000_000_000_000_000_000_000int
            == 27_670_116_111_000_000_000_000_000_000_000_000_000int);
        assert(999_999_999int * 3_000_000_000_000_000_000_000_000_000int
            == 2_999_999_997_000_000_000_000_000_000_000_000_000int);
        // The product in its two parts.
        assert(c == 1_000_000_000 * whole + rest);
        lemma_mul_is_distributive_add_other_way(w, 1_000_000_000 * whole, rest as int);
        lemma_mul_is_associative(1_000_000_000, whole as int, w);
    }
    (whole * weight, rest * weight)
}

/// A coordinate times a weight, as a whole number.
fn weighted(coordinate: Fixed, weight: i128) -> (r: i128)
    requires
        0 <= weight <= 3 * UNIT_SQUARED,
    ensures
        r == coordinate * weight,
        -27_670_116_110_564_327_424_000_000_000_000_000_000 <= r <= 27_670_116_110_564_327_424_000_000_000_000_000_000,
{
    proof {
        if coordinate >= 0 {
            lemma_product_bound(
                coordinate as int,
                0x8000_0000_0000_0000,
                weight as int,
                3_000_000_000_000_000_000,
            );
        } else {
            lemma_product_bound(
                -(coordinate as int),
                0x8000_0000_0000_0000,
                weight as int,
                3_000_000_000_000_000_000,
            );
            vstd::arithmetic::mul::lemma_mul_unary_negation(coordinate as int, weight as int);
        }
        assert(0x8000_0000_0000_0000int * 3_000_000_000_000_000_000int
            == 27_670_116_110_564_327_424_000_000_000_000_000_000int);
    }
    (coordinate as i128) * weight
}

/// One coordinate of the point of a cubic curve at the parameter `t`.
pub fn cubic_at(a0: Fixed, c0: Fixed, c1: Fixed, a1: Fixed, t: Fixed) -> (r: Fixed)
    requires
        0 <= t <= UNIT,
    ensures
        r == spec_cubic_at(a0 as int, c0 as int, c1 as int, a1 as int, t as int),
{
    let w = cubic_weights(t);
    let first = weighted_parts(a0, w.0);
    let second = weighted_parts(c0, w.1);
    let third = weighted_parts(c1, w.2);
    let fourth = weighted_parts(a1, w.3);
    let high: i128 = first.0 + second.0 + third.0 + fourth.0;
    let low: i128 = first.1 + second.1 + third.1 + fourth.1;
    let unit: i128 = 1_000_000_000;
    proof {
        let total = a0 * w.0 + c0 * w.1 + c1 * w.2 + a1 * w.3;
        assert(total == 1_000_000_000 * high + low);
        lemma_quotient_in_parts(total, high as int, low as int, 1_000_000_000, UNIT_SQUARED as int);
        assert(1_000_000_000 * (UNIT_SQUARED as int) == UNIT_CUBED);
        lemma_floor(low as int, 1_000_000_000);
    }
    clamp(floor_div(high + low / unit, UNIT_SQUARED as i128))
}

/// One coordinate of the point of a quadratic curve at the parameter `t`.
pub fn quadratic_at(p0: Fixed, p1: Fixed, p2: Fixed, t: Fixed) -> (r: Fixed)
    requires
        0 <= t <= UNIT,
    ensures
        r == spec_quadratic_at(p0 as int, p1 as int, p2 as int, t as int),
{
    let unit: i128 = UNIT as i128;
    let t: i128 = t as i128;
    let u: i128 = unit - t;
    proof {
        lemma_product_bound(u as int, 1_000_000_000, u as int, 1_000_000_000);
        lemma_product_bound(2 * t, 2_000_000_000, u as int, 1_000_000_000);
        lemma_product_bound(t as int, 1_000_000_000, t as int, 1_000_000_000);
    }
    let sum: i128 = weighted(p0, u * u) + weighted(p1, 2 * t * u) + weighted(p2, t * t);
    clamp(floor_div(sum, UNIT_SQUARED as i128))
}

/// Coordinates whose combinations stay below this bound have their extent
/// worked out exactly.
pub const EXACT_LIMIT: i128 = 0x1000_0000_0000_0000;

/// The extent `(min, max)` widened so that it holds `value`.
pub open spec fn spec_widened(extent: (int, int), value: int) -> (int, int) {
    (
        if value < extent.0 {
            value
        } else {
            extent.0
        },
        if value > extent.1 {
            value
        } else {
            extent.1
        },
    )
}

/// The extent widened by the point of the curve at the parameter `t`, if
/// that is a parameter of the curve at all.
pub open spec fn spec_widened_at(
    extent: (int, int),
    a0: int,
    c0: int,
    c1: int,
    a1: int,
    t: int,
) -> (int, int) {
    if 0 <= t <= UNIT {
        spec_widened(extent, spec_cubic_at(a0, c0, c1, a1, t))
    } else {
        extent
    }
}

/// A quotient rounded down, whatever the sign of the divisor, which is not 0.
pub open spec fn spec_signed_div(n: int, d: int) -> int {
    if d > 0 {
        n / d
    } else {
        (-n) / (-d)
    }
}

/// The extent of the two anchors.
pub open spec fn spec_anchor_extent(a0: int, a1: int) -> (int, int) {
    (
        if a0 <= a1 {
            a0
        } else {
            a1
        },
        if a0 >= a1 {
            a0
        } else {
            a1
        },
    )
}

/// The extent of the anchors widened by the turning point of a curve whose
/// derivative counts as linear: `b t + c`, with the root `-c / b`.
pub open spec fn spec_linear_extent(a0: int, c0: int, c1: int, a1: int, b: int, c: int) -> (int, int) {
    let anchors = spec_anchor_extent(a0, a1);
    if b != 0 {
        spec_widened_at(anchors, a0, c0, c1, a1, spec_signed_div(-c * UNIT, b))
    } else {
        anchors
    }
}

/// The extent of the anchors widened by the turning points of a curve with
/// the derivative `a t^2 + b t + c`: its roots `(-b + r) / 2a` and
/// `(-b - r) / 2a`, where `r` is the root of the discriminant `b^2 - 4 a c`,
/// if that is not negative.
pub open spec fn spec_quadratic_extent(
    a0: int,
    c0: int,
    c1: int,
    a1: int,
    a: int,
    b: int,
    c: int,
) -> (int, int) {
    let anchors = spec_anchor_extent(a0, a1);
    let discriminant = b * b - 4 * (a * c);
    if discriminant >= 0 {
        let root = spec_isqrt(discriminant);
        let first = spec_widened_at(
            anchors,
            a0,
            c0,
            c1,
            a1,
            spec_signed_div((-b + root) * UNIT, 2 * a),
        );
        spec_widened_at(first, a0, c0, c1, a1, spec_signed_div((-b - root) * UNIT, 2 * a))
    } else {
        anchors
    }
}

/// The extent of a cubic curve along one axis: the least and the greatest
/// coordinate that the curve reaches.
///
/// The extent of the two anchors is widened by the points at which the curve
/// turns round: the roots of its derivative, `a t^2 + b t + c` with
/// `a = a1 - 3 c1 + 3 c0 - a0`, `b = 2 a0 - 4 c0 + 2 c1` and `c = c0 - a0`.
/// With `a` nearer to 0 than `DISTANCE_EPSILON` the derivative counts as
/// linear. Where `a`, `b` or `c` is beyond `EXACT_LIMIT` the extent of all
/// four points stands in.
#[verifier::opaque]
pub open spec fn spec_axis_extent(a0: int, c0: int, c1: int, a1: int) -> (int, int) {
    let a = a1 - 3 * c1 + 3 * c0 - a0;
    let b = 2 * a0 - 4 * c0 + 2 * c1;
    let c = c0 - a0;
    if !(-EXACT_LIMIT < a < EXACT_LIMIT && -EXACT_LIMIT < b < EXACT_LIMIT && -EXACT_LIMIT < c
        < EXACT_LIMIT) {
        spec_widened(spec_widened(spec_anchor_extent(a0, a1), c0), c1)
    } else if -100_000 < a < 100_000 {
        spec_linear_extent(a0, c0, c1, a1, b, c)
    } else {
        spec_quadratic_extent(a0, c0, c1, a1, a, b, c)
    }
}

/// The extent along an axis holds both anchors.
pub proof fn lemma_axis_extent_holds_anchors(a0: int, c0: int, c1: int, a1: int)
    ensures
        spec_axis_extent(a0, c0, c1, a1).0 <= a0 <= spec_axis_extent(a0, c0, c1, a1).1,
        spec_axis_extent(a0, c0, c1, a1).0 <= a1 <= spec_axis_extent(a0, c0, c1, a1).1,
{
    reveal(spec_axis_extent);
}

/// The extent of a curve between coordinates is made of coordinates.
pub proof fn lemma_axis_extent_in_range(a0: Fixed, c0: Fixed, c1: Fixed, a1: Fixed)
    ensures
        i64::MIN <= spec_axis_extent(a0 as int, c0 as int, c1 as int, a1 as int).0 <= i64::MAX,
        i64::MIN <= spec_axis_extent(a0 as int, c0 as int, c1 as int, a1 as int).1 <= i64::MAX,
{
    reveal(spec_axis_extent);
}

/// A quotient rounded down, whatever the sign of the divisor.
fn signed_div(n: i128, d: i128) -> (q: i128)
    requires
        d != 0,
        -0x4000_0000_0000_0000_0000_0000_0000_0000 < n < 0x4000_0000_0000_0000_0000_0000_0000_0000,
        -0x4000_0000_0000_0000_0000_0000_0000_0000 < d < 0x4000_0000_0000_0000_0000_0000_0000_0000,
    ensures
        q == spec_signed_div(n as int, d as int),
{
    if d > 0 {
        floor_div(n, d)
    } else {
        floor_div(-n, -d)
    }
}

/// The product of two numbers within `EXACT_LIMIT`.
fn small_product(a: i128, b: i128) -> (r: i128)
    requires
        -EXACT_LIMIT < a < EXACT_LIMIT,
        -EXACT_LIMIT < b < EXACT_LIMIT,
    ensures
        r == a * b,
        -0x100_0000_0000_0000_0000_0000_0000_0000 <= r <= 0x100_0000_0000_0000_0000_0000_0000_0000,
{
    proof {
        let ma: int = if a < 0 {
            -a
        } else {
            a as int
        };
        let mb: int = if b < 0 {
            -b
        } else {
            b as int
        };
        lemma_product_bound(ma, 0x1000_0000_0000_0000, mb, 0x1000_0000_0000_0000);
        vstd::arithmetic::mul::lemma_mul_unary_negation(a as int, b as int);
        vstd::arithmetic::mul::lemma_mul_unary_negation(-(a as int), b as int);
        vstd::arithmetic::mul::lemma_mul_unary_negation(a as int, -(b as int));
        assert(0x1000_0000_0000_0000int * 0x1000_0000_0000_0000int
            == 0x100_0000_0000_0000_0000_0000_0000_0000int);
    }
    a * b
}

/// Widens an extent by the point of the curve at the parameter `t`.
fn widened_at(extent: (Fixed, Fixed), a0: Fixed, c0: Fixed, c1: Fixed, a1: Fixed, t: i128) -> (r: (
    Fixed,
    Fixed,
))
    ensures
        (r.0 as int, r.1 as int) == spec_widened_at(
            (extent.0 as int, extent.1 as int),
            a0 as int,
            c0 as int,
            c1 as int,
            a1 as int,
            t as int,
        ),
{
    if 0 <= t && t <= UNIT as i128 {
        let value: Fixed = cubic_at(a0, c0, c1, a1, t as i64);
        (
            if value < extent.0 {
                value
            } else {
                extent.0
            },
            if value > extent.1 {
                value
            } else {
                extent.1
            },
        )
    } else {
        extent
    }
}

/// The extent of the anchors, widened by the one turning point of a curve
/// whose derivative counts as linear.
fn linear_extent(a0: Fixed, c0: Fixed, c1: Fixed, a1: Fixed, b: i128, c: i128) -> (r: (Fixed, Fixed))
    requires
        -EXACT_LIMIT < b < EXACT_LIMIT,
        -EXACT_LIMIT < c < EXACT_LIMIT,
    ensures
        (r.0 as int, r.1 as int) == spec_linear_extent(
            a0 as int,
            c0 as int,
            c1 as int,
            a1 as int,
            b as int,
            c as int,
        ),
{
    let anchors: (Fixed, Fixed) = anchor_extent(a0, a1);
    if b != 0 {
        let unit: i128 = 1_000_000_000;
        let top: i128 = -c * unit;
        widened_at(anchors, a0, c0, c1, a1, signed_div(top, b))
    } else {
        anchors
    }
}

/// The extent of the anchors, widened by the turning points of a curve.
fn quadratic_extent(a0: Fixed, c0: Fixed, c1: Fixed, a1: Fixed, a: i128, b: i128, c: i128) -> (r: (
    Fixed,
    Fixed,
))
    requires
        -EXACT_LIMIT < a < EXACT_LIMIT,
        -EXACT_LIMIT < b < EXACT_LIMIT,
        -EXACT_LIMIT < c < EXACT_LIMIT,
        a != 0,
    ensures
        (r.0 as int, r.1 as int) == spec_quadratic_extent(
            a0 as int,
            c0 as int,
            c1 as int,
            a1 as int,
            a as int,
            b as int,
            c as int,
        ),
{
    let anchors: (Fixed, Fixed) = anchor_extent(a0, a1);
    let squared: i128 = small_product(b, b);
    let product: i128 = small_product(a, c);
    let discriminant: i128 = squared - 4 * product;
    if discriminant >= 0 {
        let root: u64 = isqrt(discriminant as u128);
        proof {
            lemma_isqrt_unique(root as int, discriminant as int);
            // The root of less than 2^123 is below 2^62.
            if root >= 0x4000_0000_0000_0000 {
                lemma_square_ordered(0x4000_0000_0000_0000, root as int);
                assert(0x4000_0000_0000_0000int * 0x4000_0000_0000_0000int
                    == 0x1000_0000_0000_0000_0000_0000_0000_0000int);
            }
        }
        let unit: i128 = 1_000_000_000;
        let up: i128 = (-b + root as i128) * unit;
        let down: i128 = (-b - root as i128) * unit;
        let first = widened_at(anchors, a0, c0, c1, a1, signed_div(up, 2 * a));
        widened_at(first, a0, c0, c1, a1, signed_div(down, 2 * a))
    } else {
        anchors
    }
}

/// The extent of the two anchors.
fn anchor_extent(a0: Fixed, a1: Fixed) -> (r: (Fixed, Fixed))
    ensures
        (r.0 as int, r.1 as int) == spec_anchor_extent(a0 as int, a1 as int),
{
    (
        if a0 <= a1 {
            a0
        } else {
            a1
        },
        if a0 >= a1 {
            a0
        } else {
            a1
        },
    )
}

/// Widens an extent so that it holds `value`.
fn widened(extent: (Fixed, Fixed), value: Fixed) -> (r: (Fixed, Fixed))
    ensures
        (r.0 as int, r.1 as int) == spec_widened((extent.0 as int, extent.1 as int), value as int),
{
    (
        if value < extent.0 {
            value
        } else {
            extent.0
        },
        if value > extent.1 {
            value
        } else {
            extent.1
        },
    )
}

/// The extent of a cubic curve along one axis.
pub fn axis_extent(a0: Fixed, c0: Fixed, c1: Fixed, a1: Fixed) -> (r: (Fixed, Fixed))
    ensures
        (r.0 as int, r.1 as int) == spec_axis_extent(a0 as int, c0 as int, c1 as int, a1 as int),
{
    reveal(spec_axis_extent);
    let a: i128 = a1 as i128 - 3 * (c1 as i128) + 3 * (c0 as i128) - a0 as i128;
    let b: i128 = 2 * (a0 as i128) - 4 * (c0 as i128) + 2 * (c1 as i128);
    let c: i128 = c0 as i128 - a0 as i128;
    if !(-EXACT_LIMIT < a && a < EXACT_LIMIT && -EXACT_LIMIT < b && b < EXACT_LIMIT
        && -EXACT_LIMIT < c && c < EXACT_LIMIT) {
        widened(widened(anchor_extent(a0, a1), c0), c1)
    } else if -100_000 < a && a < 100_000 {
        // The derivative is as good as linear: it has at most one root.
        linear_extent(a0, c0, c1, a1, b, c)
    } else {
        quadratic_extent(a0, c0, c1, a1, a, b, c)
    }
}

} // verus!
