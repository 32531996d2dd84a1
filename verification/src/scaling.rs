use vstd::prelude::*;
use vstd::arithmetic::div_mod::lemma_div_is_ordered;
use vstd::arithmetic::mul::{
    lemma_mul_inequality, lemma_mul_is_associative, lemma_mul_is_commutative,
    lemma_mul_is_distributive_add, lemma_mul_is_distributive_add_other_way,
    lemma_mul_nonnegative, lemma_mul_unary_negation,
};
use crate::arith::{lemma_floor_of_any, lemma_whole_part};
use crate::bezier::{spec_cubic_at, spec_cubic_weights, UNIT_CUBED};
use crate::cubic::Cubic;
use crate::fixed::{spec_times, Fixed};
use crate::geometry::{Point, UNIT};

verus! {

/// The four weights of a curve's points are not negative, and together they
/// make one.
pub proof fn lemma_weights_sum(t: int)
    requires
        0 <= t <= UNIT,
    ensures
        spec_cubic_weights(t).0 >= 0,
        spec_cubic_weights(t).1 >= 0,
        spec_cubic_weights(t).2 >= 0,
        spec_cubic_weights(t).3 >= 0,
        spec_cubic_weights(t).0 + spec_cubic_weights(t).1 + spec_cubic_weights(t).2
            + spec_cubic_weights(t).3 == UNIT_CUBED,
{
    let u = UNIT - t;
    let uu = u * u;
    let tu = t * u;
    let tt = t * t;
    lemma_mul_nonnegative(u, u);
    lemma_mul_nonnegative(t, u);
    lemma_mul_nonnegative(t, t);
    lemma_mul_nonnegative(uu, u);
    lemma_mul_nonnegative(tu, u);
    lemma_mul_nonnegative(tt, u);
    lemma_mul_nonnegative(tt, t);
    // The weights, each as a product of two factors.
    lemma_mul_is_associative(3, t, u);
    lemma_mul_is_associative(3, tu, u);
    lemma_mul_is_associative(3, t, t);
    lemma_mul_is_associative(3, tt, u);
    assert(spec_cubic_weights(t).1 == 3 * (tu * u));
    assert(spec_cubic_weights(t).2 == 3 * (tt * u));
    // Pairs of neighbours have the factor u + t, which is one.
    lemma_mul_is_distributive_add_other_way(u, u, t);
    lemma_mul_is_commutative(u, t);
    lemma_mul_is_distributive_add_other_way(t, u, t);
    assert(uu + tu == 1_000_000_000 * u);
    assert(tu + tt == 1_000_000_000 * t);
    lemma_mul_is_distributive_add_other_way(u, uu, tu);
    lemma_mul_is_associative(1_000_000_000, u, u);
    assert(uu * u + tu * u == 1_000_000_000 * uu);
    lemma_mul_is_distributive_add_other_way(u, tu, tt);
    lemma_mul_is_associative(1_000_000_000, t, u);
    assert(tu * u + tt * u == 1_000_000_000 * tu);
    lemma_mul_is_distributive_add(tt, u, t);
    assert(tt * u + tt * t == 1_000_000_000 * tt);
}

/// One term of a weighted sum: where `q` is `p * k` divided by `UNIT` and
/// rounded down, the term of `q` times `UNIT` is no more than `k` times the
/// term of `p`, and less than the weight times `UNIT` below it.
proof fn lemma_scaled_term(p: int, k: int, w: int)
    requires
        0 <= w,
    ensures
        ({
            let q = (p * k) / (UNIT as int);
            1_000_000_000 * (q * w) <= k * (p * w) <= 1_000_000_000 * (q * w) + 999_999_999 * w
        }),
{
    let q = (p * k) / (UNIT as int);
    lemma_floor_of_any(p * k, 1_000_000_000);
    lemma_mul_inequality(1_000_000_000 * q, p * k, w);
    lemma_mul_inequality(p * k, 1_000_000_000 * q + 999_999_999, w);
    lemma_mul_is_associative(1_000_000_000, q, w);
    lemma_mul_is_commutative(p, k);
    lemma_mul_is_associative(k, p, w);
    lemma_mul_is_distributive_add_other_way(w, 1_000_000_000 * q, 999_999_999);
}

/// A weighted mean of coordinates is a coordinate.
proof fn lemma_mean_in_range(a0: int, c0: int, c1: int, a1: int, t: int)
    requires
        0 <= t <= UNIT,
        i64::MIN <= a0 <= i64::MAX,
        i64::MIN <= c0 <= i64::MAX,
        i64::MIN <= c1 <= i64::MAX,
        i64::MIN <= a1 <= i64::MAX,
    ensures
        ({
            let w = spec_cubic_weights(t);
            i64::MIN <= (a0 * w.0 + c0 * w.1 + c1 * w.2 + a1 * w.3) / (UNIT_CUBED as int)
                <= i64::MAX
        }),
{
    let w = spec_cubic_weights(t);
    let low = i64::MIN as int;
    let high = i64::MAX as int;
    let sum = a0 * w.0 + c0 * w.1 + c1 * w.2 + a1 * w.3;
    lemma_weights_sum(t);
    lemma_mul_inequality(low, a0, w.0);
    lemma_mul_inequality(low, c0, w.1);
    lemma_mul_inequality(low, c1, w.2);
    lemma_mul_inequality(low, a1, w.3);
    lemma_mul_inequality(a0, high, w.0);
    lemma_mul_inequality(c0, high, w.1);
    lemma_mul_inequality(c1, high, w.2);
    lemma_mul_inequality(a1, high, w.3);
    lemma_mul_is_distributive_add(low, w.0, w.1);
    lemma_mul_is_distributive_add(low, w.0 + w.1, w.2);
    lemma_mul_is_distributive_add(low, w.0 + w.1 + w.2, w.3);
    lemma_mul_is_distributive_add(high, w.0, w.1);
    lemma_mul_is_distributive_add(high, w.0 + w.1, w.2);
    lemma_mul_is_distributive_add(high, w.0 + w.1 + w.2, w.3);
    assert(low * (UNIT_CUBED as int) <= sum <= high * (UNIT_CUBED as int));
    lemma_div_is_ordered(low * (UNIT_CUBED as int), sum, UNIT_CUBED as int);
    lemma_div_is_ordered(sum, high * (UNIT_CUBED as int), UNIT_CUBED as int);
    lemma_whole_part(low, UNIT_CUBED as int);
    lemma_whole_part(high, UNIT_CUBED as int);
}

/// Two coordinates differ by less than two units and the part `k` of a unit.
pub open spec fn differ_by_rounding(a: int, b: int, k: int) -> bool {
    let allowed = 2 * UNIT + if k >= 0 {
        k
    } else {
        -k
    };
    UNIT * (a - b) < allowed && UNIT * (b - a) < allowed
}

/// Scaling `p` by `k` does not leave the range of a coordinate.
pub open spec fn scales_in_range(p: int, k: int) -> bool {
    i64::MIN <= (p * k) / (UNIT as int) <= i64::MAX
}

/// One coordinate of a scaled curve: the curve of the scaled points is,
/// but for rounding, the scaled curve of the points.
proof fn lemma_scaled_axis(a0: int, c0: int, c1: int, a1: int, k: int, t: int)
    requires
        0 <= t <= UNIT,
        i64::MIN <= a0 <= i64::MAX,
        i64::MIN <= c0 <= i64::MAX,
        i64::MIN <= c1 <= i64::MAX,
        i64::MIN <= a1 <= i64::MAX,
        i64::MIN <= k <= i64::MAX,
        scales_in_range(a0, k),
        scales_in_range(c0, k),
        scales_in_range(c1, k),
        scales_in_range(a1, k),
    ensures
        differ_by_rounding(
            spec_cubic_at(
                spec_times(a0, k),
                spec_times(c0, k),
                spec_times(c1, k),
                spec_times(a1, k),
                t,
            ),
            spec_times(spec_cubic_at(a0, c0, c1, a1, t), k),
            k,
        ),
{
    let w = spec_cubic_weights(t);
    let cube = UNIT_CUBED as int;
    let s0 = (a0 * k) / (UNIT as int);
    let s1 = (c0 * k) / (UNIT as int);
    let s2 = (c1 * k) / (UNIT as int);
    let s3 = (a1 * k) / (UNIT as int);
    assert(a0 * k + 0 * 0 == a0 * k);
    assert(c0 * k + 0 * 0 == c0 * k);
    assert(c1 * k + 0 * 0 == c1 * k);
    assert(a1 * k + 0 * 0 == a1 * k);
    assert(spec_times(a0, k) == s0);
    assert(spec_times(c0, k) == s1);
    assert(spec_times(c1, k) == s2);
    assert(spec_times(a1, k) == s3);
    lemma_weights_sum(t);

    // The curve of the points, and the curve of the scaled points.
    let sum = a0 * w.0 + c0 * w.1 + c1 * w.2 + a1 * w.3;
    let scaled_sum = s0 * w.0 + s1 * w.1 + s2 * w.2 + s3 * w.3;
    let point = sum / cube;
    let scaled = scaled_sum / cube;
    lemma_mean_in_range(a0, c0, c1, a1, t);
    lemma_mean_in_range(s0, s1, s2, s3, t);
    assert(spec_cubic_at(a0, c0, c1, a1, t) == point);
    assert(spec_cubic_at(s0, s1, s2, s3, t) == scaled);
    lemma_floor_of_any(sum, cube);
    lemma_floor_of_any(scaled_sum, cube);

    // k times the sum lies within UNIT_CUBED units above the scaled sum.
    lemma_scaled_term(a0, k, w.0);
    lemma_scaled_term(c0, k, w.1);
    lemma_scaled_term(c1, k, w.2);
    lemma_scaled_term(a1, k, w.3);
    lemma_mul_is_distributive_add(k, a0 * w.0, c0 * w.1);
    lemma_mul_is_distributive_add(k, a0 * w.0 + c0 * w.1, c1 * w.2);
    lemma_mul_is_distributive_add(k, a0 * w.0 + c0 * w.1 + c1 * w.2, a1 * w.3);
    let scaled_up = k * sum;
    assert(1_000_000_000 * scaled_sum <= scaled_up <= 1_000_000_000 * scaled_sum + 999_999_999
        * cube);

    // The scaled point.
    let product = point * k;
    let after = product / (UNIT as int);
    assert(point * k + 0 * 0 == product);
    lemma_floor_of_any(product, 1_000_000_000);

    // k times the sum lies near UNIT_CUBED times the product.
    if k >= 0 {
        lemma_mul_inequality(cube * point, sum, k);
        lemma_mul_inequality(sum, cube * point + cube - 1, k);
        lemma_mul_is_associative(cube, point, k);
        lemma_mul_is_distributive_add_other_way(k, cube * point, cube - 1);
        lemma_mul_is_commutative(sum, k);
        lemma_mul_is_commutative(cube - 1, k);
        assert(cube * product <= scaled_up <= cube * product + k * (cube - 1));
    } else {
        let m = -k;
        lemma_mul_inequality(cube * point, sum, m);
        lemma_mul_inequality(sum, cube * point + cube - 1, m);
        lemma_mul_is_associative(cube, point, m);
        lemma_mul_is_distributive_add_other_way(m, cube * point, cube - 1);
        lemma_mul_is_commutative(sum, m);
        lemma_mul_is_commutative(cube - 1, m);
        lemma_mul_unary_negation(k, sum);
        lemma_mul_unary_negation(point, k);
        assert(m * sum == -scaled_up);
        assert(point * m == -product);
        assert(cube * product - m * (cube - 1) <= scaled_up <= cube * product);
    }
    let unscaled = if after < i64::MIN {
        i64::MIN as int
    } else if after > i64::MAX {
        i64::MAX as int
    } else {
        after
    };
    assert(spec_times(point, k) == unscaled);
    assert(differ_by_rounding(scaled, after, k));
}

/// The curve through scaled points is, but for rounding, the scaled curve:
/// a point of the curve scaled by `k` differs from the scaled point of the
/// curve by less than two units and the part `k` of a unit, along both axes.
/// This holds where the scaled points have coordinates that can be held.
pub proof fn lemma_scaled_point_on_curve(cubic: Cubic<Point>, k: Fixed, t: Fixed)
    requires
        0 <= t <= UNIT,
        scales_in_range(cubic.anchor0.x as int, k as int),
        scales_in_range(cubic.anchor0.y as int, k as int),
        scales_in_range(cubic.control0.x as int, k as int),
        scales_in_range(cubic.control0.y as int, k as int),
        scales_in_range(cubic.control1.x as int, k as int),
        scales_in_range(cubic.control1.y as int, k as int),
        scales_in_range(cubic.anchor1.x as int, k as int),
        scales_in_range(cubic.anchor1.y as int, k as int),
    ensures
        differ_by_rounding(
            cubic.spec_times(k).spec_point_on_curve(t).x as int,
            cubic.spec_point_on_curve(t).spec_scaled(k).x as int,
            k as int,
        ),
        differ_by_rounding(
            cubic.spec_times(k).spec_point_on_curve(t).y as int,
            cubic.spec_point_on_curve(t).spec_scaled(k).y as int,
            k as int,
        ),
{
    lemma_scaled_axis(
        cubic.anchor0.x as int,
        cubic.control0.x as int,
        cubic.control1.x as int,
        cubic.anchor1.x as int,
        k as int,
        t as int,
    );
    lemma_scaled_axis(
        cubic.anchor0.y as int,
        cubic.control0.y as int,
        cubic.control1.y as int,
        cubic.anchor1.y as int,
        k as int,
        t as int,
    );
}

} // verus!
