use vstd::prelude::*;
use vstd::arithmetic::div_mod::{
    lemma_div_is_ordered, lemma_div_multiples_vanish, lemma_div_pos_is_pos,
    lemma_fundamental_div_mod, lemma_fundamental_div_mod_converse_div,
    lemma_hoist_over_denominator, lemma_mod_bound, lemma_mod_pos_bound,
};
use vstd::arithmetic::mul::{
    lemma_mul_inequality, lemma_mul_is_associative, lemma_mul_is_commutative,
    lemma_mul_is_distributive_add, lemma_mul_is_distributive_add_other_way,
    lemma_mul_is_distributive_sub, lemma_mul_nonnegative, lemma_mul_strictly_positive,
    lemma_mul_upper_bound,
};

verus! {

/// A product of bounded factors is bounded by the product of the bounds.
pub proof fn lemma_product_bound(a: int, amax: int, b: int, bmax: int)
    requires
        0 <= a <= amax,
        0 <= b <= bmax,
    ensures
        0 <= a * b <= amax * bmax,
{
    lemma_mul_nonnegative(a, b);
    lemma_mul_upper_bound(a, amax, b, bmax);
}

/// A quotient rounded down, times the divisor, is the largest multiple of
/// the divisor that is not above the dividend.
pub proof fn lemma_floor(x: int, d: int)
    requires
        0 <= x,
        0 < d,
    ensures
        0 <= x / d,
        (x / d) * d <= x < (x / d) * d + d,
{
    lemma_fundamental_div_mod(x, d);
    lemma_mod_pos_bound(x, d);
    lemma_div_pos_is_pos(x, d);
    lemma_mul_is_commutative(d, x / d);
}

/// Dividing by a positive number keeps the order.
pub proof fn lemma_quotient_ordered(x: int, y: int, d: int)
    requires
        x <= y,
        0 < d,
    ensures
        x / d <= y / d,
{
    lemma_div_is_ordered(x, y, d);
}

/// A multiple of the divisor divides without remainder.
pub proof fn lemma_whole_part(x: int, d: int)
    requires
        0 < d,
    ensures
        (d * x) / d == x,
        (x * d) / d == x,
{
    lemma_div_multiples_vanish(x, d);
    lemma_mul_is_commutative(d, x);
}

/// The part `num / den` of `a`, rounded down, lies between 0 and `a` when
/// `num` is no more than `den`.
pub proof fn lemma_part_bound(a: int, num: int, den: int)
    requires
        0 <= a,
        0 <= num <= den,
        0 < den,
    ensures
        0 <= (a * num) / den <= a,
        0 <= (num * a) / den <= a,
{
    lemma_mul_nonnegative(a, num);
    lemma_mul_inequality(num, den, a);
    lemma_mul_is_commutative(num, a);
    lemma_mul_is_commutative(den, a);
    lemma_div_is_ordered(a * num, a * den, den);
    lemma_whole_part(a, den);
    lemma_div_pos_is_pos(a * num, den);
}

/// A larger amount has a larger part.
pub proof fn lemma_part_ordered(a: int, b: int, num: int, den: int)
    requires
        0 <= a <= b,
        0 <= num,
        0 < den,
    ensures
        (a * num) / den <= (b * num) / den,
{
    lemma_mul_inequality(a, b, num);
    lemma_div_is_ordered(a * num, b * num, den);
}

/// The parts of two amounts, each rounded down, are together no more than
/// the part of their sum.
pub proof fn lemma_parts_sum(a: int, b: int, num: int, den: int)
    requires
        0 <= a,
        0 <= b,
        0 <= num,
        0 < den,
    ensures
        (a * num) / den + (b * num) / den <= ((a + b) * num) / den,
{
    lemma_mul_nonnegative(a, num);
    lemma_mul_nonnegative(b, num);
    lemma_floor(a * num, den);
    lemma_floor(b * num, den);
    let qa = (a * num) / den;
    let qb = (b * num) / den;
    lemma_mul_is_distributive_add_other_way(num, a, b);
    lemma_mul_is_distributive_add_other_way(den, qa, qb);
    assert((qa + qb) * den <= (a + b) * num);
    lemma_div_is_ordered((qa + qb) * den, (a + b) * num, den);
    lemma_whole_part(qa + qb, den);
}

/// A quotient rounded down, times the divisor, is the largest multiple of
/// the divisor that is not above the dividend, whatever its sign.
pub proof fn lemma_floor_of_any(x: int, d: int)
    requires
        0 < d,
    ensures
        d * (x / d) <= x <= d * (x / d) + d - 1,
{
    lemma_fundamental_div_mod(x, d);
    lemma_mod_bound(x, d);
}

/// Dividing by one number and then by another, rounding down each time,
/// is dividing by their product and rounding down once.
pub proof fn lemma_quotient_of_quotient(x: int, c: int, d: int)
    requires
        0 < c,
        0 < d,
    ensures
        0 < c * d,
        (x / c) / d == x / (c * d),
{
    let q1 = x / c;
    let r1 = x % c;
    let q2 = q1 / d;
    let r2 = q1 % d;
    lemma_fundamental_div_mod(x, c);
    lemma_mod_bound(x, c);
    lemma_fundamental_div_mod(q1, d);
    lemma_mod_bound(q1, d);
    lemma_mul_strictly_positive(c, d);
    lemma_mul_is_distributive_add(c, d * q2, r2);
    lemma_mul_is_associative(c, d, q2);
    assert(x == (c * d) * q2 + (c * r2 + r1));
    lemma_mul_inequality(r2, d - 1, c);
    lemma_mul_is_commutative(r2, c);
    lemma_mul_is_commutative(d - 1, c);
    lemma_mul_is_distributive_sub(c, d, 1);
    lemma_mul_nonnegative(c, r2);
    lemma_fundamental_div_mod_converse_div(x, c * d, q2, c * r2 + r1);
}

/// A number held in two parts, `c * high + low`, is divided by `c * d` by
/// dividing `low` by `c`, adding `high`, and dividing by `d`.
pub proof fn lemma_quotient_in_parts(x: int, high: int, low: int, c: int, d: int)
    requires
        x == c * high + low,
        0 < c,
        0 < d,
    ensures
        x / (c * d) == (high + low / c) / d,
{
    lemma_hoist_over_denominator(low, high, c as nat);
    lemma_mul_is_commutative(high, c);
    lemma_quotient_of_quotient(x, c, d);
}

} // verus!
