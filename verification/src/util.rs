use vstd::prelude::*;
use crate::geometry::UNIT;
use vstd::arithmetic::div_mod::{lemma_fundamental_div_mod, lemma_fundamental_div_mod_converse_mod};
use vstd::arithmetic::mul::{
    lemma_mul_is_commutative, lemma_mul_is_distributive_add, lemma_mul_unary_negation,
};

verus! {

/// Absolute value of an integer.
pub open spec fn spec_abs(x: int) -> int {
    if x < 0 {
        -x
    } else {
        x
    }
}

/// Whether `progress` lies on the arc that runs forward from `progress_from`
/// to `progress_to`, both ends included. When `progress_to` is the smaller
/// one the arc passes through the place where progress wraps around.
pub open spec fn spec_progress_in_range(progress: int, progress_from: int, progress_to: int) -> bool {
    if progress_to >= progress_from {
        progress_from <= progress <= progress_to
    } else {
        progress >= progress_from || progress <= progress_to
    }
}

/// Distance between two places on the circle: the shorter way round.
pub open spec fn spec_progress_distance(p1: int, p2: int) -> int {
    let value = spec_abs(p1 - p2);
    if value <= UNIT - value {
        value
    } else {
        UNIT - value
    }
}

/// The remainder of `num` by `modulus` that lies in `0..modulus`.
pub fn positive_modulo(num: i64, modulus: i64) -> (r: i64)
    requires
        modulus > 0,
    ensures
        r == (num as int) % (modulus as int),
        0 <= r < modulus,
{
    if num >= 0 {
        num % modulus
    } else {
        // num = -(below + 1), so num leaves the mirror image of what below leaves.
        let below: i64 = -(num + 1);
        let rem: i64 = below % modulus;
        proof {
            let q = (below as int) / (modulus as int);
            lemma_fundamental_div_mod(below as int, modulus as int);
            lemma_mul_is_distributive_add(modulus as int, -q, -1);
            lemma_mul_unary_negation(modulus as int, q);
            lemma_mul_is_commutative(modulus as int, -q - 1);
            assert(num as int == (-q - 1) * modulus + (modulus - 1 - rem));
            lemma_fundamental_div_mod_converse_mod(
                num as int,
                modulus as int,
                -q - 1,
                modulus as int - 1 - rem as int,
            );
        }
        modulus - 1 - rem
    }
}

pub fn progress_in_range(progress: i64, progress_from: i64, progress_to: i64) -> (r: bool)
    ensures
        r == spec_progress_in_range(progress as int, progress_from as int, progress_to as int),
{
    if progress_to >= progress_from {
        progress_from <= progress && progress <= progress_to
    } else {
        progress >= progress_from || progress <= progress_to
    }
}

pub fn progress_distance(p1: i64, p2: i64) -> (d: i64)
    requires
        -i64::MAX <= p1 - p2 <= i64::MAX,
    ensures
        d == spec_progress_distance(p1 as int, p2 as int),
{
    let value: i64 = if p1 >= p2 {
        p1 - p2
    } else {
        p2 - p1
    };
    if value <= UNIT - value {
        value
    } else {
        UNIT - value
    }
}

} // verus!
