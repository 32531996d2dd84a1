use vstd::prelude::*;
use crate::fixed::{dot_over, minus, mul_div, plus, spec_dot_over, spec_minus, spec_mul_div, spec_plus, spec_times, times, Fixed};
use crate::arith::lemma_product_bound;
use crate::geometry::{Point, Vector, UNIT};
use crate::util::positive_modulo;

verus! {

/// Half a turn, as an angle in radians.
pub const PI: Fixed = 3_141_592_654;

/// A whole turn.
pub const TWO_PI: Fixed = 6_283_185_307;

/// A quarter turn.
pub const HALF_PI: Fixed = 1_570_796_327;

/// Number of terms of the series for the sine after the first one.
pub const SINE_TERMS: u64 = 8;

/// The term of the series for the sine that follows `term`, which is the one
/// with the index `k`: `term` times the square of the angle, divided by
/// `(2k + 2)(2k + 3)` and rounded to the nearest billionth, with the opposite
/// sign.
pub open spec fn spec_next_term(term: int, squared: int, k: int) -> int {
    let divisor = UNIT * ((2 * k + 2) * (2 * k + 3));
    spec_minus(0, spec_dot_over(term, squared, divisor / 2, 1, divisor))
}

/// The sum of the series for the sine from the term with the index `k` on,
/// added to `sum`.
pub open spec fn spec_sine_series(sum: int, term: int, squared: int, k: int) -> int
    decreases SINE_TERMS - k,
{
    if k < 0 || k >= SINE_TERMS {
        sum
    } else {
        let next = spec_next_term(term, squared, k);
        spec_sine_series(spec_plus(sum, next), next, squared, k + 1)
    }
}

/// The sine of an angle between 0 and a quarter turn: the sum of the first
/// terms of its series, `x - x^3/3! + x^5/5! - ...`, kept between -1 and 1.
pub open spec fn spec_sin_acute(x: int) -> int {
    let sum = spec_sine_series(x, x, spec_times(x, x), 0);
    if sum > UNIT {
        UNIT as int
    } else if sum < -UNIT {
        -UNIT
    } else {
        sum
    }
}

/// The sine of an angle in radians.
///
/// The angle is brought into the first turn, then into the first quarter
/// turn: the sine of an angle beyond half a turn is that of the angle half a
/// turn before, with the opposite sign, and the sine of an angle beyond a
/// quarter turn is that of what is missing to half a turn.
pub open spec fn spec_sin(x: int) -> int {
    let turned = x % (TWO_PI as int);
    let halved = if turned > PI {
        turned - PI
    } else {
        turned
    };
    let acute = if halved > HALF_PI {
        PI - halved
    } else {
        halved
    };
    if turned > PI {
        spec_minus(0, spec_sin_acute(acute))
    } else {
        spec_sin_acute(acute)
    }
}

/// The cosine of an angle in radians: the sine of the angle a quarter turn on.
pub open spec fn spec_cos(x: int) -> int {
    spec_sin(spec_plus(x, HALF_PI as int))
}

fn sin_acute(x: Fixed) -> (r: Fixed)
    ensures
        r == spec_sin_acute(x as int),
        -UNIT <= r <= UNIT,
{
    let squared: Fixed = times(x, x);
    let mut sum: Fixed = x;
    let mut term: Fixed = x;
    let mut k: i64 = 0;
    while k < SINE_TERMS as i64
        invariant
            0 <= k <= SINE_TERMS,
            spec_sine_series(x as int, x as int, squared as int, 0) == spec_sine_series(
                sum as int,
                term as int,
                squared as int,
                k as int,
            ),
        decreases SINE_TERMS - k,
    {
        proof {
            lemma_product_bound(2 * k + 2, 16, 2 * k + 3, 17);
            lemma_product_bound(2, 2 * k + 2, 3, 2 * k + 3);
        }
        let factor: i64 = (2 * k + 2) * (2 * k + 3);
        let divisor: i64 = UNIT * factor;
        term = minus(0, dot_over(term, squared, divisor / 2, 1, divisor));
        sum = plus(sum, term);
        k = k + 1;
    }
    if sum > UNIT {
        UNIT
    } else if sum < -UNIT {
        -UNIT
    } else {
        sum
    }
}

/// Returns the sine of an angle in radians.
pub fn sin(x: Fixed) -> (r: Fixed)
    ensures
        r == spec_sin(x as int),
        -UNIT <= r <= UNIT,
{
    let turned: Fixed = positive_modulo(x, TWO_PI);
    let halved: Fixed = if turned > PI {
        turned - PI
    } else {
        turned
    };
    let acute: Fixed = if halved > HALF_PI {
        PI - halved
    } else {
        halved
    };
    if turned > PI {
        minus(0, sin_acute(acute))
    } else {
        sin_acute(acute)
    }
}

/// Returns the cosine of an angle in radians.
pub fn cos(x: Fixed) -> (r: Fixed)
    ensures
        r == spec_cos(x as int),
        -UNIT <= r <= UNIT,
{
    sin(plus(x, HALF_PI))
}

/// The vector of the given length at the given angle from the x axis.
pub open spec fn spec_radial_to_cartesian(radius: Fixed, angle_radians: Fixed) -> Vector {
    Point {
        x: spec_cos(angle_radians as int) as i64,
        y: spec_sin(angle_radians as int) as i64,
    }.spec_scaled(radius)
}

pub fn radial_to_cartesian(radius: Fixed, angle_radians: Fixed) -> (v: Vector)
    ensures
        v == spec_radial_to_cartesian(radius, angle_radians),
{
    Point { x: cos(angle_radians), y: sin(angle_radians) }.scaled(radius)
}

/// Half a turn in degrees.
pub const HALF_TURN_DEGREES: Fixed = 180_000_000_000;

/// An angle in degrees as an angle in radians.
pub open spec fn spec_radians(degrees: Fixed) -> int {
    spec_mul_div(degrees as int, PI as int, HALF_TURN_DEGREES as int)
}

pub fn radians(degrees: Fixed) -> (r: Fixed)
    ensures
        r == spec_radians(degrees),
{
    mul_div(degrees, PI, HALF_TURN_DEGREES)
}

/// The point turned round `center` by an angle in radians, from the x axis
/// towards the y axis.
pub open spec fn spec_turned(point: Point, angle_radians: Fixed, center: Point) -> Point {
    let off = point.spec_minus(center);
    let c = spec_cos(angle_radians as int);
    let s = spec_sin(angle_radians as int);
    Point {
        x: spec_dot_over(off.x as int, c, spec_minus(0, off.y as int), s, UNIT as int) as i64,
        y: spec_dot_over(off.x as int, s, off.y as int, c, UNIT as int) as i64,
    }.spec_plus(center)
}

pub fn turned(point: Point, angle_radians: Fixed, center: Point) -> (p: Point)
    ensures
        p == spec_turned(point, angle_radians, center),
{
    let off: Point = point.minus(center);
    let c: Fixed = cos(angle_radians);
    let s: Fixed = sin(angle_radians);
    Point {
        x: dot_over(off.x, c, minus(0, off.y), s, UNIT),
        y: dot_over(off.x, s, off.y, c, UNIT),
    }.plus(center)
}

impl Point {
    /// The point turned round `center` by an angle in degrees.
    pub open spec fn spec_rotated(self, angle: Fixed, center: Point) -> Point {
        spec_turned(self, spec_radians(angle) as i64, center)
    }

    pub fn rotated(self, angle: Fixed, center: Point) -> (p: Point)
        ensures
            p == self.spec_rotated(angle, center),
    {
        turned(self, radians(angle), center)
    }
}

} // verus!
