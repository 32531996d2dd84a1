use vstd::prelude::*;
use crate::error::ShapeError;
use crate::fixed::{
    dot_over, hypot, lemma_coordinate_product, minus, over, plus, spec_dot_over, spec_hypot,
    spec_minus, spec_over, spec_plus, spec_times, times, Fixed,
};

verus! {

/// One full turn of a closed outline, in progress units.
pub const UNIT: i64 = 1_000_000_000;

/// Two progress values closer than this (a ten-thousandth of a turn) count as
/// the same place on the outline.
pub const DISTANCE_EPSILON: i64 = 100_000;

/// Slack allowed when two breakpoints are compared during a sweep (a millionth
/// of a turn).
pub const ANGLE_EPSILON: i64 = 1_000;

/// A place in the plane, or the way from one place to another. Each
/// coordinate counts billionths: `UNIT` is one whole.
#[derive(Debug, Clone, Copy, PartialEq, Eq, Structural, Hash)]
pub struct Point {
    pub x: Fixed,
    pub y: Fixed,
}

/// The way from one place to another.
pub type Vector = Point;

/// A width and a height.
#[derive(Debug, Clone, Copy, PartialEq, Eq, Structural, Hash)]
pub struct Size {
    pub width: Fixed,
    pub height: Fixed,
}

impl Size {
    pub fn new(width: Fixed, height: Fixed) -> (size: Self)
        ensures
            size == (Size { width, height }),
    {
        Size { width, height }
    }
}

/// A box with sides along the axes, given by two opposite corners.
#[derive(Debug, Clone, Copy, PartialEq, Eq, Structural, Hash)]
pub struct Aabb {
    pub min: Point,
    pub max: Point,
}

/// The smaller of two numbers.
pub open spec fn spec_min(a: int, b: int) -> int {
    if a <= b {
        a
    } else {
        b
    }
}

/// The larger of two numbers.
pub open spec fn spec_max(a: int, b: int) -> int {
    if a >= b {
        a
    } else {
        b
    }
}

pub fn min(a: Fixed, b: Fixed) -> (r: Fixed)
    ensures
        r == spec_min(a as int, b as int),
{
    if a <= b {
        a
    } else {
        b
    }
}

pub fn max(a: Fixed, b: Fixed) -> (r: Fixed)
    ensures
        r == spec_max(a as int, b as int),
{
    if a >= b {
        a
    } else {
        b
    }
}

impl Point {
    pub fn new(x: Fixed, y: Fixed) -> (p: Self)
        ensures
            p == (Point { x, y }),
    {
        Self { x, y }
    }

    pub fn zero() -> (p: Self)
        ensures
            p == (Point { x: 0, y: 0 }),
    {
        Self { x: 0, y: 0 }
    }

    pub fn splat(v: Fixed) -> (p: Self)
        ensures
            p == (Point { x: v, y: v }),
    {
        Self { x: v, y: v }
    }

    /// The sum of two vectors, or the place that a vector leads to.
    pub open spec fn spec_plus(self, other: Point) -> Point {
        Point {
            x: spec_plus(self.x as int, other.x as int) as i64,
            y: spec_plus(self.y as int, other.y as int) as i64,
        }
    }

    pub fn plus(self, other: Point) -> (p: Point)
        ensures
            p == self.spec_plus(other),
    {
        Point { x: plus(self.x, other.x), y: plus(self.y, other.y) }
    }

    /// The way from `other` to this place.
    pub open spec fn spec_minus(self, other: Point) -> Point {
        Point {
            x: spec_minus(self.x as int, other.x as int) as i64,
            y: spec_minus(self.y as int, other.y as int) as i64,
        }
    }

    pub fn minus(self, other: Point) -> (p: Point)
        ensures
            p == self.spec_minus(other),
    {
        Point { x: minus(self.x, other.x), y: minus(self.y, other.y) }
    }

    /// The vector made `k` times as long.
    pub open spec fn spec_scaled(self, k: Fixed) -> Point {
        Point {
            x: spec_times(self.x as int, k as int) as i64,
            y: spec_times(self.y as int, k as int) as i64,
        }
    }

    pub fn scaled(self, k: Fixed) -> (p: Point)
        ensures
            p == self.spec_scaled(k),
    {
        Point { x: times(self.x, k), y: times(self.y, k) }
    }

    /// The vector divided by `k`; the zero vector when `k` is 0.
    pub open spec fn spec_divided(self, k: Fixed) -> Point {
        Point {
            x: spec_over(self.x as int, k as int) as i64,
            y: spec_over(self.y as int, k as int) as i64,
        }
    }

    pub fn divided(self, k: Fixed) -> (p: Point)
        ensures
            p == self.spec_divided(k),
    {
        Point { x: over(self.x, k), y: over(self.y, k) }
    }

    /// The dot product of two vectors.
    pub open spec fn spec_dot(self, other: Point) -> int {
        spec_dot_over(self.x as int, other.x as int, self.y as int, other.y as int, UNIT as int)
    }

    pub fn dot(self, other: Point) -> (d: Fixed)
        ensures
            d == self.spec_dot(other),
    {
        dot_over(self.x, other.x, self.y, other.y, UNIT)
    }

    /// The length of the vector.
    pub open spec fn spec_length(self) -> int {
        spec_hypot(self.x as int, self.y as int)
    }

    pub fn length(self) -> (d: Fixed)
        ensures
            d == self.spec_length(),
            d >= 0,
    {
        hypot(self.x, self.y)
    }

    /// The vector of length 1 in the same direction; the zero vector for a
    /// vector without length.
    pub open spec fn spec_normalize(self) -> Point {
        self.spec_divided(self.spec_length() as i64)
    }

    pub fn normalize(self) -> (p: Point)
        ensures
            p == self.spec_normalize(),
    {
        self.divided(self.length())
    }

    /// The vector turned a quarter turn, from the x axis towards the y axis.
    pub open spec fn spec_rotate90(self) -> Point {
        Point { x: spec_minus(0, self.y as int) as i64, y: self.x }
    }

    pub fn rotate90(self) -> (p: Point)
        ensures
            p == self.spec_rotate90(),
    {
        Point { x: minus(0, self.y), y: self.x }
    }

    /// The place on the way from this one to `other` at the part `t` of the
    /// way: each coordinate is `(1 - t)` times this one's and `t` times the
    /// other's, rounded once.
    pub open spec fn spec_lerp(self, other: Point, t: Fixed) -> Point {
        let one_t = spec_minus(UNIT as int, t as int);
        Point {
            x: spec_dot_over(one_t, self.x as int, t as int, other.x as int, UNIT as int) as i64,
            y: spec_dot_over(one_t, self.y as int, t as int, other.y as int, UNIT as int) as i64,
        }
    }

    pub fn lerp(self, other: Point, t: Fixed) -> (p: Point)
        ensures
            p == self.spec_lerp(other, t),
    {
        let one_t: Fixed = minus(UNIT, t);
        Point {
            x: dot_over(one_t, self.x, t, other.x, UNIT),
            y: dot_over(one_t, self.y, t, other.y, UNIT),
        }
    }

    /// The lower left corner of the box round two places.
    pub open spec fn spec_min(self, other: Point) -> Point {
        Point {
            x: spec_min(self.x as int, other.x as int) as i64,
            y: spec_min(self.y as int, other.y as int) as i64,
        }
    }

    pub fn min(self, other: Point) -> (p: Point)
        ensures
            p == self.spec_min(other),
    {
        Point { x: min(self.x, other.x), y: min(self.y, other.y) }
    }

    /// The upper right corner of the box round two places.
    pub open spec fn spec_max(self, other: Point) -> Point {
        Point {
            x: spec_max(self.x as int, other.x as int) as i64,
            y: spec_max(self.y as int, other.y as int) as i64,
        }
    }

    pub fn max(self, other: Point) -> (p: Point)
        ensures
            p == self.spec_max(other),
    {
        Point { x: max(self.x, other.x), y: max(self.y, other.y) }
    }

    /// The vector of length 1 in the direction of this one; a vector without
    /// length has none.
    pub open spec fn spec_get_direction(self) -> Result<Point, ShapeError> {
        if self.spec_length() > 0 {
            Ok(self.spec_normalize())
        } else {
            Err(ShapeError::ZeroDirection)
        }
    }

    pub fn get_direction(self) -> (r: Result<Point, ShapeError>)
        ensures
            r == self.spec_get_direction(),
    {
        let d: Fixed = self.length();
        if d > 0 {
            Ok(self.divided(d))
        } else {
            Err(ShapeError::ZeroDirection)
        }
    }

    /// Whether the way from this place through `current` to `next` turns
    /// from the x axis towards the y axis: the cross product of the two legs
    /// is positive.
    pub open spec fn spec_is_convex(self, current: Point, next: Point) -> bool {
        let a = current.spec_minus(self);
        let b = next.spec_minus(current);
        a.x * b.y > a.y * b.x
    }

    pub fn is_convex(self, current: Point, next: Point) -> (convex: bool)
        ensures
            convex == self.spec_is_convex(current, next),
    {
        let a: Point = current.minus(self);
        let b: Point = next.minus(current);
        proof {
            lemma_coordinate_product(a.x, b.y);
            lemma_coordinate_product(a.y, b.x);
        }
        (a.x as i128) * (b.y as i128) > (a.y as i128) * (b.x as i128)
    }
}

/// Something that moves points: a rotation, a scaling, a shift.
pub trait PointTransformer<P> {
    fn transform(&self, point: P) -> P;
}

/// A function that takes every point, as something that moves points.
pub struct Moving<F: Fn(Point) -> Point> {
    func: F,
}

impl<F: Fn(Point) -> Point> Moving<F> {
    /// The function takes every point.
    #[verifier::type_invariant]
    pub closed spec fn takes_all(self) -> bool {
        forall|point: Point| #[trigger] self.func.requires((point,))
    }

    /// The function that moves the points.
    pub closed spec fn spec_func(self) -> F {
        self.func
    }

    pub fn new(func: F) -> (moving: Self)
        requires
            forall|point: Point| #[trigger] func.requires((point,)),
        ensures
            moving.spec_func() == func,
    {
        Moving { func }
    }
}

impl<F: Fn(Point) -> Point> PointTransformer<Point> for Moving<F> {
    fn transform(&self, point: Point) -> (moved: Point)
        ensures
            self.spec_func().ensures((point,), moved),
    {
        proof {
            use_type_invariant(self);
        }
        (self.func)(point)
    }
}

} // verus!
