use vstd::prelude::*;
use crate::arith::{lemma_quotient_of_quotient, lemma_whole_part};
use crate::bezier::{
    axis_extent, cubic_at, lemma_cubic_at_mirror, lemma_weights_mirror, quadratic_at,
    spec_axis_extent, spec_cubic_at, spec_cubic_weights, spec_quadratic_at, UNIT_CUBED,
};
use crate::fixed::{
    hypot, minus, mul_div, over, spec_dot_over, spec_hypot, spec_minus, spec_mul_div, spec_over,
    spec_sqrt, spec_times, sqrt, times, Fixed,
};
use crate::geometry::{Aabb, Point, PointTransformer, DISTANCE_EPSILON, UNIT};

verus! {

/// A cubic Bézier curve: two anchors, which the curve starts and ends at, and
/// two control points between them. `P` is the caller's type of a point; the
/// library moves points about and never computes with one.
#[derive(Debug, Clone, Copy, PartialEq)]
pub struct Cubic<P> {
    pub anchor0: P,
    pub control0: P,
    pub control1: P,
    pub anchor1: P,
}

impl<P: Copy> Cubic<P> {
    pub fn new(anchor0: P, control0: P, control1: P, anchor1: P) -> (cubic: Self)
        ensures
            cubic == (Cubic { anchor0, control0, control1, anchor1 }),
    {
        Self { anchor0, control0, control1, anchor1 }
    }

    /// Builds a curve from the points that `f` gives for the indices 0 to 3:
    /// first anchor, first control, second control, second anchor.
    pub fn from_fn<F: Fn(usize) -> P>(f: F) -> (cubic: Self)
        requires
            forall|i: usize| 0 <= i < 4 ==> f.requires((i,)),
        ensures
            f.ensures((0,), cubic.anchor0),
            f.ensures((1,), cubic.control0),
            f.ensures((2,), cubic.control1),
            f.ensures((3,), cubic.anchor1),
    {
        let anchor0 = f(0);
        let control0 = f(1);
        let control1 = f(2);
        let anchor1 = f(3);
        Self { anchor0, control0, control1, anchor1 }
    }

    /// The same curve run through from its end to its start.
    pub open spec fn spec_reversed(self) -> Self {
        Cubic {
            anchor0: self.anchor1,
            control0: self.control1,
            control1: self.control0,
            anchor1: self.anchor0,
        }
    }

    /// Returns the curve with its points in reverse order: anchor swapped
    /// with anchor and control with control.
    pub fn reversed(self) -> (cubic: Self)
        ensures
            cubic == self.spec_reversed(),
    {
        Self {
            anchor0: self.anchor1,
            control0: self.control1,
            control1: self.control0,
            anchor1: self.anchor0,
        }
    }

    pub fn control0(&self) -> (point: P)
        ensures
            point == self.control0,
    {
        self.control0
    }

    pub fn control1(&self) -> (point: P)
        ensures
            point == self.control1,
    {
        self.control1
    }

    pub fn anchor0(&self) -> (point: P)
        ensures
            point == self.anchor0,
    {
        self.anchor0
    }

    pub fn anchor1(&self) -> (point: P)
        ensures
            point == self.anchor1,
    {
        self.anchor1
    }

    /// The curve with its end moved to `anchor1`.
    pub open spec fn spec_ending_at(self, anchor1: P) -> Self {
        Cubic {
            anchor0: self.anchor0,
            control0: self.control0,
            control1: self.control1,
            anchor1,
        }
    }

    /// Returns the curve with its end moved to `anchor1`; the other three
    /// points stay.
    pub fn ending_at(self, anchor1: P) -> (cubic: Self)
        ensures
            cubic == self.spec_ending_at(anchor1),
    {
        Self {
            anchor0: self.anchor0,
            control0: self.control0,
            control1: self.control1,
            anchor1,
        }
    }

    /// `moved` is what `f` made of this curve: each of its points is what `f`
    /// returned for the point of this curve in the same place.
    pub open spec fn is_transformed_to<T: PointTransformer<P>>(self, f: &T, moved: Self) -> bool {
        &&& call_ensures(T::transform, (f, self.anchor0), moved.anchor0)
        &&& call_ensures(T::transform, (f, self.control0), moved.control0)
        &&& call_ensures(T::transform, (f, self.control1), moved.control1)
        &&& call_ensures(T::transform, (f, self.anchor1), moved.anchor1)
    }

    /// Returns the curve with every point sent through `f`.
    pub fn transformed<T: PointTransformer<P>>(self, f: &T) -> (cubic: Self)
        ensures
            self.is_transformed_to(f, cubic),
    {
        Self {
            anchor0: f.transform(self.anchor0),
            control0: f.transform(self.control0),
            control1: f.transform(self.control1),
            anchor1: f.transform(self.anchor1),
        }
    }
}

/// Reversing a curve twice gives the curve back.
pub proof fn lemma_reversed_twice<P: Copy>(cubic: Cubic<P>)
    ensures
        cubic.spec_reversed().spec_reversed() == cubic,
{
}

/// A third and two thirds of the way, to the nearest billionth.
pub const ONE_THIRD: Fixed = 333_333_333;

pub const TWO_THIRDS: Fixed = 666_666_667;

/// An arc whose ends are, seen from its center, closer together than the
/// angle with this cosine is drawn as a straight line.
pub const FLAT_ARC_COSINE: Fixed = 999_000_000;

impl Cubic<Point> {
    /// The straight line from `start` to `end`: its control points lie at a
    /// third and at two thirds of the way.
    pub open spec fn spec_straight_line(start: Point, end: Point) -> Self {
        Cubic {
            anchor0: start,
            control0: start.spec_lerp(end, ONE_THIRD),
            control1: start.spec_lerp(end, TWO_THIRDS),
            anchor1: end,
        }
    }

    /// Returns a curve that is a straight line.
    pub fn straight_line(start: Point, end: Point) -> (cubic: Self)
        ensures
            cubic == Self::spec_straight_line(start, end),
    {
        Self {
            anchor0: start,
            control0: start.lerp(end, ONE_THIRD),
            control1: start.lerp(end, TWO_THIRDS),
            anchor1: end,
        }
    }

    /// The two anchors are closer than `DISTANCE_EPSILON` along both axes.
    pub open spec fn spec_zero_length(&self) -> bool {
        &&& -DISTANCE_EPSILON < self.anchor0.x - self.anchor1.x < DISTANCE_EPSILON
        &&& -DISTANCE_EPSILON < self.anchor0.y - self.anchor1.y < DISTANCE_EPSILON
    }

    /// Returns `true` if the curve ends where it starts.
    pub fn zero_length(&self) -> (r: bool)
        ensures
            r == self.spec_zero_length(),
    {
        let dx: i128 = self.anchor0.x as i128 - self.anchor1.x as i128;
        let dy: i128 = self.anchor0.y as i128 - self.anchor1.y as i128;
        let epsilon: i128 = DISTANCE_EPSILON as i128;
        -epsilon < dx && dx < epsilon && -epsilon < dy && dy < epsilon
    }

    /// The point of the curve at the parameter `t`, which runs from 0 at the
    /// first anchor to `UNIT` at the second.
    pub open spec fn spec_point_on_curve(&self, t: Fixed) -> Point {
        Point {
            x: spec_cubic_at(
                self.anchor0.x as int,
                self.control0.x as int,
                self.control1.x as int,
                self.anchor1.x as int,
                t as int,
            ) as i64,
            y: spec_cubic_at(
                self.anchor0.y as int,
                self.control0.y as int,
                self.control1.y as int,
                self.anchor1.y as int,
                t as int,
            ) as i64,
        }
    }

    /// Returns the point of the curve at the parameter `t`.
    pub fn point_on_curve(&self, t: Fixed) -> (point: Point)
        requires
            0 <= t <= UNIT,
        ensures
            point == self.spec_point_on_curve(t),
    {
        Point {
            x: cubic_at(self.anchor0.x, self.control0.x, self.control1.x, self.anchor1.x, t),
            y: cubic_at(self.anchor0.y, self.control0.y, self.control1.y, self.anchor1.y, t),
        }
    }

    /// The point at the parameter `t` of the quadratic curve through three
    /// points.
    pub open spec fn spec_quadratic(p0: Point, p1: Point, p2: Point, t: Fixed) -> Point {
        Point {
            x: spec_quadratic_at(p0.x as int, p1.x as int, p2.x as int, t as int) as i64,
            y: spec_quadratic_at(p0.y as int, p1.y as int, p2.y as int, t as int) as i64,
        }
    }

    fn quadratic(p0: Point, p1: Point, p2: Point, t: Fixed) -> (point: Point)
        requires
            0 <= t <= UNIT,
        ensures
            point == Self::spec_quadratic(p0, p1, p2, t),
    {
        Point { x: quadratic_at(p0.x, p1.x, p2.x, t), y: quadratic_at(p0.y, p1.y, p2.y, t) }
    }

    /// The two parts of the curve before and after the parameter `t`. They
    /// meet in the point of the curve at `t`.
    pub open spec fn spec_split(self, t: Fixed) -> (Self, Self) {
        let point_on_curve = self.spec_point_on_curve(t);
        (
            Cubic {
                anchor0: self.anchor0,
                control0: self.anchor0.spec_lerp(self.control0, t),
                control1: Self::spec_quadratic(self.anchor0, self.control0, self.control1, t),
                anchor1: point_on_curve,
            },
            Cubic {
                anchor0: point_on_curve,
                control0: Self::spec_quadratic(self.control0, self.control1, self.anchor1, t),
                control1: self.control1.spec_lerp(self.anchor1, t),
                anchor1: self.anchor1,
            },
        )
    }

    /// Returns the two curves that the curve is made of before and after the
    /// parameter `t`.
    pub fn split(self, t: Fixed) -> (parts: (Self, Self))
        requires
            0 <= t <= UNIT,
        ensures
            parts == self.spec_split(t),
            parts.0.anchor0 == self.anchor0,
            parts.1.anchor1 == self.anchor1,
            parts.0.anchor1 == parts.1.anchor0,
            parts.0.anchor1 == self.spec_point_on_curve(t),
    {
        let point_on_curve: Point = self.point_on_curve(t);
        (
            Self {
                anchor0: self.anchor0,
                control0: self.anchor0.lerp(self.control0, t),
                control1: Self::quadratic(self.anchor0, self.control0, self.control1, t),
                anchor1: point_on_curve,
            },
            Self {
                anchor0: point_on_curve,
                control0: Self::quadratic(self.control0, self.control1, self.anchor1, t),
                control1: self.control1.lerp(self.anchor1, t),
                anchor1: self.anchor1,
            },
        )
    }

    /// The curve whose points are the sums of the points of two curves.
    pub open spec fn spec_plus(self, rhs: Self) -> Self {
        Cubic {
            anchor0: self.anchor0.spec_plus(rhs.anchor0),
            control0: self.control0.spec_plus(rhs.control0),
            control1: self.control1.spec_plus(rhs.control1),
            anchor1: self.anchor1.spec_plus(rhs.anchor1),
        }
    }

    pub fn plus(self, rhs: Self) -> (cubic: Self)
        ensures
            cubic == self.spec_plus(rhs),
    {
        Self {
            anchor0: self.anchor0.plus(rhs.anchor0),
            control0: self.control0.plus(rhs.control0),
            control1: self.control1.plus(rhs.control1),
            anchor1: self.anchor1.plus(rhs.anchor1),
        }
    }

    /// The curve with every point `rhs` times as far from the origin.
    pub open spec fn spec_times(self, rhs: Fixed) -> Self {
        Cubic {
            anchor0: self.anchor0.spec_scaled(rhs),
            control0: self.control0.spec_scaled(rhs),
            control1: self.control1.spec_scaled(rhs),
            anchor1: self.anchor1.spec_scaled(rhs),
        }
    }

    pub fn times(self, rhs: Fixed) -> (cubic: Self)
        ensures
            cubic == self.spec_times(rhs),
    {
        Self {
            anchor0: self.anchor0.scaled(rhs),
            control0: self.control0.scaled(rhs),
            control1: self.control1.scaled(rhs),
            anchor1: self.anchor1.scaled(rhs),
        }
    }

    /// The curve with every point divided by `rhs`.
    pub open spec fn spec_divided(self, rhs: Fixed) -> Self {
        Cubic {
            anchor0: self.anchor0.spec_divided(rhs),
            control0: self.control0.spec_divided(rhs),
            control1: self.control1.spec_divided(rhs),
            anchor1: self.anchor1.spec_divided(rhs),
        }
    }

    pub fn divided(self, rhs: Fixed) -> (cubic: Self)
        ensures
            cubic == self.spec_divided(rhs),
    {
        Self {
            anchor0: self.anchor0.divided(rhs),
            control0: self.control0.divided(rhs),
            control1: self.control1.divided(rhs),
            anchor1: self.anchor1.divided(rhs),
        }
    }

    /// The curve between this one and `other` at the part `t` of the way.
    pub open spec fn spec_lerp(self, other: Self, t: Fixed) -> Self {
        Cubic {
            anchor0: self.anchor0.spec_lerp(other.anchor0, t),
            control0: self.control0.spec_lerp(other.control0, t),
            control1: self.control1.spec_lerp(other.control1, t),
            anchor1: self.anchor1.spec_lerp(other.anchor1, t),
        }
    }

    pub fn lerp(self, other: Self, t: Fixed) -> (cubic: Self)
        ensures
            cubic == self.spec_lerp(other, t),
    {
        Self {
            anchor0: self.anchor0.lerp(other.anchor0, t),
            control0: self.control0.lerp(other.control0, t),
            control1: self.control1.lerp(other.control1, t),
            anchor1: self.anchor1.lerp(other.anchor1, t),
        }
    }

    /// The box round the curve.
    ///
    /// The approximate box is the box round all four points. The exact one
    /// is, along each axis, the extent of the curve itself.
    pub open spec fn spec_aabb(&self, approximate: bool) -> Aabb {
        if approximate {
            Aabb {
                min: self.anchor0.spec_min(self.anchor1).spec_min(
                    self.control0.spec_min(self.control1),
                ),
                max: self.anchor0.spec_max(self.anchor1).spec_max(
                    self.control0.spec_max(self.control1),
                ),
            }
        } else {
            let x = spec_axis_extent(
                self.anchor0.x as int,
                self.control0.x as int,
                self.control1.x as int,
                self.anchor1.x as int,
            );
            let y = spec_axis_extent(
                self.anchor0.y as int,
                self.control0.y as int,
                self.control1.y as int,
                self.anchor1.y as int,
            );
            Aabb {
                min: Point { x: x.0 as i64, y: y.0 as i64 },
                max: Point { x: x.1 as i64, y: y.1 as i64 },
            }
        }
    }

    /// Returns the box round the curve, with sides along the axes.
    pub fn aabb(&self, approximate: bool) -> (bounds: Aabb)
        ensures
            bounds == self.spec_aabb(approximate),
    {
        if approximate {
            return Aabb {
                min: self.anchor0.min(self.anchor1).min(self.control0.min(self.control1)),
                max: self.anchor0.max(self.anchor1).max(self.control0.max(self.control1)),
            };
        }
        let x = axis_extent(self.anchor0.x, self.control0.x, self.control1.x, self.anchor1.x);
        let y = axis_extent(self.anchor0.y, self.control0.y, self.control1.y, self.anchor1.y);
        Aabb { min: Point { x: x.0, y: y.0 }, max: Point { x: x.1, y: y.1 } }
    }

    /// How far from the ends of an arc its control points lie, along the
    /// tangents: `4/3 (sqrt(2 (1 - cos)) - sqrt(1 - cos^2)) / (1 - cos)` times
    /// the radius, for an arc that spans the angle with the cosine `cosa`.
    pub open spec fn spec_arc_reach(radius: Fixed, cosa: Fixed) -> int {
        let one_less = spec_minus(UNIT as int, cosa as int);
        let chord = spec_sqrt(spec_times(2 * UNIT, one_less));
        let sine = spec_sqrt(spec_minus(UNIT as int, spec_times(cosa as int, cosa as int)));
        spec_over(
            spec_times(
                spec_mul_div(radius as int, 4, 3),
                spec_minus(chord, sine),
            ),
            one_less,
        )
    }

    /// The curve that comes nearest to the arc of the circle round `center`
    /// from `p0` to `p1`.
    ///
    /// It starts at `p0` and ends at `p1`. Its control points lie on the
    /// tangents of the circle in the two ends, towards each other; which way
    /// that is for the first one tells the sign of the dot product of the
    /// tangent with the way from the center to `p1`. A flat arc is a straight
    /// line.
    #[verifier::opaque]
    pub open spec fn spec_circular_arc(center: Point, p0: Point, p1: Point) -> Self {
        let p0d = p0.spec_minus(center).spec_normalize();
        let p1d = p1.spec_minus(center).spec_normalize();
        let rotated_p0 = p0d.spec_rotate90();
        let rotated_p1 = p1d.spec_rotate90();
        let clockwise = rotated_p0.spec_dot(p1.spec_minus(center)) >= 0;
        let cosa = p0d.spec_dot(p1d);
        if cosa > FLAT_ARC_COSINE {
            Self::spec_straight_line(p0, p1)
        } else {
            let radius = spec_hypot(
                spec_minus(p0.x as int, center.x as int),
                spec_minus(p0.y as int, center.y as int),
            );
            let reach = Self::spec_arc_reach(radius as i64, cosa as i64);
            let k = if clockwise {
                reach
            } else {
                spec_minus(0, reach)
            };
            Cubic {
                anchor0: p0,
                control0: p0.spec_plus(rotated_p0.spec_scaled(k as i64)),
                control1: p1.spec_plus(rotated_p1.spec_scaled(spec_minus(0, k) as i64)),
                anchor1: p1,
            }
        }
    }

    /// Returns a curve that forms a circular arc.
    pub fn circular_arc(center: Point, p0: Point, p1: Point) -> (cubic: Self)
        ensures
            cubic == Self::spec_circular_arc(center, p0, p1),
            cubic.anchor0 == p0,
            cubic.anchor1 == p1,
    {
        reveal(Cubic::spec_circular_arc);
        let p0d: Point = p0.minus(center).normalize();
        let p1d: Point = p1.minus(center).normalize();
        let rotated_p0: Point = p0d.rotate90();
        let rotated_p1: Point = p1d.rotate90();
        let clockwise: bool = rotated_p0.dot(p1.minus(center)) >= 0;
        let cosa: Fixed = p0d.dot(p1d);
        if cosa > FLAT_ARC_COSINE {
            return Self::straight_line(p0, p1);
        }
        let radius: Fixed = hypot(minus(p0.x, center.x), minus(p0.y, center.y));
        let one_less: Fixed = minus(UNIT, cosa);
        let chord: Fixed = sqrt(times(2 * UNIT, one_less));
        let sine: Fixed = sqrt(minus(UNIT, times(cosa, cosa)));
        let reach: Fixed = over(times(mul_div(radius, 4, 3), minus(chord, sine)), one_less);
        let k: Fixed = if clockwise {
            reach
        } else {
            minus(0, reach)
        };
        Self {
            anchor0: p0,
            control0: p0.plus(rotated_p0.scaled(k)),
            control1: p1.plus(rotated_p1.scaled(minus(0, k))),
            anchor1: p1,
        }
    }
}

/// An arc starts and ends exactly where it is told to.
pub proof fn lemma_arc_ends(center: Point, p0: Point, p1: Point)
    ensures
        Cubic::<Point>::spec_circular_arc(center, p0, p1).anchor0 == p0,
        Cubic::<Point>::spec_circular_arc(center, p0, p1).anchor1 == p1,
{
    reveal(Cubic::spec_circular_arc);
}

/// Run through backwards, a curve passes the same points in reverse order.
pub proof fn lemma_reversed_point_on_curve(cubic: Cubic<Point>, t: Fixed)
    requires
        0 <= t <= UNIT,
    ensures
        cubic.spec_reversed().spec_point_on_curve(t) == cubic.spec_point_on_curve(
            (UNIT - t) as i64,
        ),
{
    lemma_weights_mirror(t as int);
    lemma_cubic_at_mirror(
        cubic.anchor0.x as int,
        cubic.control0.x as int,
        cubic.control1.x as int,
        cubic.anchor1.x as int,
        t as int,
    );
    lemma_cubic_at_mirror(
        cubic.anchor0.y as int,
        cubic.control0.y as int,
        cubic.control1.y as int,
        cubic.anchor1.y as int,
        t as int,
    );
}

/// The two parts of a split curve meet exactly in the point of the curve at
/// the parameter of the split, and keep the ends of the curve.
pub proof fn lemma_split_meets(cubic: Cubic<Point>, t: Fixed)
    requires
        0 <= t <= UNIT,
    ensures
        cubic.spec_split(t).0.anchor1 == cubic.spec_point_on_curve(t),
        cubic.spec_split(t).1.anchor0 == cubic.spec_point_on_curve(t),
        cubic.spec_split(t).0.anchor0 == cubic.anchor0,
        cubic.spec_split(t).1.anchor1 == cubic.anchor1,
{
}

/// `v` lies between `a` and `b`, whichever of them is the smaller.
pub open spec fn lies_between(v: int, a: int, b: int) -> bool {
    (a <= v <= b) || (b <= v <= a)
}

/// One coordinate of a straight line from `a` to `b`: the control points lie
/// between the ends, and the curve at half its parameter is at the middle of
/// the ends, rounded down, or one unit below it.
proof fn lemma_straight_line_axis(a: int, b: int)
    requires
        i64::MIN <= a <= i64::MAX,
        i64::MIN <= b <= i64::MAX,
    ensures
        ({
            let c0 = spec_dot_over(spec_minus(UNIT as int, ONE_THIRD as int), a, ONE_THIRD as int, b, UNIT as int);
            let c1 = spec_dot_over(spec_minus(UNIT as int, TWO_THIRDS as int), a, TWO_THIRDS as int, b, UNIT as int);
            let middle = spec_cubic_at(a, c0, c1, b, 500_000_000);
            &&& lies_between(c0, a, b)
            &&& lies_between(c1, a, b)
            &&& (a + b) / 2 - 1 <= middle <= (a + b) / 2
        }),
{
    let x0 = 666_666_667 * a + 333_333_333 * b;
    let x1 = 333_333_333 * a + 666_666_667 * b;
    let c0 = x0 / 1_000_000_000;
    let c1 = x1 / 1_000_000_000;
    assert(lies_between(c0, a, b));
    assert(lies_between(c1, a, b));
    assert(a + b - 1 <= c0 + c1 <= a + b);
    assert(spec_cubic_weights(500_000_000) == (
        125_000_000_000_000_000_000_000_000int,
        375_000_000_000_000_000_000_000_000int,
        375_000_000_000_000_000_000_000_000int,
        125_000_000_000_000_000_000_000_000int,
    ));
    let sum = a * 125_000_000_000_000_000_000_000_000 + c0 * 375_000_000_000_000_000_000_000_000
        + c1 * 375_000_000_000_000_000_000_000_000 + b * 125_000_000_000_000_000_000_000_000;
    assert(sum == (a + 3 * c0 + 3 * c1 + b) * 125_000_000_000_000_000_000_000_000);
    lemma_quotient_of_quotient(sum, 125_000_000_000_000_000_000_000_000, 8);
    lemma_whole_part(a + 3 * c0 + 3 * c1 + b, 125_000_000_000_000_000_000_000_000);
    assert(125_000_000_000_000_000_000_000_000int * 8 == UNIT_CUBED);
    assert(sum / (UNIT_CUBED as int) == (a + 3 * c0 + 3 * c1 + b) / 8);
}

/// The control points of a straight line lie in the box round its two ends.
/// The curve at half its parameter is at the middle of the two ends, each
/// coordinate rounded down, or one unit below it.
pub proof fn lemma_straight_line(start: Point, end: Point)
    ensures
        ({
            let line = Cubic::<Point>::spec_straight_line(start, end);
            let middle = line.spec_point_on_curve(500_000_000);
            &&& lies_between(line.control0.x as int, start.x as int, end.x as int)
            &&& lies_between(line.control0.y as int, start.y as int, end.y as int)
            &&& lies_between(line.control1.x as int, start.x as int, end.x as int)
            &&& lies_between(line.control1.y as int, start.y as int, end.y as int)
            &&& (start.x + end.x) / 2 - 1 <= middle.x <= (start.x + end.x) / 2
            &&& (start.y + end.y) / 2 - 1 <= middle.y <= (start.y + end.y) / 2
        }),
{
    lemma_straight_line_axis(start.x as int, end.x as int);
    lemma_straight_line_axis(start.y as int, end.y as int);
}

} // verus!
