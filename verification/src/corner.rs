use vstd::prelude::*;
use vstd::arithmetic::div_mod::lemma_div_of0;
use crate::arith::{
    lemma_floor, lemma_part_bound, lemma_parts_sum, lemma_product_bound, lemma_whole_part,
};
use crate::cubic::Cubic;
use crate::error::ShapeError;
use crate::fixed::{
    hypot, magnitude, minus, over, plus, spec_hypot, spec_magnitude, spec_minus, spec_over,
    spec_plus, spec_sqrt, spec_times, sqrt, times, Fixed,
};
use crate::geometry::{Point, Vector, DISTANCE_EPSILON, UNIT};

verus! {

/// How the two corners at the ends of a side share it.
#[derive(Debug, Clone, Copy, PartialEq, Eq, Structural)]
pub enum SideFit {
    /// The side is too short even for the rounding alone: each corner gets
    /// the part `side / round_cut` of the cut that its radius asks for, and no
    /// smoothing.
    Shrunk { side: u64, round_cut: u128 },
    /// The rounding fits, the smoothing only in part: each corner gets the
    /// part `room / wanted` of the extra cut that its smoothing asks for.
    Partial { room: u64, wanted: u128 },
    /// Both corners get all they ask for.
    Full,
}

/// How a side of length `side` is shared. `round_cut` is what the radii of
/// the two corners ask for together, `cut` what they ask for with smoothing.
pub open spec fn spec_side_fit(side: int, round_cut: int, cut: int) -> SideFit {
    if round_cut > side {
        SideFit::Shrunk { side: side as u64, round_cut: round_cut as u128 }
    } else if cut > side {
        SideFit::Partial { room: (side - round_cut) as u64, wanted: (cut - round_cut) as u128 }
    } else {
        SideFit::Full
    }
}

/// The cut that a corner may make into a side that is shared as `fit` says.
/// `expected_round_cut` is what the corner's radius asks for, `expected_cut`
/// what it asks for with smoothing. Parts are rounded down.
pub open spec fn spec_allowed_cut(expected_round_cut: int, expected_cut: int, fit: SideFit) -> int {
    match fit {
        SideFit::Shrunk { side, round_cut } => (expected_round_cut * side) / (round_cut as int),
        SideFit::Partial { room, wanted } => expected_round_cut + ((expected_cut
            - expected_round_cut) * room) / (wanted as int),
        SideFit::Full => expected_cut,
    }
}

/// Works out how the corners at the two ends of a side share it.
pub fn side_fit(side: u64, round_cut0: u64, cut0: u64, round_cut1: u64, cut1: u64) -> (fit: SideFit)
    requires
        round_cut0 <= cut0,
        round_cut1 <= cut1,
    ensures
        fit == spec_side_fit(side as int, round_cut0 + round_cut1, cut0 + cut1),
{
    let expected_round_cut: u128 = round_cut0 as u128 + round_cut1 as u128;
    let expected_cut: u128 = cut0 as u128 + cut1 as u128;
    if expected_round_cut > side as u128 {
        // Not enough room for the rounding: see how much of it can be had.
        SideFit::Shrunk { side, round_cut: expected_round_cut }
    } else if expected_cut > side as u128 {
        // Full rounding, but not full smoothing.
        SideFit::Partial {
            room: (side as u128 - expected_round_cut) as u64,
            wanted: expected_cut - expected_round_cut,
        }
    } else {
        SideFit::Full
    }
}

/// `fit` is how some side is shared by a corner with these demands and
/// another one.
pub open spec fn fit_is_for(fit: SideFit, expected_round_cut: int, expected_cut: int) -> bool {
    match fit {
        SideFit::Shrunk { side, round_cut } => side < round_cut && expected_round_cut <= round_cut,
        SideFit::Partial { room, wanted } => room < wanted && expected_cut - expected_round_cut
            <= wanted,
        SideFit::Full => true,
    }
}

/// The cut that a corner may make into a side.
pub fn allowed_cut(expected_round_cut: u64, expected_cut: u64, fit: SideFit) -> (allowed: u64)
    requires
        expected_round_cut <= expected_cut,
        fit_is_for(fit, expected_round_cut as int, expected_cut as int),
    ensures
        allowed == spec_allowed_cut(expected_round_cut as int, expected_cut as int, fit),
        allowed <= expected_cut,
{
    match fit {
        SideFit::Shrunk { side, round_cut } => {
            proof {
                lemma_product_bound(
                    expected_round_cut as int,
                    0xffff_ffff_ffff_ffff,
                    side as int,
                    0xffff_ffff_ffff_ffff,
                );
                lemma_part_bound(expected_round_cut as int, side as int, round_cut as int);
            }
            let part: u128 = ((expected_round_cut as u128) * (side as u128)) / round_cut;
            part as u64
        },
        SideFit::Partial { room, wanted } => {
            let extra: u64 = expected_cut - expected_round_cut;
            proof {
                lemma_product_bound(
                    extra as int,
                    0xffff_ffff_ffff_ffff,
                    room as int,
                    0xffff_ffff_ffff_ffff,
                );
                lemma_part_bound(extra as int, room as int, wanted as int);
            }
            let part: u128 = ((extra as u128) * (room as u128)) / wanted;
            expected_round_cut + part as u64
        },
        SideFit::Full => expected_cut,
    }
}

/// No two corners overlap: the cuts that the corners at the two ends of a
/// side may make into it are together no longer than the side.
pub proof fn lemma_cuts_share_side(
    side: int,
    round_cut0: int,
    cut0: int,
    round_cut1: int,
    cut1: int,
)
    requires
        0 <= side,
        0 <= round_cut0 <= cut0 <= u64::MAX,
        0 <= round_cut1 <= cut1 <= u64::MAX,
        side <= u64::MAX,
    ensures
        ({
            let fit = spec_side_fit(side, round_cut0 + round_cut1, cut0 + cut1);
            &&& fit_is_for(fit, round_cut0, cut0)
            &&& fit_is_for(fit, round_cut1, cut1)
            &&& spec_allowed_cut(round_cut0, cut0, fit) + spec_allowed_cut(round_cut1, cut1, fit)
                <= side
        }),
{
    let round_cut = round_cut0 + round_cut1;
    let cut = cut0 + cut1;
    if round_cut > side {
        lemma_parts_sum(round_cut0, round_cut1, side, round_cut);
        lemma_whole_part(side, round_cut);
    } else if cut > side {
        let room = side - round_cut;
        let wanted = cut - round_cut;
        let extra0 = cut0 - round_cut0;
        let extra1 = cut1 - round_cut1;
        lemma_parts_sum(extra0, extra1, room, wanted);
        lemma_whole_part(room, wanted);
    }
}

/// Smoothing takes its room from the side, as far as there is any: beside
/// a corner without smoothing, on a side that is long enough for the rounding
/// of both corners, a corner may cut as far as it asks for, or up to where
/// the rounding of the other corner begins, whichever is less. What a corner
/// asks for grows with its smoothing `s` as `(1 + s)` times the cut for its
/// radius (see `CornerDemand::spec_expected_cut`); so the straight part of the
/// side shrinks in proportion to `s` until none is left, and stays so.
pub proof fn lemma_cut_beside_plain_corner(side: int, round_cut0: int, cut0: int, round_cut1: int)
    requires
        0 <= round_cut0 <= cut0 <= u64::MAX,
        0 <= round_cut1,
        round_cut0 + round_cut1 <= side <= u64::MAX,
    ensures
        ({
            let fit = spec_side_fit(side, round_cut0 + round_cut1, cut0 + round_cut1);
            let rest = side - round_cut1;
            &&& spec_allowed_cut(round_cut0, cut0, fit) == if cut0 <= rest {
                cut0
            } else {
                rest
            }
            &&& spec_allowed_cut(round_cut1, round_cut1, fit) == round_cut1
        }),
{
    if cut0 + round_cut1 > side {
        let room = side - (round_cut0 + round_cut1);
        let wanted = cut0 - round_cut0;
        lemma_whole_part(room, wanted);
        lemma_div_of0(wanted);
        assert(0 * room == 0);
    }
}

/// What a corner asks for: the radius of its rounding, how much of the cut
/// for that radius it wants on top for smoothing (in units of which `UNIT`
/// make the whole of it), and the cut into each side that the radius alone
/// needs. Lengths are counted in units of which `UNIT` make one unit of the
/// polygon's coordinates.
#[derive(Debug, Clone, Copy, PartialEq, Eq, Structural)]
pub struct CornerDemand {
    pub corner_radius: u64,
    pub smoothing: i64,
    pub expected_round_cut: u64,
}

/// How a corner is to be drawn.
#[derive(Debug, Clone, Copy, PartialEq, Eq, Structural)]
pub enum CornerShape {
    /// A sharp corner: one curve of zero length at the vertex.
    Point,
    /// An arc between two flanking curves. The arc meets the sides at the
    /// distance `actual_round_cut` from the vertex and has the radius
    /// `actual_radius`; the flanking curve on the side towards the previous
    /// vertex is smoothed by `actual_smoothing0`, the other one by
    /// `actual_smoothing1`.
    Rounded { actual_round_cut: u64, actual_radius: u64, actual_smoothing0: i64, actual_smoothing1: i64 },
}

impl CornerDemand {
    /// The smoothing is a part of the whole, and the cut with smoothing is a
    /// length that can be counted.
    pub open spec fn wf(&self) -> bool {
        &&& 0 <= self.smoothing <= UNIT
        &&& self.spec_expected_cut() <= u64::MAX
    }

    /// The cut into each side that the corner asks for with smoothing:
    /// `(1 + smoothing)` times the cut that the radius needs, rounded down.
    pub open spec fn spec_expected_cut(&self) -> int {
        self.expected_round_cut + (self.expected_round_cut * self.smoothing) / (UNIT as int)
    }

    /// The smoothing that a cut of `allowed_cut` leaves room for: all of it
    /// when the cut is what the corner asks for, none when the cut is no
    /// more than the radius needs, and in between the same part of the
    /// smoothing as the cut has of the extra length, rounded down.
    pub open spec fn spec_actual_smoothing(&self, allowed_cut: int) -> int {
        if allowed_cut >= self.spec_expected_cut() {
            self.smoothing as int
        } else if allowed_cut > self.expected_round_cut {
            (self.smoothing * (allowed_cut - self.expected_round_cut)) / (self.spec_expected_cut()
                - self.expected_round_cut)
        } else {
            0
        }
    }

    /// How the corner is drawn when it may cut `allowed_cut0` into the side
    /// towards the previous vertex and `allowed_cut1` into the other one.
    ///
    /// The corner stays sharp when its radius, the cut that the radius needs
    /// or the smaller of the allowed cuts is below `DISTANCE_EPSILON`.
    /// Otherwise the smaller allowed cut, but no more than the radius needs,
    /// goes to the arc, and the radius shrinks with it; what each side has
    /// left goes to smoothing.
    pub open spec fn spec_shape(&self, allowed_cut0: int, allowed_cut1: int) -> CornerShape {
        let allowed_cut = if allowed_cut0 <= allowed_cut1 {
            allowed_cut0
        } else {
            allowed_cut1
        };
        if self.expected_round_cut < DISTANCE_EPSILON || allowed_cut < DISTANCE_EPSILON
            || self.corner_radius < DISTANCE_EPSILON {
            CornerShape::Point
        } else {
            let actual_round_cut = if allowed_cut <= self.expected_round_cut {
                allowed_cut
            } else {
                self.expected_round_cut as int
            };
            CornerShape::Rounded {
                actual_round_cut: actual_round_cut as u64,
                actual_radius: ((self.corner_radius * actual_round_cut) / (
                self.expected_round_cut as int)) as u64,
                actual_smoothing0: self.spec_actual_smoothing(allowed_cut0) as i64,
                actual_smoothing1: self.spec_actual_smoothing(allowed_cut1) as i64,
            }
        }
    }

    pub fn expected_cut(&self) -> (cut: u64)
        requires
            self.wf(),
        ensures
            cut == self.spec_expected_cut(),
            cut >= self.expected_round_cut,
    {
        proof {
            lemma_product_bound(
                self.expected_round_cut as int,
                0xffff_ffff_ffff_ffff,
                self.smoothing as int,
                1_000_000_000,
            );
            lemma_floor(self.expected_round_cut * self.smoothing, UNIT as int);
        }
        let extra: u128 = ((self.expected_round_cut as u128) * (self.smoothing as u128)) / (
        UNIT as u128);
        (self.expected_round_cut as u128 + extra) as u64
    }

    fn calculate_actual_smoothing_value(&self, allowed_cut: u64) -> (smoothing: i64)
        requires
            self.wf(),
        ensures
            smoothing == self.spec_actual_smoothing(allowed_cut as int),
            0 <= smoothing <= self.smoothing,
    {
        let expected_cut: u64 = self.expected_cut();
        if allowed_cut >= expected_cut {
            self.smoothing
        } else if allowed_cut > self.expected_round_cut {
            let have: u64 = allowed_cut - self.expected_round_cut;
            let want: u64 = expected_cut - self.expected_round_cut;
            proof {
                lemma_product_bound(
                    self.smoothing as int,
                    1_000_000_000,
                    have as int,
                    0xffff_ffff_ffff_ffff,
                );
                lemma_part_bound(self.smoothing as int, have as int, want as int);
            }
            let part: u128 = ((self.smoothing as u128) * (have as u128)) / (want as u128);
            part as i64
        } else {
            0
        }
    }

    /// Decides how the corner is drawn within the cuts that it is allowed.
    pub fn get_cubics(&self, allowed_cut0: u64, allowed_cut1: u64) -> (shape: CornerShape)
        requires
            self.wf(),
        ensures
            shape == self.spec_shape(allowed_cut0 as int, allowed_cut1 as int),
    {
        // The smaller cut decides the radius; a side with more room can use
        // it for smoothing.
        let allowed_cut: u64 = if allowed_cut0 <= allowed_cut1 {
            allowed_cut0
        } else {
            allowed_cut1
        };
        let epsilon: u64 = DISTANCE_EPSILON as u64;
        if self.expected_round_cut < epsilon || allowed_cut < epsilon || self.corner_radius
            < epsilon {
            return CornerShape::Point;
        }
        let actual_round_cut: u64 = if allowed_cut <= self.expected_round_cut {
            allowed_cut
        } else {
            self.expected_round_cut
        };
        let actual_smoothing0: i64 = self.calculate_actual_smoothing_value(allowed_cut0);
        let actual_smoothing1: i64 = self.calculate_actual_smoothing_value(allowed_cut1);
        proof {
            lemma_product_bound(
                self.corner_radius as int,
                0xffff_ffff_ffff_ffff,
                actual_round_cut as int,
                0xffff_ffff_ffff_ffff,
            );
            lemma_part_bound(
                self.corner_radius as int,
                actual_round_cut as int,
                self.expected_round_cut as int,
            );
        }
        // The radius shrinks with the cut.
        let actual_radius: u128 = ((self.corner_radius as u128) * (actual_round_cut as u128)) / (
        self.expected_round_cut as u128);
        CornerShape::Rounded {
            actual_round_cut,
            actual_radius: actual_radius as u64,
            actual_smoothing0,
            actual_smoothing1,
        }
    }
}

/// How a vertex is rounded: the radius of the rounding, and how much of the
/// cut for that radius is added for smoothing, in units of which `UNIT` make
/// the whole of it.
#[derive(Debug, Clone, Copy, PartialEq, Eq, Structural)]
pub struct CornerRounding {
    pub radius: Fixed,
    pub smoothing: Fixed,
}

impl CornerRounding {
    /// No rounding at all.
    pub fn unrounded() -> (rounding: Self)
        ensures
            rounding == (CornerRounding { radius: 0, smoothing: 0 }),
    {
        Self { radius: 0, smoothing: 0 }
    }

    pub fn new(radius: Fixed) -> (rounding: Self)
        ensures
            rounding == (CornerRounding { radius, smoothing: 0 }),
    {
        Self { radius, smoothing: 0 }
    }

    pub fn smoothed(radius: Fixed, smoothing: Fixed) -> (rounding: Self)
        ensures
            rounding == (CornerRounding { radius, smoothing }),
    {
        Self { radius, smoothing }
    }
}

/// A vertex of a polygon with its rounding.
#[derive(Debug, Clone, Copy, PartialEq)]
pub struct RoundedPoint<P> {
    pub offset: P,
    pub rounding: CornerRounding,
}

impl<P: Copy> RoundedPoint<P> {
    pub fn unrounded(offset: P) -> (point: Self)
        ensures
            point == (RoundedPoint { offset, rounding: CornerRounding { radius: 0, smoothing: 0 } }),
    {
        Self { offset, rounding: CornerRounding::unrounded() }
    }

    pub fn new(offset: P, rounding: CornerRounding) -> (point: Self)
        ensures
            point == (RoundedPoint { offset, rounding }),
    {
        Self { offset, rounding }
    }
}

/// Below this sine of its angle a corner counts as straight.
pub const FLAT_CORNER_SINE: Fixed = 1_000_000;

/// A length that is not negative, as a count.
pub open spec fn spec_count(length: Fixed) -> u64 {
    if length < 0 {
        0
    } else {
        length as u64
    }
}

pub(crate) fn count(length: Fixed) -> (r: u64)
    ensures
        r == spec_count(length),
{
    if length < 0 {
        0
    } else {
        length as u64
    }
}

/// A count as a length, as far as a length goes.
pub open spec fn spec_length_of(count: u64) -> Fixed {
    if count > i64::MAX {
        i64::MAX
    } else {
        count as i64
    }
}

fn length_of(count: u64) -> (r: Fixed)
    ensures
        r == spec_length_of(count),
{
    if count > i64::MAX as u64 {
        i64::MAX
    } else {
        count as i64
    }
}

/// A vertex of a polygon between its two neighbours, with what its rounding
/// asks for.
#[derive(Debug, Clone, Copy, PartialEq, Eq, Structural)]
pub struct RoundedCorner {
    /// The vertex before, the vertex itself and the vertex after it.
    pub p0: Point,
    pub p1: Point,
    pub p2: Point,
    /// The directions from the vertex towards its neighbours.
    pub d1: Vector,
    pub d2: Vector,
    pub corner_radius: Fixed,
    pub smoothing: Fixed,
    /// The cut into each side that the radius needs.
    pub expected_round_cut: Fixed,
    /// The center of the arc, once the curves of the corner are worked out.
    pub center: Point,
}

impl RoundedCorner {
    /// The corner at `p1` between `p0` and `p2`.
    ///
    /// A corner between two sides that have a length asks for its rounding,
    /// and its radius `r` needs a cut of `r (cos + 1) / sin` into each side,
    /// for the angle between the sides; a corner that is as good as straight
    /// needs none. A corner with a side without length asks for nothing.
    #[verifier::opaque]
    pub open spec fn spec_new(p0: Point, p1: Point, p2: Point, rounding: Option<CornerRounding>) -> Self {
        let v01 = p0.spec_minus(p1);
        let v21 = p2.spec_minus(p1);
        let d01 = v01.spec_length();
        let d21 = v21.spec_length();
        if d01 > 0 && d21 > 0 {
            let d1 = v01.spec_divided(d01 as i64);
            let d2 = v21.spec_divided(d21 as i64);
            let corner_radius = match rounding {
                Some(r) => r.radius,
                None => 0,
            };
            let smoothing = match rounding {
                Some(r) => r.smoothing,
                None => 0,
            };
            let cos_angle = d1.spec_dot(d2);
            let sin_angle = spec_sqrt(spec_minus(UNIT as int, spec_times(cos_angle, cos_angle)));
            RoundedCorner {
                p0,
                p1,
                p2,
                d1,
                d2,
                corner_radius,
                smoothing,
                expected_round_cut: if sin_angle > FLAT_CORNER_SINE {
                    spec_over(
                        spec_times(corner_radius as int, spec_plus(cos_angle, UNIT as int)),
                        sin_angle,
                    ) as i64
                } else {
                    0
                },
                center: Point { x: 0, y: 0 },
            }
        } else {
            RoundedCorner {
                p0,
                p1,
                p2,
                d1: Point { x: 0, y: 0 },
                d2: Point { x: 0, y: 0 },
                corner_radius: 0,
                smoothing: 0,
                expected_round_cut: 0,
                center: Point { x: 0, y: 0 },
            }
        }
    }

    pub fn new(p0: Point, p1: Point, p2: Point, rounding: Option<CornerRounding>) -> (corner: Self)
        ensures
            corner == Self::spec_new(p0, p1, p2, rounding),
    {
        reveal(RoundedCorner::spec_new);
        let mut d1 = Point::zero();
        let mut d2 = Point::zero();
        let mut corner_radius: Fixed = 0;
        let mut smoothing: Fixed = 0;
        let mut expected_round_cut: Fixed = 0;
        let v01: Point = p0.minus(p1);
        let v21: Point = p2.minus(p1);
        let d01: Fixed = v01.length();
        let d21: Fixed = v21.length();
        if d01 > 0 && d21 > 0 {
            d1 = v01.divided(d01);
            d2 = v21.divided(d21);
            corner_radius =
            match rounding {
                Some(r) => r.radius,
                None => 0,
            };
            smoothing =
            match rounding {
                Some(r) => r.smoothing,
                None => 0,
            };
            // The cosine of the angle at p1 is the dot product of the unit
            // vectors to the other two vertices; the sine follows from it.
            let cos_angle: Fixed = d1.dot(d2);
            let sin_angle: Fixed = sqrt(minus(UNIT, times(cos_angle, cos_angle)));
            // tan(A/2) = sin A / (1 + cos A), and tan(A/2) = radius / cut.
            if sin_angle > FLAT_CORNER_SINE {
                expected_round_cut = over(times(corner_radius, plus(cos_angle, UNIT)), sin_angle);
            }
        }
        Self {
            p0,
            p1,
            p2,
            d1,
            d2,
            corner_radius,
            smoothing,
            expected_round_cut,
            center: Point::zero(),
        }
    }

    /// What the corner asks for, in counts: nothing negative, and no more
    /// smoothing than all of it.
    pub open spec fn spec_demand(&self) -> CornerDemand {
        CornerDemand {
            corner_radius: spec_count(self.corner_radius),
            smoothing: if self.smoothing < 0 {
                0
            } else if self.smoothing > UNIT {
                UNIT
            } else {
                self.smoothing
            },
            expected_round_cut: spec_count(self.expected_round_cut),
        }
    }

    pub fn demand(&self) -> (demand: CornerDemand)
        ensures
            demand == self.spec_demand(),
            demand.wf(),
            demand.expected_round_cut <= i64::MAX,
    {
        let smoothing: Fixed = if self.smoothing < 0 {
            0
        } else if self.smoothing > UNIT {
            UNIT
        } else {
            self.smoothing
        };
        let demand = CornerDemand {
            corner_radius: count(self.corner_radius),
            smoothing,
            expected_round_cut: count(self.expected_round_cut),
        };
        proof {
            lemma_part_bound(
                demand.expected_round_cut as int,
                demand.smoothing as int,
                UNIT as int,
            );
        }
        demand
    }

    /// The cut into each side that the corner asks for with smoothing.
    pub open spec fn spec_expected_cut(&self) -> int {
        self.spec_demand().spec_expected_cut()
    }

    pub fn expected_cut(&self) -> (cut: u64)
        ensures
            cut == self.spec_expected_cut(),
    {
        self.demand().expected_cut()
    }

    /// The point in which the line through `p0` in the direction `d0` meets
    /// the line through `p1` in the direction `d1`; none where the lines are
    /// as good as parallel.
    #[verifier::opaque]
    pub open spec fn spec_line_intersection(p0: Point, d0: Point, p1: Point, d1: Point) -> Option<
        Point,
    > {
        let rotated_d1 = d1.spec_rotate90();
        let den = d0.spec_dot(rotated_d1);
        let num = p1.spec_minus(p0).spec_dot(rotated_d1);
        if spec_magnitude(den) < DISTANCE_EPSILON {
            None
        } else if spec_magnitude(den) < spec_times(DISTANCE_EPSILON as int, spec_magnitude(num)) {
            None
        } else {
            Some(p0.spec_plus(d0.spec_scaled(spec_over(num, den) as i64)))
        }
    }

    fn line_intersection(p0: Point, d0: Point, p1: Point, d1: Point) -> (r: Option<Point>)
        ensures
            r == Self::spec_line_intersection(p0, d0, p1, d1),
    {
        reveal(RoundedCorner::spec_line_intersection);
        let rotated_d1: Point = d1.rotate90();
        let den: Fixed = d0.dot(rotated_d1);
        if magnitude(den) < DISTANCE_EPSILON {
            return None;
        }
        let num: Fixed = p1.minus(p0).dot(rotated_d1);
        // The relative size counts as well: the lines may meet too far away.
        if magnitude(den) < times(DISTANCE_EPSILON, magnitude(num)) {
            None
        } else {
            let k: Fixed = over(num, den);
            Some(p0.plus(d0.scaled(k)))
        }
    }

    /// The curve that leads from a side of the corner into its arc.
    ///
    /// It starts on the side at the distance `actual_round_cut (1 +
    /// smoothing)` from the corner and ends on the circle, the part
    /// `smoothing` of the way from where the circle meets this side towards
    /// the middle between that and where it meets the other side. Its second
    /// control point is where the side meets the tangent of the circle in
    /// the end of the curve, or where the circle meets the side if there is
    /// no such point; its first one lies two thirds of the way from its
    /// start to that.
    #[verifier::opaque]
    pub open spec fn spec_flanking_curve(
        actual_round_cut: Fixed,
        actual_smoothing_value: Fixed,
        corner: Point,
        side_start: Point,
        circle_segment_intersection: Point,
        other_circle_segment_intersection: Point,
        circle_center: Point,
        actual_r: Fixed,
    ) -> Result<Cubic<Point>, ShapeError> {
        match side_start.spec_minus(corner).spec_get_direction() {
            Err(e) => Err(e),
            Ok(side_direction) => {
                let curve_start = corner.spec_plus(
                    side_direction.spec_scaled(actual_round_cut).spec_scaled(
                        spec_plus(UNIT as int, actual_smoothing_value as int) as i64,
                    ),
                );
                let p = circle_segment_intersection.spec_lerp(
                    circle_segment_intersection.spec_plus(
                        other_circle_segment_intersection,
                    ).spec_divided(2_000_000_000),
                    actual_smoothing_value,
                );
                let curve_end = circle_center.spec_plus(
                    p.spec_minus(circle_center).spec_normalize().spec_scaled(actual_r),
                );
                let circle_tangent = curve_end.spec_minus(circle_center).spec_rotate90();
                let anchor_end = match Self::spec_line_intersection(
                    side_start,
                    side_direction,
                    curve_end,
                    circle_tangent,
                ) {
                    Some(point) => point,
                    None => circle_segment_intersection,
                };
                let anchor_start = curve_start.spec_plus(
                    anchor_end.spec_scaled(2_000_000_000),
                ).spec_divided(3_000_000_000);
                Ok(
                    Cubic {
                        anchor0: curve_start,
                        control0: anchor_start,
                        control1: anchor_end,
                        anchor1: curve_end,
                    },
                )
            },
        }
    }

    fn compute_flanking_curve(
        actual_round_cut: Fixed,
        actual_smoothing_value: Fixed,
        corner: Point,
        side_start: Point,
        circle_segment_intersection: Point,
        other_circle_segment_intersection: Point,
        circle_center: Point,
        actual_r: Fixed,
    ) -> (r: Result<Cubic<Point>, ShapeError>)
        ensures
            r == Self::spec_flanking_curve(
                actual_round_cut,
                actual_smoothing_value,
                corner,
                side_start,
                circle_segment_intersection,
                other_circle_segment_intersection,
                circle_center,
                actual_r,
            ),
    {
        reveal(RoundedCorner::spec_flanking_curve);
        let side_direction: Point = match side_start.minus(corner).get_direction() {
            Ok(direction) => direction,
            Err(e) => {
                return Err(e);
            },
        };
        let curve_start: Point = corner.plus(
            side_direction.scaled(actual_round_cut).scaled(plus(UNIT, actual_smoothing_value)),
        );
        // A part of the circle section in proportion to the smoothing is cut
        // off: none of it without smoothing, all of it with full smoothing.
        let p: Point = circle_segment_intersection.lerp(
            circle_segment_intersection.plus(other_circle_segment_intersection).divided(
                2_000_000_000,
            ),
            actual_smoothing_value,
        );
        // The flanking curve ends on the circle.
        let curve_end: Point = circle_center.plus(
            p.minus(circle_center).normalize().scaled(actual_r),
        );
        let circle_tangent: Point = curve_end.minus(circle_center).rotate90();
        let anchor_end: Point = match Self::line_intersection(
            side_start,
            side_direction,
            curve_end,
            circle_tangent,
        ) {
            Some(point) => point,
            None => circle_segment_intersection,
        };
        let anchor_start: Point = curve_start.plus(anchor_end.scaled(2_000_000_000)).divided(
            3_000_000_000,
        );
        Ok(Cubic::new(curve_start, anchor_start, anchor_end, curve_end))
    }

    /// The curves of the corner within the cuts that it is allowed, and the
    /// center of its arc.
    ///
    /// A corner that stays sharp is one straight line without length at the
    /// vertex, which is its center too. A rounded one is an arc between two
    /// flanking curves; the center of the arc lies on the bisector of the
    /// corner.
    #[verifier::opaque]
    pub open spec fn spec_get_cubics(&self, allowed_cut0: u64, allowed_cut1: u64) -> Result<
        (Seq<Cubic<Point>>, Point),
        ShapeError,
    > {
        match self.spec_demand().spec_shape(allowed_cut0 as int, allowed_cut1 as int) {
            CornerShape::Point => Ok(
                (seq![Cubic::<Point>::spec_straight_line(self.p1, self.p1)], self.p1),
            ),
            CornerShape::Rounded {
                actual_round_cut,
                actual_radius,
                actual_smoothing0,
                actual_smoothing1,
            } => {
                let cut = spec_length_of(actual_round_cut);
                let radius = spec_length_of(actual_radius);
                match self.d1.spec_plus(self.d2).spec_divided(2_000_000_000).spec_get_direction() {
                    Err(e) => Err(e),
                    Ok(bisector) => {
                        let center = self.p1.spec_plus(
                            bisector.spec_scaled(spec_hypot(radius as int, cut as int) as i64),
                        );
                        let circle_intersection0 = self.p1.spec_plus(self.d1.spec_scaled(cut));
                        let circle_intersection2 = self.p1.spec_plus(self.d2.spec_scaled(cut));
                        match Self::spec_flanking_curve(
                            cut,
                            actual_smoothing0,
                            self.p1,
                            self.p0,
                            circle_intersection0,
                            circle_intersection2,
                            center,
                            radius,
                        ) {
                            Err(e) => Err(e),
                            Ok(flanking0) => match Self::spec_flanking_curve(
                                cut,
                                actual_smoothing1,
                                self.p1,
                                self.p2,
                                circle_intersection2,
                                circle_intersection0,
                                center,
                                radius,
                            ) {
                                Err(e) => Err(e),
                                Ok(flanking) => {
                                    let flanking2 = flanking.spec_reversed();
                                    Ok(
                                        (
                                            seq![
                                                flanking0,
                                                Cubic::<Point>::spec_circular_arc(
                                                    center,
                                                    flanking0.anchor1,
                                                    flanking2.anchor0,
                                                ),
                                                flanking2,
                                            ],
                                            center,
                                        ),
                                    )
                                },
                            },
                        }
                    },
                }
            },
        }
    }

    /// Works out the curves of the corner within the cuts that it is allowed
    /// into the side towards the previous vertex and into the other one.
    pub fn get_cubics(&mut self, allowed_cut0: u64, allowed_cut1: u64) -> (r: Result<
        Vec<Cubic<Point>>,
        ShapeError,
    >)
        ensures
            match old(self).spec_get_cubics(allowed_cut0, allowed_cut1) {
                Ok((cubics, center)) => {
                    &&& r matches Ok(v)
                    &&& v@ == cubics
                    &&& *final(self) == (RoundedCorner { center, ..*old(self) })
                    &&& is_chain(v@)
                    &&& (v.len() == 1 || v.len() == 3)
                },
                Err(e) => r == Err::<Vec<Cubic<Point>>, ShapeError>(e) && *final(self) == *old(self),
            },
    {
        reveal(RoundedCorner::spec_get_cubics);
        let mut cubics: Vec<Cubic<Point>> = Vec::new();
        match self.demand().get_cubics(allowed_cut0, allowed_cut1) {
            CornerShape::Point => {
                // Nothing to round: the corner is a point.
                self.center = self.p1;
                cubics.push(Cubic::straight_line(self.p1, self.p1));
                proof {
                    assert(cubics@ =~= seq![
                        Cubic::<Point>::spec_straight_line(self.p1, self.p1),
                    ]);
                }
                Ok(cubics)
            },
            CornerShape::Rounded {
                actual_round_cut,
                actual_radius,
                actual_smoothing0,
                actual_smoothing1,
            } => {
                let cut: Fixed = length_of(actual_round_cut);
                let radius: Fixed = length_of(actual_radius);
                let bisector: Point = match self.d1.plus(self.d2).divided(
                    2_000_000_000,
                ).get_direction() {
                    Ok(direction) => direction,
                    Err(e) => {
                        return Err(e);
                    },
                };
                // The center of the arc lies on the bisector.
                let center: Point = self.p1.plus(bisector.scaled(hypot(radius, cut)));
                let circle_intersection0: Point = self.p1.plus(self.d1.scaled(cut));
                let circle_intersection2: Point = self.p1.plus(self.d2.scaled(cut));
                let flanking0 = match Self::compute_flanking_curve(
                    cut,
                    actual_smoothing0,
                    self.p1,
                    self.p0,
                    circle_intersection0,
                    circle_intersection2,
                    center,
                    radius,
                ) {
                    Ok(curve) => curve,
                    Err(e) => {
                        return Err(e);
                    },
                };
                let flanking2 = match Self::compute_flanking_curve(
                    cut,
                    actual_smoothing1,
                    self.p1,
                    self.p2,
                    circle_intersection2,
                    circle_intersection0,
                    center,
                    radius,
                ) {
                    Ok(curve) => curve.reversed(),
                    Err(e) => {
                        return Err(e);
                    },
                };
                let flanking1 = Cubic::circular_arc(center, flanking0.anchor1, flanking2.anchor0);
                self.center = center;
                cubics.push(flanking0);
                cubics.push(flanking1);
                cubics.push(flanking2);
                proof {
                    assert(cubics@ =~= seq![flanking0, flanking1, flanking2]);
                }
                Ok(cubics)
            },
        }
    }
}

/// Each curve of the chain starts exactly where the one before it ends.
pub open spec fn is_chain(cubics: Seq<Cubic<Point>>) -> bool {
    forall|i: int| 0 <= i < cubics.len() - 1 ==> (#[trigger] cubics[i]).anchor1 == cubics[i + 1].anchor0
}

} // verus!
