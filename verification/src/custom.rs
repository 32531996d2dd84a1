use vstd::prelude::*;
use crate::arith::lemma_product_bound;
use crate::assembly::is_polygon_of;
use crate::corner::{CornerRounding, RoundedPoint};
use crate::error::ShapeError;
use crate::fixed::{mul_div, spec_mul_div, Fixed};
use crate::geometry::{Point, UNIT};
use crate::rounded_polygon::{custom_polygon_layout, spec_layout, Placement, RoundedPolygon};
use crate::trig::turned;

verus! {

/// A whole turn in degrees.
pub const FULL_TURN: Fixed = 360_000_000_000;

/// The direction of the axis in which the points of a mirrored polygon are
/// mirrored: from the center towards the first point, or along the x axis if
/// the first point is the center.
pub open spec fn spec_mirror_axis(first: Point, center: Point) -> Point {
    let towards = first.spec_minus(center);
    if towards.spec_length() > 0 {
        towards.spec_normalize()
    } else {
        Point { x: UNIT, y: 0 }
    }
}

/// The point mirrored in the line through `center` along `axis`, a vector
/// of length 1: twice its part along the axis, less the point itself.
pub open spec fn spec_mirrored(point: Point, axis: Point, center: Point) -> Point {
    let v = point.spec_minus(center);
    axis.spec_scaled(v.spec_dot(axis) as i64).spec_scaled(2_000_000_000).spec_minus(v).spec_plus(
        center,
    )
}

/// The vertex of a repeated polygon that stands at the given place.
///
/// Without mirroring the point is turned round the center by as many parts
/// of a turn as its repeat says, of as many as there are repeats. With
/// mirroring there are twice as many repeats; in every other one the point
/// is first mirrored in the line from the center through the first point, so
/// that the repeat runs backwards, and then turned one part further.
pub open spec fn spec_custom_vertex(
    points: Seq<RoundedPoint<Point>>,
    repeats: int,
    center: Point,
    mirroring: bool,
    placement: Placement,
) -> RoundedPoint<Point> {
    let given = points[placement.point as int];
    let iteration = placement.iteration as int;
    RoundedPoint {
        offset: if !mirroring {
            given.offset.spec_rotated(
                spec_mul_div(FULL_TURN as int, iteration, repeats) as i64,
                center,
            )
        } else if iteration % 2 == 0 {
            given.offset.spec_rotated(
                spec_mul_div(FULL_TURN as int, iteration, 2 * repeats) as i64,
                center,
            )
        } else {
            spec_mirrored(
                given.offset,
                spec_mirror_axis(points[0].offset, center),
                center,
            ).spec_rotated(
                spec_mul_div(FULL_TURN as int, iteration + 1, 2 * repeats) as i64,
                center,
            )
        },
        rounding: given.rounding,
    }
}

/// The vertices of the polygon made of `repeats` copies of the given
/// points round `center`, with their roundings.
pub open spec fn spec_custom_vertices(
    points: Seq<RoundedPoint<Point>>,
    repeats: int,
    center: Point,
    mirroring: bool,
) -> Seq<RoundedPoint<Point>> {
    if points.len() == 0 {
        Seq::empty()
    } else {
        let layout = spec_layout(points.len() as int, repeats, mirroring);
        Seq::new(
            layout.len(),
            |k: int| spec_custom_vertex(points, repeats, center, mirroring, layout[k]),
        )
    }
}

/// The places of the given vertices.
pub open spec fn spec_offsets(vertices: Seq<RoundedPoint<Point>>) -> Seq<Point> {
    Seq::new(vertices.len(), |k: int| vertices[k].offset)
}

/// The roundings of the given vertices.
pub open spec fn spec_roundings(vertices: Seq<RoundedPoint<Point>>) -> Seq<CornerRounding> {
    Seq::new(vertices.len(), |k: int| vertices[k].rounding)
}

fn mirror_axis(first: Point, center: Point) -> (axis: Point)
    ensures
        axis == spec_mirror_axis(first, center),
{
    let towards: Point = first.minus(center);
    if towards.length() > 0 {
        towards.normalize()
    } else {
        Point::new(UNIT, 0)
    }
}

fn mirrored(point: Point, axis: Point, center: Point) -> (p: Point)
    ensures
        p == spec_mirrored(point, axis, center),
{
    let v: Point = point.minus(center);
    axis.scaled(v.dot(axis)).scaled(2_000_000_000).minus(v).plus(center)
}

fn custom_polygon(
    points: &Vec<RoundedPoint<Point>>,
    repeats: usize,
    center: Point,
    mirroring: bool,
) -> (r: Result<RoundedPolygon<Point>, ShapeError>)
    requires
        4 * points.len() * repeats <= usize::MAX,
        4 * points.len() * repeats <= i64::MAX,
        2 * repeats + 1 <= i64::MAX,
    ensures
        is_polygon_of(
            spec_offsets(spec_custom_vertices(points@, repeats as int, center, mirroring)),
            CornerRounding { radius: 0, smoothing: 0 },
            spec_roundings(spec_custom_vertices(points@, repeats as int, center, mirroring)),
            Some(center),
            r,
        ),
{
    let ghost expected = spec_custom_vertices(points@, repeats as int, center, mirroring);
    let mut offsets: Vec<Point> = Vec::new();
    let mut roundings: Vec<CornerRounding> = Vec::new();
    if points.len() > 0 {
        proof {
            lemma_product_bound(1, points.len() as int, repeats as int, repeats as int);
            vstd::arithmetic::mul::lemma_mul_is_associative(
                4,
                points.len() as int,
                repeats as int,
            );
            vstd::arithmetic::mul::lemma_mul_is_associative(
                2,
                points.len() as int,
                repeats as int,
            );
            lemma_product_bound(0, points.len() as int, 0, repeats as int);
        }
        let layout = custom_polygon_layout(points.len(), repeats, mirroring);
        let axis: Point = mirror_axis(points[0].offset, center);
        let mut k: usize = 0;
        while k < layout.len()
            invariant
                0 <= k <= layout.len(),
                points.len() > 0,
                2 * repeats + 1 <= i64::MAX,
                layout@ == spec_layout(points.len() as int, repeats as int, mirroring),
                expected == spec_custom_vertices(points@, repeats as int, center, mirroring),
                axis == spec_mirror_axis(points[0].offset, center),
                forall|j: int|
                    0 <= j < layout.len() ==> (#[trigger] layout[j]).point < points.len()
                        && layout[j].iteration < 2 * repeats,
                offsets.len() == k,
                roundings.len() == k,
                forall|j: int| 0 <= j < k ==> #[trigger] offsets[j] == expected[j].offset,
                forall|j: int| 0 <= j < k ==> #[trigger] roundings[j] == expected[j].rounding,
            decreases layout.len() - k,
        {
            let placement: Placement = layout[k];
            let given: RoundedPoint<Point> = points[placement.point];
            let iteration: i64 = placement.iteration as i64;
            let offset: Point = if !mirroring {
                given.offset.rotated(mul_div(FULL_TURN, iteration, repeats as i64), center)
            } else if placement.iteration % 2 == 0 {
                given.offset.rotated(mul_div(FULL_TURN, iteration, 2 * (repeats as i64)), center)
            } else {
                mirrored(given.offset, axis, center).rotated(
                    mul_div(FULL_TURN, iteration + 1, 2 * (repeats as i64)),
                    center,
                )
            };
            offsets.push(offset);
            roundings.push(given.rounding);
            k = k + 1;
        }
        proof {
            assert(offsets@ =~= spec_offsets(expected));
            assert(roundings@ =~= spec_roundings(expected));
        }
    } else {
        proof {
            assert(offsets@ =~= spec_offsets(expected));
            assert(roundings@ =~= spec_roundings(expected));
        }
    }
    proof {
        if points.len() > 0 {
            lemma_layout_len(points.len() as int, repeats as int, mirroring);
        }
    }
    RoundedPolygon::from_points_list(
        &offsets,
        CornerRounding::unrounded(),
        &roundings,
        Some(center),
    )
}

/// A layout has no more places than twice the points times the repeats.
pub proof fn lemma_layout_len(points: int, repeats: int, mirroring: bool)
    requires
        points > 0,
        repeats >= 0,
    ensures
        spec_layout(points, repeats, mirroring).len() <= 2 * points * repeats,
{
    if mirroring {
        lemma_mirrored_len(points, 2 * repeats);
        vstd::arithmetic::mul::lemma_mul_is_associative(2, points, repeats);
        vstd::arithmetic::mul::lemma_mul_is_commutative(points, 2 * repeats);
        vstd::arithmetic::mul::lemma_mul_is_associative(2, repeats, points);
        vstd::arithmetic::mul::lemma_mul_is_commutative(points, repeats);
    } else {
        lemma_product_bound(points, points, repeats, repeats);
        vstd::arithmetic::mul::lemma_mul_is_associative(2, points, repeats);
    }
}

proof fn lemma_mirrored_len(points: int, upto: int)
    requires
        points > 0,
        upto >= 0,
    ensures
        crate::rounded_polygon::mirrored_before(points, upto).len() <= upto * points,
    decreases upto,
{
    if upto > 0 {
        lemma_mirrored_len(points, upto - 1);
        vstd::arithmetic::mul::lemma_mul_is_distributive_add_other_way(points, upto - 1, 1);
    } else {
        assert(0 * points == 0);
    }
}

impl RoundedPolygon<Point> {
    /// Builds the polygon made of `repeats` copies of the given points,
    /// turned round the middle of the unit square, mirrored in turn if asked
    /// for.
    pub fn from_points(points: &Vec<RoundedPoint<Point>>, repeats: usize, mirroring: bool) -> (r: Result<
        Self,
        ShapeError,
    >)
        requires
            4 * points.len() * repeats <= usize::MAX,
            4 * points.len() * repeats <= i64::MAX,
            2 * repeats + 1 <= i64::MAX,
        ensures
            is_polygon_of(
                spec_offsets(
                    spec_custom_vertices(
                        points@,
                        repeats as int,
                        Point { x: 500_000_000, y: 500_000_000 },
                        mirroring,
                    ),
                ),
                CornerRounding { radius: 0, smoothing: 0 },
                spec_roundings(
                    spec_custom_vertices(
                        points@,
                        repeats as int,
                        Point { x: 500_000_000, y: 500_000_000 },
                        mirroring,
                    ),
                ),
                Some(Point { x: 500_000_000, y: 500_000_000 }),
                r,
            ),
    {
        custom_polygon(points, repeats, Point::new(500_000_000, 500_000_000), mirroring)
    }

    /// Builds the polygon made of `repeats` copies of the given points,
    /// turned round `center`.
    pub fn from_points_at(
        points: &Vec<RoundedPoint<Point>>,
        repeats: usize,
        center: Point,
        mirroring: bool,
    ) -> (r: Result<Self, ShapeError>)
        requires
            4 * points.len() * repeats <= usize::MAX,
            4 * points.len() * repeats <= i64::MAX,
            2 * repeats + 1 <= i64::MAX,
        ensures
            is_polygon_of(
                spec_offsets(spec_custom_vertices(points@, repeats as int, center, mirroring)),
                CornerRounding { radius: 0, smoothing: 0 },
                spec_roundings(spec_custom_vertices(points@, repeats as int, center, mirroring)),
                Some(center),
                r,
            ),
    {
        custom_polygon(points, repeats, center, mirroring)
    }
}

} // verus!
