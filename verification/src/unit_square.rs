use vstd::prelude::*;
use vstd::arithmetic::div_mod::lemma_div_of0;
use vstd::arithmetic::mul::{lemma_mul_is_distributive_add, lemma_mul_is_distributive_sub};
use crate::arith::{lemma_floor_of_any, lemma_part_bound, lemma_quotient_ordered, lemma_whole_part};
use crate::bezier::{spec_cubic_at, spec_cubic_weights, spec_quadratic_at};
use crate::cubic::Cubic;
use crate::feature::Feature;
use crate::fixed::{spec_dot_over, spec_minus, spec_over, spec_plus};
use crate::geometry::{Aabb, Point, UNIT};
use crate::rounded_polygon::{
    holds_within, is_normalized_from, lemma_normalizer_sends, spec_bounds, spec_closed,
    spec_empty_box, spec_outline, visit, visit_feature, visit_features, Normalizer, RoundedPolygon,
};

verus! {

/// Coordinates up to this size are moved and resized without leaving the
/// range of the numbers that hold them.
pub const COORDINATE_LIMIT: i64 = 0x2000_0000_0000_0000;

/// The square from the origin to the point `(1, 1)`.
pub open spec fn unit_square() -> Aabb {
    Aabb { min: Point { x: 0, y: 0 }, max: Point { x: UNIT, y: UNIT } }
}

/// The box is not empty, and no coordinate of it is beyond
/// `COORDINATE_LIMIT`.
pub open spec fn within_limit(bounds: Aabb) -> bool {
    &&& -COORDINATE_LIMIT <= bounds.min.x <= bounds.max.x <= COORDINATE_LIMIT
    &&& -COORDINATE_LIMIT <= bounds.min.y <= bounds.max.y <= COORDINATE_LIMIT
}

/// All four points of the curve lie in the box.
pub open spec fn curve_within(cubic: Cubic<Point>, bounds: Aabb) -> bool {
    &&& holds_within(bounds, cubic.anchor0, 0)
    &&& holds_within(bounds, cubic.control0, 0)
    &&& holds_within(bounds, cubic.control1, 0)
    &&& holds_within(bounds, cubic.anchor1, 0)
}

/// All points of all the curves lie in the box.
pub open spec fn curves_within(cubics: Seq<Cubic<Point>>, bounds: Aabb) -> bool {
    forall|i: int| 0 <= i < cubics.len() ==> curve_within(#[trigger] cubics[i], bounds)
}

/// All points of all curves of all the features lie in the box.
pub open spec fn features_within(features: Seq<Feature<Point>>, bounds: Aabb) -> bool {
    forall|i: int|
        0 <= i < features.len() ==> curves_within((#[trigger] features[i]).cubics@, bounds)
}

/// An outline of curves in a box stays in the box when a curve in the box
/// joins it.
proof fn lemma_visit_within(outline: Seq<Cubic<Point>>, cubic: Cubic<Point>, bounds: Aabb)
    requires
        curves_within(outline, bounds),
        curve_within(cubic, bounds),
    ensures
        curves_within(visit(outline, cubic), bounds),
{
    let after = visit(outline, cubic);
    assert forall|i: int| 0 <= i < after.len() implies curve_within(
        #[trigger] after[i],
        bounds,
    ) by {
        if i < outline.len() {
            assert(curve_within(outline[i], bounds));
        }
    }
}

proof fn lemma_visit_feature_within(
    outline: Seq<Cubic<Point>>,
    cubics: Seq<Cubic<Point>>,
    upto: int,
    bounds: Aabb,
)
    requires
        curves_within(outline, bounds),
        curves_within(cubics, bounds),
        upto <= cubics.len(),
    ensures
        curves_within(visit_feature(outline, cubics, upto), bounds),
    decreases upto,
{
    if upto > 0 {
        lemma_visit_feature_within(outline, cubics, upto - 1, bounds);
        assert(curve_within(cubics[upto - 1], bounds));
        lemma_visit_within(visit_feature(outline, cubics, upto - 1), cubics[upto - 1], bounds);
    }
}

proof fn lemma_visit_features_within(
    outline: Seq<Cubic<Point>>,
    features: Seq<Feature<Point>>,
    from: int,
    upto: int,
    bounds: Aabb,
)
    requires
        curves_within(outline, bounds),
        features_within(features, bounds),
        0 <= from,
        upto <= features.len(),
    ensures
        curves_within(visit_features(outline, features, from, upto), bounds),
    decreases upto - from,
{
    if upto > from {
        lemma_visit_features_within(outline, features, from, upto - 1, bounds);
        assert(curves_within(features[upto - 1].cubics@, bounds));
        lemma_visit_feature_within(
            visit_features(outline, features, from, upto - 1),
            features[upto - 1].cubics@,
            features[upto - 1].cubics.len() as int,
            bounds,
        );
    }
}

/// One coordinate of the two halves of a curve: what lies between the
/// points of the curve lies between the smallest and the largest of them.
proof fn lemma_half_axis(a0: int, c0: int, c1: int, a1: int, low: int, high: int)
    requires
        i64::MIN <= low <= a0 <= high <= i64::MAX,
        low <= c0 <= high,
        low <= c1 <= high,
        low <= a1 <= high,
    ensures
        low <= spec_cubic_at(a0, c0, c1, a1, 500_000_000) <= high,
        low <= spec_quadratic_at(a0, c0, c1, 500_000_000) <= high,
        low <= spec_quadratic_at(c0, c1, a1, 500_000_000) <= high,
        low <= spec_dot_over(spec_minus(UNIT as int, 500_000_000), a0, 500_000_000, c0, UNIT as int)
            <= high,
        low <= spec_dot_over(spec_minus(UNIT as int, 500_000_000), c1, 500_000_000, a1, UNIT as int)
            <= high,
{
    assert(spec_cubic_weights(500_000_000) == (
        125_000_000_000_000_000_000_000_000int,
        375_000_000_000_000_000_000_000_000int,
        375_000_000_000_000_000_000_000_000int,
        125_000_000_000_000_000_000_000_000int,
    ));
    assert(500_000_000int * 500_000_000int == 250_000_000_000_000_000int);
    assert(2 * 500_000_000int * 500_000_000int == 500_000_000_000_000_000int);
    let sum = a0 * 125_000_000_000_000_000_000_000_000 + c0 * 375_000_000_000_000_000_000_000_000
        + c1 * 375_000_000_000_000_000_000_000_000 + a1 * 125_000_000_000_000_000_000_000_000;
    assert(low * 1_000_000_000_000_000_000_000_000_000 <= sum <= high
        * 1_000_000_000_000_000_000_000_000_000);
    assert(low <= sum / 1_000_000_000_000_000_000_000_000_000 <= high);
    let half = spec_minus(UNIT as int, 500_000_000);
    assert(half == 500_000_000);
    assert(half * a0 == 500_000_000 * a0);
    assert(half * c1 == 500_000_000 * c1);
    assert(low <= (500_000_000 * a0 + 500_000_000 * c0) / 1_000_000_000 <= high);
    assert(low <= (500_000_000 * c1 + 500_000_000 * a1) / 1_000_000_000 <= high);
}

/// The two halves of a curve in a box lie in the box.
proof fn lemma_halves_within(cubic: Cubic<Point>, bounds: Aabb)
    requires
        curve_within(cubic, bounds),
    ensures
        curve_within(cubic.spec_split(500_000_000).0, bounds),
        curve_within(cubic.spec_split(500_000_000).1, bounds),
{
    lemma_half_axis(
        cubic.anchor0.x as int,
        cubic.control0.x as int,
        cubic.control1.x as int,
        cubic.anchor1.x as int,
        bounds.min.x as int,
        bounds.max.x as int,
    );
    lemma_half_axis(
        cubic.anchor0.y as int,
        cubic.control0.y as int,
        cubic.control1.y as int,
        cubic.anchor1.y as int,
        bounds.min.y as int,
        bounds.max.y as int,
    );
}

/// The outline of features in a box, round a center in the box, lies in the
/// box.
pub proof fn lemma_outline_within(features: Seq<Feature<Point>>, center: Point, bounds: Aabb)
    requires
        features_within(features, bounds),
        holds_within(bounds, center, 0),
    ensures
        curves_within(spec_outline(features, center), bounds),
{
    let n = features.len() as int;
    let empty = Seq::<Cubic<Point>>::empty();
    assert(curves_within(empty, bounds));
    let open = if n > 0 && features[0].cubics.len() == 3 {
        let first = features[0].cubics@;
        assert(curves_within(first, bounds));
        assert(curve_within(first[0], bounds));
        assert(curve_within(first[1], bounds));
        assert(curve_within(first[2], bounds));
        let halves = first[1].spec_split(500_000_000);
        lemma_halves_within(first[1], bounds);
        lemma_visit_within(empty, halves.1, bounds);
        lemma_visit_within(visit(empty, halves.1), first[2], bounds);
        let head = visit(visit(empty, halves.1), first[2]);
        lemma_visit_features_within(head, features, 1, n, bounds);
        let body = visit_features(head, features, 1, n);
        lemma_visit_within(body, first[0], bounds);
        lemma_visit_within(visit(body, first[0]), halves.0, bounds);
        visit(visit(body, first[0]), halves.0)
    } else {
        lemma_visit_features_within(empty, features, 0, n, bounds);
        visit_features(empty, features, 0, n)
    };
    let closed = spec_closed(open, center);
    assert forall|i: int| 0 <= i < closed.len() implies curve_within(
        #[trigger] closed[i],
        bounds,
    ) by {
        if open.len() > 0 {
            assert(curve_within(open[i], bounds));
            assert(curve_within(open[0], bounds));
        }
    }
}

/// The box round curves that lie in a box lies in that box.
pub proof fn lemma_bounds_within(cubics: Seq<Cubic<Point>>, upto: int, bounds: Aabb)
    requires
        curves_within(cubics, bounds),
        0 < upto <= cubics.len(),
    ensures
        holds_within(bounds, spec_bounds(cubics, true, upto).min, 0),
        holds_within(bounds, spec_bounds(cubics, true, upto).max, 0),
    decreases upto,
{
    let cubic = cubics[upto - 1];
    let next = cubic.spec_aabb(true);
    let before = spec_bounds(cubics, true, upto - 1);
    assert(curve_within(cubic, bounds));
    assert(holds_within(bounds, next.min, 0) && holds_within(bounds, next.max, 0));
    if upto > 1 {
        lemma_bounds_within(cubics, upto - 1, bounds);
    } else {
        assert(before == spec_empty_box());
    }
    assert(spec_bounds(cubics, true, upto) == Aabb {
        min: before.min.spec_min(next.min),
        max: before.max.spec_max(next.max),
    });
}

/// One coordinate of a point in a box, moved and resized as the box is
/// brought into the unit square, lies between 0 and 1.
proof fn lemma_normalized_axis(low: int, high: int, max_side: int, p: int)
    requires
        -COORDINATE_LIMIT <= low <= p <= high <= COORDINATE_LIMIT,
        high - low <= max_side <= 2 * COORDINATE_LIMIT,
    ensures
        ({
            let side = spec_minus(high, low);
            let offset = spec_minus(spec_minus(max_side, side) / 2, low);
            0 <= spec_over(spec_plus(p, offset), max_side) <= UNIT
        }),
{
    let side = high - low;
    let moved = p - low + (max_side - side) / 2;
    assert(0 <= moved <= max_side);
    if max_side > 0 {
        lemma_part_bound(UNIT as int, moved, max_side);
        assert(moved * UNIT + 0 * 0 == moved * UNIT);
    }
}

/// A point in a box is sent into the unit square by what brings the box
/// there.
pub proof fn lemma_normalizer_into_unit_square(bounds: Aabb, point: Point)
    requires
        within_limit(bounds),
        holds_within(bounds, point, 0),
    ensures
        holds_within(unit_square(), Normalizer::spec_for(bounds).spec_transform(point), 0),
{
    let width = bounds.max.x - bounds.min.x;
    let height = bounds.max.y - bounds.min.y;
    let max_side = if width >= height {
        width
    } else {
        height
    };
    lemma_normalized_axis(bounds.min.x as int, bounds.max.x as int, max_side, point.x as int);
    lemma_normalized_axis(bounds.min.y as int, bounds.max.y as int, max_side, point.y as int);
}

/// A normalized polygon lies in the unit square: the box round all points
/// of its outline does.
///
/// This holds of a polygon whose outline has a box that is not empty and
/// has no coordinate beyond `COORDINATE_LIMIT`, and holds the center and all
/// points of all features: a curve of zero length is no part of the outline,
/// so that its control points may lie outside of that box, and after resizing
/// the curve may have a length.
pub proof fn lemma_normalized_lies_in_unit_square(
    polygon: RoundedPolygon<Point>,
    normalized: RoundedPolygon<Point>,
)
    requires
        is_normalized_from(polygon, normalized),
        within_limit(spec_bounds(polygon.cubics@, true, polygon.cubics.len() as int)),
        features_within(
            polygon.features@,
            spec_bounds(polygon.cubics@, true, polygon.cubics.len() as int),
        ),
        holds_within(
            spec_bounds(polygon.cubics@, true, polygon.cubics.len() as int),
            polygon.center,
            0,
        ),
    ensures
        holds_within(
            unit_square(),
            spec_bounds(normalized.cubics@, true, normalized.cubics.len() as int).min,
            0,
        ),
        holds_within(
            unit_square(),
            spec_bounds(normalized.cubics@, true, normalized.cubics.len() as int).max,
            0,
        ),
{
    let bounds = spec_bounds(polygon.cubics@, true, polygon.cubics.len() as int);
    let normalizer = Normalizer::spec_for(bounds);
    let square = unit_square();
    lemma_normalizer_into_unit_square(bounds, polygon.center);
    assert forall|i: int| 0 <= i < normalized.features.len() implies curves_within(
        (#[trigger] normalized.features@[i]).cubics@,
        square,
    ) by {
        let before = polygon.features[i];
        let after = normalized.features[i];
        assert(before.is_transformed_to(&normalizer, after));
        assert(curves_within(polygon.features@[i].cubics@, bounds));
        assert forall|j: int| 0 <= j < after.cubics.len() implies curve_within(
            #[trigger] after.cubics@[j],
            square,
        ) by {
            let from = before.cubics[j];
            let to = after.cubics[j];
            assert(from.is_transformed_to(&normalizer, to));
            assert(curve_within(before.cubics@[j], bounds));
            lemma_normalizer_sends(&normalizer, from.anchor0, to.anchor0);
            lemma_normalizer_sends(&normalizer, from.control0, to.control0);
            lemma_normalizer_sends(&normalizer, from.control1, to.control1);
            lemma_normalizer_sends(&normalizer, from.anchor1, to.anchor1);
            lemma_normalizer_into_unit_square(bounds, from.anchor0);
            lemma_normalizer_into_unit_square(bounds, from.control0);
            lemma_normalizer_into_unit_square(bounds, from.control1);
            lemma_normalizer_into_unit_square(bounds, from.anchor1);
        }
    }
    lemma_outline_within(normalized.features@, normalized.center, square);
    lemma_bounds_within(normalized.cubics@, normalized.cubics.len() as int, square);
}

/// One coordinate of the two corners of a box, moved and resized as the box
/// is brought into the unit square. A side as long as the longer side comes
/// to lie from 0 to 1. Any side comes to lie in the middle, its two ends
/// together within two units and the part `1 / max_side` of a unit below 1;
/// and it keeps its length in proportion, to within a unit.
proof fn lemma_normalized_side(low: int, high: int, max_side: int)
    requires
        -COORDINATE_LIMIT <= low <= high <= COORDINATE_LIMIT,
        high - low <= max_side <= 2 * COORDINATE_LIMIT,
        0 < max_side,
    ensures
        ({
            let side = spec_minus(high, low);
            let offset = spec_minus(spec_minus(max_side, side) / 2, low);
            let first = spec_over(spec_plus(low, offset), max_side);
            let last = spec_over(spec_plus(high, offset), max_side);
            &&& side == max_side ==> first == 0 && last == UNIT
            &&& max_side * UNIT - UNIT - 2 * max_side < max_side * (first + last) <= max_side
                * UNIT
            &&& side * UNIT - max_side < max_side * (last - first) < side * UNIT + max_side
        }),
{
    let side = high - low;
    let half = (max_side - side) / 2;
    let first = (half * UNIT) / max_side;
    let last = ((side + half) * UNIT) / max_side;
    assert(half * UNIT + 0 * 0 == half * UNIT);
    assert((side + half) * UNIT + 0 * 0 == (side + half) * UNIT);
    assert(0 <= half && side + half <= max_side);
    lemma_part_bound(UNIT as int, half, max_side);
    lemma_part_bound(UNIT as int, side + half, max_side);
    lemma_floor_of_any(half * UNIT, max_side);
    lemma_floor_of_any((side + half) * UNIT, max_side);
    lemma_mul_is_distributive_add(max_side, first, last);
    lemma_mul_is_distributive_sub(max_side, last, first);
    if side == max_side {
        lemma_whole_part(UNIT as int, max_side);
        assert(0 * UNIT == 0);
        lemma_div_of0(max_side);
    }
}

/// One coordinate of two points in a box, moved and resized as the box is
/// brought into the unit square: they stay in their order.
proof fn lemma_normalized_order(low: int, high: int, max_side: int, p: int, q: int)
    requires
        -COORDINATE_LIMIT <= low <= p <= q <= high <= COORDINATE_LIMIT,
        high - low <= max_side <= 2 * COORDINATE_LIMIT,
    ensures
        ({
            let side = spec_minus(high, low);
            let offset = spec_minus(spec_minus(max_side, side) / 2, low);
            spec_over(spec_plus(p, offset), max_side) <= spec_over(spec_plus(q, offset), max_side)
        }),
{
    let side = high - low;
    let half = (max_side - side) / 2;
    if max_side > 0 {
        let from = (p - low + half) * UNIT;
        let to = (q - low + half) * UNIT;
        assert(from + 0 * 0 == from);
        assert(to + 0 * 0 == to);
        lemma_part_bound(UNIT as int, p - low + half, max_side);
        lemma_part_bound(UNIT as int, q - low + half, max_side);
        lemma_quotient_ordered(from, to, max_side);
    }
}

/// The longer side of a box.
pub open spec fn spec_longer_side(bounds: Aabb) -> int {
    let width = bounds.max.x - bounds.min.x;
    let height = bounds.max.y - bounds.min.y;
    if width >= height {
        width
    } else {
        height
    }
}

/// What brings a box into the unit square makes its longer side 1, puts the
/// box in the middle of the square, and resizes both sides alike.
///
/// The corners of the box are sent to points that lie at 0 and at 1 along
/// the longer side. Along either side, the two coordinates are together
/// within two units and the part `1 / longer side` of a unit below 1, and
/// their difference is, to within a unit, the side divided by the longer
/// side.
pub proof fn lemma_normalizer_fills_unit_square(bounds: Aabb)
    requires
        within_limit(bounds),
        spec_longer_side(bounds) > 0,
    ensures
        ({
            let normalizer = Normalizer::spec_for(bounds);
            let first = normalizer.spec_transform(bounds.min);
            let last = normalizer.spec_transform(bounds.max);
            let side = spec_longer_side(bounds);
            let width = bounds.max.x - bounds.min.x;
            let height = bounds.max.y - bounds.min.y;
            &&& width >= height ==> first.x == 0 && last.x == UNIT
            &&& height >= width ==> first.y == 0 && last.y == UNIT
            &&& side * UNIT - UNIT - 2 * side < side * (first.x + last.x) <= side * UNIT
            &&& side * UNIT - UNIT - 2 * side < side * (first.y + last.y) <= side * UNIT
            &&& width * UNIT - side < side * (last.x - first.x) < width * UNIT + side
            &&& height * UNIT - side < side * (last.y - first.y) < height * UNIT + side
        }),
{
    let side = spec_longer_side(bounds);
    lemma_normalized_side(bounds.min.x as int, bounds.max.x as int, side);
    lemma_normalized_side(bounds.min.y as int, bounds.max.y as int, side);
}

/// What brings a box into the unit square keeps points of the box in their
/// order, along both axes.
pub proof fn lemma_normalizer_keeps_order(bounds: Aabb, p: Point, q: Point)
    requires
        within_limit(bounds),
        holds_within(bounds, p, 0),
        holds_within(bounds, q, 0),
    ensures
        ({
            let normalizer = Normalizer::spec_for(bounds);
            &&& p.x <= q.x ==> normalizer.spec_transform(p).x <= normalizer.spec_transform(q).x
            &&& p.y <= q.y ==> normalizer.spec_transform(p).y <= normalizer.spec_transform(q).y
        }),
{
    let side = spec_longer_side(bounds);
    if p.x <= q.x {
        lemma_normalized_order(
            bounds.min.x as int,
            bounds.max.x as int,
            side,
            p.x as int,
            q.x as int,
        );
    }
    if p.y <= q.y {
        lemma_normalized_order(
            bounds.min.y as int,
            bounds.max.y as int,
            side,
            p.y as int,
            q.y as int,
        );
    }
}

/// The curve with each of its points sent where `normalizer` sends it.
pub open spec fn spec_moved(normalizer: Normalizer, cubic: Cubic<Point>) -> Cubic<Point> {
    Cubic {
        anchor0: normalizer.spec_transform(cubic.anchor0),
        control0: normalizer.spec_transform(cubic.control0),
        control1: normalizer.spec_transform(cubic.control1),
        anchor1: normalizer.spec_transform(cubic.anchor1),
    }
}

/// The outline `after` is the outline `before` moved curve by curve.
pub open spec fn is_outline_moved(
    before: Seq<Cubic<Point>>,
    normalizer: Normalizer,
    after: Seq<Cubic<Point>>,
) -> bool {
    &&& after.len() == before.len()
    &&& forall|i: int|
        0 <= i < before.len() ==> #[trigger] after[i] == spec_moved(normalizer, before[i])
}

/// The box round all points of some curves holds all points of each of
/// them.
pub proof fn lemma_bounds_hold_curves(cubics: Seq<Cubic<Point>>, upto: int, i: int)
    requires
        0 <= i < upto <= cubics.len(),
    ensures
        curve_within(cubics[i], spec_bounds(cubics, true, upto)),
    decreases upto,
{
    if i < upto - 1 {
        lemma_bounds_hold_curves(cubics, upto - 1, i);
    }
}

/// What brings a box into the unit square sends the smaller and the larger
/// of two points of the box to the smaller and the larger of the two points
/// that it sends them to.
proof fn lemma_moved_min_max(bounds: Aabb, p: Point, q: Point)
    requires
        within_limit(bounds),
        holds_within(bounds, p, 0),
        holds_within(bounds, q, 0),
    ensures
        ({
            let normalizer = Normalizer::spec_for(bounds);
            &&& normalizer.spec_transform(p.spec_min(q)) == normalizer.spec_transform(p).spec_min(
                normalizer.spec_transform(q),
            )
            &&& normalizer.spec_transform(p.spec_max(q)) == normalizer.spec_transform(p).spec_max(
                normalizer.spec_transform(q),
            )
            &&& holds_within(bounds, p.spec_min(q), 0)
            &&& holds_within(bounds, p.spec_max(q), 0)
        }),
{
    lemma_normalizer_keeps_order(bounds, p, q);
    lemma_normalizer_keeps_order(bounds, q, p);
}

/// The box round all points of a moved curve is the box round all points of
/// the curve, moved.
proof fn lemma_moved_box(bounds: Aabb, cubic: Cubic<Point>)
    requires
        within_limit(bounds),
        curve_within(cubic, bounds),
    ensures
        ({
            let normalizer = Normalizer::spec_for(bounds);
            let moved = spec_moved(normalizer, cubic).spec_aabb(true);
            &&& moved.min == normalizer.spec_transform(cubic.spec_aabb(true).min)
            &&& moved.max == normalizer.spec_transform(cubic.spec_aabb(true).max)
            &&& holds_within(bounds, cubic.spec_aabb(true).min, 0)
            &&& holds_within(bounds, cubic.spec_aabb(true).max, 0)
        }),
{
    lemma_moved_min_max(bounds, cubic.anchor0, cubic.anchor1);
    lemma_moved_min_max(bounds, cubic.control0, cubic.control1);
    lemma_moved_min_max(
        bounds,
        cubic.anchor0.spec_min(cubic.anchor1),
        cubic.control0.spec_min(cubic.control1),
    );
    lemma_moved_min_max(
        bounds,
        cubic.anchor0.spec_max(cubic.anchor1),
        cubic.control0.spec_max(cubic.control1),
    );
}

/// The box round an outline that was moved curve by curve is the box round
/// the outline, moved.
pub proof fn lemma_moved_bounds(
    before: Seq<Cubic<Point>>,
    after: Seq<Cubic<Point>>,
    bounds: Aabb,
    upto: int,
)
    requires
        within_limit(bounds),
        curves_within(before, bounds),
        is_outline_moved(before, Normalizer::spec_for(bounds), after),
        0 < upto <= before.len(),
    ensures
        spec_bounds(after, true, upto).min == Normalizer::spec_for(bounds).spec_transform(
            spec_bounds(before, true, upto).min,
        ),
        spec_bounds(after, true, upto).max == Normalizer::spec_for(bounds).spec_transform(
            spec_bounds(before, true, upto).max,
        ),
    decreases upto,
{
    let normalizer = Normalizer::spec_for(bounds);
    let cubic = before[upto - 1];
    assert(curve_within(cubic, bounds));
    assert(after[upto - 1] == spec_moved(normalizer, cubic));
    lemma_moved_box(bounds, cubic);
    let next = cubic.spec_aabb(true);
    let earlier = spec_bounds(before, true, upto - 1);
    assert(spec_bounds(before, true, upto) == Aabb {
        min: earlier.min.spec_min(next.min),
        max: earlier.max.spec_max(next.max),
    });
    if upto > 1 {
        lemma_moved_bounds(before, after, bounds, upto - 1);
        lemma_bounds_within(before, upto - 1, bounds);
        lemma_moved_min_max(bounds, earlier.min, next.min);
        lemma_moved_min_max(bounds, earlier.max, next.max);
    } else {
        assert(earlier == spec_empty_box());
        assert(spec_bounds(after, true, 0) == spec_empty_box());
    }
}

/// A normalized polygon fills the unit square: the longer side of the box
/// round all points of its outline lies from 0 to 1, and the box lies in the
/// middle of the square and has the proportions that it had, as
/// `lemma_normalizer_fills_unit_square` says of the corners of a box.
///
/// This holds of a polygon whose outline has a box with a side of some
/// length and no coordinate beyond `COORDINATE_LIMIT`, and whose normalized
/// outline is its outline moved curve by curve: where resizing gives a curve
/// a length that had none, or takes it, or where the outline starts in the
/// middle of a rounded corner, the two outlines differ by more than where
/// their points are.
pub proof fn lemma_normalized_fills_unit_square(
    polygon: RoundedPolygon<Point>,
    normalized: RoundedPolygon<Point>,
)
    requires
        is_normalized_from(polygon, normalized),
        within_limit(spec_bounds(polygon.cubics@, true, polygon.cubics.len() as int)),
        spec_longer_side(spec_bounds(polygon.cubics@, true, polygon.cubics.len() as int)) > 0,
        is_outline_moved(
            polygon.cubics@,
            Normalizer::spec_for(spec_bounds(polygon.cubics@, true, polygon.cubics.len() as int)),
            normalized.cubics@,
        ),
    ensures
        ({
            let before = spec_bounds(polygon.cubics@, true, polygon.cubics.len() as int);
            let after = spec_bounds(normalized.cubics@, true, normalized.cubics.len() as int);
            let side = spec_longer_side(before);
            let width = before.max.x - before.min.x;
            let height = before.max.y - before.min.y;
            &&& width >= height ==> after.min.x == 0 && after.max.x == UNIT
            &&& height >= width ==> after.min.y == 0 && after.max.y == UNIT
            &&& side * UNIT - UNIT - 2 * side < side * (after.min.x + after.max.x) <= side * UNIT
            &&& side * UNIT - UNIT - 2 * side < side * (after.min.y + after.max.y) <= side * UNIT
            &&& width * UNIT - side < side * (after.max.x - after.min.x) < width * UNIT + side
            &&& height * UNIT - side < side * (after.max.y - after.min.y) < height * UNIT + side
        }),
{
    let cubics = polygon.cubics@;
    let count = cubics.len() as int;
    let before = spec_bounds(cubics, true, count);
    assert(count > 0) by {
        if count == 0 {
            assert(before == spec_empty_box());
        }
    }
    assert forall|i: int| 0 <= i < count implies curve_within(#[trigger] cubics[i], before) by {
        lemma_bounds_hold_curves(cubics, count, i);
    }
    lemma_moved_bounds(cubics, normalized.cubics@, before, count);
    lemma_normalizer_fills_unit_square(before);
}

} // verus!
