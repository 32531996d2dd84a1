use vstd::prelude::*;
use vstd::arithmetic::mul::{lemma_mul_is_associative, lemma_mul_is_commutative};
use crate::arith::lemma_product_bound;
use crate::cubic::Cubic;
use crate::error::ShapeError;
use crate::feature::{Feature, FeatureType};
use crate::fixed::{clamp, floor_div, minus, sat, spec_minus, Fixed};
use crate::geometry::{Aabb, Point, PointTransformer};
use crate::path::{path_commands, spec_commands, PathCommand};

verus! {

/// The outline after one more curve. A curve that has a length is appended.
/// One of zero length is dropped, and the curve before it is made to end
/// where the dropped one ends, so that no gap opens.
pub open spec fn visit(outline: Seq<Cubic<Point>>, cubic: Cubic<Point>) -> Seq<Cubic<Point>> {
    if !cubic.spec_zero_length() {
        outline.push(cubic)
    } else if outline.len() > 0 {
        outline.update(outline.len() - 1, outline.last().spec_ending_at(cubic.anchor1))
    } else {
        outline
    }
}

/// The outline after the first `upto` of the given curves.
pub open spec fn visit_feature(outline: Seq<Cubic<Point>>, cubics: Seq<Cubic<Point>>, upto: int) -> Seq<
    Cubic<Point>,
>
    decreases upto,
{
    if upto <= 0 {
        outline
    } else {
        visit(visit_feature(outline, cubics, upto - 1), cubics[upto - 1])
    }
}

/// The outline after all curves of the features from `from` up to `upto`.
pub open spec fn visit_features(
    outline: Seq<Cubic<Point>>,
    features: Seq<Feature<Point>>,
    from: int,
    upto: int,
) -> Seq<Cubic<Point>>
    decreases upto - from,
{
    if upto <= from {
        outline
    } else {
        visit_feature(
            visit_features(outline, features, from, upto - 1),
            features[upto - 1].cubics@,
            features[upto - 1].cubics.len() as int,
        )
    }
}

/// The outline closed: its last curve is made to end exactly where the first
/// one starts. An outline without a curve becomes a single point at `center`.
pub open spec fn spec_closed(outline: Seq<Cubic<Point>>, center: Point) -> Seq<Cubic<Point>> {
    if outline.len() > 0 {
        outline.update(outline.len() - 1, outline.last().spec_ending_at(outline[0].anchor0))
    } else {
        seq![Cubic { anchor0: center, control0: center, control1: center, anchor1: center }]
    }
}

/// The flattened outline of a polygon with the given features.
///
/// Mostly the curves of all features are visited in order. When the first
/// feature has three curves the outline starts in the middle of it: with the
/// second half of its central curve and the curve after that; then come the
/// other features; the first curve of the first feature and the first half
/// of its central curve end the outline. Then the outline is closed.
pub open spec fn spec_outline(features: Seq<Feature<Point>>, center: Point) -> Seq<Cubic<Point>> {
    let n = features.len() as int;
    let open = if n > 0 && features[0].cubics.len() == 3 {
        let halves = features[0].cubics[1].spec_split(500_000_000);
        let head = visit(visit(Seq::empty(), halves.1), features[0].cubics[2]);
        let body = visit_features(head, features, 1, n);
        visit(visit(body, features[0].cubics[0]), halves.0)
    } else {
        visit_features(Seq::empty(), features, 0, n)
    };
    spec_closed(open, center)
}

/// A closed outline is never empty, and it ends exactly where it starts.
pub proof fn lemma_closed_is_closed(outline: Seq<Cubic<Point>>, center: Point)
    ensures
        spec_closed(outline, center).len() > 0,
        spec_closed(outline, center).last().anchor1 == spec_closed(outline, center)[0].anchor0,
        spec_closed(outline, center).len() == if outline.len() > 0 {
            outline.len()
        } else {
            1
        },
{
}

/// A polygon with rounded corners: its features, its center, and its outline
/// as one closed list of curves.
#[derive(Debug, Clone, PartialEq)]
pub struct RoundedPolygon<P> {
    pub features: Vec<Feature<P>>,
    pub center: P,
    /// A flattened version of the features.
    pub cubics: Vec<Cubic<P>>,
}

impl<P: Copy> RoundedPolygon<P> {
    /// The outline has at least one curve and ends exactly where it starts.
    pub open spec fn is_closed(&self) -> bool {
        &&& self.cubics.len() > 0
        &&& self.cubics@.last().anchor1 == self.cubics[0].anchor0
    }

    /// The instructions that draw the outline.
    pub fn as_path(&self, repeat_path: bool, close_path: bool) -> (commands: Vec<PathCommand<P>>)
        ensures
            commands@ == spec_commands(self.cubics@, repeat_path, close_path),
    {
        path_commands(repeat_path, close_path, &self.cubics)
    }
}

/// Appends one more curve to an outline under construction.
fn visit_cubic(outline: &mut Vec<Cubic<Point>>, cubic: Cubic<Point>)
    ensures
        final(outline)@ == visit(old(outline)@, cubic),
{
    if !cubic.zero_length() {
        outline.push(cubic);
    } else if outline.len() > 0 {
        // Dropping several short curves in a row would open a gap: the curve
        // before them takes over where the last one of them ends.
        let i: usize = outline.len() - 1;
        let last: Cubic<Point> = outline[i];
        outline.set(i, last.ending_at(cubic.anchor1));
    }
}

/// The sum of the coordinates of the first `upto` points, along each axis.
pub open spec fn spec_sum(points: Seq<Point>, upto: int) -> (int, int)
    decreases upto,
{
    if upto <= 0 {
        (0, 0)
    } else {
        let before = spec_sum(points, upto - 1);
        (before.0 + points[upto - 1].x, before.1 + points[upto - 1].y)
    }
}

/// The middle of the points: the mean of their coordinates, rounded down;
/// the origin when there is no point.
pub open spec fn spec_centroid(points: Seq<Point>) -> Point {
    if points.len() == 0 {
        Point { x: 0, y: 0 }
    } else {
        let sum = spec_sum(points, points.len() as int);
        Point { x: sat(sum.0 / (points.len() as int)) as i64, y: sat(sum.1 / (points.len() as int)) as i64 }
    }
}

/// The sum of coordinates of `upto` points is within `upto` times the range
/// of a coordinate.
proof fn lemma_sum_bound(points: Seq<Point>, upto: int)
    requires
        0 <= upto <= points.len(),
    ensures
        -0x8000_0000_0000_0000 * upto <= spec_sum(points, upto).0 <= 0x8000_0000_0000_0000 * upto,
        -0x8000_0000_0000_0000 * upto <= spec_sum(points, upto).1 <= 0x8000_0000_0000_0000 * upto,
    decreases upto,
{
    if upto > 0 {
        lemma_sum_bound(points, upto - 1);
    }
}

/// The middle of the given points.
pub fn center_from_vertices(points: &Vec<Point>) -> (center: Point)
    ensures
        center == spec_centroid(points@),
{
    let n: usize = points.len();
    if n == 0 {
        return Point::zero();
    }
    let mut cumulative_x: i128 = 0;
    let mut cumulative_y: i128 = 0;
    let mut index: usize = 0;
    while index < n
        invariant
            n == points.len(),
            0 <= index <= n,
            (cumulative_x as int, cumulative_y as int) == spec_sum(points@, index as int),
        decreases n - index,
    {
        proof {
            lemma_sum_bound(points@, index as int);
            lemma_sum_bound(points@, index as int + 1);
        }
        cumulative_x = cumulative_x + points[index].x as i128;
        cumulative_y = cumulative_y + points[index].y as i128;
        index = index + 1;
    }
    proof {
        lemma_sum_bound(points@, n as int);
    }
    Point {
        x: clamp(floor_div(cumulative_x, n as i128)),
        y: clamp(floor_div(cumulative_y, n as i128)),
    }
}

/// The starts of the curves of the first `upto` features, in order.
pub open spec fn spec_anchors(features: Seq<Feature<Point>>, upto: int) -> Seq<Point>
    decreases upto,
{
    if upto <= 0 {
        Seq::empty()
    } else {
        spec_anchors(features, upto - 1) + Seq::new(
            features[upto - 1].cubics.len() as nat,
            |c: int| features[upto - 1].cubics[c].anchor0,
        )
    }
}

/// The box round no curve at all: it holds nothing, and any curve widens it.
pub open spec fn spec_empty_box() -> Aabb {
    Aabb {
        min: Point { x: i64::MAX, y: i64::MAX },
        max: Point { x: i64::MIN, y: i64::MIN },
    }
}

/// The box round the first `upto` curves.
pub open spec fn spec_bounds(cubics: Seq<Cubic<Point>>, approximate: bool, upto: int) -> Aabb
    decreases upto,
{
    if upto <= 0 {
        spec_empty_box()
    } else {
        let before = spec_bounds(cubics, approximate, upto - 1);
        let next = cubics[upto - 1].spec_aabb(approximate);
        Aabb { min: before.min.spec_min(next.min), max: before.max.spec_max(next.max) }
    }
}

/// The box holds the point, give or take `slack` along each axis.
pub open spec fn holds_within(bounds: Aabb, point: Point, slack: int) -> bool {
    &&& bounds.min.x - slack <= point.x <= bounds.max.x + slack
    &&& bounds.min.y - slack <= point.y <= bounds.max.y + slack
}

/// The box round a curve holds both of its anchors.
pub proof fn lemma_aabb_holds_anchors(cubic: Cubic<Point>, approximate: bool)
    ensures
        holds_within(cubic.spec_aabb(approximate), cubic.anchor0, 0),
        holds_within(cubic.spec_aabb(approximate), cubic.anchor1, 0),
{
    let bounds = cubic.spec_aabb(approximate);
    if approximate {
        assert(bounds.min == cubic.anchor0.spec_min(cubic.anchor1).spec_min(
            cubic.control0.spec_min(cubic.control1),
        ));
        assert(bounds.max == cubic.anchor0.spec_max(cubic.anchor1).spec_max(
            cubic.control0.spec_max(cubic.control1),
        ));
    } else {
        let x = crate::bezier::spec_axis_extent(
            cubic.anchor0.x as int,
            cubic.control0.x as int,
            cubic.control1.x as int,
            cubic.anchor1.x as int,
        );
        let y = crate::bezier::spec_axis_extent(
            cubic.anchor0.y as int,
            cubic.control0.y as int,
            cubic.control1.y as int,
            cubic.anchor1.y as int,
        );
        crate::bezier::lemma_axis_extent_holds_anchors(
            cubic.anchor0.x as int,
            cubic.control0.x as int,
            cubic.control1.x as int,
            cubic.anchor1.x as int,
        );
        crate::bezier::lemma_axis_extent_holds_anchors(
            cubic.anchor0.y as int,
            cubic.control0.y as int,
            cubic.control1.y as int,
            cubic.anchor1.y as int,
        );
        crate::bezier::lemma_axis_extent_in_range(
            cubic.anchor0.x,
            cubic.control0.x,
            cubic.control1.x,
            cubic.anchor1.x,
        );
        crate::bezier::lemma_axis_extent_in_range(
            cubic.anchor0.y,
            cubic.control0.y,
            cubic.control1.y,
            cubic.anchor1.y,
        );
        assert(bounds.min.x == x.0 && bounds.max.x == x.1);
        assert(bounds.min.y == y.0 && bounds.max.y == y.1);
    }
}

/// The box round some curves holds the anchors of each of them.
pub proof fn lemma_bounds_hold_anchors(
    cubics: Seq<Cubic<Point>>,
    approximate: bool,
    upto: int,
    i: int,
)
    requires
        0 <= i < upto <= cubics.len(),
    ensures
        holds_within(spec_bounds(cubics, approximate, upto), cubics[i].anchor0, 0),
        holds_within(spec_bounds(cubics, approximate, upto), cubics[i].anchor1, 0),
    decreases upto,
{
    if i < upto - 1 {
        lemma_bounds_hold_anchors(cubics, approximate, upto - 1, i);
    } else {
        lemma_aabb_holds_anchors(cubics[i], approximate);
    }
}

/// Moves points by `offset` and then divides them by `max_side`: so a box
/// comes to lie in the unit square.
#[derive(Debug, Clone, Copy, PartialEq, Eq, Structural)]
pub struct Normalizer {
    pub offset: Point,
    pub max_side: Fixed,
}

impl Normalizer {
    /// Where a point is sent.
    pub open spec fn spec_transform(&self, point: Point) -> Point {
        point.spec_plus(self.offset).spec_divided(self.max_side)
    }

    /// What brings the given box into the unit square: the longer side of
    /// the box becomes 1, and the box comes to lie in the middle of the
    /// square along its shorter side.
    pub open spec fn spec_for(bounds: Aabb) -> Normalizer {
        let width = spec_minus(bounds.max.x as int, bounds.min.x as int);
        let height = spec_minus(bounds.max.y as int, bounds.min.y as int);
        let max_side = if width >= height {
            width
        } else {
            height
        };
        Normalizer {
            offset: Point {
                x: spec_minus(spec_minus(max_side, width) / 2, bounds.min.x as int) as i64,
                y: spec_minus(spec_minus(max_side, height) / 2, bounds.min.y as int) as i64,
            },
            max_side: max_side as i64,
        }
    }

    /// Works out what brings the given box into the unit square.
    pub fn for_bounds(bounds: Aabb) -> (normalizer: Self)
        ensures
            normalizer == Self::spec_for(bounds),
    {
        let width: Fixed = minus(bounds.max.x, bounds.min.x);
        let height: Fixed = minus(bounds.max.y, bounds.min.y);
        let max_side: Fixed = if width >= height {
            width
        } else {
            height
        };
        Normalizer {
            offset: Point {
                x: minus(floor_half(minus(max_side, width)), bounds.min.x),
                y: minus(floor_half(minus(max_side, height)), bounds.min.y),
            },
            max_side,
        }
    }
}

/// Half of a number, rounded down.
fn floor_half(value: Fixed) -> (r: Fixed)
    ensures
        r == value / 2,
{
    let wide: i128 = floor_div(value as i128, 2);
    wide as i64
}

impl PointTransformer<Point> for Normalizer {
    fn transform(&self, point: Point) -> (moved: Point)
        ensures
            moved == self.spec_transform(point),
    {
        point.plus(self.offset).divided(self.max_side)
    }
}

/// What a normalizer returns for a point is where it sends the point.
pub proof fn lemma_normalizer_sends(normalizer: &Normalizer, point: Point, moved: Point)
    requires
        call_ensures(<Normalizer as PointTransformer<Point>>::transform, (normalizer, point), moved),
    ensures
        moved == normalizer.spec_transform(point),
{
}

/// `moved` is the polygon with every point of its features, and its
/// center, sent through `f`, and its outline put together anew.
pub open spec fn is_moved_by<T: PointTransformer<Point>>(
    polygon: RoundedPolygon<Point>,
    f: &T,
    moved: RoundedPolygon<Point>,
) -> bool {
    &&& call_ensures(T::transform, (f, polygon.center), moved.center)
    &&& moved.features.len() == polygon.features.len()
    &&& forall|i: int|
        0 <= i < polygon.features.len() ==> polygon.features[i].is_transformed_to(
            f,
            #[trigger] moved.features[i],
        )
    &&& moved.cubics@ == spec_outline(moved.features@, moved.center)
    &&& moved.is_closed()
}

/// `normalized` is the polygon moved and resized so that the box round all
/// points of its outline lies in the unit square.
pub open spec fn is_normalized_from(
    polygon: RoundedPolygon<Point>,
    normalized: RoundedPolygon<Point>,
) -> bool {
    let normalizer = Normalizer::spec_for(
        spec_bounds(polygon.cubics@, true, polygon.cubics.len() as int),
    );
    &&& normalized.center == normalizer.spec_transform(polygon.center)
    &&& normalized.features.len() == polygon.features.len()
    &&& forall|i: int|
        0 <= i < polygon.features.len() ==> polygon.features[i].is_transformed_to(
            &normalizer,
            #[trigger] normalized.features[i],
        )
    &&& normalized.cubics@ == spec_outline(normalized.features@, normalized.center)
    &&& normalized.is_closed()
}

impl RoundedPolygon<Point> {
    /// Puts the outline of a polygon together from its features.
    pub fn new(features: Vec<Feature<Point>>, center: Point) -> (polygon: Self)
        ensures
            polygon.features == features,
            polygon.center == center,
            polygon.cubics@ == spec_outline(features@, center),
            polygon.is_closed(),
    {
        let mut cubics: Vec<Cubic<Point>> = Vec::new();
        let split: bool = features.len() > 0 && features[0].cubics.len() == 3;
        let mut first_half: Option<Cubic<Point>> = None;
        if split {
            // The outline starts in the middle of the first feature.
            let (start, end) = features[0].cubics[1].split(500_000_000);
            visit_cubic(&mut cubics, end);
            visit_cubic(&mut cubics, features[0].cubics[2]);
            first_half = Some(start);
        }
        let first: usize = if split {
            1
        } else {
            0
        };
        let ghost head = cubics@;
        let mut f: usize = first;
        while f < features.len()
            invariant
                first <= f <= features.len(),
                cubics@ == visit_features(head, features@, first as int, f as int),
            decreases features.len() - f,
        {
            let ghost before = cubics@;
            let feature_cubics: &Vec<Cubic<Point>> = &features[f].cubics;
            let mut c: usize = 0;
            while c < feature_cubics.len()
                invariant
                    0 <= c <= feature_cubics.len(),
                    cubics@ == visit_feature(before, feature_cubics@, c as int),
                decreases feature_cubics.len() - c,
            {
                visit_cubic(&mut cubics, feature_cubics[c]);
                c = c + 1;
            }
            f = f + 1;
        }
        match first_half {
            Some(start) => {
                visit_cubic(&mut cubics, features[0].cubics[0]);
                visit_cubic(&mut cubics, start);
            },
            None => {},
        }
        if cubics.len() > 0 {
            // The last curve ends exactly where the first one starts.
            let i: usize = cubics.len() - 1;
            let last: Cubic<Point> = cubics[i];
            let start: Point = cubics[0].anchor0;
            cubics.set(i, last.ending_at(start));
        } else {
            // A polygon without any extent.
            cubics.push(Cubic::new(center, center, center, center));
        }
        proof {
            assert(cubics@ =~= spec_outline(features@, center));
        }
        Self { features, center, cubics }
    }

    /// Builds a polygon from its features. Without a center it gets the
    /// middle of the starts of all curves.
    pub fn from_features(features: Vec<Feature<Point>>, center: Option<Point>) -> (polygon: Self)
        ensures
            polygon.features == features,
            polygon.center == match center {
                Some(given) => given,
                None => spec_centroid(spec_anchors(features@, features.len() as int)),
            },
            polygon.cubics@ == spec_outline(features@, polygon.center),
            polygon.is_closed(),
    {
        let center: Point = match center {
            Some(given) => given,
            None => {
                let mut vertices: Vec<Point> = Vec::new();
                let mut f: usize = 0;
                while f < features.len()
                    invariant
                        0 <= f <= features.len(),
                        vertices@ == spec_anchors(features@, f as int),
                    decreases features.len() - f,
                {
                    let ghost before = vertices@;
                    let cubics: &Vec<Cubic<Point>> = &features[f].cubics;
                    let ghost row = Seq::new(cubics.len() as nat, |c: int| cubics[c].anchor0);
                    let mut c: usize = 0;
                    while c < cubics.len()
                        invariant
                            0 <= c <= cubics.len(),
                            row == Seq::new(cubics.len() as nat, |c: int| cubics[c].anchor0),
                            vertices@ == before + row.take(c as int),
                        decreases cubics.len() - c,
                    {
                        vertices.push(cubics[c].anchor0);
                        proof {
                            assert(vertices@ =~= before + row.take(c as int + 1));
                        }
                        c = c + 1;
                    }
                    proof {
                        assert(row.take(cubics.len() as int) =~= row);
                    }
                    f = f + 1;
                }
                center_from_vertices(&vertices)
            },
        };
        Self::new(features, center)
    }

    /// Returns the box round the polygon, with sides along the axes: the box
    /// round the boxes of all curves of its outline.
    pub fn aabb(&self, approximate: bool) -> (bounds: Aabb)
        ensures
            bounds == spec_bounds(self.cubics@, approximate, self.cubics.len() as int),
            forall|i: int|
                0 <= i < self.cubics.len() ==> holds_within(
                    bounds,
                    (#[trigger] self.cubics[i]).anchor0,
                    0,
                ) && holds_within(bounds, self.cubics[i].anchor1, 0),
    {
        let mut bounds = Aabb { min: Point::splat(i64::MAX), max: Point::splat(i64::MIN) };
        let mut i: usize = 0;
        while i < self.cubics.len()
            invariant
                0 <= i <= self.cubics.len(),
                bounds == spec_bounds(self.cubics@, approximate, i as int),
            decreases self.cubics.len() - i,
        {
            let cubic_aabb: Aabb = self.cubics[i].aabb(approximate);
            bounds = Aabb { min: bounds.min.min(cubic_aabb.min), max: bounds.max.max(cubic_aabb.max) };
            i = i + 1;
        }
        proof {
            assert forall|i: int| 0 <= i < self.cubics.len() implies holds_within(
                bounds,
                (#[trigger] self.cubics[i]).anchor0,
                0,
            ) && holds_within(bounds, self.cubics[i].anchor1, 0) by {
                lemma_bounds_hold_anchors(self.cubics@, approximate, self.cubics.len() as int, i);
            }
        }
        bounds
    }

    /// Returns the polygon with every point of its features, and its center,
    /// sent through `f`, and its outline put together anew.
    pub fn transformed<T: PointTransformer<Point>>(self, f: &T) -> (polygon: Self)
        ensures
            is_moved_by(self, f, polygon),
    {
        let center: Point = f.transform(self.center);
        let mut features: Vec<Feature<Point>> = Vec::new();
        let mut i: usize = 0;
        while i < self.features.len()
            invariant
                0 <= i <= self.features.len(),
                features.len() == i,
                forall|k: int|
                    0 <= k < i ==> self.features[k].is_transformed_to(f, #[trigger] features[k]),
            decreases self.features.len() - i,
        {
            features.push(self.features[i].moved_by(f));
            i = i + 1;
        }
        Self::new(features, center)
    }

    /// Moves and resizes the polygon so that the box round it lies in the
    /// unit square, in the middle of it where the box is not square.
    pub fn normalized(self) -> (polygon: Self)
        ensures
            is_normalized_from(self, polygon),
    {
        let normalizer = Normalizer::for_bounds(self.aabb(true));
        self.transformed(&normalizer)
    }
}

/// The number of vertices of a polygon given by a flat list of
/// `vertices_len` coordinates and `per_vertex_rounding_len` roundings, or why
/// there is no such polygon: fewer than three vertices, a coordinate left
/// over, or a rounding list that is neither empty nor one per vertex. The
/// first of these that applies is reported.
pub open spec fn spec_vertex_count(vertices_len: int, per_vertex_rounding_len: int) -> Result<
    usize,
    ShapeError,
> {
    if vertices_len < 6 {
        Err(ShapeError::InvalidVertexCount)
    } else if vertices_len % 2 == 1 {
        Err(ShapeError::VertexArrayMisshape)
    } else if per_vertex_rounding_len != 0 && per_vertex_rounding_len * 2 != vertices_len {
        Err(ShapeError::PerVertexRoundingLengthMismatch)
    } else {
        Ok((vertices_len / 2) as usize)
    }
}

/// Checks the sizes of the lists that describe a polygon and returns the
/// number of its vertices.
pub fn vertex_count(vertices_len: usize, per_vertex_rounding_len: usize) -> (r: Result<
    usize,
    ShapeError,
>)
    ensures
        r == spec_vertex_count(vertices_len as int, per_vertex_rounding_len as int),
{
    if vertices_len < 6 {
        return Err(ShapeError::InvalidVertexCount);
    }
    if vertices_len % 2 == 1 {
        return Err(ShapeError::VertexArrayMisshape);
    }
    let n: usize = vertices_len / 2;
    if per_vertex_rounding_len != 0 && per_vertex_rounding_len != n {
        return Err(ShapeError::PerVertexRoundingLengthMismatch);
    }
    Ok(n)
}

/// The features of a polygon with the given corners: each corner, then the
/// edge from it to the next corner.
pub open spec fn spec_assembled<P>(
    corners: Seq<Vec<Cubic<P>>>,
    edges: Seq<Cubic<P>>,
    convex: Seq<bool>,
    features: Seq<Feature<P>>,
) -> bool {
    &&& features.len() == 2 * corners.len()
    &&& forall|i: int|
        0 <= i < corners.len() ==> {
            &&& (#[trigger] features[2 * i]).ty == (FeatureType::Corner { convex: convex[i] })
            &&& features[2 * i].cubics@ == corners[i]@
            &&& features[2 * i + 1].ty == FeatureType::Edge
            &&& features[2 * i + 1].cubics@ == seq![edges[i]]
        }
}

/// Lines up the features of a polygon: corner, edge, corner, edge and so on
/// round the outline. `edges[i]` runs from corner `i` to the corner after it.
pub fn assemble_features<P: Copy>(
    corners: &Vec<Vec<Cubic<P>>>,
    edges: &Vec<Cubic<P>>,
    convex: &Vec<bool>,
) -> (features: Vec<Feature<P>>)
    requires
        edges.len() == corners.len(),
        convex.len() == corners.len(),
        2 * corners.len() <= usize::MAX,
    ensures
        spec_assembled(corners@, edges@, convex@, features@),
{
    let mut features: Vec<Feature<P>> = Vec::new();
    let mut i: usize = 0;
    while i < corners.len()
        invariant
            0 <= i <= corners.len(),
            edges.len() == corners.len(),
            convex.len() == corners.len(),
            features.len() == 2 * i,
            forall|k: int|
                0 <= k < i ==> {
                    &&& (#[trigger] features[2 * k]).ty == (FeatureType::Corner {
                        convex: convex[k],
                    })
                    &&& features[2 * k].cubics@ == corners[k]@
                    &&& features[2 * k + 1].ty == FeatureType::Edge
                    &&& features[2 * k + 1].cubics@ == seq![edges[k]]
                },
        decreases corners.len() - i,
    {
        let corner: &Vec<Cubic<P>> = &corners[i];
        let mut cubics: Vec<Cubic<P>> = Vec::new();
        let mut c: usize = 0;
        while c < corner.len()
            invariant
                0 <= c <= corner.len(),
                cubics@ == corner@.take(c as int),
            decreases corner.len() - c,
        {
            cubics.push(corner[c]);
            proof {
                assert(cubics@ =~= corner@.take(c as int + 1));
            }
            c = c + 1;
        }
        proof {
            assert(corner@.take(corner.len() as int) =~= corner@);
        }
        let mut edge: Vec<Cubic<P>> = Vec::new();
        edge.push(edges[i]);
        proof {
            assert(edge@ =~= seq![edges[i as int]]);
        }
        let ghost before = features@;
        features.push(Feature::corner(cubics, convex[i]));
        features.push(Feature::edge(edge));
        proof {
            assert forall|k: int| 0 <= k < i + 1 implies {
                &&& (#[trigger] features[2 * k]).ty == (FeatureType::Corner { convex: convex[k] })
                &&& features[2 * k].cubics@ == corners[k]@
                &&& features[2 * k + 1].ty == FeatureType::Edge
                &&& features[2 * k + 1].cubics@ == seq![edges[k]]
            } by {
                if k < i {
                    assert(features[2 * k] == before[2 * k]);
                    assert(features[2 * k + 1] == before[2 * k + 1]);
                }
            }
        }
        i = i + 1;
    }
    features
}

/// Which of the given points a vertex of a repeated polygon is a copy of, and
/// in which of the repeats it stands, counted from 0.
#[derive(Debug, Clone, Copy, PartialEq, Eq, Structural)]
pub struct Placement {
    pub point: usize,
    pub iteration: usize,
}

/// The vertices of one repeat of a mirrored polygon: the points in order in
/// an even repeat; in an odd one the points in reverse order, without the
/// first point, which the next repeat starts with.
pub open spec fn mirrored_row(points: int, iteration: int) -> Seq<Placement> {
    if iteration % 2 == 0 {
        Seq::new(
            points as nat,
            |index: int| Placement { point: index as usize, iteration: iteration as usize },
        )
    } else {
        Seq::new(
            (points - 1) as nat,
            |index: int|
                Placement { point: (points - index - 1) as usize, iteration: iteration as usize },
        )
    }
}

/// The vertices of the first `upto` repeats of a mirrored polygon.
pub open spec fn mirrored_before(points: int, upto: int) -> Seq<Placement>
    decreases upto,
{
    if upto <= 0 {
        Seq::empty()
    } else {
        mirrored_before(points, upto - 1) + mirrored_row(points, upto - 1)
    }
}

/// The vertices of a polygon made of `repeats` copies of `points` points
/// turned round the center, in outline order.
///
/// Without mirroring each repeat holds all points in order. With mirroring
/// there are twice as many repeats, and every other one runs backwards.
pub open spec fn spec_layout(points: int, repeats: int, mirroring: bool) -> Seq<Placement> {
    if mirroring {
        mirrored_before(points, 2 * repeats)
    } else {
        Seq::new(
            (points * repeats) as nat,
            |it: int| Placement { point: (it % points) as usize, iteration: (it / points) as usize },
        )
    }
}

/// Lays out the vertices of a polygon made of repeated points.
pub fn custom_polygon_layout(points: usize, repeats: usize, mirroring: bool) -> (layout: Vec<
    Placement,
>)
    requires
        points > 0,
        2 * points * repeats <= usize::MAX,
    ensures
        layout@ == spec_layout(points as int, repeats as int, mirroring),
        forall|j: int|
            0 <= j < layout.len() ==> (#[trigger] layout[j]).point < points && layout[j].iteration
                < 2 * repeats,
{
    let mut layout: Vec<Placement> = Vec::new();
    proof {
        lemma_product_bound(0, 0, 0, 0);
    }
    if mirroring {
        assert(2 * repeats <= 2 * points * repeats) by {
            lemma_product_bound(1, points as int, 2 * repeats, 2 * repeats);
            lemma_mul_is_commutative(points as int, 2 * repeats);
            lemma_mul_is_associative(2, points as int, repeats as int);
            lemma_mul_is_associative(2, repeats as int, points as int);
            lemma_mul_is_commutative(points as int, repeats as int);
        }
        let actual_repeats: usize = repeats * 2;
        let mut iteration: usize = 0;
        while iteration < actual_repeats
            invariant
                points > 0,
                actual_repeats == 2 * repeats,
                0 <= iteration <= actual_repeats,
                layout@ == mirrored_before(points as int, iteration as int),
                forall|j: int|
                    0 <= j < layout.len() ==> (#[trigger] layout[j]).point < points
                        && layout[j].iteration < 2 * repeats,
            decreases actual_repeats - iteration,
        {
            let ghost before = layout@;
            let mut index: usize = 0;
            while index < points
                invariant
                    points > 0,
                    0 <= index <= points,
                    iteration < 2 * repeats,
                    forall|j: int|
                        0 <= j < layout.len() ==> (#[trigger] layout[j]).point < points
                            && layout[j].iteration < 2 * repeats,
                    iteration % 2 == 0 ==> layout@ == before + mirrored_row(
                        points as int,
                        iteration as int,
                    ).take(index as int),
                    iteration % 2 == 1 ==> layout@ == before + mirrored_row(
                        points as int,
                        iteration as int,
                    ).take(
                        if index < points {
                            index as int
                        } else {
                            points - 1
                        },
                    ),
                decreases points - index,
            {
                let i: usize = if iteration % 2 == 0 {
                    index
                } else {
                    points - index - 1
                };
                if i > 0 || iteration % 2 == 0 {
                    layout.push(Placement { point: i, iteration });
                    proof {
                        let row = mirrored_row(points as int, iteration as int);
                        assert(layout@ =~= before + row.take(index as int + 1));
                    }
                }
                index = index + 1;
            }
            proof {
                let row = mirrored_row(points as int, iteration as int);
                assert(row.take(row.len() as int) =~= row);
            }
            iteration = iteration + 1;
        }
    } else {
        assert(points * repeats <= 2 * points * repeats) by {
            lemma_product_bound(points as int, points as int, repeats as int, repeats as int);
            lemma_mul_is_associative(2, points as int, repeats as int);
        }
        let count: usize = points * repeats;
        let mut it: usize = 0;
        while it < count
            invariant
                points > 0,
                0 <= it <= count,
                count == points * repeats,
                layout@ == spec_layout(points as int, repeats as int, false).take(it as int),
                forall|j: int|
                    0 <= j < layout.len() ==> (#[trigger] layout[j]).point < points
                        && layout[j].iteration < 2 * repeats,
            decreases count - it,
        {
            proof {
                vstd::arithmetic::div_mod::lemma_multiply_divide_lt(
                    it as int,
                    points as int,
                    repeats as int,
                );
            }
            layout.push(Placement { point: it % points, iteration: it / points });
            proof {
                assert(layout@ =~= spec_layout(points as int, repeats as int, false).take(
                    it as int + 1,
                ));
            }
            it = it + 1;
        }
        proof {
            let whole = spec_layout(points as int, repeats as int, false);
            assert(whole.take(whole.len() as int) =~= whole);
        }
    }
    layout
}

} // verus!
