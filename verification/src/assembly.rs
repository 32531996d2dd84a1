use vstd::prelude::*;
use crate::corner::{
    allowed_cut, count, is_chain, lemma_cuts_share_side, side_fit, spec_allowed_cut, spec_count,
    spec_side_fit, CornerDemand, CornerRounding, RoundedCorner, SideFit,
};
use crate::cubic::Cubic;
use crate::error::ShapeError;
use crate::feature::{Feature, FeatureType};
use crate::fixed::{hypot, minus, spec_hypot, spec_minus, Fixed};
use crate::geometry::Point;
use crate::mapper::{next_index, prev_index};
use crate::rounded_polygon::{
    assemble_features, center_from_vertices, spec_centroid, spec_outline, spec_vertex_count,
    vertex_count, RoundedPolygon,
};

verus! {

/// Vertex `i` of a polygon given by the flat list of its coordinates.
pub open spec fn spec_vertex(vertices: Seq<Fixed>, i: int) -> Point {
    Point { x: vertices[2 * i], y: vertices[2 * i + 1] }
}

/// All vertices of a polygon given by the flat list of its coordinates.
pub open spec fn spec_vertices(vertices: Seq<Fixed>) -> Seq<Point> {
    Seq::new((vertices.len() / 2) as nat, |i: int| spec_vertex(vertices, i))
}

/// The rounding of vertex `i`: its own where the list reaches that far, else
/// the one for all vertices.
pub open spec fn spec_rounding(
    rounding: CornerRounding,
    per_vertex_rounding: Seq<CornerRounding>,
    i: int,
) -> CornerRounding {
    if i < per_vertex_rounding.len() {
        per_vertex_rounding[i]
    } else {
        rounding
    }
}

/// The corner at vertex `i` of a polygon of `points`.
pub open spec fn spec_corner(
    points: Seq<Point>,
    rounding: CornerRounding,
    per_vertex_rounding: Seq<CornerRounding>,
    i: int,
) -> RoundedCorner {
    let n = points.len() as int;
    RoundedCorner::spec_new(
        points[prev_index(i, n)],
        points[i],
        points[next_index(i, n)],
        Some(spec_rounding(rounding, per_vertex_rounding, i)),
    )
}

/// The length of the side from vertex `ix` to the next one.
pub open spec fn spec_side(points: Seq<Point>, ix: int) -> int {
    let a = points[ix];
    let b = points[next_index(ix, points.len() as int)];
    spec_hypot(spec_minus(a.x as int, b.x as int), spec_minus(a.y as int, b.y as int))
}

/// How the side from corner `ix` to the next one is shared by the two.
pub open spec fn spec_fit(corners: Seq<RoundedCorner>, sides: Seq<Fixed>, ix: int) -> SideFit {
    let first = corners[ix].spec_demand();
    let second = corners[next_index(ix, corners.len() as int)].spec_demand();
    spec_side_fit(
        spec_count(sides[ix]) as int,
        first.expected_round_cut + second.expected_round_cut,
        first.spec_expected_cut() + second.spec_expected_cut(),
    )
}

/// The curves of corner `i` and the center of its arc, within the cuts that
/// the sides before and after it leave to it.
pub open spec fn spec_corner_cubics(corners: Seq<RoundedCorner>, sides: Seq<Fixed>, i: int) -> Result<
    (Seq<Cubic<Point>>, Point),
    ShapeError,
> {
    let n = corners.len() as int;
    let demand = corners[i].spec_demand();
    corners[i].spec_get_cubics(
        spec_allowed_cut(
            demand.expected_round_cut as int,
            demand.spec_expected_cut(),
            spec_fit(corners, sides, prev_index(i, n)),
        ) as u64,
        spec_allowed_cut(
            demand.expected_round_cut as int,
            demand.spec_expected_cut(),
            spec_fit(corners, sides, i),
        ) as u64,
    )
}

/// The curves of corner `i`, where it has any.
pub open spec fn spec_corner_list(corners: Seq<RoundedCorner>, sides: Seq<Fixed>, i: int) -> Seq<
    Cubic<Point>,
> {
    match spec_corner_cubics(corners, sides, i) {
        Ok((cubics, center)) => cubics,
        Err(e) => Seq::empty(),
    }
}

/// The corners of a polygon of `points`, and the lengths of its sides.
pub open spec fn spec_corners(
    points: Seq<Point>,
    rounding: CornerRounding,
    per_vertex_rounding: Seq<CornerRounding>,
) -> Seq<RoundedCorner> {
    Seq::new(points.len(), |i: int| spec_corner(points, rounding, per_vertex_rounding, i))
}

/// The lengths of the sides of a polygon of `points`.
pub open spec fn spec_sides(points: Seq<Point>) -> Seq<Fixed> {
    Seq::new(points.len(), |ix: int| spec_side(points, ix) as i64)
}

/// The features of a polygon with the given corners are as they should be:
/// for each vertex a corner with the curves of its rounding, convex where the
/// outline turns from the x axis towards the y axis there, and after it the
/// straight edge from the end of that corner to the start of the next.
pub open spec fn is_assembly_of(
    features: Seq<Feature<Point>>,
    points: Seq<Point>,
    corners: Seq<RoundedCorner>,
    sides: Seq<Fixed>,
) -> bool {
    let n = points.len() as int;
    &&& features.len() == 2 * n
    &&& forall|i: int|
        0 <= i < n ==> {
            &&& spec_corner_cubics(corners, sides, i) is Ok
            &&& (#[trigger] features[2 * i]).ty == (FeatureType::Corner {
                convex: points[prev_index(i, n)].spec_is_convex(points[i], points[next_index(i, n)]),
            })
            &&& features[2 * i].cubics@ == spec_corner_list(corners, sides, i)
            &&& features[2 * i + 1].ty == FeatureType::Edge
            &&& features[2 * i + 1].cubics@ == seq![
                Cubic::<Point>::spec_straight_line(
                    spec_corner_list(corners, sides, i).last().anchor1,
                    spec_corner_list(corners, sides, next_index(i, n))[0].anchor0,
                ),
            ]
        }
}

/// `list` holds the curves of corner `k`, which has curves and whose curves
/// form a chain.
pub open spec fn holds_corner(
    corners: Seq<RoundedCorner>,
    sides: Seq<Fixed>,
    list: Seq<Cubic<Point>>,
    k: int,
) -> bool {
    &&& spec_corner_cubics(corners, sides, k) is Ok
    &&& list == spec_corner_list(corners, sides, k)
    &&& list.len() > 0
    &&& is_chain(list)
}

/// Two lists hold the same corners, but for the centers of their arcs.
pub open spec fn same_but_centers(now: Seq<RoundedCorner>, then: Seq<RoundedCorner>) -> bool {
    &&& now.len() == then.len()
    &&& forall|k: int|
        0 <= k < now.len() ==> (#[trigger] now[k]) == (RoundedCorner {
            center: now[k].center,
            ..then[k]
        })
}

/// The index of the corner before corner `i` of `n`.
fn index_before(i: usize, n: usize) -> (r: usize)
    requires
        i < n,
    ensures
        r == prev_index(i as int, n as int),
        r < n,
{
    if i == 0 {
        n - 1
    } else {
        i - 1
    }
}

/// The index of the corner after corner `i` of `n`.
fn index_after(i: usize, n: usize) -> (r: usize)
    requires
        i < n,
    ensures
        r == next_index(i as int, n as int),
        r < n,
{
    if i + 1 == n {
        0
    } else {
        i + 1
    }
}

/// The vertices of a polygon given by the flat list of its coordinates.
fn points_of(vertices: &Vec<Fixed>, n: usize) -> (points: Vec<Point>)
    requires
        vertices.len() == 2 * n,
    ensures
        points@ == spec_vertices(vertices@),
        points.len() == n,
{
    let mut points: Vec<Point> = Vec::new();
    let mut i: usize = 0;
    while i < n
        invariant
            vertices.len() == 2 * n,
            0 <= i <= n,
            points.len() == i,
            forall|k: int| 0 <= k < i ==> #[trigger] points[k] == spec_vertex(vertices@, k),
        decreases n - i,
    {
        points.push(Point::new(vertices[i * 2], vertices[i * 2 + 1]));
        i = i + 1;
    }
    proof {
        assert(points@ =~= spec_vertices(vertices@));
    }
    points
}

/// The corners of a polygon.
fn corners_of(
    points: &Vec<Point>,
    rounding: CornerRounding,
    per_vertex_rounding: &Vec<CornerRounding>,
) -> (corners: Vec<RoundedCorner>)
    ensures
        corners@ == spec_corners(points@, rounding, per_vertex_rounding@),
{
    let n: usize = points.len();
    let mut corners: Vec<RoundedCorner> = Vec::new();
    let mut i: usize = 0;
    while i < n
        invariant
            n == points.len(),
            0 <= i <= n,
            corners.len() == i,
            forall|k: int|
                0 <= k < i ==> #[trigger] corners[k] == spec_corner(
                    points@,
                    rounding,
                    per_vertex_rounding@,
                    k,
                ),
        decreases n - i,
    {
        let vtx_rounding: CornerRounding = if i < per_vertex_rounding.len() {
            per_vertex_rounding[i]
        } else {
            rounding
        };
        corners.push(
            RoundedCorner::new(
                points[index_before(i, n)],
                points[i],
                points[index_after(i, n)],
                Some(vtx_rounding),
            ),
        );
        i = i + 1;
    }
    proof {
        assert(corners@ =~= spec_corners(points@, rounding, per_vertex_rounding@));
    }
    corners
}

/// The lengths of the sides of a polygon.
fn sides_of(points: &Vec<Point>) -> (sides: Vec<Fixed>)
    ensures
        sides@ == spec_sides(points@),
{
    let n: usize = points.len();
    let mut sides: Vec<Fixed> = Vec::new();
    let mut ix: usize = 0;
    while ix < n
        invariant
            n == points.len(),
            0 <= ix <= n,
            sides.len() == ix,
            forall|k: int| 0 <= k < ix ==> #[trigger] sides[k] == spec_side(points@, k),
        decreases n - ix,
    {
        let a: Point = points[ix];
        let b: Point = points[index_after(ix, n)];
        sides.push(hypot(minus(a.x, b.x), minus(a.y, b.y)));
        ix = ix + 1;
    }
    proof {
        assert(sides@ =~= spec_sides(points@));
    }
    sides
}

/// How the side from corner `ix` to the next one is shared.
fn fit_of(corners: &Vec<RoundedCorner>, sides: &Vec<Fixed>, ix: usize) -> (fit: SideFit)
    requires
        sides.len() == corners.len(),
        ix < corners.len(),
    ensures
        fit == spec_fit(corners@, sides@, ix as int),
{
    let n: usize = corners.len();
    let first: CornerDemand = corners[ix].demand();
    let second: CornerDemand = corners[index_after(ix, n)].demand();
    // Rounding comes first: only what it leaves is there for smoothing.
    side_fit(
        count(sides[ix]),
        first.expected_round_cut,
        first.expected_cut(),
        second.expected_round_cut,
        second.expected_cut(),
    )
}

/// The curves of corner `i`. The corner takes the center of its arc.
fn corner_cubics(corners: &mut Vec<RoundedCorner>, sides: &Vec<Fixed>, i: usize) -> (r: Result<
    Vec<Cubic<Point>>,
    ShapeError,
>)
    requires
        sides.len() == old(corners).len(),
        i < old(corners).len(),
    ensures
        same_but_centers(final(corners)@, old(corners)@),
        match spec_corner_cubics(old(corners)@, sides@, i as int) {
            Ok((cubics, center)) => {
                &&& r matches Ok(v)
                &&& v@ == cubics
                &&& is_chain(v@)
                &&& v.len() > 0
                &&& final(corners)[i as int].center == center
            },
            Err(e) => r == Err::<Vec<Cubic<Point>>, ShapeError>(e),
        },
{
    let n: usize = corners.len();
    let before: usize = index_before(i, n);
    let demand: CornerDemand = corners[i].demand();
    let expected_cut: u64 = demand.expected_cut();
    let fit0: SideFit = fit_of(corners, sides, before);
    let fit1: SideFit = fit_of(corners, sides, i);
    proof {
        let previous = corners[before as int].spec_demand();
        let next = corners[next_index(i as int, n as int)].spec_demand();
        assert(next_index(before as int, n as int) == i);
        lemma_demand_counts(corners[before as int]);
        lemma_demand_counts(corners[i as int]);
        lemma_demand_counts(corners[next_index(i as int, n as int)]);
        lemma_cuts_share_side(
            spec_count(sides[before as int]) as int,
            previous.expected_round_cut as int,
            previous.spec_expected_cut(),
            demand.expected_round_cut as int,
            demand.spec_expected_cut(),
        );
        lemma_cuts_share_side(
            spec_count(sides[i as int]) as int,
            demand.expected_round_cut as int,
            demand.spec_expected_cut(),
            next.expected_round_cut as int,
            next.spec_expected_cut(),
        );
    }
    // The first cut is into the side from the corner before, the second one
    // into the side to the corner after.
    let allowed0: u64 = allowed_cut(demand.expected_round_cut, expected_cut, fit0);
    let allowed1: u64 = allowed_cut(demand.expected_round_cut, expected_cut, fit1);
    let mut corner: RoundedCorner = corners[i];
    let r = corner.get_cubics(allowed0, allowed1);
    corners.set(i, corner);
    r
}

/// What a corner asks for can be counted.
proof fn lemma_demand_counts(corner: RoundedCorner)
    ensures
        0 <= corner.spec_demand().expected_round_cut <= corner.spec_demand().spec_expected_cut()
            <= u64::MAX,
{
    let demand = corner.spec_demand();
    crate::arith::lemma_part_bound(
        demand.expected_round_cut as int,
        demand.smoothing as int,
        crate::geometry::UNIT as int,
    );
}

/// What is wrong with a polygon of `points_len` vertices and `rounding_len`
/// roundings given per vertex, if anything: fewer than three vertices, or a
/// rounding list that is neither empty nor one per vertex.
pub open spec fn spec_points_check(points_len: int, rounding_len: int) -> Option<ShapeError> {
    if points_len < 3 {
        Some(ShapeError::InvalidVertexCount)
    } else if rounding_len != 0 && rounding_len != points_len {
        Some(ShapeError::PerVertexRoundingLengthMismatch)
    } else {
        None
    }
}

/// `r` is what building the polygon of the given vertices comes to.
///
/// There is no polygon where the lists are wrong, and none where a corner
/// has no direction to round towards. Else the polygon has, for each vertex, a
/// corner and the edge after it; the curves of each feature form a chain; its
/// center is the one given, or the middle of the vertices; and its outline is
/// the one of its features.
#[verifier::opaque]
pub open spec fn is_polygon_of(
    points: Seq<Point>,
    rounding: CornerRounding,
    per_vertex_rounding: Seq<CornerRounding>,
    center: Option<Point>,
    r: Result<RoundedPolygon<Point>, ShapeError>,
) -> bool {
    let corners = spec_corners(points, rounding, per_vertex_rounding);
    let sides = spec_sides(points);
    match r {
        Ok(polygon) => {
            &&& spec_points_check(points.len() as int, per_vertex_rounding.len() as int) is None
            &&& is_assembly_of(polygon.features@, points, corners, sides)
            &&& forall|f: int|
                0 <= f < polygon.features.len() ==> is_chain(
                    (#[trigger] polygon.features[f]).cubics@,
                )
            &&& polygon.center == match center {
                Some(given) => given,
                None => spec_centroid(points),
            }
            &&& polygon.cubics@ == spec_outline(polygon.features@, polygon.center)
            &&& polygon.is_closed()
        },
        Err(e) => match spec_points_check(points.len() as int, per_vertex_rounding.len() as int) {
            Some(wrong) => e == wrong,
            None => exists|i: int|
                0 <= i < points.len() && #[trigger] spec_corner_cubics(corners, sides, i) == Err::<
                    (Seq<Cubic<Point>>, Point),
                    ShapeError,
                >(e),
        },
    }
}

impl RoundedPolygon<Point> {
    /// Builds the polygon with the given vertices, each corner rounded as
    /// far as its sides leave room for.
    ///
    /// `vertices` holds the coordinates of the vertices, x before y.
    /// `rounding` is for every vertex; a list of `per_vertex_rounding`
    /// replaces it vertex by vertex. Without a center the polygon gets the
    /// middle of its vertices.
    ///
    /// Fails for fewer than three vertices, a coordinate left over, or a
    /// rounding list of the wrong length, and where a corner has no
    /// direction to round towards.
    pub fn from_vertices(
        vertices: &Vec<Fixed>,
        rounding: CornerRounding,
        per_vertex_rounding: &Vec<CornerRounding>,
        center: Option<Point>,
    ) -> (r: Result<Self, ShapeError>)
        ensures
            match spec_vertex_count(vertices.len() as int, per_vertex_rounding.len() as int) {
                Err(wrong) => r == Err::<Self, ShapeError>(wrong),
                Ok(n) => is_polygon_of(
                    spec_vertices(vertices@),
                    rounding,
                    per_vertex_rounding@,
                    center,
                    r,
                ),
            },
    {
        let n: usize = match vertex_count(vertices.len(), per_vertex_rounding.len()) {
            Ok(n) => n,
            Err(e) => {
                return Err(e);
            },
        };
        let points = points_of(vertices, n);
        Self::from_points_list(&points, rounding, per_vertex_rounding, center)
    }

    /// Builds the polygon with the given vertices, each corner rounded as
    /// far as its sides leave room for.
    pub fn from_points_list(
        points: &Vec<Point>,
        rounding: CornerRounding,
        per_vertex_rounding: &Vec<CornerRounding>,
        center: Option<Point>,
    ) -> (r: Result<Self, ShapeError>)
        requires
            2 * points.len() <= usize::MAX,
        ensures
            is_polygon_of(points@, rounding, per_vertex_rounding@, center, r),
    {
        reveal(is_polygon_of);
        let n: usize = points.len();
        if n < 3 {
            return Err(ShapeError::InvalidVertexCount);
        }
        if per_vertex_rounding.len() != 0 && per_vertex_rounding.len() != n {
            return Err(ShapeError::PerVertexRoundingLengthMismatch);
        }

        let mut rounded_corners = corners_of(points, rounding, per_vertex_rounding);
        let sides = sides_of(points);
        let ghost corner_specs = rounded_corners@;
        // The curves of each corner, rounded if it is to be.
        let mut corners: Vec<Vec<Cubic<Point>>> = Vec::new();
        let mut i: usize = 0;
        while i < n
            invariant
                n == points.len(),
                n >= 3,
                spec_points_check(points.len() as int, per_vertex_rounding.len() as int) is None,
                corner_specs == spec_corners(points@, rounding, per_vertex_rounding@),
                sides@ == spec_sides(points@),
                0 <= i <= n,
                corners.len() == i,
                sides.len() == n,
                rounded_corners.len() == n,
                corner_specs.len() == n,
                same_but_centers(rounded_corners@, corner_specs),
                forall|k: int|
                    0 <= k < i ==> holds_corner(corner_specs, sides@, (#[trigger] corners[k])@, k),
            decreases n - i,
        {
            let ghost before = rounded_corners@;
            let ghost lists = corners@;
            proof {
                lemma_same_cubics(before, corner_specs, sides@, i as int);
            }
            let cubics = match corner_cubics(&mut rounded_corners, &sides, i) {
                Ok(cubics) => cubics,
                Err(e) => {
                    proof {
                        reveal(is_polygon_of);
                    }
                    assert(spec_corner_cubics(corner_specs, sides@, i as int) == Err::<
                        (Seq<Cubic<Point>>, Point),
                        ShapeError,
                    >(e));
                    return Err(e);
                },
            };
            corners.push(cubics);
            proof {
                assert forall|k: int| 0 <= k < i + 1 implies holds_corner(
                    corner_specs,
                    sides@,
                    (#[trigger] corners[k])@,
                    k,
                ) by {
                    if k < i {
                        assert(corners[k] == lists[k]);
                    }
                }
                assert forall|k: int| 0 <= k < n implies (#[trigger] rounded_corners@[k])
                    == (RoundedCorner { center: rounded_corners@[k].center, ..corner_specs[k] }) by {
                    assert(rounded_corners@[k] == (RoundedCorner {
                        center: rounded_corners@[k].center,
                        ..before[k]
                    }));
                    assert(before[k] == (RoundedCorner {
                        center: before[k].center,
                        ..corner_specs[k]
                    }));
                }
            }
            i = i + 1;
        }
        // The edges between the corners, and which way each corner turns.
        let mut edges: Vec<Cubic<Point>> = Vec::new();
        let mut convex: Vec<bool> = Vec::new();
        let mut i: usize = 0;
        while i < n
            invariant
                n == points.len(),
                n >= 3,
                0 <= i <= n,
                corners.len() == n,
                edges.len() == i,
                convex.len() == i,
                forall|k: int| 0 <= k < n ==> (#[trigger] corners[k]).len() > 0,
                forall|k: int|
                    0 <= k < i ==> {
                        &&& #[trigger] edges[k] == Cubic::<Point>::spec_straight_line(
                            corners[k]@.last().anchor1,
                            corners[next_index(k, n as int)][0].anchor0,
                        )
                        &&& convex[k] == points[prev_index(k, n as int)].spec_is_convex(
                            points[k],
                            points[next_index(k, n as int)],
                        )
                    },
            decreases n - i,
        {
            let after: usize = index_after(i, n);
            let this: &Vec<Cubic<Point>> = &corners[i];
            let next: &Vec<Cubic<Point>> = &corners[after];
            let ghost edges_before = edges@;
            let ghost convex_before = convex@;
            edges.push(Cubic::straight_line(this[this.len() - 1].anchor1, next[0].anchor0));
            convex.push(points[index_before(i, n)].is_convex(points[i], points[after]));
            proof {
                assert(this@.last() == this[this.len() - 1]);
                assert forall|k: int| 0 <= k < i + 1 implies {
                    &&& #[trigger] edges[k] == Cubic::<Point>::spec_straight_line(
                        corners[k]@.last().anchor1,
                        corners[next_index(k, n as int)][0].anchor0,
                    )
                    &&& convex[k] == points[prev_index(k, n as int)].spec_is_convex(
                        points[k],
                        points[next_index(k, n as int)],
                    )
                } by {
                    if k < i {
                        assert(edges[k] == edges_before[k]);
                        assert(convex[k] == convex_before[k]);
                    }
                }
            }
            i = i + 1;
        }
        let features = assemble_features(&corners, &edges, &convex);
        let center: Point = match center {
            Some(given) => given,
            None => center_from_vertices(points),
        };
        proof {
            assert forall|f: int| 0 <= f < features.len() implies is_chain(
                (#[trigger] features[f]).cubics@,
            ) by {
                let k = f / 2;
                if f % 2 == 0 {
                    assert(f == 2 * k);
                    assert(features[2 * k].cubics@ == corners[k]@);
                } else {
                    assert(f == 2 * k + 1);
                    assert(features[2 * k + 1].cubics@ == seq![edges[k]]);
                }
            }
        }
        Ok(Self::new(features, center))
    }
}

/// The curves of a corner depend on what the corners ask for and on where
/// they stand, and not on the centers that were worked out meanwhile.
proof fn lemma_same_cubics(
    now: Seq<RoundedCorner>,
    then: Seq<RoundedCorner>,
    sides: Seq<Fixed>,
    i: int,
)
    requires
        same_but_centers(now, then),
        0 <= i < now.len(),
    ensures
        spec_corner_cubics(now, sides, i) == spec_corner_cubics(then, sides, i),
{
    reveal(RoundedCorner::spec_get_cubics);
    let n = now.len() as int;
    let before = prev_index(i, n);
    let after = next_index(i, n);
    assert(now[i].spec_demand() == then[i].spec_demand());
    assert(now[before].spec_demand() == then[before].spec_demand());
    assert(now[after].spec_demand() == then[after].spec_demand());
    assert(next_index(before, n) == i);
    assert(spec_fit(now, sides, before) == spec_fit(then, sides, before));
    assert(spec_fit(now, sides, i) == spec_fit(then, sides, i));
}

} // verus!
