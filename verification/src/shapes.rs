//! Ready-made shapes.

use vstd::prelude::*;
use crate::assembly::is_polygon_of;
use crate::corner::{CornerRounding, RoundedPoint};
use crate::custom::{spec_custom_vertices, spec_offsets, spec_roundings};
use crate::error::ShapeError;
use crate::fixed::{mul_div, spec_mul_div, spec_times, times, Fixed};
use crate::geometry::{Point, PointTransformer, Size, UNIT};
use crate::polygon_builder::{
    spec_rectangle_vertices, spec_star_vertices, spec_vertex_roundings, spec_vertices_from_count,
    Circle, RoundedPolygonBuilder,
};
use crate::rounded_polygon::{is_moved_by, is_normalized_from, RoundedPolygon};
use crate::trig::{spec_turned, turned};

verus! {

/// A thousandth, the unit that the tables of points are written in.
pub const MILLI: Fixed = 1_000_000;

/// A point of a table: its coordinates, the radius of its rounding and the
/// smoothing, each in thousandths.
pub type Entry = (i64, i64, i64, i64);

/// The vertex that an entry of a table stands for.
pub open spec fn spec_entry(entry: Entry) -> RoundedPoint<Point> {
    RoundedPoint {
        offset: Point {
            x: spec_mul_div(entry.0 as int, MILLI as int, 1) as i64,
            y: spec_mul_div(entry.1 as int, MILLI as int, 1) as i64,
        },
        rounding: CornerRounding {
            radius: spec_mul_div(entry.2 as int, MILLI as int, 1) as i64,
            smoothing: spec_mul_div(entry.3 as int, MILLI as int, 1) as i64,
        },
    }
}

/// The vertices that a table stands for.
pub open spec fn spec_table(entries: Seq<Entry>) -> Seq<RoundedPoint<Point>> {
    Seq::new(entries.len(), |i: int| spec_entry(entries[i]))
}

fn table_points<const N: usize>(entries: &[Entry; N]) -> (points: Vec<RoundedPoint<Point>>)
    ensures
        points@ == spec_table(entries@),
{
    let mut points: Vec<RoundedPoint<Point>> = Vec::new();
    let mut i: usize = 0;
    while i < N
        invariant
            0 <= i <= N,
            entries@.len() == N,
            points.len() == i,
            forall|k: int| 0 <= k < i ==> #[trigger] points[k] == spec_entry(entries[k]),
        decreases N - i,
    {
        let entry: Entry = entries[i];
        points.push(
            RoundedPoint::new(
                Point::new(mul_div(entry.0, MILLI, 1), mul_div(entry.1, MILLI, 1)),
                CornerRounding::smoothed(mul_div(entry.2, MILLI, 1), mul_div(entry.3, MILLI, 1)),
            ),
        );
        i = i + 1;
    }
    proof {
        assert(points@ =~= spec_table(entries@));
    }
    points
}

/// Turns points round the origin by an angle in radians.
#[derive(Debug, Clone, Copy, PartialEq, Eq, Structural)]
pub struct Rotation {
    pub angle: Fixed,
}

impl Rotation {
    /// Where a point is sent.
    pub open spec fn spec_transform(&self, point: Point) -> Point {
        spec_turned(point, self.angle, Point { x: 0, y: 0 })
    }
}

impl PointTransformer<Point> for Rotation {
    fn transform(&self, point: Point) -> (moved: Point)
        ensures
            moved == self.spec_transform(point),
    {
        turned(point, self.angle, Point::zero())
    }
}

/// Stretches points away from the origin, along each axis by its own factor.
#[derive(Debug, Clone, Copy, PartialEq, Eq, Structural)]
pub struct Scaling {
    pub x: Fixed,
    pub y: Fixed,
}

impl Scaling {
    /// Where a point is sent.
    pub open spec fn spec_transform(&self, point: Point) -> Point {
        Point {
            x: spec_times(point.x as int, self.x as int) as i64,
            y: spec_times(point.y as int, self.y as int) as i64,
        }
    }
}

impl PointTransformer<Point> for Scaling {
    fn transform(&self, point: Point) -> (moved: Point)
        ensures
            moved == self.spec_transform(point),
    {
        Point { x: times(point.x, self.x), y: times(point.y, self.y) }
    }
}

/// An eighth of a turn backwards.
pub const NEG_45: Fixed = -785_398_163;

/// A quarter turn backwards.
pub const NEG_90: Fixed = -1_570_796_327;

/// Three eighths of a turn backwards.
pub const NEG_135: Fixed = -2_356_194_490;

/// `r` is `built` with its polygon, if it holds one, normalized.
pub open spec fn is_normalized_result(
    built: Result<RoundedPolygon<Point>, ShapeError>,
    r: Result<RoundedPolygon<Point>, ShapeError>,
) -> bool {
    match built {
        Ok(polygon) => r matches Ok(normalized) && is_normalized_from(polygon, normalized),
        Err(e) => r matches Err(error) && error == e,
    }
}

/// `r` is `built` with its polygon, if it holds one, sent through `f`.
pub open spec fn is_moved_result<T: PointTransformer<Point>>(
    built: Result<RoundedPolygon<Point>, ShapeError>,
    f: &T,
    r: Result<RoundedPolygon<Point>, ShapeError>,
) -> bool {
    match built {
        Ok(polygon) => r matches Ok(moved) && is_moved_by(polygon, f, moved),
        Err(e) => r matches Err(error) && error == e,
    }
}

/// `built` is what building the polygon of `repeats` copies of the given
/// points round the middle of the unit square comes to.
pub open spec fn is_custom(
    points: Seq<RoundedPoint<Point>>,
    repeats: int,
    mirroring: bool,
    built: Result<RoundedPolygon<Point>, ShapeError>,
) -> bool {
    let center = Point { x: 500_000_000, y: 500_000_000 };
    is_polygon_of(
        spec_offsets(spec_custom_vertices(points, repeats, center, mirroring)),
        CornerRounding { radius: 0, smoothing: 0 },
        spec_roundings(spec_custom_vertices(points, repeats, center, mirroring)),
        Some(center),
        built,
    )
}

/// `r` is the shape made of `repeats` copies of the points of a table,
/// normalized.
pub open spec fn is_preset(
    entries: Seq<Entry>,
    repeats: int,
    mirroring: bool,
    r: Result<RoundedPolygon<Point>, ShapeError>,
) -> bool {
    exists|built: Result<RoundedPolygon<Point>, ShapeError>|
        #[trigger] is_custom(spec_table(entries), repeats, mirroring, built)
            && is_normalized_result(built, r)
}

fn normalize(built: Result<RoundedPolygon<Point>, ShapeError>) -> (r: Result<
    RoundedPolygon<Point>,
    ShapeError,
>)
    ensures
        is_normalized_result(built, r),
{
    match built {
        Ok(polygon) => Ok(polygon.normalized()),
        Err(e) => Err(e),
    }
}

fn move_by<T: PointTransformer<Point>>(
    built: Result<RoundedPolygon<Point>, ShapeError>,
    f: &T,
) -> (r: Result<RoundedPolygon<Point>, ShapeError>)
    ensures
        is_moved_result(built, f, r),
{
    match built {
        Ok(polygon) => Ok(polygon.transformed(f)),
        Err(e) => Err(e),
    }
}

fn preset<const N: usize>(entries: &[Entry; N], repeats: usize, mirroring: bool) -> (r: Result<
    RoundedPolygon<Point>,
    ShapeError,
>)
    requires
        N <= 1000,
        repeats <= 1000,
    ensures
        is_preset(entries@, repeats as int, mirroring, r),
{
    let points = table_points(entries);
    proof {
        crate::arith::lemma_product_bound(4 * points.len() as int, 4000, repeats as int, 1000);
    }
    let built = RoundedPolygon::from_points(&points, repeats, mirroring);
    assert(is_custom(spec_table(entries@), repeats as int, mirroring, built));
    normalize(built)
}


/// A circle shape: a polygon with the given number of vertices, ten if none
/// is given, with every corner rounded into the circle.
pub fn circle(vertices: Option<usize>) -> (r: Result<RoundedPolygon<Point>, ShapeError>)
    requires
        vertices matches Some(count) ==> 2 * count <= usize::MAX,
    ensures
        exists|built: Result<RoundedPolygon<Point>, ShapeError>|
            #[trigger] is_polygon_of(
                spec_vertices_from_count(
                    spec_count_or_ten(vertices),
                    RoundedPolygonBuilder::<Circle>::spec_polygon_radius(
                        spec_count_or_ten(vertices),
                        UNIT,
                    ),
                    Point { x: 0, y: 0 },
                ),
                CornerRounding { radius: UNIT, smoothing: 0 },
                Seq::<CornerRounding>::empty(),
                Some(Point { x: 0, y: 0 }),
                built,
            ) && is_normalized_result(built, r),
{
    let count: usize = match vertices {
        Some(count) => count,
        None => 10,
    };
    let built = RoundedPolygon::circle().with_vertices(count).build();
    assert(count == spec_count_or_ten(vertices));
    assert(is_polygon_of(
        spec_vertices_from_count(
            count as int,
            RoundedPolygonBuilder::<Circle>::spec_polygon_radius(count as int, UNIT),
            Point { x: 0, y: 0 },
        ),
        CornerRounding { radius: UNIT, smoothing: 0 },
        Seq::<CornerRounding>::empty(),
        Some(Point { x: 0, y: 0 }),
        built,
    ));
    normalize(built)
}

/// The number of vertices asked for, or ten.
pub open spec fn spec_count_or_ten(vertices: Option<usize>) -> int {
    match vertices {
        Some(count) => count as int,
        None => 10,
    }
}

/// A rounded square shape.
pub fn square() -> (r: Result<RoundedPolygon<Point>, ShapeError>)
    ensures
        exists|built: Result<RoundedPolygon<Point>, ShapeError>|
            #[trigger] is_polygon_of(
                spec_rectangle_vertices(
                    Size { width: 2_000_000_000, height: 2_000_000_000 },
                    Point { x: 0, y: 0 },
                ),
                CornerRounding { radius: 300_000_000, smoothing: 0 },
                Seq::<CornerRounding>::empty(),
                Some(Point { x: 0, y: 0 }),
                built,
            ) && is_normalized_result(built, r),
{
    normalize(RoundedPolygon::rectangle().with_rounding(CornerRounding::new(300_000_000)).build())
}

/// The points of a slanted square shape.
pub const SLANTED: [Entry; 2] = [
    (926, 970, 189, 811),
    (-21, 967, 187, 57),
];

/// A slanted square shape.
pub fn slanted() -> (r: Result<RoundedPolygon<Point>, ShapeError>)
    ensures
        is_preset(SLANTED@, 2, false, r),
{
    preset(&SLANTED, 2, false)
}

/// The roundings of an arch: two wide corners and two narrow ones.
pub open spec fn spec_arch_roundings() -> Seq<CornerRounding> {
    seq![
        CornerRounding { radius: UNIT, smoothing: 0 },
        CornerRounding { radius: UNIT, smoothing: 0 },
        CornerRounding { radius: 200_000_000, smoothing: 0 },
        CornerRounding { radius: 200_000_000, smoothing: 0 },
    ]
}

/// An arch shape.
pub fn arch() -> (r: Result<RoundedPolygon<Point>, ShapeError>)
    ensures
        exists|built: Result<RoundedPolygon<Point>, ShapeError>, moved: Result<RoundedPolygon<Point>, ShapeError>|
            #[trigger] is_polygon_of(
                spec_vertices_from_count(4, UNIT, Point { x: 0, y: 0 }),
                CornerRounding { radius: 0, smoothing: 0 },
                spec_arch_roundings(),
                Some(Point { x: 0, y: 0 }),
                built,
            ) && #[trigger] is_moved_result(built, &(Rotation { angle: NEG_135 }), moved)
                && is_normalized_result(moved, r),
{
    let mut roundings: Vec<CornerRounding> = Vec::new();
    roundings.push(CornerRounding::new(UNIT));
    roundings.push(CornerRounding::new(UNIT));
    roundings.push(CornerRounding::new(200_000_000));
    roundings.push(CornerRounding::new(200_000_000));
    proof {
        assert(roundings@ =~= spec_arch_roundings());
    }
    let built = RoundedPolygon::from_vertices_count(4, UNIT, None, &roundings);
    let rotation = Rotation { angle: NEG_135 };
    let moved = move_by(built, &rotation);
    normalize(moved)
}

/// The points of a fan shape.
pub const FAN: [Entry; 4] = [
    (1004, 1000, 148, 417),
    (0, 1000, 151, 0),
    (0, -3, 148, 0),
    (978, 20, 803, 0),
];

/// A fan shape.
pub fn fan() -> (r: Result<RoundedPolygon<Point>, ShapeError>)
    ensures
        is_preset(FAN@, 1, false, r),
{
    preset(&FAN, 1, false)
}

/// The points of an arrow shape.
pub const ARROW: [Entry; 4] = [
    (500, 892, 313, 0),
    (-216, 1050, 207, 0),
    (499, -160, 215, 1000),
    (1225, 1060, 211, 0),
];

/// An arrow shape.
pub fn arrow() -> (r: Result<RoundedPolygon<Point>, ShapeError>)
    ensures
        is_preset(ARROW@, 1, false, r),
{
    preset(&ARROW, 1, false)
}

/// The roundings of a semi-circle: two narrow corners and two wide ones.
pub open spec fn spec_semi_circle_roundings() -> Seq<CornerRounding> {
    seq![
        CornerRounding { radius: 200_000_000, smoothing: 0 },
        CornerRounding { radius: 200_000_000, smoothing: 0 },
        CornerRounding { radius: UNIT, smoothing: 0 },
        CornerRounding { radius: UNIT, smoothing: 0 },
    ]
}

/// A semi-circle shape.
pub fn semi_circle() -> (r: Result<RoundedPolygon<Point>, ShapeError>)
    ensures
        exists|built: Result<RoundedPolygon<Point>, ShapeError>|
            #[trigger] is_polygon_of(
                spec_rectangle_vertices(
                    Size { width: 1_600_000_000, height: 2_000_000_000 },
                    Point { x: 0, y: 0 },
                ),
                CornerRounding { radius: 0, smoothing: 0 },
                spec_semi_circle_roundings(),
                Some(Point { x: 0, y: 0 }),
                built,
            ) && is_normalized_result(built, r),
{
    let built = RoundedPolygon::rectangle().with_width(1_600_000_000).with_rounding_per_vertex(
        [
            CornerRounding::new(200_000_000),
            CornerRounding::new(200_000_000),
            CornerRounding::new(UNIT),
            CornerRounding::new(UNIT),
        ],
    ).build();
    proof {
        assert(spec_semi_circle_roundings() =~= [
            CornerRounding { radius: 200_000_000, smoothing: 0 },
            CornerRounding { radius: 200_000_000, smoothing: 0 },
            CornerRounding { radius: 1_000_000_000, smoothing: 0 },
            CornerRounding { radius: 1_000_000_000, smoothing: 0 },
        ]@);
    }
    normalize(built)
}

/// An oval shape.
pub fn oval() -> (r: Result<RoundedPolygon<Point>, ShapeError>)
    ensures
        exists|
            built: Result<RoundedPolygon<Point>, ShapeError>,
            scaled: Result<RoundedPolygon<Point>, ShapeError>,
            moved: Result<RoundedPolygon<Point>, ShapeError>,
        |
            #[trigger] is_polygon_of(
                spec_vertices_from_count(
                    8,
                    RoundedPolygonBuilder::<Circle>::spec_polygon_radius(8, UNIT),
                    Point { x: 0, y: 0 },
                ),
                CornerRounding { radius: UNIT, smoothing: 0 },
                Seq::<CornerRounding>::empty(),
                Some(Point { x: 0, y: 0 }),
                built,
            ) && #[trigger] is_moved_result(built, &(Scaling { x: UNIT, y: 640_000_000 }), scaled)
                && #[trigger] is_moved_result(scaled, &(Rotation { angle: NEG_45 }), moved)
                && is_normalized_result(moved, r),
{
    let built = RoundedPolygon::circle().build();
    let scaling = Scaling { x: UNIT, y: 640_000_000 };
    let scaled = move_by(built, &scaling);
    let rotation = Rotation { angle: NEG_45 };
    let moved = move_by(scaled, &rotation);
    normalize(moved)
}

/// The points of a pill shape.
pub const PILL: [Entry; 3] = [
    (961, 39, 426, 0),
    (1001, 428, 0, 0),
    (1000, 609, 1000, 0),
];

/// A pill shape.
pub fn pill() -> (r: Result<RoundedPolygon<Point>, ShapeError>)
    ensures
        is_preset(PILL@, 2, true, r),
{
    preset(&PILL, 2, true)
}

/// A rounded triangle shape.
pub fn triangle() -> (r: Result<RoundedPolygon<Point>, ShapeError>)
    ensures
        exists|built: Result<RoundedPolygon<Point>, ShapeError>, moved: Result<RoundedPolygon<Point>, ShapeError>|
            #[trigger] is_polygon_of(
                spec_vertices_from_count(3, UNIT, Point { x: 0, y: 0 }),
                CornerRounding { radius: 200_000_000, smoothing: 0 },
                Seq::<CornerRounding>::empty(),
                Some(Point { x: 0, y: 0 }),
                built,
            ) && #[trigger] is_moved_result(built, &(Rotation { angle: NEG_90 }), moved)
                && is_normalized_result(moved, r),
{
    let none: Vec<CornerRounding> = Vec::new();
    let built = RoundedPolygon::from_vertices_count(
        3,
        UNIT,
        Some(CornerRounding::new(200_000_000)),
        &none,
    );
    let rotation = Rotation { angle: NEG_90 };
    let moved = move_by(built, &rotation);
    normalize(moved)
}

/// The points of a diamond shape.
pub const DIAMOND: [Entry; 2] = [
    (500, 1096, 151, 524),
    (40, 500, 159, 0),
];

/// A diamond shape.
pub fn diamond() -> (r: Result<RoundedPolygon<Point>, ShapeError>)
    ensures
        is_preset(DIAMOND@, 2, false, r),
{
    preset(&DIAMOND, 2, false)
}

/// The points of a clam-shell shape.
pub const CLAM_SHELL: [Entry; 3] = [
    (171, 841, 159, 0),
    (-20, 500, 140, 0),
    (170, 159, 159, 0),
];

/// A clam-shell shape.
pub fn clam_shell() -> (r: Result<RoundedPolygon<Point>, ShapeError>)
    ensures
        is_preset(CLAM_SHELL@, 2, false, r),
{
    preset(&CLAM_SHELL, 2, false)
}

/// The points of a pentagon shape.
pub const PENTAGON: [Entry; 3] = [
    (500, -9, 172, 0),
    (1030, 365, 164, 0),
    (828, 970, 169, 0),
];

/// A pentagon shape.
pub fn pentagon() -> (r: Result<RoundedPolygon<Point>, ShapeError>)
    ensures
        is_preset(PENTAGON@, 1, true, r),
{
    preset(&PENTAGON, 1, true)
}

/// The points of a gem shape.
pub const GEM: [Entry; 4] = [
    (499, 1023, 241, 778),
    (-5, 792, 208, 0),
    (73, 258, 228, 0),
    (433, 0, 491, 0),
];

/// A gem shape.
pub fn gem() -> (r: Result<RoundedPolygon<Point>, ShapeError>)
    ensures
        is_preset(GEM@, 1, true, r),
{
    preset(&GEM, 1, true)
}

/// A sunny shape.
pub fn sunny() -> (r: Result<RoundedPolygon<Point>, ShapeError>)
    ensures
        exists|built: Result<RoundedPolygon<Point>, ShapeError>|
            #[trigger] is_polygon_of(
                spec_star_vertices(8, UNIT, 800_000_000, Point { x: 0, y: 0 }),
                CornerRounding { radius: 150_000_000, smoothing: 0 },
                Seq::<CornerRounding>::empty(),
                Some(Point { x: 0, y: 0 }),
                built,
            ) && is_normalized_result(built, r),
{
    let built = RoundedPolygon::star(8).with_inner_radius(800_000_000).with_rounding(
        CornerRounding::new(150_000_000),
    ).build();
    proof {
        assert(spec_vertex_roundings(
            Seq::<CornerRounding>::empty(),
            CornerRounding { radius: 150_000_000, smoothing: 0 },
            None,
            8,
        ) =~= Seq::<CornerRounding>::empty());
    }
    normalize(built)
}

/// The points of a very-sunny shape.
pub const VERY_SUNNY: [Entry; 2] = [
    (500, 1080, 85, 0),
    (358, 843, 85, 0),
];

/// A very-sunny shape.
pub fn very_sunny() -> (r: Result<RoundedPolygon<Point>, ShapeError>)
    ensures
        is_preset(VERY_SUNNY@, 8, false, r),
{
    preset(&VERY_SUNNY, 8, false)
}

/// The points of a 4-sided cookie shape.
pub const COOKIE4: [Entry; 2] = [
    (1237, 1236, 258, 0),
    (500, 918, 233, 0),
];

/// A 4-sided cookie shape.
pub fn cookie4() -> (r: Result<RoundedPolygon<Point>, ShapeError>)
    ensures
        is_preset(COOKIE4@, 4, false, r),
{
    preset(&COOKIE4, 4, false)
}

/// The points of a 6-sided cookie shape.
pub const COOKIE6: [Entry; 2] = [
    (723, 884, 394, 0),
    (500, 1099, 398, 0),
];

/// A 6-sided cookie shape.
pub fn cookie6() -> (r: Result<RoundedPolygon<Point>, ShapeError>)
    ensures
        is_preset(COOKIE6@, 6, false, r),
{
    preset(&COOKIE6, 6, false)
}

/// A 7-sided cookie shape.
pub fn cookie7() -> (r: Result<RoundedPolygon<Point>, ShapeError>)
    ensures
        exists|built: Result<RoundedPolygon<Point>, ShapeError>, moved: Result<RoundedPolygon<Point>, ShapeError>|
            #[trigger] is_polygon_of(
                spec_star_vertices(7, UNIT, 750_000_000, Point { x: 0, y: 0 }),
                CornerRounding { radius: 500_000_000, smoothing: 0 },
                Seq::<CornerRounding>::empty(),
                Some(Point { x: 0, y: 0 }),
                built,
            ) && #[trigger] is_moved_result(built, &(Rotation { angle: NEG_90 }), moved)
                && is_normalized_result(moved, r),
{
    let built = RoundedPolygon::star(7).with_inner_radius(750_000_000).with_rounding(
        CornerRounding::new(500_000_000),
    ).build();
    proof {
        assert(spec_vertex_roundings(
            Seq::<CornerRounding>::empty(),
            CornerRounding { radius: 500_000_000, smoothing: 0 },
            None,
            7,
        ) =~= Seq::<CornerRounding>::empty());
    }
    let rotation = Rotation { angle: NEG_90 };
    let moved = move_by(built, &rotation);
    normalize(moved)
}

/// A 9-sided cookie shape.
pub fn cookie9() -> (r: Result<RoundedPolygon<Point>, ShapeError>)
    ensures
        exists|built: Result<RoundedPolygon<Point>, ShapeError>, moved: Result<RoundedPolygon<Point>, ShapeError>|
            #[trigger] is_polygon_of(
                spec_star_vertices(9, UNIT, 800_000_000, Point { x: 0, y: 0 }),
                CornerRounding { radius: 500_000_000, smoothing: 0 },
                Seq::<CornerRounding>::empty(),
                Some(Point { x: 0, y: 0 }),
                built,
            ) && #[trigger] is_moved_result(built, &(Rotation { angle: NEG_90 }), moved)
                && is_normalized_result(moved, r),
{
    let built = RoundedPolygon::star(9).with_inner_radius(800_000_000).with_rounding(
        CornerRounding::new(500_000_000),
    ).build();
    proof {
        assert(spec_vertex_roundings(
            Seq::<CornerRounding>::empty(),
            CornerRounding { radius: 500_000_000, smoothing: 0 },
            None,
            9,
        ) =~= Seq::<CornerRounding>::empty());
    }
    let rotation = Rotation { angle: NEG_90 };
    let moved = move_by(built, &rotation);
    normalize(moved)
}

/// A 12-sided cookie shape.
pub fn cookie12() -> (r: Result<RoundedPolygon<Point>, ShapeError>)
    ensures
        exists|built: Result<RoundedPolygon<Point>, ShapeError>, moved: Result<RoundedPolygon<Point>, ShapeError>|
            #[trigger] is_polygon_of(
                spec_star_vertices(12, UNIT, 800_000_000, Point { x: 0, y: 0 }),
                CornerRounding { radius: 500_000_000, smoothing: 0 },
                Seq::<CornerRounding>::empty(),
                Some(Point { x: 0, y: 0 }),
                built,
            ) && #[trigger] is_moved_result(built, &(Rotation { angle: NEG_90 }), moved)
                && is_normalized_result(moved, r),
{
    let built = RoundedPolygon::star(12).with_inner_radius(800_000_000).with_rounding(
        CornerRounding::new(500_000_000),
    ).build();
    proof {
        assert(spec_vertex_roundings(
            Seq::<CornerRounding>::empty(),
            CornerRounding { radius: 500_000_000, smoothing: 0 },
            None,
            12,
        ) =~= Seq::<CornerRounding>::empty());
    }
    let rotation = Rotation { angle: NEG_90 };
    let moved = move_by(built, &rotation);
    normalize(moved)
}

/// The points of a ghost-ish shape.
pub const GHOSTISH: [Entry; 4] = [
    (500, 0, 1000, 0),
    (1000, 0, 1000, 0),
    (1000, 1140, 254, 106),
    (575, 906, 253, 0),
];

/// A ghost-ish shape.
pub fn ghostish() -> (r: Result<RoundedPolygon<Point>, ShapeError>)
    ensures
        is_preset(GHOSTISH@, 1, true, r),
{
    preset(&GHOSTISH, 1, true)
}

/// The points of a 4-leaf clover shape.
pub const CLOVER4: [Entry; 2] = [
    (500, 74, 0, 0),
    (725, -99, 476, 0),
];

/// A 4-leaf clover shape.
pub fn clover4() -> (r: Result<RoundedPolygon<Point>, ShapeError>)
    ensures
        is_preset(CLOVER4@, 4, true, r),
{
    preset(&CLOVER4, 4, true)
}

/// The points of an 8-leaf clover shape.
pub const CLOVER8: [Entry; 2] = [
    (500, 36, 0, 0),
    (758, -101, 209, 0),
];

/// An 8-leaf clover shape.
pub fn clover8() -> (r: Result<RoundedPolygon<Point>, ShapeError>)
    ensures
        is_preset(CLOVER8@, 8, false, r),
{
    preset(&CLOVER8, 8, false)
}

/// The points of a burst shape.
pub const BURST: [Entry; 2] = [
    (500, -6, 6, 0),
    (592, 158, 6, 0),
];

/// A burst shape.
pub fn burst() -> (r: Result<RoundedPolygon<Point>, ShapeError>)
    ensures
        is_preset(BURST@, 12, false, r),
{
    preset(&BURST, 12, false)
}

/// The points of a soft-burst shape.
pub const SOFT_BURST: [Entry; 2] = [
    (193, 277, 53, 0),
    (176, 55, 53, 0),
];

/// A soft-burst shape.
pub fn soft_burst() -> (r: Result<RoundedPolygon<Point>, ShapeError>)
    ensures
        is_preset(SOFT_BURST@, 10, false, r),
{
    preset(&SOFT_BURST, 10, false)
}

/// The points of a boom shape.
pub const BOOM: [Entry; 2] = [
    (457, 296, 7, 0),
    (500, -51, 7, 0),
];

/// A boom shape.
pub fn boom() -> (r: Result<RoundedPolygon<Point>, ShapeError>)
    ensures
        is_preset(BOOM@, 15, false, r),
{
    preset(&BOOM, 15, false)
}

/// The points of a soft-boom shape.
pub const SOFT_BOOM: [Entry; 4] = [
    (733, 454, 0, 0),
    (839, 437, 532, 0),
    (949, 449, 439, 1000),
    (998, 478, 174, 0),
];

/// A soft-boom shape.
pub fn soft_boom() -> (r: Result<RoundedPolygon<Point>, ShapeError>)
    ensures
        is_preset(SOFT_BOOM@, 16, true, r),
{
    preset(&SOFT_BOOM, 16, true)
}

/// The points of a flower shape.
pub const FLOWER: [Entry; 3] = [
    (370, 187, 0, 0),
    (416, 49, 381, 0),
    (479, 1, 95, 0),
];

/// A flower shape.
pub fn flower() -> (r: Result<RoundedPolygon<Point>, ShapeError>)
    ensures
        is_preset(FLOWER@, 8, true, r),
{
    preset(&FLOWER, 8, true)
}

/// The points of a puffy shape.
pub const PUFFY: [Entry; 11] = [
    (500, 53, 0, 0),
    (545, -40, 405, 0),
    (670, -35, 426, 0),
    (717, 66, 574, 0),
    (722, 128, 0, 0),
    (777, 2, 360, 0),
    (914, 149, 660, 0),
    (926, 289, 660, 0),
    (881, 346, 0, 0),
    (940, 344, 126, 0),
    (1003, 437, 255, 0),
];

/// A puffy shape.
pub fn puffy() -> (r: Result<RoundedPolygon<Point>, ShapeError>)
    ensures
        exists|built: Result<RoundedPolygon<Point>, ShapeError>, scaled: Result<RoundedPolygon<Point>, ShapeError>|
            #[trigger] is_custom(spec_table(PUFFY@), 2, true, built)
                && #[trigger] is_moved_result(built, &(Scaling { x: UNIT, y: 742_000_000 }), scaled)
                && is_normalized_result(scaled, r),
{
    let points = table_points(&PUFFY);
    let built = RoundedPolygon::from_points(&points, 2, true);
    assert(is_custom(spec_table(PUFFY@), 2, true, built));
    let scaling = Scaling { x: UNIT, y: 742_000_000 };
    let scaled = move_by(built, &scaling);
    normalize(scaled)
}

/// The points of a puffy-diamond shape.
pub const PUFFY_DIAMOND: [Entry; 3] = [
    (870, 130, 146, 0),
    (818, 357, 0, 0),
    (1000, 332, 853, 0),
];

/// A puffy-diamond shape.
pub fn puffy_diamond() -> (r: Result<RoundedPolygon<Point>, ShapeError>)
    ensures
        is_preset(PUFFY_DIAMOND@, 4, true, r),
{
    preset(&PUFFY_DIAMOND, 4, true)
}

/// The points of a pixel-circle shape.
pub const PIXEL_CIRCLE: [Entry; 8] = [
    (500, 0, 0, 0),
    (704, 0, 0, 0),
    (704, 65, 0, 0),
    (843, 65, 0, 0),
    (843, 148, 0, 0),
    (926, 148, 0, 0),
    (926, 296, 0, 0),
    (1000, 296, 0, 0),
];

/// A pixel-circle shape.
pub fn pixel_circle() -> (r: Result<RoundedPolygon<Point>, ShapeError>)
    ensures
        is_preset(PIXEL_CIRCLE@, 2, true, r),
{
    preset(&PIXEL_CIRCLE, 2, true)
}

/// The points of a pixel-triangle shape.
pub const PIXEL_TRIANGLE: [Entry; 13] = [
    (110, 500, 0, 0),
    (113, 0, 0, 0),
    (287, 0, 0, 0),
    (287, 87, 0, 0),
    (421, 87, 0, 0),
    (421, 170, 0, 0),
    (560, 170, 0, 0),
    (560, 265, 0, 0),
    (674, 265, 0, 0),
    (675, 344, 0, 0),
    (789, 344, 0, 0),
    (789, 439, 0, 0),
    (888, 439, 0, 0),
];

/// A pixel-triangle shape.
pub fn pixel_triangle() -> (r: Result<RoundedPolygon<Point>, ShapeError>)
    ensures
        is_preset(PIXEL_TRIANGLE@, 1, true, r),
{
    preset(&PIXEL_TRIANGLE, 1, true)
}

/// The points of a bun shape.
pub const BUN: [Entry; 4] = [
    (796, 500, 0, 0),
    (853, 518, 1000, 0),
    (992, 631, 1000, 0),
    (968, 1000, 1000, 0),
];

/// A bun shape.
pub fn bun() -> (r: Result<RoundedPolygon<Point>, ShapeError>)
    ensures
        is_preset(BUN@, 2, true, r),
{
    preset(&BUN, 2, true)
}

/// The points of a heart shape.
pub const HEART: [Entry; 4] = [
    (500, 268, 16, 0),
    (792, -66, 958, 0),
    (1064, 276, 1000, 0),
    (501, 946, 129, 0),
];

/// A heart shape.
pub fn heart() -> (r: Result<RoundedPolygon<Point>, ShapeError>)
    ensures
        is_preset(HEART@, 1, true, r),
{
    preset(&HEART, 1, true)
}

} // verus!
