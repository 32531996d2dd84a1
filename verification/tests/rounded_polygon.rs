use polymorpher::geometry::{Moving, Point};
use polymorpher::{CornerRounding, Cubic, Feature, RoundedPolygon};

const EPSILON: f32 = 1e-4;

/// One whole, in the units that coordinates are counted in.
const UNIT: f64 = 1_000_000_000.0;

fn fixed(value: f32) -> i64 {
    (f64::from(value) * UNIT).round() as i64
}

fn float(value: i64) -> f32 {
    (value as f64 / UNIT) as f32
}

fn point(x: f32, y: f32) -> Point {
    Point::new(fixed(x), fixed(y))
}

fn splat(v: f32) -> Point {
    point(v, v)
}

fn flat(points: &[Point]) -> Vec<i64> {
    points.iter().flat_map(|p| [p.x, p.y]).collect()
}

fn rounding() -> CornerRounding {
    CornerRounding::new(fixed(1.0))
}

fn per_vertex() -> Vec<CornerRounding> {
    vec![rounding(); 4]
}

fn assert_point_ge(expected: Point, actual: Point) {
    assert!(
        float(actual.x) >= float(expected.x) - EPSILON,
        "expected X to be greater than or equal {}, found: {}",
        float(expected.x),
        float(actual.x)
    );
    assert!(
        float(actual.y) >= float(expected.y) - EPSILON,
        "expected Y to be greater than or equal {}, found: {}",
        float(expected.y),
        float(actual.y)
    );
}

fn assert_point_le(expected: Point, actual: Point) {
    assert!(
        float(actual.x) <= float(expected.x) + EPSILON,
        "expected X to be lesser than or equal {}, found: {}",
        float(expected.x),
        float(actual.x)
    );
    assert!(
        float(actual.y) <= float(expected.y) + EPSILON,
        "expected Y to be lesser than or equal {}, found: {}",
        float(expected.y),
        float(actual.y)
    );
}

fn assert_is_inside(shape: &[Cubic<Point>], min: Point, max: Point) {
    for cubic in shape {
        assert_point_ge(min, cubic.anchor0());
        assert_point_le(max, cubic.anchor0());
        assert_point_ge(min, cubic.control0());
        assert_point_le(max, cubic.control0());
        assert_point_ge(min, cubic.control1());
        assert_point_le(max, cubic.control1());
        assert_point_ge(min, cubic.anchor1());
        assert_point_le(max, cubic.anchor1());
    }
}

fn assert_points(expected: Point, actual: Point) {
    assert!((float(expected.x) - float(actual.x)).abs() <= EPSILON);
    assert!((float(expected.y) - float(actual.y)).abs() <= EPSILON);
}

fn assert_cubics(expected: &Cubic<Point>, actual: &Cubic<Point>) {
    assert_points(expected.anchor0(), actual.anchor0());
    assert_points(expected.control0(), actual.control0());
    assert_points(expected.control1(), actual.control1());
    assert_points(expected.anchor1(), actual.anchor1());
}

fn assert_features(expected: &Feature<Point>, actual: &Feature<Point>) {
    assert_eq!(expected.cubics.len(), actual.cubics.len());

    for i in 0..expected.cubics.len() {
        assert_cubics(&expected.cubics[i], &actual.cubics[i]);
    }

    assert_eq!(expected.ty, actual.ty);

    if expected.is_corner() && actual.is_corner() {
        assert!(expected.is_corner_and(|a| actual.is_corner_and(|b| a == b)));
    }
}

fn assert_polygons(expected: &RoundedPolygon<Point>, actual: &RoundedPolygon<Point>) {
    assert_eq!(expected.cubics.len(), actual.cubics.len());

    for i in 0..expected.cubics.len() {
        assert_cubics(&expected.cubics[i], &actual.cubics[i]);
    }

    assert_eq!(expected.features.len(), actual.features.len());

    for i in 0..expected.features.len() {
        assert_features(&expected.features[i], &actual.features[i]);
    }
}

#[test]
fn from_vertices_test() {
    let p0 = point(1.0, 0.0);
    let p1 = point(0.0, 1.0);
    let p2 = point(-1.0, 0.0);
    let p3 = point(0.0, -1.0);
    let verts = [p0, p1, p2, p3];

    let square =
        RoundedPolygon::from_vertices(&flat(&verts), CornerRounding::unrounded(), &vec![], None)
            .unwrap();

    assert_is_inside(&square.cubics, splat(-1.0), splat(1.0));

    let offset = point(1.0, 2.0);
    let offset_verts = [p0.plus(offset), p1.plus(offset), p2.plus(offset), p3.plus(offset)];

    let square = RoundedPolygon::from_vertices(
        &flat(&offset_verts),
        CornerRounding::unrounded(),
        &vec![],
        Some(offset),
    )
    .unwrap();

    assert_is_inside(&square.cubics, point(0.0, 1.0), point(2.0, 3.0));

    let square = RoundedPolygon::from_vertices(&flat(&verts), rounding(), &vec![], None).unwrap();

    assert_is_inside(&square.cubics, splat(-1.0), splat(1.0));

    let square = RoundedPolygon::from_vertices(
        &flat(&verts),
        CornerRounding::unrounded(),
        &per_vertex(),
        None,
    )
    .unwrap();

    assert_is_inside(&square.cubics, splat(-1.0), splat(1.0));
}

#[test]
fn rounded_square_has_arcs_for_corners() {
    // A square with sides of length 2 and corners of radius 0.5: each corner
    // is cut at 0.5 from the vertex and its arc has its center at 0.5 from
    // both sides.
    let verts = [point(1.0, 1.0), point(-1.0, 1.0), point(-1.0, -1.0), point(1.0, -1.0)];
    let square = RoundedPolygon::from_vertices(
        &flat(&verts),
        CornerRounding::new(fixed(0.5)),
        &vec![],
        None,
    )
    .unwrap();

    assert_eq!(8, square.features.len());

    let corner = &square.features[0];

    assert!(corner.is_corner_and(|convex| convex));
    assert_eq!(3, corner.cubics.len());
    assert_points(point(1.0, 0.5), corner.cubics[0].anchor0());
    assert_points(point(1.0, 0.5), corner.cubics[1].anchor0());
    assert_points(point(0.5, 1.0), corner.cubics[1].anchor1());
    assert_points(point(0.5, 1.0), corner.cubics[2].anchor1());

    let edge = &square.features[1];

    assert!(!edge.is_corner());
    assert_cubics(&Cubic::straight_line(point(0.5, 1.0), point(-0.5, 1.0)), &edge.cubics[0]);

    // The outline is closed and within the square.
    assert_eq!(square.cubics[0].anchor0(), square.cubics.last().unwrap().anchor1());
    assert_is_inside(&square.cubics, splat(-1.0), splat(1.0));
    assert_points(point(0.0, 0.0), square.center);

    let bounds = square.aabb(false);

    assert_points(splat(-1.0), bounds.min);
    assert_points(splat(1.0), bounds.max);
}

#[test]
fn from_vertices_count_test() {
    let square = RoundedPolygon::from_vertices_count(4, fixed(1.0), None, &vec![]).unwrap();

    assert_is_inside(&square.cubics, splat(-1.0), splat(1.0));

    let square = RoundedPolygon::from_vertices_count(4, fixed(2.0), None, &vec![]).unwrap();

    assert_is_inside(&square.cubics, splat(-2.0), splat(2.0));

    let square =
        RoundedPolygon::from_vertices_count(4, fixed(1.0), Some(rounding()), &vec![]).unwrap();

    assert_is_inside(&square.cubics, splat(-1.0), splat(1.0));

    let square = RoundedPolygon::from_vertices_count(4, fixed(1.0), None, &per_vertex()).unwrap();

    assert_is_inside(&square.cubics, splat(-1.0), splat(1.0));
}

#[test]
fn same_rectangle_from_features_test() {
    let base = RoundedPolygon::rectangle().build().unwrap();
    let actual = RoundedPolygon::from_features(base.features.clone(), None);

    assert_polygons(&base, &actual);
}

#[test]
fn same_rounded_rectangle_from_features_test() {
    let base = RoundedPolygon::rectangle()
        .with_rounding(CornerRounding::smoothed(fixed(0.5), fixed(0.2)))
        .build()
        .unwrap();
    let actual = RoundedPolygon::from_features(base.features.clone(), None);

    assert_polygons(&base, &actual);
}

#[test]
fn same_circles_from_features_test() {
    for i in 3..=20 {
        let base = RoundedPolygon::circle().with_vertices(i).build().unwrap();
        let actual = RoundedPolygon::from_features(base.features.clone(), None);

        assert_polygons(&base, &actual);
    }
}

#[test]
fn same_stars_from_features_test() {
    for i in 3..=20 {
        let base = RoundedPolygon::star(i).build().unwrap();
        let actual = RoundedPolygon::from_features(base.features.clone(), None);

        assert_polygons(&base, &actual);
    }
}

#[test]
fn same_rounded_stars_from_features_test() {
    for i in 3..=20 {
        let base = RoundedPolygon::star(i)
            .with_rounding(CornerRounding::smoothed(fixed(0.5), fixed(0.2)))
            .build()
            .unwrap();
        let actual = RoundedPolygon::from_features(base.features.clone(), None);

        assert_polygons(&base, &actual);
    }
}

#[test]
fn same_pill_from_features_test() {
    let base = RoundedPolygon::pill().build().unwrap();
    let actual = RoundedPolygon::from_features(base.features.clone(), None);

    assert_polygons(&base, &actual);
}

#[test]
fn same_pill_star_from_features_test() {
    let base = RoundedPolygon::pill_star()
        .with_rounding(CornerRounding::smoothed(fixed(0.5), fixed(0.2)))
        .build()
        .unwrap();
    let actual = RoundedPolygon::from_features(base.features.clone(), None);

    assert_polygons(&base, &actual);
}

#[test]
fn calc_center_test() {
    let polygon = RoundedPolygon::from_vertices(
        &flat(&[point(0.0, 0.0), point(1.0, 0.0), point(0.0, 1.0), splat(1.0)]),
        CornerRounding::unrounded(),
        &vec![],
        None,
    )
    .unwrap();

    assert!((0.5 - float(polygon.center.x)).abs() <= 1e-4);
    assert!((0.5 - float(polygon.center.y)).abs() <= 1e-4);
}

#[test]
fn rounding_space_usage_test() {
    let p0 = point(0.0, 0.0);
    let p1 = point(1.0, 0.0);
    let p2 = point(0.5, 1.0);
    let pv_rounding = vec![
        CornerRounding::smoothed(fixed(1.0), fixed(0.0)),
        CornerRounding::smoothed(fixed(1.0), fixed(1.0)),
        CornerRounding::unrounded(),
    ];
    let polygon = RoundedPolygon::from_vertices(
        &flat(&[p0, p1, p2]),
        CornerRounding::unrounded(),
        &pv_rounding,
        None,
    )
    .unwrap();

    // Since there is not enough room in the p0 -> p1 side even for the roundings,
    // we shouldn't take smoothing into account, so the corners should end in
    // the middle point.
    let lower_edge_feature = polygon.features.iter().find(|it| !it.is_corner()).unwrap();

    assert_eq!(1, lower_edge_feature.cubics.len());

    let lower_edge = lower_edge_feature.cubics.first().unwrap();

    assert_points(point(0.5, 0.0), lower_edge.anchor0());
    assert_points(point(0.5, 0.0), lower_edge.anchor1());
}

const POINTS: u16 = 20;

#[test]
fn uneven_smoothing_test() {
    // Vertex 3 has the default 0.5 radius, 0 smoothing.
    // Vertex 0 has 0.4 radius, and smoothing varying from 0 to 1.
    for it in 0..=POINTS {
        let smooth = f32::from(it) / f32::from(POINTS);

        do_uneven_smooth_test(
            CornerRounding::smoothed(fixed(0.4), fixed(smooth)),
            0.4 * (1.0 + smooth),
            (0.4 * (1.0 + smooth)).min(0.5),
            0.5,
            None,
        );
    }
}

#[test]
fn uneven_smoothing_test2() {
    // Vertex 3 has the default 0.5 radius, 0 smoothing.
    // Vertex 0 has 0.4 radius, and smoothing varying from 0 to 1.
    for it in 0..=POINTS {
        let smooth = f32::from(it) / f32::from(POINTS);

        let smooth_wanted_v0 = 0.4 * smooth;
        let smooth_wanted_v3 = 0.2;

        let factor = (0.4 / (smooth_wanted_v0 + smooth_wanted_v3)).min(1.0);

        do_uneven_smooth_test(
            CornerRounding::smoothed(fixed(0.4), fixed(smooth)),
            0.4 * (1.0 + smooth),
            factor.mul_add(smooth_wanted_v0, 0.4),
            factor.mul_add(smooth_wanted_v3, 0.2),
            Some(CornerRounding::smoothed(fixed(0.2), fixed(1.0))),
        );
    }
}

#[test]
fn uneven_smoothing_test3() {
    // Vertex 3 has the default 0.5 radius, 0 smoothing.
    // Vertex 0 has 0.4 radius, and smoothing varying from 0 to 1.
    for it in 0..=POINTS {
        let smooth = f32::from(it) / f32::from(POINTS);

        do_uneven_smooth_test(
            CornerRounding::smoothed(fixed(0.4), fixed(smooth)),
            0.4 * (1.0 + smooth),
            0.4,
            0.6,
            Some(CornerRounding::new(fixed(0.6))),
        );
    }
}

/// Brings a shape round `(radius, radius)` to the unit circle round the
/// origin.
struct ToCanonical {
    radius: i64,
}

impl polymorpher::geometry::PointTransformer<Point> for ToCanonical {
    fn transform(&self, point: Point) -> Point {
        point.minus(Point::splat(self.radius)).divided(self.radius)
    }
}

#[test]
fn creating_full_size_test() {
    let radius = 400.0;
    let inner_radius_factor = 0.35;
    let inner_radius = radius * inner_radius_factor;
    let rounding_factor = 0.32;

    let full_size_shape = RoundedPolygon::star(4)
        .with_radius(fixed(radius))
        .with_inner_radius(fixed(inner_radius))
        .with_rounding(CornerRounding::new(fixed(radius * rounding_factor)))
        .with_inner_rounding(CornerRounding::new(fixed(radius * rounding_factor)))
        .with_center(splat(radius))
        .build()
        .unwrap()
        .transformed(&ToCanonical { radius: fixed(radius) });

    let canonical_shape = RoundedPolygon::star(4)
        .with_radius(fixed(1.0))
        .with_inner_radius(fixed(inner_radius_factor))
        .with_rounding(CornerRounding::new(fixed(rounding_factor)))
        .with_inner_rounding(CornerRounding::new(fixed(rounding_factor)))
        .build()
        .unwrap();

    let cubics = canonical_shape.cubics;
    let cubics1 = full_size_shape.cubics;

    assert_eq!(cubics.len(), cubics1.len());

    cubics.into_iter().zip(cubics1).for_each(|(cubic, cubic1)| {
        assert_cubics(&cubic, &cubic1);
    });
}

#[allow(clippy::similar_names)]
fn do_uneven_smooth_test(
    rounding0: CornerRounding,
    expected_v0_sx: f32,
    expected_v0_sy: f32,
    expected_v3_sy: f32,
    rounding3: Option<CornerRounding>,
) {
    let rounding3 = rounding3.unwrap_or_else(|| CornerRounding::new(fixed(0.5)));

    let p0 = point(0.0, 0.0);
    let p1 = point(5.0, 0.0);
    let p2 = point(5.0, 1.0);
    let p3 = point(0.0, 1.0);

    let pv_rounding =
        vec![rounding0, CornerRounding::unrounded(), CornerRounding::unrounded(), rounding3];
    let polygon = RoundedPolygon::from_vertices(
        &flat(&[p0, p1, p2, p3]),
        CornerRounding::unrounded(),
        &pv_rounding,
        None,
    )
    .unwrap();

    let features =
        polygon.features.iter().filter(|feature| !feature.is_corner()).collect::<Vec<_>>();
    let [e01, _, _, e30] = features.as_slice() else { unreachable!() };

    assert!((expected_v0_sx - float(e01.cubics[0].anchor0().x)).abs() <= EPSILON);
    assert!((expected_v0_sy - float(e30.cubics[0].anchor1().y)).abs() <= EPSILON);
    assert!((expected_v3_sy - (1.0 - float(e30.cubics[0].anchor0().y))).abs() <= EPSILON);
}

#[test]
fn a_function_moves_a_polygon() {
    let square = RoundedPolygon::rectangle().build().unwrap();
    let shift = Moving::new(|point: Point| Point::new(point.x + 5, point.y * 2));
    let moved = square.clone().transformed(&shift);

    assert_eq!(square.features.len(), moved.features.len());
    assert_eq!(Point::new(square.center.x + 5, square.center.y * 2), moved.center);

    for (before, after) in square.cubics.iter().zip(moved.cubics.iter()) {
        assert_eq!(Point::new(before.anchor0.x + 5, before.anchor0.y * 2), after.anchor0);
        assert_eq!(Point::new(before.control0.x + 5, before.control0.y * 2), after.control0);
        assert_eq!(Point::new(before.control1.x + 5, before.control1.y * 2), after.control1);
        assert_eq!(Point::new(before.anchor1.x + 5, before.anchor1.y * 2), after.anchor1);
    }
}
