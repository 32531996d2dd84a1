use polymorpher::geometry::{Aabb, Point, Size};
use polymorpher::pill_star::pill_star_vertices_from_num_verts;
use polymorpher::polygon_builder::{
    star_vertices_from_num_verts, vertex_roundings, vertices_from_count,
};
use polymorpher::rounded_polygon::{custom_polygon_layout, vertex_count, Placement};
use polymorpher::{CornerRounding, FeatureType, RoundedPolygon, ShapeError};

const UNIT: i64 = 1_000_000_000;
const EPSILON: i64 = 100_000;

fn near(expected: i64, actual: i64, tolerance: i64) -> bool {
    (expected - actual).abs() <= tolerance
}

fn near_point(expected: (i64, i64), actual: Point, tolerance: i64) -> bool {
    near(expected.0, actual.x, tolerance) && near(expected.1, actual.y, tolerance)
}

fn corners(polygon: &RoundedPolygon<Point>) -> Vec<bool> {
    polygon
        .features
        .iter()
        .filter_map(|feature| match feature.ty {
            FeatureType::Corner { convex } => Some(convex),
            FeatureType::Edge => None,
        })
        .collect()
}

#[test]
fn a_circle_of_four_vertices_fills_its_square() {
    let circle = RoundedPolygon::circle().with_vertices(4).build().unwrap();
    let Aabb { min, max } = circle.aabb(false);

    assert!(near_point((-UNIT, -UNIT), min, EPSILON));
    assert!(near_point((UNIT, UNIT), max, EPSILON));
    assert_eq!(vec![true; 4], corners(&circle));

    // Every point of the outline is as far from the center as the radius.
    for cubic in circle.cubics.iter() {
        for t in [0, 300_000_000, 500_000_000, 900_000_000] {
            assert!(near(UNIT, cubic.point_on_curve(t).length(), 300_000));
        }
    }
}

#[test]
fn a_circle_needs_three_vertices() {
    assert_eq!(
        Some(ShapeError::InvalidVertexCount),
        RoundedPolygon::circle().with_vertices(2).build().err()
    );
    assert!(RoundedPolygon::circle().with_vertices(3).build().is_ok());
}

#[test]
fn a_star_has_corners_that_bend_in_and_out() {
    let star = RoundedPolygon::star(4).with_inner_radius(500_000_000).build().unwrap();

    assert_eq!(16, star.features.len());
    assert_eq!(vec![true, false, true, false, true, false, true, false], corners(&star));

    // The features take turns: a corner, then the edge to the next corner.
    for (index, feature) in star.features.iter().enumerate() {
        assert_eq!(index % 2 == 0, feature.is_corner());
    }
}

#[test]
fn a_diamond_without_rounding_has_four_straight_edges() {
    let diamond = RoundedPolygon::from_vertices(
        &vec![UNIT, 0, 0, UNIT, -UNIT, 0, 0, -UNIT],
        CornerRounding::unrounded(),
        &vec![],
        None,
    )
    .unwrap();

    assert_eq!(
        Aabb { min: Point::new(-UNIT, -UNIT), max: Point::new(UNIT, UNIT) },
        diamond.aabb(false)
    );
    assert_eq!(diamond.aabb(false), diamond.aabb(true));
    assert_eq!(Point::zero(), diamond.center);
    assert_eq!(vec![true; 4], corners(&diamond));

    // The corners are points; only the four edges are drawn.
    let ends = [(UNIT, 0), (0, UNIT), (-UNIT, 0), (0, -UNIT), (UNIT, 0)];

    assert_eq!(4, diamond.cubics.len());

    for (index, cubic) in diamond.cubics.iter().enumerate() {
        assert_eq!(Point::new(ends[index].0, ends[index].1), cubic.anchor0);
        assert_eq!(Point::new(ends[index + 1].0, ends[index + 1].1), cubic.anchor1);

        // The control points lie on the line x + y = 1, or one of its like.
        for point in [cubic.control0, cubic.control1] {
            assert!(near(UNIT, point.x.abs() + point.y.abs(), 2));
        }
    }

    for feature in diamond.features.iter().step_by(2) {
        assert_eq!(1, feature.cubics.len());
        assert!(feature.cubics[0].zero_length());
    }
}

#[test]
fn smoothing_takes_its_room_from_the_edge() {
    // A rectangle of 5 by 1. The two corners on its short left side are
    // rounded: the upper one by a half without smoothing, the lower one by
    // 0.4 with more and more smoothing. The long lower edge has room for all
    // of it; the short side has a half for each corner.
    for (smoothing, along_lower_edge, along_short_side) in [
        (0, 400_000_000, 400_000_000),
        (200_000_000, 480_000_000, 480_000_000),
        (500_000_000, 600_000_000, 500_000_000),
        (UNIT, 800_000_000, 500_000_000),
    ] {
        let plain = CornerRounding::unrounded();
        let polygon = RoundedPolygon::from_vertices(
            &vec![0, 0, 5 * UNIT, 0, 5 * UNIT, UNIT, 0, UNIT],
            plain,
            &vec![
                CornerRounding::smoothed(400_000_000, smoothing),
                plain,
                plain,
                CornerRounding::new(500_000_000),
            ],
            None,
        )
        .unwrap();
        let lower_edge = &polygon.features[1].cubics[0];
        let short_side = &polygon.features[7].cubics[0];

        assert!(near(along_lower_edge, lower_edge.anchor0.x, 1_000));
        assert!(near(0, lower_edge.anchor0.y, 1_000));
        assert!(near(along_short_side, short_side.anchor1.y, 1_000));
        assert!(near(500_000_000, UNIT - short_side.anchor0.y, 1_000));
    }
}

#[test]
fn vertex_lists_are_checked() {
    assert_eq!(Ok(3), vertex_count(6, 0));
    assert_eq!(Ok(3), vertex_count(6, 3));
    assert_eq!(Ok(4), vertex_count(8, 4));
    assert_eq!(Err(ShapeError::InvalidVertexCount), vertex_count(0, 0));
    assert_eq!(Err(ShapeError::InvalidVertexCount), vertex_count(5, 0));
    assert_eq!(Err(ShapeError::InvalidVertexCount), vertex_count(4, 7));
    assert_eq!(Err(ShapeError::VertexArrayMisshape), vertex_count(7, 0));
    assert_eq!(Err(ShapeError::VertexArrayMisshape), vertex_count(7, 2));
    assert_eq!(Err(ShapeError::PerVertexRoundingLengthMismatch), vertex_count(6, 2));
    assert_eq!(Err(ShapeError::PerVertexRoundingLengthMismatch), vertex_count(6, 6));
}

#[test]
fn polygons_are_not_built_from_bad_lists() {
    let plain = CornerRounding::unrounded();
    let build = |vertices: Vec<i64>, roundings: Vec<CornerRounding>| {
        RoundedPolygon::from_vertices(&vertices, plain, &roundings, None).err()
    };

    assert_eq!(Some(ShapeError::InvalidVertexCount), build(vec![0, 0, UNIT, 0], vec![]));
    assert_eq!(
        Some(ShapeError::VertexArrayMisshape),
        build(vec![0, 0, UNIT, 0, 0, UNIT, 5], vec![])
    );
    assert_eq!(
        Some(ShapeError::PerVertexRoundingLengthMismatch),
        build(vec![0, 0, UNIT, 0, 0, UNIT], vec![plain, plain])
    );
    assert_eq!(None, build(vec![0, 0, UNIT, 0, 0, UNIT], vec![plain, plain, plain]));
    assert_eq!(
        Some(ShapeError::InvalidVertexCount),
        RoundedPolygon::from_points_list(&vec![Point::zero(), Point::new(UNIT, 0)], plain, &vec![], None)
            .err()
    );
    assert_eq!(
        Some(ShapeError::PerVertexRoundingLengthMismatch),
        RoundedPolygon::from_vertices_count(5, UNIT, None, &vec![plain; 4]).err()
    );
}

#[test]
fn vertices_stand_on_a_circle() {
    let vertices = vertices_from_count(4, 2 * UNIT, Point::new(UNIT, UNIT));

    assert_eq!(4, vertices.len());
    assert!(near_point((3 * UNIT, UNIT), vertices[0], 20));
    assert!(near_point((UNIT, 3 * UNIT), vertices[1], 20));
    assert!(near_point((-UNIT, UNIT), vertices[2], 20));
    assert!(near_point((UNIT, -UNIT), vertices[3], 20));

    let vertices = vertices_from_count(6, UNIT, Point::zero());

    assert_eq!(6, vertices.len());
    assert!(near_point((500_000_000, 866_025_404), vertices[1], 20));
    assert!(near_point((-500_000_000, -866_025_404), vertices[4], 20));
    assert!(vertices_from_count(0, UNIT, Point::zero()).is_empty());
}

#[test]
fn star_vertices_stand_on_two_circles() {
    let vertices = star_vertices_from_num_verts(4, 2 * UNIT, UNIT, Point::zero());

    assert_eq!(8, vertices.len());
    assert!(near_point((2 * UNIT, 0), vertices[0], 20));
    assert!(near_point((707_106_781, 707_106_781), vertices[1], 20));
    assert!(near_point((0, 2 * UNIT), vertices[2], 20));
    assert!(near_point((-707_106_781, 707_106_781), vertices[3], 20));
    assert!(near_point((707_106_781, -707_106_781), vertices[7], 20));
}

#[test]
fn pill_star_vertices_follow_the_pill() {
    let size = Size::new(4 * UNIT, 2 * UNIT);
    let vertices =
        pill_star_vertices_from_num_verts(4, size, 500_000_000, 500_000_000, 500_000_000, Point::zero());

    assert_eq!(8, vertices.len());
    // The end caps have the radius of the shorter side; between them runs a
    // straight part as long as the sides differ. The outer vertices lie on
    // that outline, the inner ones half as far from the middle line.
    assert!(near_point((-3 * UNIT, 0), vertices[0], 20));
    assert!(near_point((0, -2 * UNIT), vertices[2], 20));
    assert!(near_point((3 * UNIT, 0), vertices[4], 20));
    assert!(near_point((0, 2 * UNIT), vertices[6], 20));

    for (index, vertex) in vertices.iter().enumerate() {
        assert!(vertex.x.abs() <= 3 * UNIT + 20 && vertex.y.abs() <= 2 * UNIT + 20);

        if index % 2 == 1 {
            assert!(vertex.x.abs() < 2 * UNIT && vertex.y.abs() < UNIT);
        }

        // The shape is the same after half a turn.
        let opposite = vertices[(index + 4) % 8];

        assert!(near_point((-vertex.x, -vertex.y), opposite, 50));
    }

    let moved = pill_star_vertices_from_num_verts(
        4,
        size,
        500_000_000,
        500_000_000,
        500_000_000,
        Point::new(3 * UNIT, -UNIT),
    );

    for (vertex, moved) in vertices.iter().zip(moved.iter()) {
        assert_eq!(Point::new(vertex.x + 3 * UNIT, vertex.y - UNIT), *moved);
    }
}

#[test]
fn rounding_lists_take_turns() {
    let outer = CornerRounding::new(1);
    let inner = CornerRounding::new(2);
    let given = vec![CornerRounding::new(3); 6];

    assert_eq!(given.clone(), vertex_roundings(given, outer, Some(inner), 3));
    assert_eq!(
        vec![outer, inner, outer, inner, outer, inner],
        vertex_roundings(vec![], outer, Some(inner), 3)
    );
    assert!(vertex_roundings(vec![], outer, None, 3).is_empty());
    assert!(vertex_roundings(vec![], outer, Some(inner), 0).is_empty());
}

fn placement(point: usize, iteration: usize) -> Placement {
    Placement { point, iteration }
}

#[test]
fn repeats_hold_the_points_in_order() {
    assert_eq!(
        vec![
            placement(0, 0),
            placement(1, 0),
            placement(2, 0),
            placement(0, 1),
            placement(1, 1),
            placement(2, 1),
        ],
        custom_polygon_layout(3, 2, false)
    );
    assert!(custom_polygon_layout(3, 0, false).is_empty());
}

#[test]
fn mirrored_repeats_run_back_and_forth() {
    assert_eq!(
        vec![
            placement(0, 0),
            placement(1, 0),
            placement(2, 0),
            placement(2, 1),
            placement(1, 1),
            placement(0, 2),
            placement(1, 2),
            placement(2, 2),
            placement(2, 3),
            placement(1, 3),
        ],
        custom_polygon_layout(3, 2, true)
    );
    assert_eq!(vec![placement(0, 0), placement(0, 2)], custom_polygon_layout(1, 2, true));
}

#[test]
fn builders_keep_what_they_are_given() {
    let builder = RoundedPolygon::star(5)
        .with_radius(3 * UNIT)
        .with_inner_radius(UNIT)
        .with_rounding(CornerRounding::new(7))
        .with_inner_rounding(CornerRounding::new(9))
        .with_center(Point::new(1, 2));

    assert_eq!(5, builder.data.vertices_per_radius);
    assert_eq!(3 * UNIT, builder.data.radius);
    assert_eq!(UNIT, builder.data.inner_radius);
    assert_eq!(Some(CornerRounding::new(9)), builder.data.inner_rounding);
    assert_eq!(CornerRounding::new(7), builder.rounding);
    assert_eq!(Point::new(1, 2), builder.center);

    let builder = RoundedPolygon::pill().with_width(3 * UNIT).with_height(UNIT).with_smoothing(5);

    assert_eq!(Size::new(3 * UNIT, UNIT), builder.data.size);
    assert_eq!(5, builder.data.smoothing);

    let builder = RoundedPolygon::pill_star()
        .with_size(Size::new(5 * UNIT, 3 * UNIT))
        .with_vertices_per_radius(9)
        .with_vertex_spacing(1)
        .with_start_location(2)
        .with_inner_radius_ratio(3);

    assert_eq!(Size::new(5 * UNIT, 3 * UNIT), builder.data.size);
    assert_eq!(9, builder.data.vertices_per_radius);
    assert_eq!(1, builder.data.vertex_spacing);
    assert_eq!(2, builder.data.start_location);
    assert_eq!(3, builder.data.inner_radius_ratio);
}

#[test]
fn shapes_are_built_round_their_center() {
    let center = Point::new(3 * UNIT, -2 * UNIT);
    let rectangle = RoundedPolygon::rectangle()
        .with_size(Size::new(4 * UNIT, 2 * UNIT))
        .with_center(center)
        .build()
        .unwrap();

    assert_eq!(center, rectangle.center);
    assert_eq!(
        Aabb { min: Point::new(UNIT, -3 * UNIT), max: Point::new(5 * UNIT, -UNIT) },
        rectangle.aabb(false)
    );

    let pill = RoundedPolygon::pill()
        .with_size(Size::new(4 * UNIT, 2 * UNIT))
        .with_center(center)
        .build()
        .unwrap();
    let Aabb { min, max } = pill.aabb(false);

    assert!(near_point((UNIT, -3 * UNIT), min, EPSILON));
    assert!(near_point((5 * UNIT, -UNIT), max, EPSILON));

    let star = RoundedPolygon::star(5).with_center(center).build().unwrap();

    assert_eq!(center, star.center);
    assert_eq!(20, star.features.len());
}
