use polymorpher::geometry::Point;
use polymorpher::{shapes, CornerRounding, RoundedPoint, RoundedPolygon, ShapeError};

const EPSILON: f32 = 1e-4;

fn float(value: i64) -> f32 {
    (value as f64 / 1_000_000_000.0) as f32
}

fn all_shapes() -> Vec<(&'static str, Result<RoundedPolygon<Point>, ShapeError>)> {
    vec![
        ("circle", shapes::circle(None)),
        ("square", shapes::square()),
        ("slanted", shapes::slanted()),
        ("arch", shapes::arch()),
        ("fan", shapes::fan()),
        ("arrow", shapes::arrow()),
        ("semi_circle", shapes::semi_circle()),
        ("oval", shapes::oval()),
        ("pill", shapes::pill()),
        ("triangle", shapes::triangle()),
        ("diamond", shapes::diamond()),
        ("clam_shell", shapes::clam_shell()),
        ("pentagon", shapes::pentagon()),
        ("gem", shapes::gem()),
        ("sunny", shapes::sunny()),
        ("very_sunny", shapes::very_sunny()),
        ("cookie4", shapes::cookie4()),
        ("cookie6", shapes::cookie6()),
        ("cookie7", shapes::cookie7()),
        ("cookie9", shapes::cookie9()),
        ("cookie12", shapes::cookie12()),
        ("ghostish", shapes::ghostish()),
        ("clover4", shapes::clover4()),
        ("clover8", shapes::clover8()),
        ("burst", shapes::burst()),
        ("soft_burst", shapes::soft_burst()),
        ("boom", shapes::boom()),
        ("soft_boom", shapes::soft_boom()),
        ("flower", shapes::flower()),
        ("puffy", shapes::puffy()),
        ("puffy_diamond", shapes::puffy_diamond()),
        ("pixel_circle", shapes::pixel_circle()),
        ("pixel_triangle", shapes::pixel_triangle()),
        ("bun", shapes::bun()),
        ("heart", shapes::heart()),
    ]
}

#[test]
fn every_shape_lies_in_the_unit_square() {
    for (name, shape) in all_shapes() {
        let shape = shape.unwrap();
        let bounds = shape.aabb(true);

        assert!(float(bounds.min.x) >= -EPSILON, "{name}: {}", float(bounds.min.x));
        assert!(float(bounds.min.y) >= -EPSILON, "{name}: {}", float(bounds.min.y));
        assert!(float(bounds.max.x) <= 1.0 + EPSILON, "{name}: {}", float(bounds.max.x));
        assert!(float(bounds.max.y) <= 1.0 + EPSILON, "{name}: {}", float(bounds.max.y));

        // The longer side of the box fills the square.
        let width = float(bounds.max.x) - float(bounds.min.x);
        let height = float(bounds.max.y) - float(bounds.min.y);

        assert!((width.max(height) - 1.0).abs() < 1e-3, "{name}: {width} x {height}");
    }
}

#[test]
fn every_shape_is_closed_and_without_gaps() {
    for (name, shape) in all_shapes() {
        let shape = shape.unwrap();

        assert!(shape.cubics.len() >= 3, "{name}");
        assert_eq!(shape.cubics[0].anchor0(), shape.cubics.last().unwrap().anchor1(), "{name}");

        for i in 1..shape.cubics.len() {
            let gap = shape.cubics[i].anchor0().minus(shape.cubics[i - 1].anchor1());

            assert!(float(gap.x).abs() < EPSILON && float(gap.y).abs() < EPSILON, "{name}: {i}");
        }
    }
}

#[test]
fn shapes_have_as_many_corners_as_their_points_repeated() {
    let corners = |shape: Result<RoundedPolygon<Point>, ShapeError>| {
        shape.unwrap().features.iter().filter(|feature| feature.is_corner()).count()
    };

    assert_eq!(10, corners(shapes::circle(None)));
    assert_eq!(6, corners(shapes::circle(Some(6))));
    assert_eq!(4, corners(shapes::square()));
    assert_eq!(4, corners(shapes::slanted()));
    assert_eq!(3, corners(shapes::triangle()));
    // Three points, mirrored once: the first point is not repeated.
    assert_eq!(5, corners(shapes::pentagon()));
    assert_eq!(16, corners(shapes::sunny()));
    assert_eq!(24, corners(shapes::burst()));
    assert_eq!(14, corners(shapes::cookie7()));
    // Four points in 32 mirrored repeats, every other one without the first.
    assert_eq!(112, corners(shapes::soft_boom()));
}

#[test]
fn mirrored_shape_is_its_own_mirror_image() {
    // The heart is mirrored in the vertical line through the middle of the
    // unit square.
    let heart = shapes::heart().unwrap();

    for cubic in &heart.cubics {
        let mirrored = Point::new(1_000_000_000 - cubic.anchor0().x, cubic.anchor0().y);

        assert!(
            heart.cubics.iter().any(|other| {
                let gap = other.anchor1().minus(mirrored);

                float(gap.x).abs() < 1e-3 && float(gap.y).abs() < 1e-3
            }),
            "no mirror image of ({}, {})",
            float(cubic.anchor0().x),
            float(cubic.anchor0().y)
        );
    }
}

#[test]
fn repeated_points_turn_round_the_center() {
    // Two points in four repeats: a square with notched sides.
    let points = vec![
        RoundedPoint::new(Point::new(1_000_000_000, 1_000_000_000), CornerRounding::unrounded()),
        RoundedPoint::new(Point::new(500_000_000, 900_000_000), CornerRounding::unrounded()),
    ];
    let polygon = RoundedPolygon::from_points(&points, 4, false).unwrap();
    let vertices: Vec<Point> = polygon
        .features
        .iter()
        .filter(|feature| feature.is_corner())
        .map(|feature| feature.cubics[0].anchor0())
        .collect();
    let expected = [
        (1.0, 1.0),
        (0.5, 0.9),
        (0.0, 1.0),
        (0.1, 0.5),
        (0.0, 0.0),
        (0.5, 0.1),
        (1.0, 0.0),
        (0.9, 0.5),
    ];

    assert_eq!(expected.len(), vertices.len());

    for (vertex, (x, y)) in vertices.iter().zip(expected) {
        assert!((float(vertex.x) - x).abs() < EPSILON, "{} {}", float(vertex.x), x);
        assert!((float(vertex.y) - y).abs() < EPSILON, "{} {}", float(vertex.y), y);
    }
}

#[test]
fn mirrored_points_run_backwards_in_every_other_repeat() {
    let points = vec![
        RoundedPoint::new(Point::new(500_000_000, 268_000_000), CornerRounding::unrounded()),
        RoundedPoint::new(Point::new(792_000_000, -66_000_000), CornerRounding::unrounded()),
        RoundedPoint::new(Point::new(1_064_000_000, 276_000_000), CornerRounding::unrounded()),
        RoundedPoint::new(Point::new(501_000_000, 946_000_000), CornerRounding::unrounded()),
    ];
    let polygon = RoundedPolygon::from_points(&points, 1, true).unwrap();
    let vertices: Vec<Point> = polygon
        .features
        .iter()
        .filter(|feature| feature.is_corner())
        .map(|feature| feature.cubics[0].anchor0())
        .collect();
    let expected = [
        (0.5, 0.268),
        (0.792, -0.066),
        (1.064, 0.276),
        (0.501, 0.946),
        (0.499, 0.946),
        (-0.064, 0.276),
        (0.208, -0.066),
    ];

    assert_eq!(expected.len(), vertices.len());

    for (vertex, (x, y)) in vertices.iter().zip(expected) {
        assert!((float(vertex.x) - x).abs() < EPSILON, "{} {}", float(vertex.x), x);
        assert!((float(vertex.y) - y).abs() < EPSILON, "{} {}", float(vertex.y), y);
    }
}

#[test]
fn every_shape_has_its_anchors_in_its_box() {
    for (name, shape) in all_shapes() {
        let shape = shape.unwrap();
        let bounds = shape.aabb(false);

        for cubic in shape.cubics.iter() {
            for anchor in [cubic.anchor0, cubic.anchor1] {
                assert!(
                    bounds.min.x <= anchor.x
                        && anchor.x <= bounds.max.x
                        && bounds.min.y <= anchor.y
                        && anchor.y <= bounds.max.y,
                    "{name}"
                );
            }
        }

        assert_eq!(shape.cubics.last().unwrap().anchor1, shape.cubics[0].anchor0, "{name}");
    }
}

#[test]
fn normalizing_brings_a_shape_into_the_unit_square() {
    let far = RoundedPolygon::from_vertices(
        &vec![
            -40_000_000_000,
            70_000_000_000,
            -10_000_000_000,
            70_000_000_000,
            -10_000_000_000,
            130_000_000_000,
            -40_000_000_000,
            130_000_000_000,
        ],
        CornerRounding::new(5_000_000_000),
        &vec![],
        None,
    )
    .unwrap()
    .normalized();
    let bounds = far.aabb(true);

    // The longer side fills the square; the shorter one lies in its middle.
    assert_eq!(0, bounds.min.y);
    assert_eq!(1_000_000_000, bounds.max.y);
    assert!((bounds.min.x - 250_000_000).abs() <= 2);
    assert!((bounds.max.x - 750_000_000).abs() <= 2);
    assert!((far.center.x - 500_000_000).abs() <= 2);
    assert!((far.center.y - 500_000_000).abs() <= 2);
}
