use polymorpher::geometry::{Point, PointTransformer, DISTANCE_EPSILON};
use polymorpher::{Cubic, Feature, FeatureType};

const EPSILON: i64 = 100_000;

fn point(x: i64, y: i64) -> Point {
    Point::new(x * 1_000_000_000, y * 1_000_000_000)
}

fn approx_eq(expected: Point, actual: Point) -> bool {
    (expected.x - actual.x).abs() <= EPSILON && (expected.y - actual.y).abs() <= EPSILON
}

fn assert_features(expected: &Feature<Point>, actual: &Feature<Point>) {
    assert_eq!(expected.cubics.len(), actual.cubics.len());

    for i in 0..expected.cubics.len() {
        assert!(approx_eq(expected.cubics[i].anchor0(), actual.cubics[i].anchor0()));
        assert!(approx_eq(expected.cubics[i].control0(), actual.cubics[i].control0()));
        assert!(approx_eq(expected.cubics[i].control1(), actual.cubics[i].control1()));
        assert!(approx_eq(expected.cubics[i].anchor1(), actual.cubics[i].anchor1()));
    }

    assert_eq!(expected.ty, actual.ty);

    if expected.is_corner() && actual.is_corner() {
        assert!(expected.is_corner_and(|a| actual.is_corner_and(|b| a == b)));
    }
}

fn validated(feature: Feature<Point>) -> Feature<Point> {
    assert!(!feature.cubics.is_empty(), "Features need at least one cubic.");

    assert!(
        is_continuous(&feature),
        "Feature must be continuous, with the anchor points of all cubics matching the anchor points of the preceding and succeeding cubics."
    );

    feature
}

fn is_continuous(feature: &Feature<Point>) -> bool {
    let mut prev_cubic = feature.cubics[0];

    for index in 1..feature.cubics.len() {
        let cubic = feature.cubics[index];
        let gap = cubic.anchor0().minus(prev_cubic.anchor1());

        if gap.x.abs() >= DISTANCE_EPSILON || gap.y.abs() >= DISTANCE_EPSILON {
            return false;
        }

        prev_cubic = cubic;
    }

    true
}

#[test]
fn builds_concave_corner() {
    let cubic = Cubic::straight_line(point(0, 0), point(1, 0));
    let actual = validated(Feature::corner(vec![cubic], false));
    let expected = Feature::corner(vec![cubic], false);

    assert_features(&expected, &actual);
}

#[test]
fn builds_convex_corner() {
    let cubic = Cubic::straight_line(point(0, 0), point(1, 0));
    let actual = validated(Feature::corner(vec![cubic], true));
    let expected = Feature::corner(vec![cubic], true);

    assert_features(&expected, &actual);
}

#[test]
fn builds_ignorable_as_edge() {
    let cubic = Cubic::straight_line(point(0, 0), point(1, 0));
    let actual = validated(Feature::edge(vec![cubic]));
    let expected = Feature::edge(vec![cubic]);

    assert_features(&expected, &actual);
}

#[test]
fn tells_corners_from_edges() {
    let cubic = Cubic::straight_line(point(0, 0), point(1, 0));
    let edge = Feature::edge(vec![cubic]);
    let convex = Feature::corner(vec![cubic], true);
    let concave = Feature::corner(vec![cubic], false);

    assert_eq!(FeatureType::Edge, edge.ty);
    assert_eq!(FeatureType::Corner { convex: true }, convex.ty);
    assert!(!edge.is_corner());
    assert!(convex.is_corner());
    assert!(concave.is_corner());

    // An edge never calls the function.
    assert!(!edge.is_corner_and(|_| true));
    assert!(convex.is_corner_and(|convex| convex));
    assert!(!concave.is_corner_and(|convex| convex));
    assert!(concave.is_corner_and(|convex| !convex));
}

struct Doubled;

impl PointTransformer<Point> for Doubled {
    fn transform(&self, point: Point) -> Point {
        Point::new(point.x * 2, point.y * 2)
    }
}

#[test]
fn transforms_every_curve() {
    let first = Cubic::straight_line(point(0, 0), point(3, 0));
    let second = Cubic::straight_line(point(3, 0), point(3, 3));
    let corner = Feature::corner(vec![first, second], true).transformed(&Doubled);

    assert_eq!(FeatureType::Corner { convex: true }, corner.ty);
    assert_eq!(2, corner.cubics.len());
    assert_eq!(Cubic::straight_line(point(0, 0), point(6, 0)), corner.cubics[0]);
    assert_eq!(point(6, 6), corner.cubics[1].anchor1());
}

#[test]
fn an_edge_shows_as_its_name() {
    let edge = Feature::edge(vec![Cubic::straight_line(point(0, 0), point(1, 0))]);

    assert_eq!("Edge", edge.text());
}

#[test]
fn a_corner_shows_its_curves_and_its_turn() {
    let curve = Cubic::new(
        Point::new(0, -1),
        Point::new(1_500_000_000, 20),
        Point::new(-300, i64::MAX),
        Point::new(i64::MIN, 7),
    );

    assert_eq!(
        "anchor0: (0, -1) control0: (1500000000, 20) control1: (-300, 9223372036854775807) \
         anchor1: (-9223372036854775808, 7)",
        curve.text()
    );

    let one = Cubic::new(Point::new(1, 2), Point::new(3, 4), Point::new(5, 6), Point::new(7, 8));
    let other =
        Cubic::new(Point::new(7, 8), Point::new(9, 10), Point::new(11, 12), Point::new(13, 14));

    assert_eq!(
        "Corner: cubics=anchor0: (1, 2) control0: (3, 4) control1: (5, 6) anchor1: (7, 8) \
         convex=true",
        Feature::corner(vec![one], true).text()
    );
    assert_eq!(
        "Corner: cubics=anchor0: (1, 2) control0: (3, 4) control1: (5, 6) anchor1: (7, 8), \
         anchor0: (7, 8) control0: (9, 10) control1: (11, 12) anchor1: (13, 14) convex=false",
        Feature::corner(vec![one, other], false).text()
    );
    assert_eq!("Corner: cubics= convex=false", Feature::<Point>::corner(vec![], false).text());
}
