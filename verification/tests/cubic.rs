use polymorpher::geometry::{Point, PointTransformer};
use polymorpher::Cubic;

/// One whole, in the units that coordinates are counted in.
const UNIT: f64 = 1_000_000_000.0;

fn fixed(value: f32) -> i64 {
    (f64::from(value) * UNIT).round() as i64
}

fn float(value: i64) -> f32 {
    (value as f64 / UNIT) as f32
}

fn point(x: f32, y: f32) -> Point {
    Point::new(fixed(x), fixed(y))
}

// These points create a roughly circular arc in the upper-right quadrant around
// (0,0)
const EPSILON: f32 = 1e-4;

fn zero() -> Point {
    point(0.0, 0.0)
}

fn p0() -> Point {
    point(1.0, 0.0)
}

fn p1() -> Point {
    point(1.0, 0.5)
}

fn p2() -> Point {
    point(0.5, 1.0)
}

fn p3() -> Point {
    point(0.0, 1.0)
}

fn cubic() -> Cubic<Point> {
    Cubic::new(p0(), p1(), p2(), p3())
}

fn approx_eq(expected: Point, actual: Point) -> bool {
    (float(expected.x) - float(actual.x)).abs() <= EPSILON
        && (float(expected.y) - float(actual.y)).abs() <= EPSILON
}

fn scaled(p: Point, k: f32) -> Point {
    point(float(p.x) * k, float(p.y) * k)
}

struct Unchanged;

impl PointTransformer<Point> for Unchanged {
    fn transform(&self, point: Point) -> Point {
        point
    }
}

struct Scaled(i64);

impl PointTransformer<Point> for Scaled {
    fn transform(&self, point: Point) -> Point {
        point.scaled(self.0)
    }
}

struct Moved(Point);

impl PointTransformer<Point> for Moved {
    fn transform(&self, point: Point) -> Point {
        point.plus(self.0)
    }
}

#[test]
fn construction_test() {
    assert_eq!(p0(), cubic().anchor0());
    assert_eq!(p1(), cubic().control0());
    assert_eq!(p2(), cubic().control1());
    assert_eq!(p3(), cubic().anchor1());
}

#[test]
fn circular_arc_test() {
    let arc_cubic = Cubic::circular_arc(zero(), p0(), p3());

    assert_eq!(p0(), arc_cubic.anchor0());
    assert_eq!(p3(), arc_cubic.anchor1());
}

#[test]
fn div_test() {
    let mut cubic = self::cubic().divided(fixed(1.0));

    assert!(approx_eq(p0(), cubic.anchor0()));
    assert!(approx_eq(p1(), cubic.control0()));
    assert!(approx_eq(p2(), cubic.control1()));
    assert!(approx_eq(p3(), cubic.anchor1()));

    cubic = self::cubic().divided(fixed(1.0));

    assert!(approx_eq(p0(), cubic.anchor0()));
    assert!(approx_eq(p1(), cubic.control0()));
    assert!(approx_eq(p2(), cubic.control1()));
    assert!(approx_eq(p3(), cubic.anchor1()));

    cubic = self::cubic().divided(fixed(2.0));

    assert!(approx_eq(scaled(p0(), 0.5), cubic.anchor0()));
    assert!(approx_eq(scaled(p1(), 0.5), cubic.control0()));
    assert!(approx_eq(scaled(p2(), 0.5), cubic.control1()));
    assert!(approx_eq(scaled(p3(), 0.5), cubic.anchor1()));

    cubic = self::cubic().divided(fixed(2.0));

    assert!(approx_eq(scaled(p0(), 0.5), cubic.anchor0()));
    assert!(approx_eq(scaled(p1(), 0.5), cubic.control0()));
    assert!(approx_eq(scaled(p2(), 0.5), cubic.control1()));
    assert!(approx_eq(scaled(p3(), 0.5), cubic.anchor1()));
}

#[test]
fn mul_test() {
    let mut cubic = self::cubic().times(fixed(1.0));

    assert_eq!(p0(), cubic.anchor0());
    assert_eq!(p1(), cubic.control0());
    assert_eq!(p2(), cubic.control1());
    assert_eq!(p3(), cubic.anchor1());

    cubic = self::cubic().times(fixed(1.0));

    assert_eq!(p0(), cubic.anchor0());
    assert_eq!(p1(), cubic.control0());
    assert_eq!(p2(), cubic.control1());
    assert_eq!(p3(), cubic.anchor1());

    cubic = self::cubic().times(fixed(2.0));

    assert!(approx_eq(scaled(p0(), 2.0), cubic.anchor0()));
    assert!(approx_eq(scaled(p1(), 2.0), cubic.control0()));
    assert!(approx_eq(scaled(p2(), 2.0), cubic.control1()));
    assert!(approx_eq(scaled(p3(), 2.0), cubic.anchor1()));

    cubic = self::cubic().times(fixed(2.0));

    assert!(approx_eq(scaled(p0(), 2.0), cubic.anchor0()));
    assert!(approx_eq(scaled(p1(), 2.0), cubic.control0()));
    assert!(approx_eq(scaled(p2(), 2.0), cubic.control1()));
    assert!(approx_eq(scaled(p3(), 2.0), cubic.anchor1()));
}

#[test]
fn plus_test() {
    let offset_cubic = self::cubic().times(fixed(2.0));
    let cubic = self::cubic().plus(offset_cubic);

    assert!(approx_eq(p0().plus(offset_cubic.anchor0()), cubic.anchor0()));
    assert!(approx_eq(p1().plus(offset_cubic.control0()), cubic.control0()));
    assert!(approx_eq(p2().plus(offset_cubic.control1()), cubic.control1()));
    assert!(approx_eq(p3().plus(offset_cubic.anchor1()), cubic.anchor1()));
}

#[test]
fn reverse_test() {
    let cubic = cubic().reversed();

    assert_eq!(p3(), cubic.anchor0());
    assert_eq!(p2(), cubic.control0());
    assert_eq!(p1(), cubic.control1());
    assert_eq!(p0(), cubic.anchor1());
}

fn assert_between(end0: Point, end1: Point, actual: Point) {
    let min_x = end0.x.min(end1.x);
    let min_y = end0.y.min(end1.y);
    let max_x = end0.x.max(end1.x);
    let max_y = end0.y.max(end1.y);

    assert!(min_x <= actual.x);
    assert!(min_y <= actual.y);
    assert!(max_x >= actual.x);
    assert!(max_y >= actual.y);
}

#[test]
fn straight_line_test() {
    let line_cubic = Cubic::straight_line(p0(), p3());

    assert_eq!(p0(), line_cubic.anchor0());
    assert_eq!(p3(), line_cubic.anchor1());

    assert_between(p0(), p3(), line_cubic.control0());
    assert_between(p0(), p3(), line_cubic.control1());
}

#[test]
fn split_test() {
    let (split0, split1) = cubic().split(fixed(0.5));

    assert_eq!(cubic().anchor0(), split0.anchor0());
    assert_eq!(cubic().anchor1(), split1.anchor1());

    assert_between(cubic().anchor0(), cubic().anchor1(), split0.anchor1());
    assert_between(cubic().anchor0(), cubic().anchor1(), split1.anchor0());
}

#[test]
fn point_on_curve_test() {
    let mut halfway = cubic().point_on_curve(fixed(0.5));

    assert_between(cubic().anchor0(), cubic().anchor1(), halfway);

    let cubic = Cubic::straight_line(p0(), p3());

    halfway = cubic.point_on_curve(fixed(0.5));

    let computed_halfway = point(
        0.5f32.mul_add(float(p3().x) - float(p0().x), float(p0().x)),
        0.5f32.mul_add(float(p3().y) - float(p0().y), float(p0().y)),
    );

    assert!(approx_eq(computed_halfway, halfway));
}

#[test]
fn transform_test() {
    let plain = cubic();
    let mut cubic = plain.transformed(&Unchanged);

    assert!(approx_eq(plain.anchor0(), cubic.anchor0()));
    assert!(approx_eq(plain.control0(), cubic.control0()));
    assert!(approx_eq(plain.control1(), cubic.control1()));
    assert!(approx_eq(plain.anchor1(), cubic.anchor1()));

    cubic = plain.transformed(&Scaled(fixed(3.0)));

    assert!(approx_eq(plain.times(fixed(3.0)).anchor0(), cubic.anchor0()));
    assert!(approx_eq(plain.times(fixed(3.0)).control0(), cubic.control0()));
    assert!(approx_eq(plain.times(fixed(3.0)).control1(), cubic.control1()));
    assert!(approx_eq(plain.times(fixed(3.0)).anchor1(), cubic.anchor1()));

    let translation_vector = point(200.0, 300.0);

    cubic = plain.transformed(&Moved(translation_vector));

    assert!(approx_eq(plain.anchor0().plus(translation_vector), cubic.anchor0()));
    assert!(approx_eq(plain.control0().plus(translation_vector), cubic.control0()));
    assert!(approx_eq(plain.control1().plus(translation_vector), cubic.control1()));
    assert!(approx_eq(plain.anchor1().plus(translation_vector), cubic.anchor1()));
}

#[test]
fn empty_cubic_has_zero_length() {
    let all = Point::splat(fixed(10.0));

    assert!(Cubic::new(all, all, all, all).zero_length());
}

#[test]
fn reversing_twice_gives_the_curve_back() {
    assert_eq!(cubic(), cubic().reversed().reversed());
}

#[test]
fn from_fn_takes_the_points_in_order() {
    let points = [p0(), p1(), p2(), p3()];
    let built = Cubic::from_fn(|i| points[i]);

    assert_eq!(cubic(), built);
}

#[test]
fn ending_at_moves_only_the_end() {
    let moved = cubic().ending_at(point(7.0, 8.0));

    assert_eq!(p0(), moved.anchor0());
    assert_eq!(p1(), moved.control0());
    assert_eq!(p2(), moved.control1());
    assert_eq!(point(7.0, 8.0), moved.anchor1());
}

#[test]
fn point_on_curve_has_exact_values() {
    // At a half the weights are 1/8, 3/8, 3/8 and 1/8.
    let halfway = cubic().point_on_curve(500_000_000);

    assert_eq!(Point::new(687_500_000, 687_500_000), halfway);
    assert_eq!(p0(), cubic().point_on_curve(0));
    assert_eq!(p3(), cubic().point_on_curve(1_000_000_000));
}

#[test]
fn reversed_curve_runs_backwards() {
    let reversed = cubic().reversed();

    for i in 0..=100 {
        let t = i * 10_000_000;

        assert_eq!(cubic().point_on_curve(1_000_000_000 - t), reversed.point_on_curve(t));
    }
}

#[test]
fn split_parts_meet_on_the_curve() {
    for i in 0..=10 {
        let t = i * 100_000_000;
        let (left, right) = cubic().split(t);

        assert_eq!(cubic().point_on_curve(t), left.anchor1());
        assert_eq!(left.anchor1(), right.anchor0());
    }
}

#[test]
fn split_at_a_half_has_exact_values() {
    let (left, right) = cubic().split(500_000_000);

    assert_eq!(Point::new(1_000_000_000, 250_000_000), left.control0());
    assert_eq!(Point::new(875_000_000, 500_000_000), left.control1());
    assert_eq!(Point::new(500_000_000, 875_000_000), right.control0());
    assert_eq!(Point::new(250_000_000, 1_000_000_000), right.control1());
}

#[test]
fn quarter_arc_has_the_usual_control_points() {
    // For a quarter circle the control points lie 0.5523 of the radius along
    // the tangents.
    let arc = Cubic::circular_arc(zero(), p0(), p3());

    assert!((float(arc.control0().x) - 1.0).abs() < EPSILON);
    assert!((float(arc.control0().y) - 0.552_284_8).abs() < EPSILON);
    assert!((float(arc.control1().x) - 0.552_284_8).abs() < EPSILON);
    assert!((float(arc.control1().y) - 1.0).abs() < EPSILON);

    // The other way round the control points lie on the same tangents.
    let back = Cubic::circular_arc(zero(), p3(), p0());

    assert!(approx_eq(arc.control1(), back.control0()));
    assert!(approx_eq(arc.control0(), back.control1()));
}

#[test]
fn flat_arc_is_a_straight_line() {
    let near = point(1.0, 0.01);

    assert_eq!(Cubic::straight_line(p0(), near), Cubic::circular_arc(zero(), p0(), near));
}

#[test]
fn exact_box_of_a_quarter_arc() {
    let arc = Cubic::circular_arc(zero(), p0(), p3());
    let bounds = arc.aabb(false);

    assert!(approx_eq(point(0.0, 0.0), bounds.min));
    assert!(approx_eq(point(1.0, 1.0), bounds.max));

    let approximate = arc.aabb(true);

    assert_eq!(point(0.0, 0.0), approximate.min);
    assert_eq!(point(1.0, 1.0), approximate.max);
}

#[test]
fn exact_box_reaches_the_turning_point() {
    // The curve goes up to y = 0.75 and comes back down.
    let bump = Cubic::new(point(0.0, 0.0), point(0.0, 1.0), point(1.0, 1.0), point(1.0, 0.0));
    let bounds = bump.aabb(false);

    assert!(approx_eq(point(0.0, 0.0), bounds.min));
    assert!(approx_eq(point(1.0, 0.75), bounds.max));

    let approximate = bump.aabb(true);

    assert_eq!(point(1.0, 1.0), approximate.max);
}

#[test]
fn box_of_a_point_is_the_point() {
    let all = point(3.0, 4.0);

    for approximate in [false, true] {
        let bounds = Cubic::new(all, all, all, all).aabb(approximate);

        assert_eq!(all, bounds.min);
        assert_eq!(all, bounds.max);
    }
}

#[test]
fn box_of_a_loop_holds_the_loop() {
    // The curve ends where it starts, and reaches out towards its control
    // points in between.
    let start = Point::new(0, 0);
    let control = Point::new(5_000_000_000, 5_000_000_000);
    let curve = Cubic::new(start, control, control, start);
    let approximate = curve.aabb(true);

    assert_eq!(start, approximate.min);
    assert_eq!(control, approximate.max);

    let exact = curve.aabb(false);

    assert_eq!(start, exact.min);
    assert_eq!(Point::new(3_750_000_000, 3_750_000_000), exact.max);
    assert_eq!(exact.max, curve.point_on_curve(500_000_000));
}

#[test]
fn approximate_box_holds_all_four_points() {
    let curve = Cubic::new(
        Point::new(0, 0),
        Point::new(0, 1_000_000_000),
        Point::new(1_000_000_000, 1_000_000_000),
        Point::new(1_000_000_000, 0),
    );
    let bounds = curve.aabb(true);

    assert_eq!(Point::new(0, 0), bounds.min);
    assert_eq!(Point::new(1_000_000_000, 1_000_000_000), bounds.max);

    // Anchors closer than a ten-thousandth change nothing about it.
    let short = Cubic::new(
        Point::new(0, 0),
        Point::new(-7, 1_000_000_000),
        Point::new(1_000_000_000, -9),
        Point::new(50_000, 50_000),
    );
    let bounds = short.aabb(true);

    assert_eq!(Point::new(-7, -9), bounds.min);
    assert_eq!(Point::new(1_000_000_000, 1_000_000_000), bounds.max);
}

#[test]
fn scaled_curve_passes_the_scaled_points() {
    let curve = Cubic::new(
        Point::new(123_456_789, -987_654_321),
        Point::new(2_718_281_828, 3_141_592_653),
        Point::new(-1_414_213_562, 1_732_050_807),
        Point::new(577_215_664, 693_147_180),
    );

    for k in [-2_500_000_000i64, -333_333_333, 0, 1, 999_999_999, 1_000_000_000, 7_000_000_001] {
        // Less than two units and the part k of a unit apart.
        let allowed = 2 + k.abs() / 1_000_000_000;

        for i in 0..=50 {
            let t = i * 20_000_000;
            let scaled = curve.times(k).point_on_curve(t);
            let after = curve.point_on_curve(t).scaled(k);

            assert!((scaled.x - after.x).abs() <= allowed);
            assert!((scaled.y - after.y).abs() <= allowed);
        }
    }
}

#[test]
fn curve_between_equal_points_stays_there() {
    let at = Point::new(2_000_000_000, -7);
    let curve = Cubic::new(at, at, at, at);

    for t in [0, 1, 333_333_333, 500_000_000, 666_666_667, 999_999_999, 1_000_000_000] {
        assert_eq!(at, curve.point_on_curve(t));
    }
}

#[test]
fn straight_line_has_its_middle_at_a_half() {
    for (start, end) in [
        (Point::new(0, 0), Point::new(1_000_000_000, 2_000_000_000)),
        (Point::new(-5, 7), Point::new(6, -8)),
        (Point::new(1, 1), Point::new(2, 2)),
        (Point::new(i64::MIN, i64::MAX), Point::new(i64::MAX, i64::MIN)),
        (Point::new(3_333_333_333, -1), Point::new(-7_777_777_777, 1)),
    ] {
        let line = Cubic::straight_line(start, end);
        let middle = line.point_on_curve(500_000_000);
        let mean_x = ((i128::from(start.x) + i128::from(end.x)).div_euclid(2)) as i64;
        let mean_y = ((i128::from(start.y) + i128::from(end.y)).div_euclid(2)) as i64;

        assert!(middle.x == mean_x || middle.x == mean_x - 1);
        assert!(middle.y == mean_y || middle.y == mean_y - 1);

        for control in [line.control0, line.control1] {
            assert!(start.x.min(end.x) <= control.x && control.x <= start.x.max(end.x));
            assert!(start.y.min(end.y) <= control.y && control.y <= start.y.max(end.y));
        }
    }

    // A third and two thirds of the way, to the nearest billionth of the way.
    let line = Cubic::straight_line(Point::new(0, 0), Point::new(3_000_000_000, -3_000_000_000));

    assert_eq!(Point::new(999_999_999, -999_999_999), line.control0);
    assert_eq!(Point::new(2_000_000_001, -2_000_000_001), line.control1);
}
