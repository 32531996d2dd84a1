use polymorpher::fixed::{
    clamp, dot_over, floor_div, hypot, isqrt, magnitude, minus, mul_div, over, plus, sqrt, times,
};
use polymorpher::geometry::Point;
use polymorpher::trig::{cos, radians, sin, turned, HALF_PI, PI, TWO_PI};
use polymorpher::{
    positive_modulo, progress_distance, progress_in_range, radial_to_cartesian, ShapeError,
};

const UNIT: i64 = 1_000_000_000;

fn fixed(value: f64) -> i64 {
    (value * 1e9).round() as i64
}

#[test]
fn sums_stay_in_range() {
    assert_eq!(5, plus(2, 3));
    assert_eq!(-1, minus(2, 3));
    assert_eq!(i64::MAX, plus(i64::MAX, 1));
    assert_eq!(i64::MIN, minus(i64::MIN, 1));
    assert_eq!(i64::MAX, minus(0, i64::MIN));
    assert_eq!(i64::MAX, magnitude(i64::MIN));
    assert_eq!(7, magnitude(-7));
    assert_eq!(i64::MAX, clamp(i128::from(i64::MAX) + 1));
    assert_eq!(-3, clamp(-3));
}

#[test]
fn quotients_are_rounded_down() {
    assert_eq!(3, floor_div(7, 2));
    assert_eq!(-4, floor_div(-7, 2));
    assert_eq!(-1, floor_div(-1, 1_000));
    assert_eq!(0, floor_div(0, 5));

    // 1.5 * 2.5 = 3.75
    assert_eq!(fixed(3.75), times(fixed(1.5), fixed(2.5)));
    assert_eq!(fixed(-3.75), times(fixed(-1.5), fixed(2.5)));
    // A billionth times a half is half a billionth: rounded down.
    assert_eq!(0, times(1, UNIT / 2));
    assert_eq!(-1, times(-1, UNIT / 2));

    // 1 / 3, and -1 / 3
    assert_eq!(333_333_333, over(UNIT, 3 * UNIT));
    assert_eq!(-333_333_334, over(-UNIT, 3 * UNIT));
    assert_eq!(-333_333_334, over(UNIT, -3 * UNIT));
    assert_eq!(333_333_333, over(-UNIT, -3 * UNIT));
    assert_eq!(0, over(UNIT, 0));

    assert_eq!(6, mul_div(4, 3, 2));
    assert_eq!(-7, mul_div(-13, 1, 2));
    assert_eq!(0, mul_div(4, 3, 0));
    assert_eq!(i64::MAX, mul_div(i64::MAX, 4, 2));

    // 3 * 4 + 5 * 6 = 42
    assert_eq!(42, dot_over(3, 4, 5, 6, 1));
    assert_eq!(i64::MAX, dot_over(i64::MIN, i64::MIN, i64::MIN, i64::MIN, 1));
}

#[test]
fn roots_are_rounded_down() {
    assert_eq!(0, isqrt(0));
    assert_eq!(1, isqrt(1));
    assert_eq!(1, isqrt(3));
    assert_eq!(2, isqrt(4));
    assert_eq!(999_999_999, isqrt(999_999_999_999_999_999));
    assert_eq!(1_000_000_000, isqrt(1_000_000_000_000_000_000));
    assert_eq!(u64::MAX, isqrt(u128::MAX));

    assert_eq!(fixed(5.0), hypot(fixed(3.0), fixed(4.0)));
    assert_eq!(fixed(5.0), hypot(fixed(-3.0), fixed(4.0)));
    assert_eq!(0, hypot(0, 0));
    assert_eq!(i64::MAX, hypot(i64::MIN, i64::MIN));

    assert_eq!(fixed(1.5), sqrt(fixed(2.25)));
    assert_eq!(1_414_213_562, sqrt(2 * UNIT));
    assert_eq!(0, sqrt(-5));
}

#[test]
fn progress_wraps_round() {
    assert_eq!(3, positive_modulo(13, 10));
    assert_eq!(7, positive_modulo(-13, 10));
    assert_eq!(0, positive_modulo(-10, 10));
    assert_eq!(fixed(0.7), positive_modulo(fixed(-0.3), UNIT));
    assert_eq!(3, positive_modulo(i64::MIN + 1, 10));

    assert!(progress_in_range(fixed(0.5), fixed(0.2), fixed(0.8)));
    assert!(progress_in_range(fixed(0.2), fixed(0.2), fixed(0.8)));
    assert!(progress_in_range(fixed(0.8), fixed(0.2), fixed(0.8)));
    assert!(!progress_in_range(fixed(0.9), fixed(0.2), fixed(0.8)));
    // The range through the place where progress wraps.
    assert!(progress_in_range(fixed(0.9), fixed(0.8), fixed(0.2)));
    assert!(progress_in_range(fixed(0.1), fixed(0.8), fixed(0.2)));
    assert!(!progress_in_range(fixed(0.5), fixed(0.8), fixed(0.2)));

    assert_eq!(fixed(0.3), progress_distance(fixed(0.2), fixed(0.5)));
    assert_eq!(fixed(0.3), progress_distance(fixed(0.5), fixed(0.2)));
    // The shorter way leads through the wrap.
    assert_eq!(fixed(0.2), progress_distance(fixed(0.1), fixed(0.9)));
    assert_eq!(fixed(0.5), progress_distance(0, fixed(0.5)));
    assert_eq!(0, progress_distance(0, UNIT));
}

#[test]
fn sines_and_cosines_are_close() {
    for i in -720..=720 {
        let degrees = f64::from(i);
        let angle = fixed(degrees.to_radians());

        assert!(
            (sin(angle) - fixed(degrees.to_radians().sin())).abs() <= 5,
            "sin {degrees}: {}",
            sin(angle)
        );
        assert!(
            (cos(angle) - fixed(degrees.to_radians().cos())).abs() <= 5,
            "cos {degrees}: {}",
            cos(angle)
        );
    }

    assert_eq!(0, sin(0));
    assert!((cos(0) - UNIT).abs() <= 2);
    assert!(cos(0) <= UNIT);
    assert!((sin(HALF_PI) - UNIT).abs() <= 2);
    assert!(cos(HALF_PI).abs() <= 2);
    assert!(sin(PI).abs() <= 2);
    assert!((cos(PI) + UNIT).abs() <= 2);
    assert!(sin(TWO_PI).abs() <= 2);
}

#[test]
fn degrees_become_radians() {
    assert_eq!(PI, radians(fixed(180.0)));
    assert!((radians(fixed(90.0)) - HALF_PI).abs() <= 1);
    assert!((radians(fixed(-45.0)) + HALF_PI / 2).abs() <= 1);
    assert_eq!(0, radians(0));
}

#[test]
fn points_turn_round_a_center() {
    let close = |expected: (f64, f64), actual: Point| {
        (actual.x - fixed(expected.0)).abs() <= 20 && (actual.y - fixed(expected.1)).abs() <= 20
    };
    let point = Point::new(fixed(2.0), fixed(1.0));
    let center = Point::new(fixed(1.0), fixed(1.0));

    assert!(close((1.0, 2.0), turned(point, HALF_PI, center)));
    assert!(close((0.0, 1.0), turned(point, PI, center)));
    assert!(close((1.0, 0.0), turned(point, -HALF_PI, center)));
    assert!(close((1.0, 2.0), point.rotated(fixed(90.0), center)));
    assert!(close((2.0, 1.0), point.rotated(fixed(360.0), center)));
    assert!(close(
        (1.0 + 0.5f64.sqrt(), 1.0 + 0.5f64.sqrt()),
        point.rotated(fixed(45.0), center)
    ));

    assert!(close((0.0, 2.0), radial_to_cartesian(fixed(2.0), HALF_PI)));
    assert!(close((-3.0, 0.0), radial_to_cartesian(fixed(3.0), PI)));
}

#[test]
fn vectors_add_scale_and_measure() {
    let a = Point::new(fixed(3.0), fixed(4.0));
    let b = Point::new(fixed(1.0), fixed(-2.0));

    assert_eq!(Point::new(fixed(4.0), fixed(2.0)), a.plus(b));
    assert_eq!(Point::new(fixed(2.0), fixed(6.0)), a.minus(b));
    assert_eq!(Point::new(fixed(1.5), fixed(2.0)), a.scaled(fixed(0.5)));
    assert_eq!(Point::new(fixed(1.5), fixed(2.0)), a.divided(fixed(2.0)));
    assert_eq!(Point::zero(), a.divided(0));
    // 3 * 1 + 4 * -2 = -5
    assert_eq!(fixed(-5.0), a.dot(b));
    assert_eq!(fixed(5.0), a.length());
    assert_eq!(Point::new(fixed(0.6), fixed(0.8)), a.normalize());
    assert_eq!(Point::zero(), Point::zero().normalize());
    assert_eq!(Point::new(fixed(-4.0), fixed(3.0)), a.rotate90());
    assert_eq!(Point::new(fixed(1.0), fixed(-2.0)), a.min(b));
    assert_eq!(Point::new(fixed(3.0), fixed(4.0)), a.max(b));
    assert_eq!(Point::splat(7), Point::new(7, 7));

    assert_eq!(a, a.lerp(b, 0));
    assert_eq!(b, a.lerp(b, UNIT));
    assert_eq!(Point::new(fixed(2.0), fixed(1.0)), a.lerp(b, fixed(0.5)));
    assert_eq!(Point::new(fixed(2.5), fixed(2.5)), a.lerp(b, fixed(0.25)));
}

#[test]
fn directions_and_turns() {
    let a = Point::new(fixed(3.0), fixed(4.0));

    assert_eq!(Ok(Point::new(fixed(0.6), fixed(0.8))), a.get_direction());
    assert_eq!(Err(ShapeError::ZeroDirection), Point::zero().get_direction());

    let origin = Point::zero();
    let east = Point::new(fixed(1.0), 0);
    let north_east = Point::new(fixed(1.0), fixed(1.0));
    let south_east = Point::new(fixed(1.0), fixed(-1.0));
    let further_east = Point::new(fixed(2.0), 0);

    assert!(origin.is_convex(east, north_east));
    assert!(!origin.is_convex(east, south_east));
    // Straight on is no turn at all.
    assert!(!origin.is_convex(east, further_east));
}
