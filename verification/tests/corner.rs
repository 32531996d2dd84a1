use polymorpher::corner::{
    allowed_cut, side_fit, CornerDemand, CornerShape, RoundedCorner, SideFit,
};
use polymorpher::geometry::Point;
use polymorpher::{CornerRounding, RoundedPoint};

const UNIT: i64 = 1_000_000_000;

fn near(expected: i64, actual: i64, tolerance: i64) -> bool {
    (expected - actual).abs() <= tolerance
}

fn near_point(expected: (i64, i64), actual: Point, tolerance: i64) -> bool {
    near(expected.0, actual.x, tolerance) && near(expected.1, actual.y, tolerance)
}

#[test]
fn a_long_side_gives_every_corner_all_it_asks_for() {
    let fit = side_fit(1_000_000_000, 250_000_000, 375_000_000, 250_000_000, 375_000_000);

    assert_eq!(SideFit::Full, fit);
    assert_eq!(375_000_000, allowed_cut(250_000_000, 375_000_000, fit));

    // The demands may use up the side to the last unit.
    assert_eq!(SideFit::Full, side_fit(750_000_000, 250_000_000, 375_000_000, 250_000_000, 375_000_000));
}

#[test]
fn a_shorter_side_leaves_a_part_of_the_smoothing() {
    let fit = side_fit(600_000_000, 250_000_000, 375_000_000, 250_000_000, 375_000_000);

    assert_eq!(SideFit::Partial { room: 100_000_000, wanted: 250_000_000 }, fit);
    // Two fifths of the extra cut of an eighth.
    assert_eq!(300_000_000, allowed_cut(250_000_000, 375_000_000, fit));
}

#[test]
fn a_short_side_shrinks_the_rounding() {
    let fit = side_fit(400_000_000, 250_000_000, 375_000_000, 250_000_000, 375_000_000);

    assert_eq!(SideFit::Shrunk { side: 400_000_000, round_cut: 500_000_000 }, fit);
    assert_eq!(200_000_000, allowed_cut(250_000_000, 375_000_000, fit));
}

#[test]
fn corners_of_different_size_share_a_side_by_their_size() {
    // A side of 3 between corners that ask for 1 and 5, without smoothing.
    let fit = side_fit(3 * UNIT as u64, UNIT as u64, UNIT as u64, 5 * UNIT as u64, 5 * UNIT as u64);
    let first = allowed_cut(UNIT as u64, UNIT as u64, fit);
    let second = allowed_cut(5 * UNIT as u64, 5 * UNIT as u64, fit);

    assert_eq!(500_000_000, first);
    assert_eq!(2_500_000_000, second);
    assert!(first + second <= 3 * UNIT as u64);

    // Parts are rounded down: the cuts never overlap.
    let fit = side_fit(1_000_000_000, 400_000_000, 400_000_000, 800_000_001, 800_000_001);
    let first = allowed_cut(400_000_000, 400_000_000, fit);
    let second = allowed_cut(800_000_001, 800_000_001, fit);

    assert_eq!(333_333_333, first);
    assert_eq!(666_666_666, second);
}

#[test]
fn a_demand_with_smoothing_asks_for_more() {
    let demand = CornerDemand {
        corner_radius: 250_000_000,
        smoothing: 500_000_000,
        expected_round_cut: 250_000_000,
    };

    assert_eq!(375_000_000, demand.expected_cut());

    let plain = CornerDemand { smoothing: 0, ..demand };

    assert_eq!(250_000_000, plain.expected_cut());

    let full = CornerDemand { smoothing: UNIT, ..demand };

    assert_eq!(500_000_000, full.expected_cut());
}

#[test]
fn a_corner_is_drawn_within_its_cuts() {
    let demand = CornerDemand {
        corner_radius: 250_000_000,
        smoothing: 500_000_000,
        expected_round_cut: 250_000_000,
    };

    assert_eq!(
        CornerShape::Rounded {
            actual_round_cut: 250_000_000,
            actual_radius: 250_000_000,
            actual_smoothing0: 500_000_000,
            actual_smoothing1: 500_000_000,
        },
        demand.get_cubics(375_000_000, 375_000_000)
    );
    // Less room on one side: less smoothing there.
    assert_eq!(
        CornerShape::Rounded {
            actual_round_cut: 250_000_000,
            actual_radius: 250_000_000,
            actual_smoothing0: 200_000_000,
            actual_smoothing1: 500_000_000,
        },
        demand.get_cubics(300_000_000, 400_000_000)
    );
    // Less room than the radius needs: the radius shrinks with the cut.
    assert_eq!(
        CornerShape::Rounded {
            actual_round_cut: 200_000_000,
            actual_radius: 200_000_000,
            actual_smoothing0: 0,
            actual_smoothing1: 500_000_000,
        },
        demand.get_cubics(200_000_000, 375_000_000)
    );
}

#[test]
fn a_corner_without_room_stays_sharp() {
    let demand = CornerDemand {
        corner_radius: 250_000_000,
        smoothing: 500_000_000,
        expected_round_cut: 250_000_000,
    };

    assert_eq!(CornerShape::Point, demand.get_cubics(99_999, 375_000_000));
    assert_eq!(CornerShape::Point, demand.get_cubics(375_000_000, 0));
    assert_ne!(CornerShape::Point, demand.get_cubics(100_000, 100_000));
    assert_eq!(
        CornerShape::Point,
        CornerDemand { corner_radius: 99_999, ..demand }.get_cubics(375_000_000, 375_000_000)
    );
    assert_eq!(
        CornerShape::Point,
        CornerDemand { expected_round_cut: 99_999, ..demand }.get_cubics(375_000_000, 375_000_000)
    );
}

fn right_angle(rounding: Option<CornerRounding>) -> RoundedCorner {
    RoundedCorner::new(Point::new(UNIT, 0), Point::zero(), Point::new(0, UNIT), rounding)
}

#[test]
fn a_right_angle_cuts_as_far_as_its_radius() {
    let corner = right_angle(Some(CornerRounding::smoothed(250_000_000, 500_000_000)));

    assert_eq!(Point::new(UNIT, 0), corner.d1);
    assert_eq!(Point::new(0, UNIT), corner.d2);
    assert_eq!(250_000_000, corner.corner_radius);
    assert_eq!(500_000_000, corner.smoothing);
    assert!(near(250_000_000, corner.expected_round_cut, 2));
    assert!(near(375_000_000, corner.expected_cut() as i64, 3));
}

#[test]
fn a_corner_of_sixty_degrees_cuts_deeper() {
    // The cut for a radius r at an angle a is r / tan(a / 2).
    let corner = RoundedCorner::new(
        Point::new(UNIT, 0),
        Point::zero(),
        Point::new(500_000_000, 866_025_404),
        Some(CornerRounding::new(100_000_000)),
    );

    assert!(near(173_205_081, corner.expected_round_cut, 10));
}

#[test]
fn an_unrounded_corner_is_one_curve_without_length() {
    for rounding in [
        None,
        Some(CornerRounding::unrounded()),
        Some(CornerRounding::smoothed(0, UNIT)),
    ] {
        let mut corner = right_angle(rounding);
        let cubics = corner.get_cubics(500_000_000, 500_000_000).unwrap();

        assert_eq!(1, cubics.len());
        assert_eq!(Point::zero(), cubics[0].anchor0);
        assert_eq!(Point::zero(), cubics[0].control0);
        assert_eq!(Point::zero(), cubics[0].control1);
        assert_eq!(Point::zero(), cubics[0].anchor1);
        assert_eq!(Point::zero(), corner.center);
    }
}

#[test]
fn a_corner_between_equal_points_is_a_point() {
    let at = Point::new(UNIT, 2 * UNIT);
    let mut corner =
        RoundedCorner::new(at, at, Point::new(0, UNIT), Some(CornerRounding::new(UNIT)));

    assert_eq!(0, corner.expected_round_cut);
    assert_eq!(0, corner.corner_radius);

    let cubics = corner.get_cubics(UNIT as u64, UNIT as u64).unwrap();

    assert_eq!(1, cubics.len());
    assert_eq!(at, cubics[0].anchor0);
    assert_eq!(at, cubics[0].anchor1);
}

#[test]
fn a_rounded_corner_is_an_arc_between_two_flanks() {
    let mut corner = right_angle(Some(CornerRounding::smoothed(250_000_000, 500_000_000)));
    let cut = corner.expected_cut();
    let cubics = corner.get_cubics(cut, cut).unwrap();

    assert_eq!(3, cubics.len());
    // The flanks start where the cut ends, the arc where the radius touches.
    assert!(near_point((375_000_000, 0), cubics[0].anchor0, 10));
    assert!(near_point((250_000_000, 0), cubics[1].anchor0, 150_000_000));
    assert!(near_point((0, 375_000_000), cubics[2].anchor1, 10));
    assert!(near_point((250_000_000, 250_000_000), corner.center, 10));

    // The curves meet.
    assert_eq!(cubics[0].anchor1, cubics[1].anchor0);
    assert_eq!(cubics[1].anchor1, cubics[2].anchor0);

    // The arc keeps the radius from the center.
    for t in [0, 250_000_000, 500_000_000, 750_000_000, UNIT] {
        let on_arc = cubics[1].point_on_curve(t);

        assert!(near(250_000_000, on_arc.minus(corner.center).length(), 100_000));
    }
}

#[test]
fn without_smoothing_the_flanks_are_straight() {
    let mut corner = right_angle(Some(CornerRounding::new(250_000_000)));
    let cut = corner.expected_cut();
    let cubics = corner.get_cubics(cut, cut).unwrap();

    assert_eq!(3, cubics.len());
    assert!(near_point((250_000_000, 0), cubics[0].anchor0, 10));
    assert!(near_point((250_000_000, 0), cubics[1].anchor0, 10));
    assert!(near_point((0, 250_000_000), cubics[1].anchor1, 10));
    assert!(near_point((0, 250_000_000), cubics[2].anchor1, 10));
}

#[test]
fn a_smaller_cut_gives_a_smaller_arc() {
    let mut corner = right_angle(Some(CornerRounding::new(250_000_000)));
    let cubics = corner.get_cubics(100_000_000, 200_000_000).unwrap();

    assert_eq!(3, cubics.len());
    assert!(near_point((100_000_000, 0), cubics[1].anchor0, 10));
    assert!(near_point((0, 100_000_000), cubics[1].anchor1, 10));
    assert!(near_point((100_000_000, 100_000_000), corner.center, 10));
}

#[test]
fn roundings_and_rounded_points_hold_what_they_are_given() {
    assert_eq!(CornerRounding { radius: 0, smoothing: 0 }, CornerRounding::unrounded());
    assert_eq!(CornerRounding { radius: 5, smoothing: 0 }, CornerRounding::new(5));
    assert_eq!(CornerRounding { radius: 5, smoothing: 7 }, CornerRounding::smoothed(5, 7));

    let point = RoundedPoint::new(Point::new(1, 2), CornerRounding::new(3));

    assert_eq!(Point::new(1, 2), point.offset);
    assert_eq!(CornerRounding::new(3), point.rounding);
    assert_eq!(CornerRounding::unrounded(), RoundedPoint::unrounded(Point::new(1, 2)).rounding);
}

#[test]
fn smoothing_takes_what_the_side_has_left() {
    // A side of 1 between a corner that needs 0.4 for its radius and wants
    // more and more smoothing, and a corner that needs a half and no
    // smoothing: the first one gets what it asks for up to a half.
    for step in 0..=20u64 {
        let smoothing = step * 50_000_000;
        let demand = CornerDemand {
            corner_radius: 400_000_000,
            smoothing: smoothing as i64,
            expected_round_cut: 400_000_000,
        };
        let wanted = demand.expected_cut();

        assert_eq!(400_000_000 + step * 20_000_000, wanted);

        let fit = side_fit(1_000_000_000, 400_000_000, wanted, 500_000_000, 500_000_000);

        assert_eq!(wanted.min(500_000_000), allowed_cut(400_000_000, wanted, fit));
        assert_eq!(500_000_000, allowed_cut(500_000_000, 500_000_000, fit));
    }
}
