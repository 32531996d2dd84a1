use polymorpher::geometry::Point;
use polymorpher::morph::{
    curves_of, cut_piece, cut_piece_at, cut_piece_with, flatten, turned_list_at, turned_list_with,
    Piece,
};
use polymorpher::{
    CornerRounding, Cubic, Feature, FeatureType, LengthMeasurer, MeasuredCubic, MeasuredPolygon,
    Measurer, ProgressableFeature, RoundedPolygon, ShapeError,
};

const UNIT: i64 = 1_000_000_000;

fn fixed(value: f64) -> i64 {
    (value * 1e9).round() as i64
}

fn point(x: f64, y: f64) -> Point {
    Point::new(fixed(x), fixed(y))
}

fn line(from: (f64, f64), to: (f64, f64)) -> Cubic<Point> {
    Cubic::straight_line(point(from.0, from.1), point(to.0, to.1))
}

fn intervals(polygon: &MeasuredPolygon) -> Vec<(usize, i64, i64)> {
    polygon
        .cubics()
        .iter()
        .map(|it| (it.source, it.start_outline_progress, it.end_outline_progress))
        .collect()
}

#[test]
fn a_straight_line_is_as_long_as_it_is() {
    let measurer = LengthMeasurer;
    let cubic = line((1.0, 1.0), (4.0, 5.0));

    assert!((measurer.measure_cubic(&cubic) as i64 - fixed(5.0)).abs() <= 3);
    assert_eq!(0, measurer.measure_cubic(&line((2.0, 2.0), (2.0, 2.0))));
}

#[test]
fn an_arc_is_about_as_long_as_its_chords() {
    let measurer = LengthMeasurer;
    let arc = Cubic::circular_arc(point(0.0, 0.0), point(1.0, 0.0), point(0.0, 1.0));
    let length = measurer.measure_cubic(&arc) as f64 / 1e9;

    // Three chords of a quarter circle: 3 * 2 sin(15 degrees).
    assert!((length - 6.0 * 15f64.to_radians().sin()).abs() < 1e-3);
}

#[test]
fn cut_points_grow_with_the_length() {
    let measurer = LengthMeasurer;
    let cubic = line((0.0, 0.0), (3.0, 0.0));
    let whole = measurer.measure_cubic(&cubic);

    assert_eq!(0, measurer.find_cubic_cut_point(&cubic, 0));
    assert!((measurer.find_cubic_cut_point(&cubic, whole / 2) - UNIT / 2).abs() <= 2);
    assert!((measurer.find_cubic_cut_point(&cubic, whole / 3) - UNIT / 3).abs() <= 2);
    assert_eq!(UNIT, measurer.find_cubic_cut_point(&cubic, whole));
    // A length that is never reached gives the end of the curve.
    assert_eq!(UNIT, measurer.find_cubic_cut_point(&cubic, whole + 1));
    assert_eq!(UNIT, measurer.find_cubic_cut_point(&cubic, u64::MAX));

    let mut last = 0;

    for i in 0..=100 {
        let t = measurer.find_cubic_cut_point(&cubic, whole / 100 * i);

        assert!(t >= last);
        assert!((0..=UNIT).contains(&t));

        last = t;
    }
}

#[test]
fn a_curve_without_length_is_cut_at_its_start() {
    let measurer = LengthMeasurer;
    let cubic = line((2.0, 2.0), (2.0, 2.0));

    assert_eq!(0, measurer.find_cubic_cut_point(&cubic, 0));
    assert_eq!(UNIT, measurer.find_cubic_cut_point(&cubic, 1));
}

#[test]
fn narrow_curves_are_left_out() {
    // The second curve covers less than a ten-thousandth of the outline.
    let polygon =
        MeasuredPolygon::new(vec![], &vec![0, 300_000_000, 300_050_000, 800_000_000, UNIT]);

    assert_eq!(
        vec![(0, 0, 300_000_000), (2, 300_000_000, 800_000_000), (3, 800_000_000, UNIT)],
        intervals(&polygon)
    );

    // The last curve that stays is stretched to the end of the outline.
    let polygon = MeasuredPolygon::new(vec![], &vec![0, 400_000_000, 999_950_000, UNIT]);

    assert_eq!(vec![(0, 0, 400_000_000), (1, 400_000_000, UNIT)], intervals(&polygon));

    // A curve that covers exactly a ten-thousandth does not stay either.
    let polygon = MeasuredPolygon::new(vec![], &vec![0, 100_000, UNIT]);

    assert_eq!(vec![(1, 0, UNIT)], intervals(&polygon));
}

#[test]
fn sizes_become_parts_of_the_outline() {
    let square = vec![
        Feature::corner(vec![line((0.0, 0.0), (0.0, 0.0))], true),
        Feature::edge(vec![line((0.0, 0.0), (1.0, 0.0))]),
        Feature::corner(vec![line((1.0, 0.0), (1.0, 0.0))], true),
        Feature::edge(vec![line((1.0, 0.0), (1.0, 2.0))]),
    ];
    let polygon = MeasuredPolygon::from_sizes(&square, &vec![0, 1_000, 0, 3_000]);

    assert_eq!(vec![(1, 0, 250_000_000), (3, 250_000_000, UNIT)], intervals(&polygon));
    // A corner sits in the middle of its central curve.
    assert_eq!(
        &vec![
            ProgressableFeature {
                progress: 0,
                feature: 0,
                ty: FeatureType::Corner { convex: true }
            },
            ProgressableFeature {
                progress: 250_000_000,
                feature: 2,
                ty: FeatureType::Corner { convex: true }
            },
        ],
        polygon.features()
    );
}

#[test]
fn a_corner_of_three_curves_sits_on_its_arc() {
    let corner = vec![Feature::corner(
        vec![line((0.0, 0.0), (1.0, 0.0)), line((1.0, 0.0), (2.0, 0.0)), line((2.0, 0.0), (4.0, 0.0))],
        false,
    )];
    let polygon = MeasuredPolygon::from_sizes(&corner, &vec![1, 1, 2]);

    assert_eq!(
        vec![(0, 0, 250_000_000), (1, 250_000_000, 500_000_000), (2, 500_000_000, UNIT)],
        intervals(&polygon)
    );
    assert_eq!(375_000_000, polygon.features()[0].progress);
    assert_eq!(FeatureType::Corner { convex: false }, polygon.features()[0].ty);
}

#[test]
fn cuts_and_shifts_the_outline() {
    // Three curves with the outline progress [0 .. 0.3], [0.3 .. 0.8] and
    // [0.8 .. 1.0], cut and shifted at 0.6: the breakpoints become
    // 0.0, 0.2, 0.4, 0.7 and 1.0.
    let features = vec![
        ProgressableFeature { progress: 100_000_000, feature: 0, ty: FeatureType::Edge },
        ProgressableFeature {
            progress: 700_000_000,
            feature: 1,
            ty: FeatureType::Corner { convex: true },
        },
    ];
    let polygon = MeasuredPolygon::new(features, &vec![0, 300_000_000, 800_000_000, UNIT]);
    let (shifted, cut) = polygon.cut_and_shift(600_000_000).unwrap();

    assert_eq!(Some(1), cut);
    // The curves are: the part of the second curve after the cut, the third
    // curve, the first curve, and the part of the second curve before the cut.
    assert_eq!(
        vec![
            (0, 0, 200_000_000),
            (1, 200_000_000, 400_000_000),
            (2, 400_000_000, 700_000_000),
            (3, 700_000_000, UNIT),
        ],
        intervals(&shifted)
    );
    assert_eq!(500_000_000, shifted.features()[0].progress);
    assert_eq!(100_000_000, shifted.features()[1].progress);
    assert_eq!(1, shifted.features()[1].feature);
}

#[test]
fn a_cut_near_the_start_changes_nothing() {
    let polygon = MeasuredPolygon::new(vec![], &vec![0, 300_000_000, UNIT]);
    let (same, cut) = polygon.cut_and_shift(99_999).unwrap();

    assert_eq!(None, cut);
    assert_eq!(vec![(0, 0, 300_000_000), (1, 300_000_000, UNIT)], intervals(&same));
}

#[test]
fn a_cut_at_a_breakpoint_leaves_out_the_empty_part() {
    let polygon = MeasuredPolygon::new(vec![], &vec![0, 300_000_000, UNIT]);
    let (shifted, cut) = polygon.cut_and_shift(300_000_000).unwrap();

    // The first curve holds the cut at its end: nothing of it comes first.
    assert_eq!(Some(0), cut);
    assert_eq!(vec![(1, 0, 700_000_000), (2, 700_000_000, UNIT)], intervals(&shifted));
}

#[test]
fn a_cut_outside_the_outline_is_rejected() {
    let polygon = MeasuredPolygon::new(vec![], &vec![0, 300_000_000, UNIT]);

    assert_eq!(Some(ShapeError::ProgressOutOfRange), polygon.cut_and_shift(-1).err());

    let polygon = MeasuredPolygon::new(vec![], &vec![0, 300_000_000, UNIT]);

    assert_eq!(Some(ShapeError::ProgressOutOfRange), polygon.cut_and_shift(UNIT + 1).err());
}

#[test]
fn cuts_a_measured_curve() {
    let cubic = MeasuredCubic {
        source: 4,
        start_outline_progress: 200_000_000,
        end_outline_progress: 600_000_000,
    };
    let (before, after, measure) = cubic.cut_at_progress(300_000_000, 1_000);

    assert_eq!(
        MeasuredCubic { source: 4, start_outline_progress: 200_000_000, end_outline_progress: 300_000_000 },
        before
    );
    assert_eq!(
        MeasuredCubic { source: 4, start_outline_progress: 300_000_000, end_outline_progress: 600_000_000 },
        after
    );
    assert_eq!(250, measure);

    // A cut outside of the curve is brought to its nearer end.
    let (before, _, measure) = cubic.cut_at_progress(100_000_000, 1_000);

    assert_eq!(200_000_000, before.end_outline_progress);
    assert_eq!(0, measure);

    let (_, after, measure) = cubic.cut_at_progress(900_000_000, 1_000);

    assert_eq!(600_000_000, after.start_outline_progress);
    assert_eq!(1_000, measure);
}

#[test]
fn measures_a_polygon_by_length() {
    let square = RoundedPolygon::rectangle().build().unwrap();
    let measured = MeasuredPolygon::measure_polygon(&LengthMeasurer, &square).unwrap();

    // The corners are points: only the four edges stay, a quarter each.
    assert_eq!(4, measured.cubics().len());

    for (i, cubic) in measured.cubics().iter().enumerate() {
        assert!((cubic.start_outline_progress - i as i64 * 250_000_000).abs() <= 10);
        assert!((cubic.end_outline_progress - (i as i64 + 1) * 250_000_000).abs() <= 10);
    }

    assert_eq!(0, measured.cubics()[0].start_outline_progress);
    assert_eq!(UNIT, measured.cubics()[3].end_outline_progress);
    assert_eq!(4, measured.features().len());
}

#[test]
fn a_polygon_without_extent_cannot_be_measured() {
    let all = point(1.0, 1.0);
    let polygon = RoundedPolygon::from_vertices(
        &vec![all.x, all.y, all.x, all.y, all.x, all.y],
        CornerRounding::unrounded(),
        &vec![],
        None,
    )
    .unwrap();

    assert!(MeasuredPolygon::measure_polygon(&LengthMeasurer, &polygon).is_none());
    assert_eq!(
        Some(ShapeError::NothingToMeasure),
        polymorpher::Morph::new(polygon.clone(), polygon).err()
    );
}

/// Gives every curve the size 1000 and cuts, whatever the size asked for, at
/// a quarter of the curve.
struct Quarters;

impl Measurer<Point> for Quarters {
    fn measure_cubic(&self, _: &Cubic<Point>) -> u64 {
        1_000
    }

    fn find_cubic_cut_point(&self, _: &Cubic<Point>, _: u64) -> i64 {
        250_000_000
    }
}

/// Finds cuts that are no part of any curve.
struct Beyond;

impl Measurer<Point> for Beyond {
    fn measure_cubic(&self, _: &Cubic<Point>) -> u64 {
        1_000
    }

    fn find_cubic_cut_point(&self, _: &Cubic<Point>, _: u64) -> i64 {
        UNIT + 1
    }
}

fn piece(from: (f64, f64), to: (f64, f64), start: i64, end: i64) -> Piece {
    Piece {
        cubic: line(from, to),
        measured: MeasuredCubic {
            source: 3,
            start_outline_progress: start,
            end_outline_progress: end,
        },
    }
}

#[test]
fn a_piece_is_cut_where_its_measurer_says() {
    let whole = piece((0.0, 0.0), (8.0, 0.0), 200_000_000, 600_000_000);
    let (before, after) = cut_piece_with(&Quarters, whole, 500_000_000).unwrap();

    assert_eq!(Point::new(0, 0), before.anchor0);
    assert_eq!(before.anchor1, after.cubic.anchor0);
    assert!((before.anchor1.x - 2 * UNIT).abs() <= 20);
    assert_eq!(Point::new(8 * UNIT, 0), after.cubic.anchor1);
    assert_eq!(
        MeasuredCubic { source: 3, start_outline_progress: 500_000_000, end_outline_progress: 600_000_000 },
        after.measured
    );
    assert_eq!(Some((before, after)), cut_piece_at(whole, 500_000_000, 250_000_000));

    // By length the same cut lies at three quarters of the curve.
    let (before, _) = cut_piece_with(&LengthMeasurer, whole, 500_000_000).unwrap();

    assert!((before.anchor1.x - 6 * UNIT).abs() <= 20);
    assert_eq!(cut_piece(whole, 500_000_000), cut_piece_with(&LengthMeasurer, whole, 500_000_000));
}

#[test]
fn a_piece_is_not_cut_where_it_cannot_be() {
    let empty = piece((0.0, 0.0), (8.0, 0.0), 200_000_000, 200_000_000);
    let whole = piece((0.0, 0.0), (8.0, 0.0), 200_000_000, 600_000_000);

    assert_eq!(None, cut_piece_with(&Quarters, empty, 200_000_000));
    assert_eq!(None, cut_piece(empty, 200_000_000));
    assert_eq!(None, cut_piece_with(&Beyond, whole, 500_000_000));
    assert_eq!(None, cut_piece_at(whole, 500_000_000, -1));
    assert_eq!(None, cut_piece_at(whole, 500_000_000, UNIT + 1));
    assert!(cut_piece_at(whole, 500_000_000, 0).is_some());
    assert!(cut_piece_at(whole, 500_000_000, UNIT).is_some());
}

#[test]
fn a_cut_outline_has_its_curves_turned() {
    let features = vec![
        Feature::edge(vec![line((0.0, 0.0), (3.0, 0.0))]),
        Feature::edge(vec![line((3.0, 0.0), (3.0, 5.0)), line((3.0, 5.0), (0.0, 0.0))]),
    ];
    let all = flatten(&features);

    assert_eq!(3, all.len());
    assert_eq!(features[1].cubics[1], all[2]);

    let polygon = MeasuredPolygon::new(vec![], &vec![0, 300_000_000, 800_000_000, UNIT]);
    let before = polygon.cubics().clone();
    let curves = curves_of(&before, &all);

    assert_eq!(all, curves);

    let (shifted, cut) = polygon.cut_and_shift(600_000_000).unwrap();
    let target = cut.unwrap();
    let list = turned_list_with(&Quarters, &curves, &before, target, 600_000_000).unwrap();

    // The part after the cut, the curves round to the cut one, the part
    // before the cut.
    assert_eq!(4, list.len());
    assert_eq!(all[2], list[1]);
    assert_eq!(all[0], list[2]);
    assert_eq!(list[3].anchor1, list[0].anchor0);
    assert_eq!(all[1].anchor0, list[3].anchor0);
    assert_eq!(all[1].anchor1, list[0].anchor1);
    assert!((list[0].anchor0.y - 1_250_000_000).abs() <= 20);
    assert_eq!(list, turned_list_at(&curves, target, list[3], list[0]));

    // The curves of the turned outline, in its order.
    assert_eq!(list, curves_of(shifted.cubics(), &list));
    assert_eq!(None, turned_list_with(&Beyond, &curves, &before, target, 600_000_000));
}
