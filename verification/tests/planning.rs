use polymorpher::geometry::Point;
use polymorpher::morph::feature_distances;
use polymorpher::sweep::match_cubics;
use polymorpher::{
    Cubic, DoubleMapper, Feature, FeatureType, LengthMeasurer, MatchStep, MeasuredPolygon,
    MorphPlan, ProgressableFeature, RoundedPolygon, ShapeError,
};

const UNIT: i64 = 1_000_000_000;

fn corner(progress: i64, feature: usize, convex: bool) -> ProgressableFeature {
    ProgressableFeature { progress, feature, ty: FeatureType::Corner { convex } }
}

fn edge(progress: i64, feature: usize) -> ProgressableFeature {
    ProgressableFeature { progress, feature, ty: FeatureType::Edge }
}

fn near(expected: i64, actual: i64) -> bool {
    (expected - actual).abs() <= 2
}

#[test]
fn outlines_without_corners_map_to_themselves() {
    let mapper = DoubleMapper::from_features(&vec![], &vec![], &vec![]).unwrap();

    assert_eq!(Ok(300_000_000), mapper.map(300_000_000));

    // Edges are never mapped.
    let edges = vec![edge(100_000_000, 0), edge(600_000_000, 1)];
    let mapper =
        DoubleMapper::from_features(&edges, &edges, &vec![vec![0, 9], vec![9, 0]]).unwrap();

    assert_eq!(Ok(100_000_000), mapper.map(100_000_000));
    assert_eq!(Ok(350_000_000), mapper.map(350_000_000));
}

#[test]
fn corners_that_bend_the_other_way_are_not_mapped() {
    let first = vec![corner(200_000_000, 0, true)];
    let second = vec![corner(600_000_000, 0, false)];
    let mapper = DoubleMapper::from_features(&first, &second, &vec![vec![0]]).unwrap();

    assert_eq!(Ok(200_000_000), mapper.map(200_000_000));
}

#[test]
fn a_single_pair_is_joined_by_the_pair_half_a_turn_away() {
    let first = vec![corner(200_000_000, 0, true)];
    let second = vec![corner(600_000_000, 0, true)];
    let mapper = DoubleMapper::from_features(&first, &second, &vec![vec![5]]).unwrap();

    assert_eq!(Ok(600_000_000), mapper.map(200_000_000));
    assert_eq!(Ok(100_000_000), mapper.map(700_000_000));
    assert_eq!(Ok(850_000_000), mapper.map(450_000_000));
    assert_eq!(Ok(400_000_000), mapper.map(0));
}

#[test]
fn corners_are_mapped_nearest_first() {
    let first =
        vec![corner(100_000_000, 0, true), corner(400_000_000, 2, true), corner(700_000_000, 4, true)];
    let second =
        vec![corner(150_000_000, 0, true), corner(450_000_000, 2, true), corner(750_000_000, 4, true)];
    let distances = vec![vec![0, 10, 20], vec![10, 1, 11], vec![20, 11, 2]];
    let mapper = DoubleMapper::from_features(&first, &second, &distances).unwrap();

    assert_eq!(Ok(150_000_000), mapper.map(100_000_000));
    assert_eq!(Ok(450_000_000), mapper.map(400_000_000));
    assert_eq!(Ok(750_000_000), mapper.map(700_000_000));
    assert_eq!(Ok(300_000_000), mapper.map(250_000_000));

    // The distances decide, not the order of the lists.
    let distances = vec![vec![20, 0, 10], vec![11, 10, 1], vec![2, 20, 11]];
    let mapper = DoubleMapper::from_features(&first, &second, &distances).unwrap();

    assert_eq!(Ok(450_000_000), mapper.map(100_000_000));
    assert_eq!(Ok(750_000_000), mapper.map(400_000_000));
    assert_eq!(Ok(150_000_000), mapper.map(700_000_000));
}

#[test]
fn a_pair_that_would_cross_the_others_is_left_out() {
    let first =
        vec![corner(100_000_000, 0, true), corner(400_000_000, 2, true), corner(700_000_000, 4, true)];
    let second = first.clone();
    // The nearest pairs are (0, 0) and (1, 2); the pair (2, 1) after them
    // would lead back across the second one.
    let distances = vec![vec![0, 50, 51], vec![52, 53, 1], vec![54, 2, 55]];
    let mapper = DoubleMapper::from_features(&first, &second, &distances).unwrap();

    assert_eq!(Ok(100_000_000), mapper.map(100_000_000));
    assert_eq!(Ok(700_000_000), mapper.map(400_000_000));
    // The third corner lies on the way from the second pair to the first.
    assert!(near(871_428_571, mapper.map(700_000_000).unwrap()));
}

#[test]
fn a_pair_too_close_to_another_is_left_out() {
    let first = vec![corner(100_000_000, 0, true), corner(100_050_000, 2, true)];
    let second = vec![corner(300_000_000, 0, true), corner(600_000_000, 2, true)];
    let distances = vec![vec![0, 5], vec![6, 1]];

    // One pair is left, and one pair makes no mapper.
    assert_eq!(
        Some(ShapeError::ProgressRepeat),
        DoubleMapper::from_features(&first, &second, &distances).err()
    );
}

#[test]
fn equal_distances_keep_the_order_of_the_lists() {
    let first = vec![corner(100_000_000, 0, true), corner(600_000_000, 2, true)];
    let second = vec![corner(200_000_000, 0, true), corner(700_000_000, 2, true)];
    let distances = vec![vec![7, 7], vec![7, 7]];
    let mapper = DoubleMapper::from_features(&first, &second, &distances).unwrap();

    assert_eq!(Ok(200_000_000), mapper.map(100_000_000));
    assert_eq!(Ok(700_000_000), mapper.map(600_000_000));
}

#[test]
fn a_sweep_pairs_the_curves_piece_by_piece() {
    let first = MeasuredPolygon::new(vec![], &vec![0, 500_000_000, UNIT]);
    let second = MeasuredPolygon::new(vec![], &vec![0, 250_000_000, UNIT]);
    let steps = match_cubics(&first, &second, &DoubleMapper::identity(), 0).unwrap();

    assert_eq!(
        vec![
            MatchStep { first: 0, second: 0, cut_first: Some(250_000_000), cut_second: None },
            MatchStep { first: 0, second: 1, cut_first: None, cut_second: Some(500_000_000) },
            MatchStep { first: 1, second: 1, cut_first: None, cut_second: None },
        ],
        steps
    );
}

#[test]
fn a_sweep_of_equal_outlines_pairs_curve_with_curve() {
    let first = MeasuredPolygon::new(vec![], &vec![0, 300_000_000, 800_000_000, UNIT]);
    let second = MeasuredPolygon::new(vec![], &vec![0, 300_000_000, 800_000_000, UNIT]);
    let steps = match_cubics(&first, &second, &DoubleMapper::identity(), 0).unwrap();

    assert_eq!(
        vec![
            MatchStep { first: 0, second: 0, cut_first: None, cut_second: None },
            MatchStep { first: 1, second: 1, cut_first: None, cut_second: None },
            MatchStep { first: 2, second: 2, cut_first: None, cut_second: None },
        ],
        steps
    );
}

#[test]
fn a_sweep_goes_through_the_mapper() {
    // The first half of the start outline goes to the first quarter of the
    // end outline.
    let mapper = DoubleMapper::new(vec![(0, 0), (500_000_000, 250_000_000)]).unwrap();
    let first = MeasuredPolygon::new(vec![], &vec![0, 500_000_000, UNIT]);
    let second = MeasuredPolygon::new(vec![], &vec![0, 250_000_000, UNIT]);
    let steps = match_cubics(&first, &second, &mapper, 0).unwrap();

    assert_eq!(
        vec![
            MatchStep { first: 0, second: 0, cut_first: None, cut_second: None },
            MatchStep { first: 1, second: 1, cut_first: None, cut_second: None },
        ],
        steps
    );

    let second = MeasuredPolygon::new(vec![], &vec![0, 500_000_000, UNIT]);
    let steps = match_cubics(&first, &second, &mapper, 0).unwrap();

    // Half of the end outline is reached at two thirds of the start outline.
    assert_eq!(3, steps.len());
    assert_eq!(
        MatchStep { first: 0, second: 0, cut_first: None, cut_second: Some(250_000_000) },
        steps[0]
    );
    assert_eq!(1, steps[1].first);
    assert_eq!(0, steps[1].second);
    assert!(near(666_666_666, steps[1].cut_first.unwrap()));
    assert_eq!(None, steps[1].cut_second);
    assert_eq!(MatchStep { first: 1, second: 1, cut_first: None, cut_second: None }, steps[2]);
}

#[test]
fn a_sweep_that_uses_up_one_outline_first_fails() {
    // The mapper takes the middle of the end outline back to the very end of
    // the start outline: its first curve ends with the only curve there is
    // on the other side.
    let mapper =
        DoubleMapper::new(vec![(999_999_500, 500_000_000), (400_000_000, 900_000_000)]).unwrap();
    let first = MeasuredPolygon::new(vec![], &vec![0, UNIT]);
    let second = MeasuredPolygon::new(vec![], &vec![0, 500_000_000, UNIT]);

    assert_eq!(Err(ShapeError::UnmatchedMorph), match_cubics(&first, &second, &mapper, 0));
}

#[test]
fn a_plan_turns_the_end_outline_to_the_start() {
    let start = MeasuredPolygon::new(
        vec![corner(0, 0, true), corner(500_000_000, 2, true)],
        &vec![0, 500_000_000, UNIT],
    );
    let end = MeasuredPolygon::new(
        vec![corner(250_000_000, 0, true), corner(750_000_000, 2, true)],
        &vec![0, 250_000_000, 750_000_000, UNIT],
    );
    let distances = vec![vec![0, 9], vec![9, 0]];
    let plan = MorphPlan::new(start, end, &distances).unwrap();

    // The start of the start outline is a quarter into the end outline.
    assert_eq!(250_000_000, plan.cut_point());
    assert_eq!(Some(0), plan.cut());
    assert_eq!(
        vec![(0, 500_000_000), (500_000_000, 750_000_000), (750_000_000, UNIT)],
        plan.end()
            .cubics()
            .iter()
            .map(|it| (it.start_outline_progress, it.end_outline_progress))
            .collect::<Vec<_>>()
    );
    assert_eq!(2, plan.start().cubics().len());
    // The last curve of the end outline is the one that the cut came
    // first in: it is reached at three quarters of the start outline.
    assert_eq!(
        &vec![
            MatchStep { first: 0, second: 0, cut_first: None, cut_second: None },
            MatchStep { first: 1, second: 1, cut_first: Some(750_000_000), cut_second: None },
            MatchStep { first: 1, second: 2, cut_first: None, cut_second: None },
        ],
        plan.steps()
    );
}

#[test]
fn a_plan_fails_with_the_mapping() {
    let start = MeasuredPolygon::new(
        vec![corner(100_000_000, 0, true), corner(100_050_000, 2, true)],
        &vec![0, 500_000_000, UNIT],
    );
    let end = MeasuredPolygon::new(
        vec![corner(300_000_000, 0, true), corner(600_000_000, 2, true)],
        &vec![0, 500_000_000, UNIT],
    );

    assert_eq!(
        Some(ShapeError::ProgressRepeat),
        MorphPlan::new(start, end, &vec![vec![0, 5], vec![6, 1]]).err()
    );
}

fn corner_at(x: i64, y: i64) -> Feature<Point> {
    let at = Point::new(x * UNIT, y * UNIT);

    Feature::corner(vec![Cubic::new(at, at, at, at)], true)
}

#[test]
fn distances_are_measured_between_the_middles_of_the_features() {
    // A feature stands where the middle between its two ends is.
    let first = vec![
        corner_at(0, 0),
        Feature::edge(vec![Cubic::straight_line(Point::new(0, 0), Point::new(4 * UNIT, 0))]),
        corner_at(4, 0),
    ];
    let second = vec![corner_at(0, 3), corner_at(4, 3)];
    let measured_first = vec![corner(0, 0, true), corner(500_000_000, 2, true)];
    let measured_second = vec![corner(100_000_000, 0, true), corner(600_000_000, 1, true)];
    let distances = feature_distances(&first, &measured_first, &second, &measured_second);
    let unit = (UNIT as u128) * (UNIT as u128);

    assert_eq!(vec![vec![9 * unit, 25 * unit], vec![25 * unit, 9 * unit]], distances);

    // The edge of the first list, measured as a feature, stands at (2, 0).
    let distances =
        feature_distances(&first, &vec![corner(0, 1, true)], &second, &measured_second);

    assert_eq!(vec![vec![13 * unit, 13 * unit]], distances);

    let mapper =
        DoubleMapper::from_features(&measured_first, &measured_second, &feature_distances(
            &first,
            &measured_first,
            &second,
            &measured_second,
        ))
        .unwrap();

    assert_eq!(Ok(100_000_000), mapper.map(0));
    assert_eq!(Ok(600_000_000), mapper.map(500_000_000));
}

#[test]
fn a_mapper_is_built_from_two_measured_polygons() {
    let square = RoundedPolygon::rectangle().build().unwrap();
    let triangle = RoundedPolygon::from_vertices_count(3, UNIT, None, &vec![]).unwrap();
    let start = MeasuredPolygon::measure_polygon(&LengthMeasurer, &square).unwrap();
    let end = MeasuredPolygon::measure_polygon(&LengthMeasurer, &triangle).unwrap();
    let distances =
        feature_distances(&square.features, start.features(), &triangle.features, end.features());

    assert_eq!(4, distances.len());
    assert!(distances.iter().all(|row| row.len() == 3));

    let mapper = DoubleMapper::from_features(start.features(), end.features(), &distances).unwrap();

    // Three corners of the square find a corner of the triangle.
    let mapped = start
        .features()
        .iter()
        .filter(|corner| {
            let target = mapper.map(corner.progress).unwrap();

            end.features().iter().any(|it| (it.progress - target).abs() <= 2)
        })
        .count();

    assert_eq!(3, mapped);
}
