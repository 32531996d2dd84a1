use polymorpher::DoubleMapper;

const EPSILON: f32 = 1e-4;

/// Progress units in one turn.
const UNIT: f64 = 1_000_000_000.0;

fn to_units(progress: f32) -> i64 {
    (f64::from(progress) * UNIT).round() as i64
}

fn to_progress(units: i64) -> f32 {
    (units as f64 / UNIT) as f32
}

fn mapper(pairs: &[(i64, i64)]) -> DoubleMapper {
    DoubleMapper::new(pairs.to_vec()).unwrap()
}

#[test]
fn identity_mapping_test() {
    validate_mapping(&DoubleMapper::identity(), |v| v);
}

#[test]
fn simple_mapping_test() {
    validate_mapping(
        // Map the first half of the start source to the first quarter of the target.
        &mapper(&[(0, 0), (500_000_000, 250_000_000)]),
        |x| if x < 0.5 { x / 2.0 } else { 3.0f32.mul_add(x, -1.0) / 2.0 },
    );
}

#[test]
fn target_wraps_test() {
    validate_mapping(
        // mapping applies a "+ 0.5"
        &mapper(&[(0, 500_000_000), (100_000_000, 600_000_000)]),
        |x| (x + 0.5) % 1.0,
    );
}

#[test]
fn source_wraps_test() {
    validate_mapping(
        // Values on the source wrap (this is still the "+ 0.5" function)
        &mapper(&[(500_000_000, 0), (100_000_000, 600_000_000)]),
        |x| (x + 0.5) % 1.0,
    );
}

#[test]
fn both_wrap_test() {
    validate_mapping(
        // Just the identity function
        &mapper(&[
            (500_000_000, 500_000_000),
            (750_000_000, 750_000_000),
            (100_000_000, 100_000_000),
            (490_000_000, 490_000_000),
        ]),
        |v| v,
    );
}

#[test]
fn multiple_point_test() {
    validate_mapping(
        &mapper(&[(400_000_000, 200_000_000), (500_000_000, 220_000_000), (0, 800_000_000)]),
        |x| {
            if x < 0.4 {
                (0.8 + x) % 1.0
            } else if x < 0.5 {
                0.2 + (x - 0.4) / 5.0
            } else {
                // maps a change of 0.5 in the source to a change 0.58 in the target, hence the
                // 1.16
                (x - 0.5).mul_add(1.16, 0.22)
            }
        },
    );
}

fn validate_mapping(mapper: &DoubleMapper, expected_function: fn(f32) -> f32) {
    for i in 0..9999u16 {
        let source = f32::from(i) / 10000.0;
        let target = expected_function(source);

        let mapped = to_progress(mapper.map(i64::from(i) * 100_000).unwrap());
        let mapped_back = to_progress(mapper.map_back(to_units(target)).unwrap());

        assert!((target - mapped).abs() < EPSILON);
        assert!((source - mapped_back).abs() < EPSILON);
    }
}

#[test]
fn maps_across_the_wrap() {
    // A mapper that adds a half: 0.3 goes to 0.8, and 0.7 wraps to 0.2.
    let mapper = mapper(&[(0, 500_000_000), (100_000_000, 600_000_000)]);

    assert_eq!(Ok(800_000_000), mapper.map(300_000_000));
    assert_eq!(Ok(200_000_000), mapper.map(700_000_000));
    assert_eq!(Ok(300_000_000), mapper.map_back(800_000_000));
    assert_eq!(Ok(700_000_000), mapper.map_back(200_000_000));
    // The end of the turn is its start.
    assert_eq!(Ok(500_000_000), mapper.map(1_000_000_000));
}

#[test]
fn identity_maps_every_progress_to_itself() {
    let identity = DoubleMapper::identity();

    for x in [0, 1, 123_456_789, 499_999_999, 500_000_000, 500_000_001, 999_999_999] {
        assert_eq!(Ok(x), identity.map(x));
        assert_eq!(Ok(x), identity.map_back(x));
    }

    assert_eq!(Ok(0), identity.map(1_000_000_000));
}

#[test]
fn maps_have_exact_values() {
    // The first half of the source goes to the first quarter of the target.
    let mapper = mapper(&[(0, 0), (500_000_000, 250_000_000)]);

    assert_eq!(Ok(125_000_000), mapper.map(250_000_000));
    assert_eq!(Ok(625_000_000), mapper.map(750_000_000));
    assert_eq!(Ok(250_000_000), mapper.map_back(125_000_000));
    // A third of a half is rounded down.
    assert_eq!(Ok(83_333_333), mapper.map(166_666_667));
}

#[test]
fn mapping_back_inverts_mapping() {
    let mapper =
        mapper(&[(400_000_000, 200_000_000), (500_000_000, 220_000_000), (0, 800_000_000)]);

    for i in 0..1000 {
        let x = i * 999_983 + 17;
        let back = mapper.map_back(mapper.map(x).unwrap()).unwrap();

        assert!((back - x).abs() <= 1000, "{x} came back as {back}");
    }
}

#[test]
fn narrow_segment_maps_to_the_middle_of_its_target() {
    // The first segment is narrower than a thousandth of a turn.
    let mapper = mapper(&[(0, 0), (500_000, 500_000_000)]);

    assert_eq!(Ok(250_000_000), mapper.map(100_000));
    assert_eq!(Ok(250_000_000), mapper.map(400_000));
    // Nothing leads back from there to where the progress came from.
    assert_eq!(Ok(250_000), mapper.map_back(250_000_000));
}

#[test]
fn progress_beyond_the_turn_is_rejected() {
    let identity = DoubleMapper::identity();

    assert_eq!(Err(polymorpher::ShapeError::ProgressOutOfRange), identity.map(-1));
    assert_eq!(Err(polymorpher::ShapeError::ProgressOutOfRange), identity.map(1_000_000_001));
    assert_eq!(Err(polymorpher::ShapeError::ProgressOutOfRange), identity.map_back(-1));
    assert_eq!(
        Err(polymorpher::ShapeError::ProgressOutOfRange),
        identity.map_back(1_000_000_001)
    );
}

fn error_of(pairs: &[(i64, i64)]) -> Option<polymorpher::ShapeError> {
    DoubleMapper::new(pairs.to_vec()).err()
}

#[test]
fn values_outside_the_turn_are_rejected() {
    let expected = Some(polymorpher::ShapeError::ProgressOutOfRange);

    assert_eq!(expected, error_of(&[(1_000_000_000, 0), (500_000_000, 500_000_000)]));
    assert_eq!(expected, error_of(&[(-1, 0), (500_000_000, 500_000_000)]));
    assert_eq!(expected, error_of(&[(0, 1_000_000_000), (500_000_000, 500_000_000)]));
    assert_eq!(None, error_of(&[(0, 0), (999_899_999, 500_000_000)]));
}

#[test]
fn values_too_close_are_rejected() {
    let expected = Some(polymorpher::ShapeError::ProgressRepeat);

    assert_eq!(expected, error_of(&[(0, 0), (100_000, 500_000_000)]));
    assert_eq!(expected, error_of(&[(0, 0), (500_000_000, 100_000)]));
    // Close through the wrap, too.
    assert_eq!(expected, error_of(&[(50_000, 0), (999_950_000, 500_000_000)]));
    // A single pair is its own neighbour.
    assert_eq!(expected, error_of(&[(0, 0)]));
    assert_eq!(None, error_of(&[(0, 0), (100_001, 500_000_000)]));
}

#[test]
fn a_second_wrap_is_rejected() {
    let expected = Some(polymorpher::ShapeError::MultipleWrap);

    assert_eq!(
        expected,
        error_of(&[(0, 0), (500_000_000, 100_000_000), (200_000_000, 200_000_000), (700_000_000, 300_000_000)])
    );
    assert_eq!(
        expected,
        error_of(&[(0, 0), (100_000_000, 500_000_000), (200_000_000, 200_000_000), (300_000_000, 700_000_000)])
    );
    // One wrap is what a list has that goes once round.
    assert_eq!(None, error_of(&[(500_000_000, 0), (700_000_000, 100_000_000), (200_000_000, 200_000_000)]));
}

#[test]
fn the_first_violation_is_reported() {
    // The first source value is out of range and the first target value is
    // repeated: the sources are looked at first.
    assert_eq!(
        Some(polymorpher::ShapeError::ProgressOutOfRange),
        error_of(&[(2_000_000_000, 0), (500_000_000, 0)])
    );
    // A value is held against the one before it, the first one against the
    // last: the end of the turn after its start repeats it.
    assert_eq!(
        Some(polymorpher::ShapeError::ProgressRepeat),
        error_of(&[(0, 0), (1_000_000_000, 500_000_000)])
    );
    // Within a list the first entry that violates anything is reported: the
    // second one repeats the first, the third one is out of range.
    assert_eq!(
        Some(polymorpher::ShapeError::ProgressRepeat),
        error_of(&[(500_000_000, 0), (500_000_001, 300_000_000), (-5, 600_000_000)])
    );
    assert_eq!(
        Ok(()),
        polymorpher::mapper::validate_progress(&vec![0, 250_000_000, 500_000_000])
    );
    assert_eq!(
        Err(polymorpher::ShapeError::MultipleWrap),
        polymorpher::mapper::validate_progress(&vec![0, 500_000_000, 250_000_000, 750_000_000])
    );
}
