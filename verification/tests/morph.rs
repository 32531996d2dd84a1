use polymorpher::geometry::Point;
use polymorpher::{Morph, RoundedPolygon};

const EPSILON: f32 = 1e-4;

/// One whole, in the units that coordinates are counted in.
const UNIT: f64 = 1_000_000_000.0;

fn fixed(value: f32) -> i64 {
    (f64::from(value) * UNIT).round() as i64
}

fn float(value: i64) -> f32 {
    (value as f64 / UNIT) as f32
}

fn close(a: Point, b: Point) -> bool {
    (float(a.x) - float(b.x)).abs() < EPSILON && (float(a.y) - float(b.y)).abs() < EPSILON
}

#[test]
fn cubics_test() {
    let poly1 = RoundedPolygon::from_vertices_count_at(
        3,
        fixed(1.0),
        Point::new(fixed(0.5), fixed(0.5)),
        None,
        &vec![],
    )
    .unwrap();
    let cubics11 = Morph::new(poly1.clone(), poly1.clone()).unwrap().as_cubics(fixed(0.0));

    assert!(!cubics11.is_empty());

    // The structure of a morph and its component shapes may not match exactly,
    // because morph calculations may optimize some of the zero-length curves
    // out. But in general, every curve in the morph *should* exist somewhere in
    // the shape it is based on, so we do an exhaustive search for such
    // existence. Note that this assertion only works because we constructed the
    // Morph from/to the same shape. A Morph between different shapes
    // may not have the curves replicated exactly.
    for morph_cubic in cubics11 {
        let mut matched = false;

        for p1_cubic in &poly1.cubics {
            if close(morph_cubic.anchor0(), p1_cubic.anchor0())
                && close(morph_cubic.anchor1(), p1_cubic.anchor1())
                && close(morph_cubic.control0(), p1_cubic.control0())
                && close(morph_cubic.control1(), p1_cubic.control1())
            {
                matched = true;

                break;
            }
        }

        assert!(matched);
    }
}

#[test]
fn morph_of_a_triangle_with_itself_stays_the_triangle() {
    let triangle =
        RoundedPolygon::from_vertices_count(3, fixed(1.0), None, &vec![]).unwrap();
    let morph = Morph::new(triangle.clone(), triangle.clone()).unwrap();

    for progress in [0.0, 0.25, 0.5, 1.0] {
        let cubics = morph.as_cubics(fixed(progress));

        assert!(!cubics.is_empty());
        assert_eq!(cubics[0].anchor0(), cubics.last().unwrap().anchor1());

        for cubic in &cubics {
            assert!(triangle.cubics.iter().any(|it| {
                close(cubic.anchor0(), it.anchor0())
                    && close(cubic.anchor1(), it.anchor1())
                    && close(cubic.control0(), it.control0())
                    && close(cubic.control1(), it.control1())
            }));
        }
    }
}

#[test]
fn morph_between_shapes_starts_and_ends_on_them() {
    let square = RoundedPolygon::rectangle().build().unwrap();
    let star = RoundedPolygon::star(4).build().unwrap();
    let morph = Morph::new(square.clone(), star.clone()).unwrap();

    let at_start = morph.as_cubics(fixed(0.0));
    let at_end = morph.as_cubics(fixed(1.0));

    assert_eq!(at_start.len(), at_end.len());

    // Every curve of the start lies on the outline of the square: its
    // anchors are on the sides.
    for cubic in &at_start {
        let on_side = |p: Point| {
            let x = float(p.x).abs();
            let y = float(p.y).abs();

            ((x - 1.0).abs() < EPSILON && y <= 1.0 + EPSILON)
                || ((y - 1.0).abs() < EPSILON && x <= 1.0 + EPSILON)
        };

        assert!(on_side(cubic.anchor0()));
        assert!(on_side(cubic.anchor1()));
    }

    // Every curve of the end lies within the star.
    for cubic in &at_end {
        let radius = |p: Point| float(p.x).hypot(float(p.y));

        assert!(radius(cubic.anchor0()) <= 1.0 + EPSILON);
        assert!(radius(cubic.anchor0()) >= 0.5 - EPSILON);
    }

    // In between the outline is closed, too.
    let halfway = morph.as_cubics(fixed(0.5));

    assert_eq!(halfway[0].anchor0(), halfway.last().unwrap().anchor1());

    for i in 1..halfway.len() {
        assert!(close(halfway[i - 1].anchor1(), halfway[i].anchor0()));
    }
}

#[test]
fn morph_draws_its_shape() {
    let square = RoundedPolygon::rectangle().build().unwrap();
    let morph = Morph::new(square.clone(), square).unwrap();
    let cubics = morph.as_cubics(fixed(0.5));
    let commands = morph.as_path(fixed(0.5), false, true);

    assert_eq!(cubics.len() + 2, commands.len());
}
