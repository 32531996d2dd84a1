use polymorpher::path::{path_commands, PathCommand};
use polymorpher::Cubic;

type Point = (i32, i32);

fn square() -> Vec<Cubic<Point>> {
    vec![
        Cubic::new((0, 0), (1, 0), (2, 0), (3, 0)),
        Cubic::new((3, 0), (3, 1), (3, 2), (3, 3)),
        Cubic::new((3, 3), (2, 3), (1, 3), (0, 3)),
        Cubic::new((0, 3), (0, 2), (0, 1), (0, 0)),
    ]
}

fn curves() -> Vec<PathCommand<Point>> {
    vec![
        PathCommand::CubicTo((1, 0), (2, 0), (3, 0)),
        PathCommand::CubicTo((3, 1), (3, 2), (3, 3)),
        PathCommand::CubicTo((2, 3), (1, 3), (0, 3)),
        PathCommand::CubicTo((0, 2), (0, 1), (0, 0)),
    ]
}

#[test]
fn draws_each_curve_once() {
    let mut expected = vec![PathCommand::MoveTo((0, 0))];
    expected.extend(curves());

    assert_eq!(expected, path_commands(false, false, &square()));
}

#[test]
fn repeats_after_a_line_to_the_start() {
    let mut expected = vec![PathCommand::MoveTo((0, 0))];
    expected.extend(curves());
    expected.push(PathCommand::LineTo((0, 0)));
    expected.extend(curves());

    assert_eq!(expected, path_commands(true, false, &square()));
}

#[test]
fn closes_at_the_end() {
    let commands = path_commands(true, true, &square());

    assert_eq!(11, commands.len());
    assert_eq!(Some(&PathCommand::Close), commands.last());

    let commands = path_commands(false, true, &square());

    assert_eq!(6, commands.len());
    assert_eq!(Some(&PathCommand::Close), commands.last());
}

#[test]
fn draws_nothing_without_curves() {
    let none: Vec<Cubic<Point>> = Vec::new();

    assert!(path_commands(true, false, &none).is_empty());
    assert_eq!(vec![PathCommand::Close], path_commands(true, true, &none));
}
