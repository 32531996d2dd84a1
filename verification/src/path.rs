use vstd::prelude::*;
use crate::cubic::Cubic;

verus! {

/// One instruction to whatever draws a path.
#[derive(Debug, Clone, Copy, PartialEq)]
pub enum PathCommand<P> {
    MoveTo(P),
    LineTo(P),
    CubicTo(P, P, P),
    Close,
}

/// One `CubicTo` for each of the curves.
pub open spec fn spec_curve_commands<P>(cubics: Seq<Cubic<P>>) -> Seq<PathCommand<P>> {
    Seq::new(
        cubics.len(),
        |i: int| PathCommand::CubicTo(cubics[i].control0, cubics[i].control1, cubics[i].anchor1),
    )
}

/// The instructions that draw a list of curves.
///
/// A move to the start of the first curve, then every curve; if the path is
/// to be repeated, a line back to the start of the first curve and every
/// curve once more; if it is to be closed, a `Close` at the end. Without a
/// curve there is nothing to move to or to repeat.
pub open spec fn spec_commands<P>(cubics: Seq<Cubic<P>>, repeat_path: bool, close_path: bool) -> Seq<
    PathCommand<P>,
> {
    let once = if cubics.len() > 0 {
        seq![PathCommand::MoveTo(cubics[0].anchor0)] + spec_curve_commands(cubics)
    } else {
        Seq::empty()
    };
    let again = if repeat_path && cubics.len() > 0 {
        seq![PathCommand::LineTo(cubics[0].anchor0)] + spec_curve_commands(cubics)
    } else {
        Seq::empty()
    };
    let end = if close_path {
        seq![PathCommand::Close]
    } else {
        Seq::empty()
    };
    once + again + end
}

/// Appends one `CubicTo` for each of the curves.
fn push_curves<P: Copy>(commands: &mut Vec<PathCommand<P>>, cubics: &Vec<Cubic<P>>)
    ensures
        final(commands)@ == old(commands)@ + spec_curve_commands(cubics@),
{
    let ghost start = commands@;
    let mut i: usize = 0;
    while i < cubics.len()
        invariant
            0 <= i <= cubics.len(),
            commands@ == start + spec_curve_commands(cubics@).take(i as int),
        decreases cubics.len() - i,
    {
        let it: Cubic<P> = cubics[i];
        commands.push(PathCommand::CubicTo(it.control0(), it.control1(), it.anchor1()));
        proof {
            assert(commands@ =~= start + spec_curve_commands(cubics@).take(i as int + 1));
        }
        i = i + 1;
    }
    proof {
        assert(spec_curve_commands(cubics@).take(cubics.len() as int) =~= spec_curve_commands(
            cubics@,
        ));
    }
}

/// Works out the instructions that draw a list of curves, once or twice
/// over, and close the path if asked to.
pub fn path_commands<P: Copy>(repeat_path: bool, close_path: bool, cubics: &Vec<Cubic<P>>) -> (commands:
    Vec<PathCommand<P>>)
    ensures
        commands@ == spec_commands(cubics@, repeat_path, close_path),
{
    let mut commands: Vec<PathCommand<P>> = Vec::new();
    if cubics.len() > 0 {
        commands.push(PathCommand::MoveTo(cubics[0].anchor0()));
        push_curves(&mut commands, cubics);
    }
    if repeat_path && cubics.len() > 0 {
        commands.push(PathCommand::LineTo(cubics[0].anchor0()));
        push_curves(&mut commands, cubics);
    }
    if close_path {
        commands.push(PathCommand::Close);
    }
    proof {
        assert(commands@ =~= spec_commands(cubics@, repeat_path, close_path));
    }
    commands
}

} // verus!
