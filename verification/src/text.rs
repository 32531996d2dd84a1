use vstd::prelude::*;
use vstd::string::StringExecFns;
use crate::cubic::Cubic;
use crate::feature::{Feature, FeatureType};
use crate::geometry::Point;

verus! {

/// The ten digits.
pub open spec fn spec_digit(d: int) -> char {
    seq!['0', '1', '2', '3', '4', '5', '6', '7', '8', '9'][d]
}

/// The decimal digits of a number, without leading zeros.
pub open spec fn spec_digits(n: nat) -> Seq<char>
    decreases n,
{
    if n < 10 {
        seq![spec_digit(n as int)]
    } else {
        spec_digits(n / 10).push(spec_digit((n % 10) as int))
    }
}

/// A whole number in decimal digits, with a minus sign before a negative
/// one.
pub open spec fn spec_decimal(v: int) -> Seq<char> {
    if v < 0 {
        seq!['-'] + spec_digits((-v) as nat)
    } else {
        spec_digits(v as nat)
    }
}

/// The text of a number as `format!` writes an `i64`: its decimal digits
/// without leading zeros, with a minus sign before a negative number. This
/// is believed of the formatter, not proved.
#[verifier::external_body]
fn decimal(v: i64) -> (text: String)
    ensures
        text@ == spec_decimal(v as int),
{
    format!("{v}")
}

/// The text of a point: its coordinates, counted in billionths, in
/// brackets.
pub open spec fn spec_point_text(p: Point) -> Seq<char> {
    "("@ + spec_decimal(p.x as int) + ", "@ + spec_decimal(p.y as int) + ")"@
}

/// The text of a curve: its four points, each with its name.
pub open spec fn spec_cubic_text(c: Cubic<Point>) -> Seq<char> {
    "anchor0: "@ + spec_point_text(c.anchor0) + " control0: "@ + spec_point_text(c.control0)
        + " control1: "@ + spec_point_text(c.control1) + " anchor1: "@ + spec_point_text(
        c.anchor1,
    )
}

/// The texts of the first `upto` curves, with a comma and a blank between
/// one and the next.
pub open spec fn spec_cubics_text(cubics: Seq<Cubic<Point>>, upto: int) -> Seq<char>
    decreases upto,
{
    if upto <= 0 {
        Seq::empty()
    } else if upto == 1 {
        spec_cubic_text(cubics[0])
    } else {
        spec_cubics_text(cubics, upto - 1) + ", "@ + spec_cubic_text(cubics[upto - 1])
    }
}

/// The text of a feature: `Edge` for an edge; for a corner its curves and
/// which way it turns.
pub open spec fn spec_feature_text(feature: Feature<Point>) -> Seq<char> {
    match feature.ty {
        FeatureType::Edge => "Edge"@,
        FeatureType::Corner { convex } => "Corner: cubics="@ + spec_cubics_text(
            feature.cubics@,
            feature.cubics.len() as int,
        ) + " convex="@ + if convex {
            "true"@
        } else {
            "false"@
        },
    }
}

fn push_point(text: &mut String, p: Point)
    ensures
        final(text)@ == old(text)@ + spec_point_text(p),
{
    text.append("(");
    text.append(decimal(p.x).as_str());
    text.append(", ");
    text.append(decimal(p.y).as_str());
    text.append(")");
    proof {
        assert(final(text)@ =~= old(text)@ + spec_point_text(p));
    }
}

fn push_cubic(text: &mut String, c: &Cubic<Point>)
    ensures
        final(text)@ == old(text)@ + spec_cubic_text(*c),
{
    text.append("anchor0: ");
    push_point(text, c.anchor0);
    text.append(" control0: ");
    push_point(text, c.control0);
    text.append(" control1: ");
    push_point(text, c.control1);
    text.append(" anchor1: ");
    push_point(text, c.anchor1);
    proof {
        assert(final(text)@ =~= old(text)@ + spec_cubic_text(*c));
    }
}

impl Cubic<Point> {
    /// Returns the curve as text, its coordinates counted in billionths.
    pub fn text(&self) -> (text: String)
        ensures
            text@ == spec_cubic_text(*self),
    {
        let mut text = String::new();
        push_cubic(&mut text, self);
        proof {
            assert(text@ =~= spec_cubic_text(*self));
        }
        text
    }
}

impl Feature<Point> {
    /// Returns the feature as text: what it stands for and, for a corner,
    /// its curves and which way it turns.
    pub fn text(&self) -> (text: String)
        ensures
            text@ == spec_feature_text(*self),
    {
        match self.ty {
            FeatureType::Edge => String::from_str("Edge"),
            FeatureType::Corner { convex } => {
                let mut text = String::from_str("Corner: cubics=");
                let ghost start = text@;
                let mut i: usize = 0;
                while i < self.cubics.len()
                    invariant
                        0 <= i <= self.cubics.len(),
                        start == "Corner: cubics="@,
                        text@ == start + spec_cubics_text(self.cubics@, i as int),
                    decreases self.cubics.len() - i,
                {
                    let ghost before = text@;
                    if i > 0 {
                        text.append(", ");
                    }
                    push_cubic(&mut text, &self.cubics[i]);
                    proof {
                        assert(text@ =~= start + spec_cubics_text(self.cubics@, i as int + 1));
                    }
                    i = i + 1;
                }
                text.append(" convex=");
                if convex {
                    text.append("true");
                } else {
                    text.append("false");
                }
                proof {
                    assert(text@ =~= spec_feature_text(*self));
                }
                text
            },
        }
    }
}

} // verus!
