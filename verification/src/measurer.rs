use vstd::prelude::*;
use vstd::arithmetic::div_mod::lemma_div_of0;
use vstd::arithmetic::mul::lemma_mul_is_commutative;
use crate::arith::{lemma_part_bound, lemma_product_bound, lemma_whole_part};
use crate::cubic::{Cubic, ONE_THIRD, TWO_THIRDS};
use crate::fixed::Fixed;
use crate::geometry::{Point, UNIT};

verus! {

/// Something that gives every curve a size: its length, the angle it turns
/// through, or whatever else a morph is to be spread over evenly.
pub trait Measurer<P> {
    /// Returns the size of a curve.
    fn measure_cubic(&self, c: &Cubic<P>) -> u64;

    /// Returns the parameter, in units of which `UNIT` make the whole curve,
    /// at which the size `m`, measured from the start of the curve, is
    /// reached.
    fn find_cubic_cut_point(&self, c: &Cubic<P>, m: u64) -> Fixed;
}

/// Number of chords a curve is measured by.
pub const SEGMENTS: usize = 3;

/// The lengths of the three chords of a curve: from its start to its point
/// at a third, on to its point at two thirds, and on to its end.
pub open spec fn spec_chords(c: Cubic<Point>) -> Seq<int> {
    let first = c.spec_point_on_curve(ONE_THIRD);
    let second = c.spec_point_on_curve(TWO_THIRDS);
    let last = c.spec_point_on_curve(UNIT);
    seq![
        first.spec_minus(c.anchor0).spec_length(),
        second.spec_minus(first).spec_length(),
        last.spec_minus(second).spec_length(),
    ]
}

/// Sum of the first `upto` chords.
pub open spec fn chords_before(chords: Seq<int>, upto: int) -> int
    decreases upto,
{
    if upto <= 0 {
        0
    } else {
        chords_before(chords, upto - 1) + chords[upto - 1]
    }
}

/// Index of the first chord, at or after `from`, on which a walk along the
/// chords has covered the length `threshold`; 3 when none of them does.
pub open spec fn reaching_chord(chords: Seq<int>, threshold: int, from: int) -> int
    decreases 3 - from,
{
    if from < 0 || from >= 3 {
        3
    } else if chords_before(chords, from + 1) >= threshold {
        from
    } else {
        reaching_chord(chords, threshold, from + 1)
    }
}

/// The curve parameter at which a walk along the chords has covered the
/// length `threshold`.
///
/// Each chord spans a third of the parameter range. Inside the chord on which
/// the length is reached the parameter grows in proportion to the length
/// covered on that chord, rounded down; on a chord without length it stays at
/// the start of the chord. A length that the chords never reach gives the end
/// of the curve.
pub open spec fn spec_cut_point(chords: Seq<int>, threshold: int) -> int {
    let i = reaching_chord(chords, threshold, 0);
    if i >= 3 {
        UNIT as int
    } else if chords[i] == 0 {
        (i * UNIT) / 3
    } else {
        let remainder = threshold - chords_before(chords, i);
        (i * UNIT + (remainder * UNIT) / chords[i]) / 3
    }
}

/// The length covered when a walk along the chords stops at `threshold`:
/// `threshold` itself, or the whole length where that is shorter.
pub open spec fn spec_covered(chords: Seq<int>, threshold: int) -> int {
    if threshold <= chords_before(chords, 3) {
        threshold
    } else {
        chords_before(chords, 3)
    }
}

/// Measuring and cutting agree: the whole length is reached at the end of
/// the curve, and nothing at its start. The first holds of a curve whose last
/// chord has a length.
pub proof fn lemma_cut_point_at_the_ends(chords: Seq<int>)
    requires
        chords.len() == 3,
        forall|i: int| 0 <= i < 3 ==> chords[i] >= 0,
    ensures
        chords[2] > 0 ==> spec_cut_point(chords, chords_before(chords, 3)) == UNIT,
        spec_cut_point(chords, 0) == 0,
{
    reveal_with_fuel(chords_before, 4);
    reveal_with_fuel(reaching_chord, 4);
    if chords[2] > 0 {
        let total = chords_before(chords, 3);
        assert(reaching_chord(chords, total, 0) == 2);
        lemma_whole_part(UNIT as int, chords[2]);
        lemma_mul_is_commutative(chords[2], UNIT as int);
    }
    assert(reaching_chord(chords, 0, 0) == 0);
    assert(0 * UNIT == 0);
    if chords[0] > 0 {
        lemma_div_of0(chords[0]);
    }
}

/// Measures a curve by the length of its three chords.
#[derive(Debug, Clone, Copy, PartialEq, Eq)]
pub struct LengthMeasurer;

impl LengthMeasurer {
    /// The three chords of a curve.
    fn chords(cubic: &Cubic<Point>) -> (chords: [Fixed; 3])
        ensures
            chords@.len() == 3,
            forall|i: int| 0 <= i < 3 ==> chords[i] == spec_chords(*cubic)[i] && chords[i] >= 0,
    {
        let first: Point = cubic.point_on_curve(ONE_THIRD);
        let second: Point = cubic.point_on_curve(TWO_THIRDS);
        let last: Point = cubic.point_on_curve(UNIT);
        [
            first.minus(cubic.anchor0).length(),
            second.minus(first).length(),
            last.minus(second).length(),
        ]
    }

    /// Walks along the chords of a curve until `threshold` is covered.
    /// Returns the curve parameter reached and the length covered.
    fn closest_progress_to(cubic: &Cubic<Point>, threshold: u64) -> (r: (Fixed, u64))
        ensures
            r.0 == spec_cut_point(spec_chords(*cubic), threshold as int),
            0 <= r.0 <= UNIT,
            r.1 == spec_covered(spec_chords(*cubic), threshold as int),
    {
        let chords = Self::chords(cubic);
        let ghost lengths = spec_chords(*cubic);
        let mut total: u128 = 0;
        let mut remainder: u128 = threshold as u128;
        let mut i: usize = 0;
        while i < 3
            invariant
                0 <= i <= 3,
                chords@.len() == 3,
                lengths.len() == 3,
                lengths == spec_chords(*cubic),
                forall|k: int| 0 <= k < 3 ==> chords[k] == lengths[k] && chords[k] >= 0,
                total == chords_before(lengths, i as int),
                total + remainder == threshold,
                total <= i * 0x7fff_ffff_ffff_ffff,
                reaching_chord(lengths, threshold as int, 0) == reaching_chord(
                    lengths,
                    threshold as int,
                    i as int,
                ),
            decreases 3 - i,
        {
            proof {
                reveal_with_fuel(chords_before, 4);
            }
            let segment: u128 = chords[i] as u128;
            if segment >= remainder {
                let within: u128 = if segment == 0 {
                    0
                } else {
                    proof {
                        lemma_product_bound(
                            remainder as int,
                            0x7fff_ffff_ffff_ffff,
                            UNIT as int,
                            1_000_000_000,
                        );
                        lemma_part_bound(UNIT as int, remainder as int, segment as int);
                    }
                    remainder * (UNIT as u128) / segment
                };
                let t: u128 = ((i as u128) * (UNIT as u128) + within) / 3;
                return (t as i64, threshold);
            }
            remainder = remainder - segment;
            total = total + segment;
            i = i + 1;
        }
        (UNIT, total as u64)
    }

    /// The length of a curve: the sum of its chords, or as much of it as can
    /// be counted.
    pub open spec fn spec_measure_cubic(c: Cubic<Point>) -> int {
        spec_covered(spec_chords(c), u64::MAX as int)
    }

    /// The curve parameter at which the length `m`, measured from the start
    /// of the curve, is reached.
    pub open spec fn spec_find_cubic_cut_point(c: Cubic<Point>, m: u64) -> int {
        spec_cut_point(spec_chords(c), m as int)
    }
}

impl Measurer<Point> for LengthMeasurer {
    fn measure_cubic(&self, c: &Cubic<Point>) -> (size: u64)
        ensures
            size == Self::spec_measure_cubic(*c),
    {
        Self::closest_progress_to(c, u64::MAX).1
    }

    fn find_cubic_cut_point(&self, c: &Cubic<Point>, m: u64) -> (t: Fixed)
        ensures
            t == Self::spec_find_cubic_cut_point(*c, m),
            0 <= t <= UNIT,
    {
        Self::closest_progress_to(c, m).0
    }
}

} // verus!
