use vstd::prelude::*;
use crate::error::ShapeError;
use crate::geometry::{ANGLE_EPSILON, DISTANCE_EPSILON, UNIT};
use crate::feature_mapper::{rows, spec_feature_mapping};
use crate::mapper::{
    first_violation, lemma_first_violation_none, sources_of, spec_linear_map, targets_of,
    valid_progress, DoubleMapper,
};
use crate::measured_polygon::{
    first_holding, spec_turned_cubics, spec_turned_features, tiles_outline, MeasuredCubic,
    MeasuredPolygon,
};
use crate::util::positive_modulo;

verus! {

/// One pair of a match: a piece of curve `first` of the start outline and a
/// piece of curve `second` of the end outline that cover the same stretch.
///
/// A side with a cut pairs the part of its current piece before the cut and
/// goes on with the part after it; the progress of the cut is the side's own.
/// A side without a cut pairs its whole current piece and goes on with its
/// next curve.
#[derive(Debug, Clone, Copy, PartialEq, Eq, Structural)]
pub struct MatchStep {
    pub first: usize,
    pub second: usize,
    pub cut_first: Option<i64>,
    pub cut_second: Option<i64>,
}

/// Where curve `c1` of the start outline ends; its last curve ends at `UNIT`.
pub open spec fn end_of_first(bs1: Seq<MeasuredCubic>, c1: int) -> int {
    if c1 + 1 == bs1.len() {
        UNIT as int
    } else {
        bs1[c1].end_outline_progress as int
    }
}

/// Where curve `c2` of the end outline ends, as a progress of the start
/// outline: the end outline was turned back by `cut_point`, so that is added
/// again before the mapper takes the progress back to the start side. The last
/// curve ends at `UNIT`.
pub open spec fn end_of_second(
    bs2: Seq<MeasuredCubic>,
    sources: Seq<i64>,
    targets: Seq<i64>,
    cut_point: int,
    c2: int,
) -> int {
    if c2 + 1 == bs2.len() {
        UNIT as int
    } else {
        spec_linear_map(targets, sources, (bs2[c2].end_outline_progress + cut_point) % (UNIT as int))
    }
}

/// The pair made of the current pieces of curves `c1` and `c2`. The piece
/// that ends first, at `minb`, is paired whole; the other one is cut there if
/// it goes on for more than `ANGLE_EPSILON`.
pub open spec fn spec_step(
    bs1: Seq<MeasuredCubic>,
    bs2: Seq<MeasuredCubic>,
    sources: Seq<i64>,
    targets: Seq<i64>,
    cut_point: int,
    c1: int,
    c2: int,
) -> MatchStep {
    let b1a = end_of_first(bs1, c1);
    let b2a = end_of_second(bs2, sources, targets, cut_point, c2);
    let minb = if b1a <= b2a {
        b1a
    } else {
        b2a
    };
    MatchStep {
        first: c1 as usize,
        second: c2 as usize,
        cut_first: if b1a > minb + ANGLE_EPSILON {
            Some(minb as i64)
        } else {
            None
        },
        cut_second: if b2a > minb + ANGLE_EPSILON {
            Some(((spec_linear_map(sources, targets, minb) - cut_point) % (UNIT as int)) as i64)
        } else {
            None
        },
    }
}

/// The curve that a side goes on with after a step.
pub open spec fn next_curve(current: int, cut: Option<i64>) -> int {
    if cut is None {
        current + 1
    } else {
        current
    }
}

/// The pairs that a sweep makes from the curves `c1` and `c2` on, until one
/// of the outlines has no curve left.
pub open spec fn spec_sweep(
    bs1: Seq<MeasuredCubic>,
    bs2: Seq<MeasuredCubic>,
    sources: Seq<i64>,
    targets: Seq<i64>,
    cut_point: int,
    c1: int,
    c2: int,
) -> Seq<MatchStep>
    decreases bs1.len() - c1 + bs2.len() - c2,
{
    if c1 < 0 || c2 < 0 || c1 >= bs1.len() || c2 >= bs2.len() {
        Seq::empty()
    } else {
        let step = spec_step(bs1, bs2, sources, targets, cut_point, c1, c2);
        seq![step] + spec_sweep(
            bs1,
            bs2,
            sources,
            targets,
            cut_point,
            next_curve(c1, step.cut_first),
            next_curve(c2, step.cut_second),
        )
    }
}

/// Whether a sweep from the curves `c1` and `c2` on uses up both outlines at
/// the same step.
pub open spec fn sweep_exhausts(
    bs1: Seq<MeasuredCubic>,
    bs2: Seq<MeasuredCubic>,
    sources: Seq<i64>,
    targets: Seq<i64>,
    cut_point: int,
    c1: int,
    c2: int,
) -> bool
    decreases bs1.len() - c1 + bs2.len() - c2,
{
    if c1 < 0 || c2 < 0 || c1 >= bs1.len() || c2 >= bs2.len() {
        c1 >= bs1.len() && c2 >= bs2.len()
    } else {
        let step = spec_step(bs1, bs2, sources, targets, cut_point, c1, c2);
        sweep_exhausts(
            bs1,
            bs2,
            sources,
            targets,
            cut_point,
            next_curve(c1, step.cut_first),
            next_curve(c2, step.cut_second),
        )
    }
}

/// Curve `i` of the start outline is part of some pair.
pub open spec fn pairs_first(steps: Seq<MatchStep>, i: int) -> bool {
    exists|k: int| 0 <= k < steps.len() && (#[trigger] steps[k]).first == i
}

/// Curve `j` of the end outline is part of some pair.
pub open spec fn pairs_second(steps: Seq<MatchStep>, j: int) -> bool {
    exists|k: int| 0 <= k < steps.len() && (#[trigger] steps[k]).second == j
}

/// Every curve of both outlines is part of at least one pair.
pub open spec fn covers_both(steps: Seq<MatchStep>, n1: int, n2: int) -> bool {
    &&& forall|i: int| 0 <= i < n1 ==> #[trigger] pairs_first(steps, i)
    &&& forall|j: int| 0 <= j < n2 ==> #[trigger] pairs_second(steps, j)
}

/// The pairs follow the two outlines: the first pair is that of the first
/// curves, each pair names a curve of either outline, and each side goes on
/// from pair to pair as `next_curve` says.
pub open spec fn is_sweep_path(steps: Seq<MatchStep>, n1: int, n2: int) -> bool {
    &&& forall|k: int| 0 <= k < steps.len() ==> in_outlines(#[trigger] steps[k], n1, n2)
    &&& steps.len() > 0 ==> steps[0].first == 0 && steps[0].second == 0
    &&& forall|k: int| 0 <= k < steps.len() - 1 ==> follows(#[trigger] steps[k], steps[k + 1])
}

/// The pair names a curve of either outline.
pub open spec fn in_outlines(step: MatchStep, n1: int, n2: int) -> bool {
    step.first < n1 && step.second < n2
}

/// The pair `next` goes on where the pair `step` leaves off.
pub open spec fn follows(step: MatchStep, next: MatchStep) -> bool {
    &&& next.first == next_curve(step.first as int, step.cut_first)
    &&& next.second == next_curve(step.second as int, step.cut_second)
}

/// Sweeps over the curves of a start outline and of an end outline that was
/// turned back by `cut_point`, and pairs them piece by piece.
///
/// The sweep fails when one outline has curves left after the other is used
/// up. When it succeeds every curve of both outlines is part of a pair, and
/// there are fewer pairs than curves.
pub fn match_cubics(
    bs1: &MeasuredPolygon,
    bs2: &MeasuredPolygon,
    mapper: &DoubleMapper,
    cut_point: i64,
) -> (r: Result<Vec<MatchStep>, ShapeError>)
    requires
        0 <= cut_point <= UNIT,
    ensures
        r is Ok <==> sweep_exhausts(
            bs1.spec_cubics(),
            bs2.spec_cubics(),
            mapper.source(),
            mapper.target(),
            cut_point as int,
            0,
            0,
        ),
        r matches Err(e) ==> e == ShapeError::UnmatchedMorph,
        r matches Ok(steps) ==> {
            &&& steps@ == spec_sweep(
                bs1.spec_cubics(),
                bs2.spec_cubics(),
                mapper.source(),
                mapper.target(),
                cut_point as int,
                0,
                0,
            )
            &&& covers_both(steps@, bs1.spec_cubics().len() as int, bs2.spec_cubics().len() as int)
            &&& steps.len() < bs1.spec_cubics().len() + bs2.spec_cubics().len()
            &&& is_sweep_path(
                steps@,
                bs1.spec_cubics().len() as int,
                bs2.spec_cubics().len() as int,
            )
        },
{
    let cubics1 = bs1.cubics();
    let cubics2 = bs2.cubics();
    let n1: usize = cubics1.len();
    let n2: usize = cubics2.len();
    let ghost whole = spec_sweep(
        cubics1@,
        cubics2@,
        mapper.source(),
        mapper.target(),
        cut_point as int,
        0,
        0,
    );
    let ghost exhausts = sweep_exhausts(
        cubics1@,
        cubics2@,
        mapper.source(),
        mapper.target(),
        cut_point as int,
        0,
        0,
    );
    let mut ret: Vec<MatchStep> = Vec::new();
    // The pair in which each curve was last seen.
    let ghost mut seen1: Seq<int> = Seq::empty();
    let ghost mut seen2: Seq<int> = Seq::empty();
    let mut c1: usize = 0;
    let mut c2: usize = 0;
    while c1 < n1 && c2 < n2
        invariant
            n1 == cubics1.len(),
            n2 == cubics2.len(),
            tiles_outline(cubics1@),
            tiles_outline(cubics2@),
            0 <= cut_point <= UNIT,
            0 <= c1 <= n1,
            0 <= c2 <= n2,
            whole == ret@ + spec_sweep(
                cubics1@,
                cubics2@,
                mapper.source(),
                mapper.target(),
                cut_point as int,
                c1 as int,
                c2 as int,
            ),
            exhausts == sweep_exhausts(
                cubics1@,
                cubics2@,
                mapper.source(),
                mapper.target(),
                cut_point as int,
                c1 as int,
                c2 as int,
            ),
            ret.len() <= c1 + c2,
            c1 == n1 && c2 == n2 ==> ret.len() < c1 + c2,
            seen1.len() == c1,
            seen2.len() == c2,
            is_sweep_path(ret@, n1 as int, n2 as int),
            ret.len() == 0 ==> c1 == 0 && c2 == 0,
            ret.len() > 0 ==> c1 == next_curve(ret@.last().first as int, ret@.last().cut_first)
                && c2 == next_curve(ret@.last().second as int, ret@.last().cut_second),
            forall|i: int|
                0 <= i < c1 ==> 0 <= #[trigger] seen1[i] < ret.len() && ret[seen1[i]].first == i,
            forall|j: int|
                0 <= j < c2 ==> 0 <= #[trigger] seen2[j] < ret.len() && ret[seen2[j]].second == j,
        decreases n1 - c1 + n2 - c2,
    {
        // Where the current pieces end, as a progress of the start outline.
        let b1a: i64 = if c1 + 1 == n1 {
            UNIT
        } else {
            cubics1[c1].end_outline_progress
        };
        let b2a: i64 = if c2 + 1 == n2 {
            UNIT
        } else {
            let turned: i64 = positive_modulo(cubics2[c2].end_outline_progress + cut_point, UNIT);
            match mapper.map_back(turned) {
                Ok(v) => v,
                Err(_) => {
                    return Err(ShapeError::UnmatchedMorph);
                },
            }
        };
        let minb: i64 = if b1a <= b2a {
            b1a
        } else {
            b2a
        };
        // The piece that ends first decides: the other one is cut where it
        // ends, unless both end at about the same place.
        let cut_first: Option<i64> = if b1a > minb + ANGLE_EPSILON {
            Some(minb)
        } else {
            None
        };
        let cut_second: Option<i64> = if b2a > minb + ANGLE_EPSILON {
            match mapper.map(minb) {
                Ok(v) => Some(positive_modulo(v - cut_point, UNIT)),
                Err(_) => {
                    return Err(ShapeError::UnmatchedMorph);
                },
            }
        } else {
            None
        };
        let step = MatchStep { first: c1, second: c2, cut_first, cut_second };
        proof {
            assert(step == spec_step(
                cubics1@,
                cubics2@,
                mapper.source(),
                mapper.target(),
                cut_point as int,
                c1 as int,
                c2 as int,
            ));
            let rest = spec_sweep(
                cubics1@,
                cubics2@,
                mapper.source(),
                mapper.target(),
                cut_point as int,
                next_curve(c1 as int, cut_first),
                next_curve(c2 as int, cut_second),
            );
            assert(ret@ + (seq![step] + rest) =~= ret@.push(step) + rest);
        }
        let ghost pairs = ret@;
        ret.push(step);
        proof {
            assert forall|k: int| 0 <= k < ret.len() implies in_outlines(
                #[trigger] ret@[k],
                n1 as int,
                n2 as int,
            ) by {
                if k < pairs.len() {
                    assert(ret@[k] == pairs[k]);
                }
            }
            assert forall|k: int| 0 <= k < ret.len() - 1 implies follows(
                #[trigger] ret@[k],
                ret@[k + 1],
            ) by {
                assert(ret@[k] == pairs[k]);
                if k + 1 < pairs.len() {
                    assert(ret@[k + 1] == pairs[k + 1]);
                }
            }
        }
        if cut_first.is_none() {
            proof {
                seen1 = seen1.push(ret.len() - 1);
            }
            c1 = c1 + 1;
        }
        if cut_second.is_none() {
            proof {
                seen2 = seen2.push(ret.len() - 1);
            }
            c2 = c2 + 1;
        }
    }
    proof {
        assert(spec_sweep(
            cubics1@,
            cubics2@,
            mapper.source(),
            mapper.target(),
            cut_point as int,
            c1 as int,
            c2 as int,
        ) =~= Seq::<MatchStep>::empty());
        assert(whole =~= ret@);
    }
    if c1 < n1 || c2 < n2 {
        return Err(ShapeError::UnmatchedMorph);
    }
    proof {
        assert forall|i: int| 0 <= i < n1 implies #[trigger] pairs_first(ret@, i) by {
            assert(ret@[seen1[i]].first == i);
        }
        assert forall|j: int| 0 <= j < n2 implies #[trigger] pairs_second(ret@, j) by {
            assert(ret@[seen2[j]].second == j);
        }
    }
    Ok(ret)
}

/// How the outlines of a start and an end polygon are matched: which curve
/// goes with which, and where curves are cut for that.
pub struct MorphPlan {
    start: MeasuredPolygon,
    end: MeasuredPolygon,
    cut: Option<usize>,
    cut_point: i64,
    steps: Vec<MatchStep>,
}

impl MorphPlan {
    /// The start outline.
    pub closed spec fn spec_start(&self) -> MeasuredPolygon {
        self.start
    }

    /// The end outline, cut and turned so that it starts where the start
    /// outline does.
    pub closed spec fn spec_end(&self) -> MeasuredPolygon {
        self.end
    }

    /// The curve of the end outline that was cut to turn it, if one was.
    pub closed spec fn spec_cut(&self) -> Option<usize> {
        self.cut
    }

    /// The progress of the end outline at which the start outline begins.
    pub closed spec fn spec_cut_point(&self) -> i64 {
        self.cut_point
    }

    /// The pairs of the match, in outline order.
    pub closed spec fn spec_steps(&self) -> Seq<MatchStep> {
        self.steps@
    }

    pub fn start(&self) -> (r: &MeasuredPolygon)
        ensures
            *r == self.spec_start(),
    {
        &self.start
    }

    pub fn end(&self) -> (r: &MeasuredPolygon)
        ensures
            *r == self.spec_end(),
    {
        &self.end
    }

    pub fn cut(&self) -> (r: Option<usize>)
        ensures
            r == self.spec_cut(),
    {
        self.cut
    }

    pub fn cut_point(&self) -> (r: i64)
        ensures
            r == self.spec_cut_point(),
    {
        self.cut_point
    }

    pub fn steps(&self) -> (r: &Vec<MatchStep>)
        ensures
            r@ == self.spec_steps(),
    {
        &self.steps
    }

    /// Matches the curves of two measured outlines.
    ///
    /// The corners of the two outlines are mapped to each other; the end
    /// outline is turned so that it starts where the start outline does; then
    /// a sweep pairs the curves piece by piece. `distances[i][j]` tells how
    /// far feature `i` of the start outline is from feature `j` of the end
    /// outline.
    ///
    /// Fails with the first violation of the mapping between the corners if
    /// it has one, and with `UnmatchedMorph` if the sweep uses up one outline
    /// before the other.
    pub fn new(start: MeasuredPolygon, end: MeasuredPolygon, distances: &Vec<Vec<u128>>) -> (r: Result<
        Self,
        ShapeError,
    >)
        requires
            distances.len() == start.spec_features().len(),
            forall|i: int|
                0 <= i < distances.len() ==> (#[trigger] distances[i]).len()
                    == end.spec_features().len(),
        ensures
            ({
                let mapping = spec_feature_mapping(
                    start.spec_features(),
                    end.spec_features(),
                    rows(distances@),
                );
                let sources = sources_of(mapping);
                let targets = targets_of(mapping);
                let valid = valid_progress(sources) && valid_progress(targets);
                let cut_point = spec_linear_map(sources, targets, 0);
                let turned = spec_turned_cubics(end.spec_cubics(), cut_point);
                let exhausts = sweep_exhausts(
                    start.spec_cubics(),
                    turned,
                    sources,
                    targets,
                    cut_point,
                    0,
                    0,
                );
                match r {
                    Ok(morph) => {
                        &&& valid
                        &&& exhausts
                        &&& morph.spec_start() == start
                        &&& morph.spec_end().wf()
                        &&& morph.spec_cut() is Some ==> end.spec_cubics().len() + 2 <= usize::MAX
                        &&& morph.spec_cut_point() == cut_point
                        &&& morph.spec_end().spec_cubics() == turned
                        &&& morph.spec_end().spec_features() == spec_turned_features(
                            end.spec_features(),
                            cut_point,
                        )
                        &&& morph.spec_cut() == if cut_point < DISTANCE_EPSILON {
                            None
                        } else {
                            Some(first_holding(end.spec_cubics(), cut_point, 0) as usize)
                        }
                        &&& morph.spec_steps() == spec_sweep(
                            start.spec_cubics(),
                            turned,
                            sources,
                            targets,
                            cut_point,
                            0,
                            0,
                        )
                        &&& covers_both(
                            morph.spec_steps(),
                            start.spec_cubics().len() as int,
                            turned.len() as int,
                        )
                        &&& is_sweep_path(
                            morph.spec_steps(),
                            start.spec_cubics().len() as int,
                            turned.len() as int,
                        )
                    },
                    Err(e) => {
                        if !valid_progress(sources) {
                            first_violation(sources, 0) == Some(e)
                        } else if !valid_progress(targets) {
                            first_violation(targets, 0) == Some(e)
                        } else {
                            e == ShapeError::UnmatchedMorph && !exhausts
                        }
                    },
                }
            }),
    {
        let ghost mapping = spec_feature_mapping(
            start.spec_features(),
            end.spec_features(),
            rows(distances@),
        );
        proof {
            lemma_first_violation_none(sources_of(mapping), 0);
            lemma_first_violation_none(targets_of(mapping), 0);
        }
        let double_mapper = match DoubleMapper::from_features(
            start.features(),
            end.features(),
            distances,
        ) {
            Ok(mapper) => mapper,
            Err(e) => {
                return Err(e);
            },
        };
        let polygon2_cut_point: i64 = match double_mapper.map(0) {
            Ok(v) => v,
            Err(e) => {
                return Err(e);
            },
        };
        let (bs2, cut) = match end.cut_and_shift(polygon2_cut_point) {
            Ok(turned) => turned,
            Err(e) => {
                return Err(e);
            },
        };
        let steps = match match_cubics(&start, &bs2, &double_mapper, polygon2_cut_point) {
            Ok(steps) => steps,
            Err(e) => {
                return Err(e);
            },
        };
        Ok(MorphPlan { start, end: bs2, cut, cut_point: polygon2_cut_point, steps })
    }
}

} // verus!
