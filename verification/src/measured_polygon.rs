use vstd::prelude::*;
use vstd::arithmetic::div_mod::lemma_div_of0;
use crate::arith::{lemma_part_bound, lemma_part_ordered, lemma_product_bound, lemma_whole_part};
use crate::error::ShapeError;
use crate::cubic::Cubic;
use crate::feature::{Feature, FeatureType};
use crate::measurer::Measurer;
use crate::rounded_polygon::RoundedPolygon;
use crate::geometry::{DISTANCE_EPSILON, UNIT};
use crate::util::positive_modulo;

verus! {

/// One curve of a measured outline: which of the curves handed to the
/// constructor it is, and the stretch of the outline that it covers.
#[derive(Debug, Clone, Copy, PartialEq, Eq, Structural)]
pub struct MeasuredCubic {
    pub source: usize,
    pub start_outline_progress: i64,
    pub end_outline_progress: i64,
}

impl MeasuredCubic {
    /// The stretch covered by the curve has a positive width.
    pub open spec fn spec_has_width(&self) -> bool {
        self.start_outline_progress < self.end_outline_progress
    }

    /// `p` brought into the stretch that the curve covers.
    pub open spec fn spec_bounded(&self, p: int) -> int {
        if p < self.start_outline_progress {
            self.start_outline_progress as int
        } else if p > self.end_outline_progress {
            self.end_outline_progress as int
        } else {
            p
        }
    }

    /// Cuts the curve at an outline progress.
    ///
    /// Returns the part before the cut, the part after it, and the size,
    /// measured from the start of the curve, at which the curve is to be cut
    /// for that: the same part of `measured_size` as the cut is of the
    /// stretch, rounded down. A progress outside the stretch is first brought
    /// into it.
    pub fn cut_at_progress(self, cut_outline_progress: i64, measured_size: u64) -> (r: (
        Self,
        Self,
        u64,
    ))
        requires
            self.spec_has_width(),
            self.end_outline_progress - self.start_outline_progress <= i64::MAX,
        ensures
            r.0 == (MeasuredCubic {
                source: self.source,
                start_outline_progress: self.start_outline_progress,
                end_outline_progress: self.spec_bounded(cut_outline_progress as int) as i64,
            }),
            r.1 == (MeasuredCubic {
                source: self.source,
                start_outline_progress: self.spec_bounded(cut_outline_progress as int) as i64,
                end_outline_progress: self.end_outline_progress,
            }),
            r.2 == ((self.spec_bounded(cut_outline_progress as int) - self.start_outline_progress)
                * measured_size) / (self.end_outline_progress - self.start_outline_progress),
    {
        // Rounding further up can put the cut just outside of the stretch.
        let bounded_cut_outline_progress: i64 = if cut_outline_progress
            < self.start_outline_progress {
            self.start_outline_progress
        } else if cut_outline_progress > self.end_outline_progress {
            self.end_outline_progress
        } else {
            cut_outline_progress
        };
        let outline_progress_size: i64 = self.end_outline_progress - self.start_outline_progress;
        let progress_from_start: i64 = bounded_cut_outline_progress - self.start_outline_progress;
        proof {
            lemma_product_bound(
                progress_from_start as int,
                0x7fff_ffff_ffff_ffff,
                measured_size as int,
                0xffff_ffff_ffff_ffff,
            );
            lemma_part_bound(
                measured_size as int,
                progress_from_start as int,
                outline_progress_size as int,
            );
        }
        let scaled: u128 = (progress_from_start as u128) * (measured_size as u128);
        let measure: u128 = scaled / (outline_progress_size as u128);
        (
            MeasuredCubic {
                source: self.source,
                start_outline_progress: self.start_outline_progress,
                end_outline_progress: bounded_cut_outline_progress,
            },
            MeasuredCubic {
                source: self.source,
                start_outline_progress: bounded_cut_outline_progress,
                end_outline_progress: self.end_outline_progress,
            },
            measure as u64,
        )
    }
}

/// A feature of a polygon, named by its index in the polygon's feature list,
/// with the progress of the middle of its central curve.
#[derive(Debug, Clone, Copy, PartialEq, Eq, Structural)]
pub struct ProgressableFeature {
    pub progress: i64,
    pub feature: usize,
    pub ty: FeatureType,
}

/// Breakpoints of an outline: one more than it has curves, never decreasing,
/// all within `0..=UNIT`.
pub open spec fn is_outline(op: Seq<i64>) -> bool {
    &&& op.len() >= 1
    &&& 0 <= op[0]
    &&& op[op.len() - 1] <= UNIT
    &&& forall|i: int| 0 <= i < op.len() - 1 ==> #[trigger] op[i] <= op[i + 1]
}

/// Curve `i` covers more than `DISTANCE_EPSILON` of the outline.
pub open spec fn is_wide(op: Seq<i64>, i: int) -> bool {
    op[i + 1] - op[i] > DISTANCE_EPSILON
}

/// Some curve of the outline is wide enough to be kept.
pub open spec fn has_wide_curve(op: Seq<i64>) -> bool {
    exists|i: int| 0 <= i < op.len() - 1 && is_wide(op, i)
}

/// The wide ones among the first `upto` curves, in order. Each starts where
/// the one kept before it ends (the first at 0) and ends at its own breakpoint.
pub open spec fn kept_before(op: Seq<i64>, upto: int) -> Seq<MeasuredCubic>
    decreases upto,
{
    if upto <= 0 {
        Seq::empty()
    } else {
        let kept = kept_before(op, upto - 1);
        if is_wide(op, upto - 1) {
            kept.push(
                MeasuredCubic {
                    source: (upto - 1) as usize,
                    start_outline_progress: if kept.len() == 0 {
                        0
                    } else {
                        kept.last().end_outline_progress
                    },
                    end_outline_progress: op[upto],
                },
            )
        } else {
            kept
        }
    }
}

/// The curves of the measured outline with breakpoints `op`: its wide curves,
/// the last of them stretched to end at `UNIT`.
pub open spec fn spec_measured_cubics(op: Seq<i64>) -> Seq<MeasuredCubic> {
    let kept = kept_before(op, op.len() - 1);
    kept.update(
        kept.len() - 1,
        MeasuredCubic {
            source: kept.last().source,
            start_outline_progress: kept.last().start_outline_progress,
            end_outline_progress: UNIT,
        },
    )
}

/// The curves tile the outline: the first starts at 0, each starts where the
/// one before it ends, the last ends at `UNIT`, and each covers more than
/// `DISTANCE_EPSILON`.
pub open spec fn tiles_outline(cubics: Seq<MeasuredCubic>) -> bool {
    &&& cubics.len() > 0
    &&& cubics[0].start_outline_progress == 0
    &&& cubics.last().end_outline_progress == UNIT
    &&& forall|i: int|
        0 <= i < cubics.len() - 1 ==> (#[trigger] cubics[i]).end_outline_progress == cubics[i
            + 1].start_outline_progress
    &&& forall|i: int|
        0 <= i < cubics.len() ==> {
            &&& 0 <= (#[trigger] cubics[i]).start_outline_progress
            &&& cubics[i].end_outline_progress - cubics[i].start_outline_progress
                > DISTANCE_EPSILON
            &&& cubics[i].end_outline_progress <= UNIT
        }
}

/// Every feature sits at a progress in `0..UNIT`.
pub open spec fn on_outline(features: Seq<ProgressableFeature>) -> bool {
    forall|i: int| 0 <= i < features.len() ==> 0 <= (#[trigger] features[i]).progress < UNIT
}

/// Sum of the first `upto` sizes.
pub open spec fn size_before(sizes: Seq<u64>, upto: int) -> int
    decreases upto,
{
    if upto <= 0 {
        0
    } else {
        size_before(sizes, upto - 1) + sizes[upto - 1]
    }
}

/// The breakpoints of an outline whose curves have the given sizes: the part
/// of the whole size that lies before each curve, in progress units, rounded
/// down; one more entry for the end.
pub open spec fn spec_outline_progress(sizes: Seq<u64>) -> Seq<i64> {
    Seq::new(
        sizes.len() + 1,
        |i: int| ((size_before(sizes, i) * UNIT) / size_before(sizes, sizes.len() as int)) as i64,
    )
}

/// Number of curves in the first `upto` features.
pub open spec fn cubics_before<P>(features: Seq<Feature<P>>, upto: int) -> int
    decreases upto,
{
    if upto <= 0 {
        0
    } else {
        cubics_before(features, upto - 1) + features[upto - 1].cubics.len()
    }
}

/// The progress of feature `f`: the middle of the stretch covered by its
/// central curve, the curve at half the feature's length.
pub open spec fn spec_feature_progress<P>(features: Seq<Feature<P>>, op: Seq<i64>, f: int) -> int {
    let ix = cubics_before(features, f) + features[f].cubics.len() / 2;
    ((op[ix] + op[ix + 1]) / 2) % (UNIT as int)
}

/// The corners with at least one curve among the first `upto` features, each
/// with its progress on the outline `op`.
pub open spec fn corners_before<P>(features: Seq<Feature<P>>, op: Seq<i64>, upto: int) -> Seq<
    ProgressableFeature,
>
    decreases upto,
{
    if upto <= 0 {
        Seq::empty()
    } else {
        let before = corners_before(features, op, upto - 1);
        let feature = features[upto - 1];
        if feature.ty is Corner && feature.cubics.len() > 0 {
            before.push(
                ProgressableFeature {
                    progress: spec_feature_progress(features, op, upto - 1) as i64,
                    feature: (upto - 1) as usize,
                    ty: feature.ty,
                },
            )
        } else {
            before
        }
    }
}

pub proof fn lemma_size_before_monotonic(sizes: Seq<u64>, i: int, j: int)
    requires
        0 <= i <= j <= sizes.len(),
    ensures
        0 <= size_before(sizes, i) <= size_before(sizes, j),
    decreases j,
{
    if i < j {
        lemma_size_before_monotonic(sizes, i, j - 1);
    } else if j > 0 {
        lemma_size_before_monotonic(sizes, 0, j - 1);
        lemma_size_before_monotonic(sizes, j - 1, j - 1);
    }
}

pub proof fn lemma_cubics_before_monotonic<P>(features: Seq<Feature<P>>, i: int, j: int)
    requires
        0 <= i <= j <= features.len(),
    ensures
        0 <= cubics_before(features, i) <= cubics_before(features, j),
    decreases j,
{
    if i < j {
        lemma_cubics_before_monotonic(features, i, j - 1);
    } else if j > 0 {
        lemma_cubics_before_monotonic(features, 0, j - 1);
        lemma_cubics_before_monotonic(features, j - 1, j - 1);
    }
}

/// The breakpoints computed from sizes form an outline from 0 to `UNIT`.
pub proof fn lemma_outline_progress_is_outline(sizes: Seq<u64>)
    requires
        size_before(sizes, sizes.len() as int) > 0,
        size_before(sizes, sizes.len() as int) <= u64::MAX,
    ensures
        is_outline(spec_outline_progress(sizes)),
        spec_outline_progress(sizes)[0] == 0,
        spec_outline_progress(sizes)[sizes.len() as int] == UNIT,
{
    let n = sizes.len() as int;
    let total = size_before(sizes, n);
    let op = spec_outline_progress(sizes);
    assert forall|i: int| 0 <= i <= n implies 0 <= (size_before(sizes, i) * UNIT) / total <= UNIT
        && op[i] == (size_before(sizes, i) * UNIT) / total by {
        lemma_size_before_monotonic(sizes, i, n);
        let s = size_before(sizes, i);
        lemma_part_bound(UNIT as int, s, total);
    }
    assert forall|i: int| 0 <= i < op.len() - 1 implies #[trigger] op[i] <= op[i + 1] by {
        lemma_size_before_monotonic(sizes, i, i + 1);
        lemma_size_before_monotonic(sizes, i + 1, n);
        let a = size_before(sizes, i);
        let b = size_before(sizes, i + 1);
        lemma_part_ordered(a, b, UNIT as int, total);
    }
    assert(size_before(sizes, 0) == 0);
    lemma_part_bound(UNIT as int, 0, total);
    lemma_part_ordered(0, 0, UNIT as int, total);
    assert(0 * UNIT == 0);
    lemma_div_of0(total);
    lemma_whole_part(UNIT as int, total);
}

/// Index of the first curve, at or after `from`, whose stretch holds the
/// progress `p`, both ends included; 0 when none does.
pub open spec fn first_holding(cubics: Seq<MeasuredCubic>, p: int, from: int) -> int
    decreases cubics.len() - from,
{
    if from < 0 || from >= cubics.len() {
        0
    } else if cubics[from].start_outline_progress <= p <= cubics[from].end_outline_progress {
        from
    } else {
        first_holding(cubics, p, from + 1)
    }
}

/// The index `k` places after `target` in a cyclic list of `n` entries, for
/// `target < n` and `k <= n`.
pub open spec fn cyclic_index(target: int, k: int, n: int) -> int {
    if target + k < n {
        target + k
    } else {
        target + k - n
    }
}

/// The breakpoints of an outline after it was cut at `cutting_point`, inside
/// curve `target`, and turned so that the cut is where it starts and ends.
///
/// The curves are then: the part of `target` after the cut, the curves that
/// follow `target` round to the one before it, and the part of `target` before
/// the cut. Each breakpoint is the end of its curve less `cutting_point`,
/// modulo `UNIT`; the first is 0 and the last is `UNIT`.
pub open spec fn shifted_outline(cubics: Seq<MeasuredCubic>, target: int, cutting_point: int) -> Seq<
    i64,
> {
    let n = cubics.len() as int;
    Seq::new(
        (n + 2) as nat,
        |index: int|
            if index == 0 {
                0i64
            } else if index == n + 1 {
                UNIT
            } else {
                ((cubics[cyclic_index(target, index - 1, n)].end_outline_progress - cutting_point)
                    % (UNIT as int)) as i64
            },
    )
}

/// The features, each moved back by `cutting_point` along the outline.
pub open spec fn shifted_features(features: Seq<ProgressableFeature>, cutting_point: int) -> Seq<
    ProgressableFeature,
> {
    Seq::new(
        features.len(),
        |i: int|
            ProgressableFeature {
                progress: ((features[i].progress - cutting_point) % (UNIT as int)) as i64,
                feature: features[i].feature,
                ty: features[i].ty,
            },
    )
}

/// The curves of an outline after `cut_and_shift`: as they were for a cut
/// nearer to the start than `DISTANCE_EPSILON`, else those of the outline
/// that was cut inside the first curve that holds the cut, and turned.
pub open spec fn spec_turned_cubics(cubics: Seq<MeasuredCubic>, cutting_point: int) -> Seq<
    MeasuredCubic,
> {
    if cutting_point < DISTANCE_EPSILON {
        cubics
    } else {
        spec_measured_cubics(
            shifted_outline(cubics, first_holding(cubics, cutting_point, 0), cutting_point),
        )
    }
}

/// The features of an outline after `cut_and_shift`.
pub open spec fn spec_turned_features(features: Seq<ProgressableFeature>, cutting_point: int) -> Seq<
    ProgressableFeature,
> {
    if cutting_point < DISTANCE_EPSILON {
        features
    } else {
        shifted_features(features, cutting_point)
    }
}

/// In a tiling the curves end one after the other, each after it starts.
pub proof fn lemma_tiling_ordered(cubics: Seq<MeasuredCubic>, i: int, j: int)
    requires
        tiles_outline(cubics),
        0 <= i < j < cubics.len(),
    ensures
        cubics[i].end_outline_progress <= cubics[j].start_outline_progress,
        cubics[i].end_outline_progress < cubics[j].end_outline_progress,
    decreases j - i,
{
    if i + 1 < j {
        lemma_tiling_ordered(cubics, i, j - 1);
        assert(cubics[j - 1].end_outline_progress == cubics[j - 1 + 1].start_outline_progress);
    } else {
        assert(cubics[i].end_outline_progress == cubics[i + 1].start_outline_progress);
    }
}

/// Every progress in `0..=UNIT` is held by some curve of a tiling, and
/// `first_holding` finds the first such curve.
pub proof fn lemma_first_holding(cubics: Seq<MeasuredCubic>, p: int, from: int)
    requires
        tiles_outline(cubics),
        0 <= from < cubics.len(),
        cubics[from].start_outline_progress <= p <= UNIT,
    ensures
        from <= first_holding(cubics, p, from) < cubics.len(),
        cubics[first_holding(cubics, p, from)].start_outline_progress <= p
            <= cubics[first_holding(cubics, p, from)].end_outline_progress,
        forall|k: int|
            from <= k < first_holding(cubics, p, from) ==> (#[trigger] cubics[k]).end_outline_progress
                < p,
    decreases cubics.len() - from,
{
    if !(p <= cubics[from].end_outline_progress) {
        assert(from + 1 < cubics.len());
        assert(cubics[from].end_outline_progress == cubics[from + 1].start_outline_progress);
        lemma_first_holding(cubics, p, from + 1);
    }
}

/// Breakpoint `index` of a cut and turned outline, without the modulo: the
/// end of its curve less the cut for the curves from `target` on, and a whole
/// turn more for the curves before `target`.
pub open spec fn shifted_end(cubics: Seq<MeasuredCubic>, target: int, cutting_point: int, index: int) -> int {
    let n = cubics.len() as int;
    let c = cyclic_index(target, index - 1, n);
    if target + index - 1 < n {
        cubics[c].end_outline_progress - cutting_point
    } else {
        cubics[c].end_outline_progress - cutting_point + UNIT
    }
}

proof fn lemma_shifted_end(cubics: Seq<MeasuredCubic>, target: int, cutting_point: int, index: int)
    requires
        tiles_outline(cubics),
        DISTANCE_EPSILON <= cutting_point <= UNIT,
        target == first_holding(cubics, cutting_point, 0),
        1 <= index <= cubics.len(),
    ensures
        shifted_outline(cubics, target, cutting_point)[index] == shifted_end(
            cubics,
            target,
            cutting_point,
            index,
        ),
        0 <= shifted_end(cubics, target, cutting_point, index) <= UNIT,
        0 <= target < cubics.len(),
{
    let n = cubics.len() as int;
    lemma_first_holding(cubics, cutting_point, 0);
    let c = cyclic_index(target, index - 1, n);
    let d = cubics[c].end_outline_progress - cutting_point;
    if target + index - 1 < n {
        if c > target {
            lemma_tiling_ordered(cubics, target, c);
        }
        assert(0 <= d < 1_000_000_000);
        assert(d % 1_000_000_000 == d);
    } else {
        assert(0 <= c < target);
        assert(cubics[c].end_outline_progress < cutting_point);
        assert(-1_000_000_000 < d < 0);
        assert(d % 1_000_000_000 == d + 1_000_000_000);
    }
}

proof fn lemma_shifted_ordered(cubics: Seq<MeasuredCubic>, target: int, cutting_point: int, i: int)
    requires
        tiles_outline(cubics),
        DISTANCE_EPSILON <= cutting_point <= UNIT,
        target == first_holding(cubics, cutting_point, 0),
        0 <= i <= cubics.len(),
    ensures
        shifted_outline(cubics, target, cutting_point)[i] <= shifted_outline(
            cubics,
            target,
            cutting_point,
        )[i + 1],
{
    let n = cubics.len() as int;
    if i >= 1 {
        lemma_shifted_end(cubics, target, cutting_point, i);
    }
    if i + 1 <= n {
        lemma_shifted_end(cubics, target, cutting_point, i + 1);
    }
    if 1 <= i && i + 1 <= n {
        let c0 = cyclic_index(target, i - 1, n);
        let c1 = cyclic_index(target, i, n);
        if target + i < n {
            lemma_tiling_ordered(cubics, c0, c1);
        } else if target + i - 1 < n {
            assert(c0 == n - 1 && c1 == 0);
        } else {
            lemma_tiling_ordered(cubics, c0, c1);
        }
    }
}

proof fn lemma_shifted_wide(cubics: Seq<MeasuredCubic>, target: int, cutting_point: int)
    requires
        tiles_outline(cubics),
        DISTANCE_EPSILON <= cutting_point <= UNIT,
        target == first_holding(cubics, cutting_point, 0),
    ensures
        has_wide_curve(shifted_outline(cubics, target, cutting_point)),
{
    let n = cubics.len() as int;
    let so = shifted_outline(cubics, target, cutting_point);
    lemma_first_holding(cubics, cutting_point, 0);
    lemma_shifted_end(cubics, target, cutting_point, 1);
    if n == 1 {
        assert(so[1] == UNIT - cutting_point);
        if cutting_point > DISTANCE_EPSILON {
            assert(is_wide(so, 1));
        } else {
            assert(is_wide(so, 0));
        }
    } else {
        lemma_shifted_end(cubics, target, cutting_point, 2);
        let c1 = cyclic_index(target, 1, n);
        if target + 1 < n {
            assert(cubics[target].end_outline_progress == cubics[target + 1].start_outline_progress);
        }
        assert(so[2] - so[1] == cubics[c1].end_outline_progress
            - cubics[c1].start_outline_progress);
        assert(is_wide(so, 1));
    }
}

/// Cutting a tiling inside curve `target` and turning it gives the
/// breakpoints of an outline that still has a wide curve.
pub proof fn lemma_shifted_outline(cubics: Seq<MeasuredCubic>, target: int, cutting_point: int)
    requires
        tiles_outline(cubics),
        DISTANCE_EPSILON <= cutting_point <= UNIT,
        target == first_holding(cubics, cutting_point, 0),
    ensures
        is_outline(shifted_outline(cubics, target, cutting_point)),
        has_wide_curve(shifted_outline(cubics, target, cutting_point)),
{
    let so = shifted_outline(cubics, target, cutting_point);
    assert forall|i: int| 0 <= i < so.len() - 1 implies #[trigger] so[i] <= so[i + 1] by {
        lemma_shifted_ordered(cubics, target, cutting_point, i);
    }
    lemma_shifted_wide(cubics, target, cutting_point);
}

/// A polygon's outline, measured: its curves with the stretch of the outline
/// that each covers, and its corners with the progress at which each sits.
pub struct MeasuredPolygon {
    cubics: Vec<MeasuredCubic>,
    features: Vec<ProgressableFeature>,
}

impl MeasuredPolygon {
    /// The measured curves, in outline order.
    pub closed spec fn spec_cubics(&self) -> Seq<MeasuredCubic> {
        self.cubics@
    }

    /// The features with their progress.
    pub closed spec fn spec_features(&self) -> Seq<ProgressableFeature> {
        self.features@
    }

    /// The curves of every measured polygon tile its outline, and its
    /// features sit at a progress in `0..UNIT`.
    #[verifier::type_invariant]
    pub open spec fn wf(&self) -> bool {
        &&& tiles_outline(self.spec_cubics())
        &&& on_outline(self.spec_features())
    }

    /// The measured curves, in outline order.
    pub fn cubics(&self) -> (r: &Vec<MeasuredCubic>)
        ensures
            r@ == self.spec_cubics(),
            tiles_outline(r@),
    {
        proof {
            use_type_invariant(self);
        }
        &self.cubics
    }

    /// The features with their progress.
    pub fn features(&self) -> (r: &Vec<ProgressableFeature>)
        ensures
            r@ == self.spec_features(),
            on_outline(r@),
    {
        proof {
            use_type_invariant(self);
        }
        &self.features
    }

    /// Builds the measured outline whose curve `i` runs from breakpoint `i`
    /// to breakpoint `i + 1`. Curves that cover no more than
    /// `DISTANCE_EPSILON` are left out, and the curves that stay are joined up
    /// so that they tile the outline.
    pub fn new(features: Vec<ProgressableFeature>, outline_progress: &Vec<i64>) -> (r: Self)
        requires
            is_outline(outline_progress@),
            has_wide_curve(outline_progress@),
            on_outline(features@),
        ensures
            r.wf(),
            r.spec_cubics() == spec_measured_cubics(outline_progress@),
            r.spec_features() == features@,
    {
        let mut measured_cubics: Vec<MeasuredCubic> = Vec::new();
        let mut start_outline_progress: i64 = 0;
        let n: usize = outline_progress.len() - 1;
        let mut index: usize = 0;
        while index < n
            invariant
                n == outline_progress.len() - 1,
                0 <= index <= n,
                is_outline(outline_progress@),
                measured_cubics@ == kept_before(outline_progress@, index as int),
                start_outline_progress == if measured_cubics.len() == 0 {
                    0
                } else {
                    measured_cubics@.last().end_outline_progress
                },
                0 <= start_outline_progress <= outline_progress[index as int],
                forall|j: int| 0 <= j < index && is_wide(outline_progress@, j) ==> measured_cubics.len() > 0,
                measured_cubics.len() > 0 ==> measured_cubics[0].start_outline_progress == 0,
                forall|i: int|
                    0 <= i < measured_cubics.len() - 1 ==> (#[trigger] measured_cubics[i]).end_outline_progress
                        == measured_cubics[i + 1].start_outline_progress,
                forall|i: int|
                    0 <= i < measured_cubics.len() ==> {
                        &&& 0 <= (#[trigger] measured_cubics[i]).start_outline_progress
                        &&& measured_cubics[i].end_outline_progress
                            - measured_cubics[i].start_outline_progress > DISTANCE_EPSILON
                        &&& measured_cubics[i].end_outline_progress <= UNIT
                    },
            decreases n - index,
        {
            proof {
                lemma_outline_bounds(outline_progress@, index as int);
                lemma_outline_bounds(outline_progress@, index as int + 1);
            }
            if outline_progress[index + 1] - outline_progress[index] > DISTANCE_EPSILON {
                measured_cubics.push(
                    MeasuredCubic {
                        source: index,
                        start_outline_progress,
                        end_outline_progress: outline_progress[index + 1],
                    },
                );
                // The next measured curve starts exactly where this one ends.
                start_outline_progress = outline_progress[index + 1];
            }
            index = index + 1;
        }
        // Curves may have been left out at the end: the last one kept ends the outline.
        let i: usize = measured_cubics.len() - 1;
        let last: MeasuredCubic = measured_cubics[i];
        measured_cubics.set(
            i,
            MeasuredCubic {
                source: last.source,
                start_outline_progress: last.start_outline_progress,
                end_outline_progress: UNIT,
            },
        );
        proof {
            assert(measured_cubics@ =~= spec_measured_cubics(outline_progress@));
        }
        Self { cubics: measured_cubics, features }
    }

    /// Cuts the outline at `cutting_point` and turns it so that the cut is
    /// where it starts.
    ///
    /// Returns the new outline and the index of the curve that was cut. A cut
    /// nearer to the start than `DISTANCE_EPSILON` changes nothing: the
    /// outline comes back as it was, with no index. Otherwise the `source` of
    /// each new curve counts through the list that `shifted_outline`
    /// describes.
    pub fn cut_and_shift(self, cutting_point: i64) -> (r: Result<(Self, Option<usize>), ShapeError>)
        ensures
            r is Ok <==> 0 <= cutting_point <= UNIT,
            r matches Err(e) ==> e == ShapeError::ProgressOutOfRange,
            r matches Ok((polygon, cut)) ==> {
                &&& polygon.wf()
                &&& polygon.spec_cubics() == spec_turned_cubics(
                    self.spec_cubics(),
                    cutting_point as int,
                )
                &&& polygon.spec_features() == spec_turned_features(
                    self.spec_features(),
                    cutting_point as int,
                )
                &&& cut == if cutting_point < DISTANCE_EPSILON {
                    None
                } else {
                    Some(first_holding(self.spec_cubics(), cutting_point as int, 0) as usize)
                }
                &&& cut matches Some(target) ==> target < self.spec_cubics().len()
                &&& cut is Some ==> self.spec_cubics().len() + 2 <= usize::MAX
            },
    {
        proof {
            use_type_invariant(&self);
        }
        if !(0 <= cutting_point && cutting_point <= UNIT) {
            return Err(ShapeError::ProgressOutOfRange);
        }
        if cutting_point < DISTANCE_EPSILON {
            return Ok((self, None));
        }
        let n: usize = self.cubics.len();
        // Find the curve to cut.
        let mut target_index: usize = 0;
        let mut i: usize = 0;
        while i < n
            invariant_except_break
                n == self.cubics.len(),
                0 <= i <= n,
                target_index == 0,
                first_holding(self.cubics@, cutting_point as int, 0) == first_holding(
                    self.cubics@,
                    cutting_point as int,
                    i as int,
                ),
            ensures
                target_index == first_holding(self.cubics@, cutting_point as int, 0),
            decreases n - i,
        {
            let it: MeasuredCubic = self.cubics[i];
            if it.start_outline_progress <= cutting_point && cutting_point
                <= it.end_outline_progress {
                target_index = i;
                break ;
            }
            i = i + 1;
        }
        let ghost shifted = shifted_outline(self.cubics@, target_index as int, cutting_point as int);
        proof {
            lemma_first_holding(self.cubics@, cutting_point as int, 0);
            lemma_shifted_outline(self.cubics@, target_index as int, cutting_point as int);
        }
        // The breakpoints: the cut, then the end of each curve from the one
        // that was cut round to the one before it, then the cut again.
        let mut ret_outline_progress: Vec<i64> = Vec::new();
        ret_outline_progress.push(0);
        let mut k: usize = 0;
        while k < n
            invariant
                n == self.cubics.len(),
                tiles_outline(self.cubics@),
                0 <= k <= n,
                target_index < n,
                0 <= cutting_point <= UNIT,
                shifted == shifted_outline(self.cubics@, target_index as int, cutting_point as int),
                ret_outline_progress.len() == k + 1,
                forall|j: int| 0 <= j <= k ==> #[trigger] ret_outline_progress[j] == shifted[j],
            decreases n - k,
        {
            let cubic_index: usize = if k < n - target_index {
                target_index + k
            } else {
                k - (n - target_index)
            };
            ret_outline_progress.push(
                positive_modulo(self.cubics[cubic_index].end_outline_progress - cutting_point, UNIT),
            );
            k = k + 1;
        }
        ret_outline_progress.push(UNIT);
        proof {
            assert(ret_outline_progress@ =~= shifted);
        }
        // The features move along with the outline.
        let mut new_features: Vec<ProgressableFeature> = Vec::new();
        let mut i: usize = 0;
        while i < self.features.len()
            invariant
                0 <= i <= self.features.len(),
                0 <= cutting_point <= UNIT,
                on_outline(self.features@),
                new_features.len() == i,
                forall|j: int|
                    0 <= j < i ==> #[trigger] new_features[j] == shifted_features(
                        self.features@,
                        cutting_point as int,
                    )[j],
                on_outline(new_features@),
            decreases self.features.len() - i,
        {
            let feature: ProgressableFeature = self.features[i];
            new_features.push(
                ProgressableFeature {
                    progress: positive_modulo(feature.progress - cutting_point, UNIT),
                    feature: feature.feature,
                    ty: feature.ty,
                },
            );
            i = i + 1;
        }
        proof {
            assert(new_features@ =~= shifted_features(self.features@, cutting_point as int));
        }
        Ok((Self::new(new_features, &ret_outline_progress), Some(target_index)))
    }

    /// Measures a polygon: gives each curve of its features the stretch of
    /// the outline that falls to it by its size, and each corner its place.
    ///
    /// There is no measured outline when the sizes add up to nothing or to
    /// more than can be counted, when no curve covers more than
    /// `DISTANCE_EPSILON` of the outline, or when there are more curves than
    /// can be counted.
    pub fn measure_polygon<P: Copy, M: Measurer<P>>(measurer: &M, polygon: &RoundedPolygon<P>) -> (r:
        Option<Self>)
        ensures
            match r {
                Some(measured) => exists|sizes: Seq<u64>|
                    {
                        &&& #[trigger] measured_by(
                            measurer,
                            all_cubics(polygon.features@, polygon.features.len() as int),
                            sizes,
                        )
                        &&& measurable(sizes)
                        &&& measured.wf()
                        &&& measured.spec_cubics() == spec_measured_cubics(
                            spec_outline_progress(sizes),
                        )
                        &&& measured.spec_features() == corners_before(
                            polygon.features@,
                            spec_outline_progress(sizes),
                            polygon.features.len() as int,
                        )
                    },
                None => {
                    ||| cubics_before(polygon.features@, polygon.features.len() as int)
                        > usize::MAX
                    ||| exists|sizes: Seq<u64>|
                        {
                            &&& #[trigger] measured_by(
                                measurer,
                                all_cubics(polygon.features@, polygon.features.len() as int),
                                sizes,
                            )
                            &&& !measurable(sizes)
                        }
                },
            },
    {
        let features: &Vec<Feature<P>> = &polygon.features;
        proof {
            lemma_all_cubics_len(features@, features.len() as int);
        }
        let sizes = match measure_all(measurer, features) {
            Some(sizes) => sizes,
            None => {
                return None;
            },
        };
        let total: u64 = match checked_total(&sizes) {
            Some(total) => total,
            None => {
                return None;
            },
        };
        if total == 0 {
            return None;
        }
        let outline_progress = outline_progress_of(&sizes);
        proof {
            lemma_outline_progress_is_outline(sizes@);
        }
        if !find_wide_curve(&outline_progress) {
            return None;
        }
        let progressable = corner_progress(features, &outline_progress);
        Some(Self::new(progressable, &outline_progress))
    }

    /// Measures a polygon given by its features and by the size of each of
    /// its curves, the curves of all features counted through in order.
    pub fn from_sizes<P: Copy>(features: &Vec<Feature<P>>, sizes: &Vec<u64>) -> (r: Self)
        requires
            sizes.len() == cubics_before(features@, features.len() as int),
            measurable(sizes@),
        ensures
            r.wf(),
            r.spec_cubics() == spec_measured_cubics(spec_outline_progress(sizes@)),
            r.spec_features() == corners_before(
                features@,
                spec_outline_progress(sizes@),
                features.len() as int,
            ),
    {
        let outline_progress = outline_progress_of(sizes);
        proof {
            lemma_outline_progress_is_outline(sizes@);
        }
        let progressable = corner_progress(features, &outline_progress);
        Self::new(progressable, &outline_progress)
    }
}

/// The curves of the first `upto` features, in order.
pub open spec fn all_cubics<P>(features: Seq<Feature<P>>, upto: int) -> Seq<Cubic<P>>
    decreases upto,
{
    if upto <= 0 {
        Seq::empty()
    } else {
        all_cubics(features, upto - 1) + features[upto - 1].cubics@
    }
}

/// `sizes` are sizes that the measurer gave to the curves, one each.
pub open spec fn measured_by<P, M: Measurer<P>>(
    measurer: &M,
    cubics: Seq<Cubic<P>>,
    sizes: Seq<u64>,
) -> bool {
    &&& sizes.len() == cubics.len()
    &&& forall|i: int|
        0 <= i < cubics.len() ==> call_ensures(
            M::measure_cubic,
            (measurer, &cubics[i]),
            #[trigger] sizes[i],
        )
}

/// Curves of these sizes make an outline that can be measured: the sizes add
/// up to more than nothing and to no more than can be counted, and some curve
/// covers more than `DISTANCE_EPSILON` of the outline.
pub open spec fn measurable(sizes: Seq<u64>) -> bool {
    &&& 0 < size_before(sizes, sizes.len() as int) <= u64::MAX
    &&& has_wide_curve(spec_outline_progress(sizes))
}

/// There are as many curves in all as the features hold together.
pub proof fn lemma_all_cubics_len<P>(features: Seq<Feature<P>>, upto: int)
    requires
        0 <= upto <= features.len(),
    ensures
        all_cubics(features, upto).len() == cubics_before(features, upto),
    decreases upto,
{
    if upto > 0 {
        lemma_all_cubics_len(features, upto - 1);
    }
}

/// Measures every curve of every feature. There is no result when the curves
/// are more than can be counted.
fn measure_all<P: Copy, M: Measurer<P>>(measurer: &M, features: &Vec<Feature<P>>) -> (r: Option<
    Vec<u64>,
>)
    ensures
        r matches Some(sizes) ==> {
            &&& measured_by(measurer, all_cubics(features@, features.len() as int), sizes@)
            &&& sizes.len() == cubics_before(features@, features.len() as int)
        },
        r is None ==> cubics_before(features@, features.len() as int) > usize::MAX,
{
    let mut sizes: Vec<u64> = Vec::new();
    let mut f: usize = 0;
    while f < features.len()
        invariant
            0 <= f <= features.len(),
            measured_by(measurer, all_cubics(features@, f as int), sizes@),
            sizes.len() == cubics_before(features@, f as int),
        decreases features.len() - f,
    {
        let cubics: &Vec<Cubic<P>> = &features[f].cubics;
        let ghost before = sizes@;
        let ghost seen = all_cubics(features@, f as int);
        proof {
            lemma_cubics_before_monotonic(features@, f as int + 1, features.len() as int);
            lemma_all_cubics_len(features@, f as int);
        }
        if cubics.len() > usize::MAX - sizes.len() {
            return None;
        }
        let mut c: usize = 0;
        while c < cubics.len()
            invariant
                0 <= c <= cubics.len(),
                before.len() + cubics.len() <= usize::MAX,
                before.len() == seen.len(),
                sizes.len() == before.len() + c,
                measured_by(measurer, seen + cubics@.take(c as int), sizes@),
            decreases cubics.len() - c,
        {
            let ghost sizes_before = sizes@;
            sizes.push(measurer.measure_cubic(&cubics[c]));
            proof {
                let now = seen + cubics@.take(c as int + 1);
                let earlier = seen + cubics@.take(c as int);
                assert forall|i: int| 0 <= i < now.len() implies call_ensures(
                    M::measure_cubic,
                    (measurer, &now[i]),
                    #[trigger] sizes@[i],
                ) by {
                    if i < earlier.len() {
                        assert(now[i] == earlier[i]);
                        assert(sizes@[i] == sizes_before[i]);
                    } else {
                        assert(now[i] == cubics@[c as int]);
                    }
                }
            }
            c = c + 1;
        }
        proof {
            assert(cubics@.take(cubics.len() as int) =~= cubics@);
            assert(seen + cubics@ =~= all_cubics(features@, f as int + 1));
        }
        f = f + 1;
    }
    Some(sizes)
}

/// The sum of all sizes, unless it is more than can be counted.
fn checked_total(sizes: &Vec<u64>) -> (r: Option<u64>)
    ensures
        r matches Some(total) ==> total == size_before(sizes@, sizes.len() as int),
        r is None ==> size_before(sizes@, sizes.len() as int) > u64::MAX,
{
    let n: usize = sizes.len();
    let mut total: u64 = 0;
    let mut k: usize = 0;
    while k < n
        invariant
            n == sizes.len(),
            0 <= k <= n,
            total == size_before(sizes@, k as int),
        decreases n - k,
    {
        if sizes[k] > u64::MAX - total {
            proof {
                lemma_size_before_monotonic(sizes@, k as int + 1, n as int);
            }
            return None;
        }
        total = total + sizes[k];
        k = k + 1;
    }
    Some(total)
}

/// Whether some curve of the outline is wide enough to be kept.
fn find_wide_curve(outline_progress: &Vec<i64>) -> (found: bool)
    requires
        is_outline(outline_progress@),
    ensures
        found == has_wide_curve(outline_progress@),
{
    let n: usize = outline_progress.len() - 1;
    let mut i: usize = 0;
    while i < n
        invariant
            n == outline_progress.len() - 1,
            0 <= i <= n,
            is_outline(outline_progress@),
            forall|k: int| 0 <= k < i ==> !is_wide(outline_progress@, k),
        decreases n - i,
    {
        proof {
            lemma_outline_bounds(outline_progress@, i as int);
            lemma_outline_bounds(outline_progress@, i as int + 1);
        }
        if outline_progress[i + 1] - outline_progress[i] > DISTANCE_EPSILON {
            assert(is_wide(outline_progress@, i as int));
            return true;
        }
        i = i + 1;
    }
    false
}

/// The part `measure` of `total`, in progress units, rounded down.
fn share_of(measure: u64, total: u64) -> (progress: i64)
    requires
        measure <= total,
        total > 0,
    ensures
        progress == (measure * UNIT) / (total as int),
        0 <= progress <= UNIT,
{
    proof {
        lemma_product_bound(measure as int, 0xffff_ffff_ffff_ffff, UNIT as int, 1_000_000_000);
        lemma_part_bound(UNIT as int, measure as int, total as int);
    }
    let scaled: u128 = (measure as u128) * (UNIT as u128);
    let progress: u128 = scaled / (total as u128);
    progress as i64
}

/// The sum of all sizes.
fn total_size(sizes: &Vec<u64>) -> (total: u64)
    requires
        size_before(sizes@, sizes.len() as int) <= u64::MAX,
    ensures
        total == size_before(sizes@, sizes.len() as int),
{
    let n: usize = sizes.len();
    let mut total: u64 = 0;
    let mut k: usize = 0;
    while k < n
        invariant
            n == sizes.len(),
            0 <= k <= n,
            total == size_before(sizes@, k as int),
            size_before(sizes@, n as int) <= u64::MAX,
        decreases n - k,
    {
        proof {
            lemma_size_before_monotonic(sizes@, k as int + 1, n as int);
        }
        total = total + sizes[k];
        k = k + 1;
    }
    total
}

/// The breakpoints of the outline whose curves have the given sizes.
fn outline_progress_of(sizes: &Vec<u64>) -> (outline_progress: Vec<i64>)
    requires
        0 < size_before(sizes@, sizes.len() as int) <= u64::MAX,
    ensures
        outline_progress@ == spec_outline_progress(sizes@),
{
    let n: usize = sizes.len();
    let total: u64 = total_size(sizes);
    let mut outline_progress: Vec<i64> = Vec::new();
    let mut measure: u64 = 0;
    let mut k: usize = 0;
    while k < n
        invariant
            n == sizes.len(),
            0 <= k <= n,
            measure == size_before(sizes@, k as int),
            total == size_before(sizes@, n as int),
            total > 0,
            outline_progress.len() == k,
            forall|i: int|
                0 <= i < k ==> #[trigger] outline_progress[i] == (size_before(sizes@, i) * UNIT)
                    / (total as int),
        decreases n - k,
    {
        proof {
            lemma_size_before_monotonic(sizes@, k as int, n as int);
            lemma_size_before_monotonic(sizes@, k as int + 1, n as int);
        }
        outline_progress.push(share_of(measure, total));
        measure = measure + sizes[k];
        k = k + 1;
    }
    outline_progress.push(share_of(measure, total));
    proof {
        assert(outline_progress@ =~= spec_outline_progress(sizes@));
    }
    outline_progress
}

/// The corners among the features, each with its progress on the outline.
fn corner_progress<P: Copy>(features: &Vec<Feature<P>>, outline_progress: &Vec<i64>) -> (progressable: Vec<
    ProgressableFeature,
>)
    requires
        is_outline(outline_progress@),
        outline_progress.len() == cubics_before(features@, features.len() as int) + 1,
    ensures
        progressable@ == corners_before(features@, outline_progress@, features.len() as int),
        on_outline(progressable@),
{
    let mut progressable: Vec<ProgressableFeature> = Vec::new();
    let mut first_cubic: usize = 0;
    let mut f: usize = 0;
    while f < features.len()
        invariant
            0 <= f <= features.len(),
            outline_progress.len() == cubics_before(features@, features.len() as int) + 1,
            first_cubic == cubics_before(features@, f as int),
            is_outline(outline_progress@),
            progressable@ == corners_before(features@, outline_progress@, f as int),
            on_outline(progressable@),
        decreases features.len() - f,
    {
        let feature = &features[f];
        let count: usize = feature.cubics.len();
        proof {
            lemma_cubics_before_monotonic(features@, f as int + 1, features.len() as int);
        }
        if feature.is_corner() && count > 0 {
            let ix: usize = first_cubic + count / 2;
            proof {
                lemma_outline_bounds(outline_progress@, ix as int);
                lemma_outline_bounds(outline_progress@, ix as int + 1);
            }
            let middle: i64 = (outline_progress[ix] + outline_progress[ix + 1]) / 2;
            progressable.push(
                ProgressableFeature {
                    progress: positive_modulo(middle, UNIT),
                    feature: f,
                    ty: feature.ty,
                },
            );
        }
        first_cubic = first_cubic + count;
        f = f + 1;
    }
    progressable
}

/// An outline with a wide curve keeps at least one curve.
pub proof fn lemma_kept_when_wide(op: Seq<i64>)
    requires
        has_wide_curve(op),
    ensures
        kept_before(op, op.len() - 1).len() > 0,
{
    let i = choose|i: int| 0 <= i < op.len() - 1 && is_wide(op, i);
    lemma_kept_grows(op, i + 1, op.len() - 1);
}

/// The curves kept among the first `upto` are kept among more.
pub proof fn lemma_kept_grows(op: Seq<i64>, some: int, upto: int)
    requires
        0 <= some <= upto,
    ensures
        kept_before(op, some).len() <= kept_before(op, upto).len(),
        some > 0 && is_wide(op, some - 1) ==> kept_before(op, some).len() > 0,
    decreases upto - some,
{
    if some < upto {
        lemma_kept_grows(op, some, upto - 1);
    }
}

/// Every breakpoint of an outline lies in `0..=UNIT`.
pub proof fn lemma_outline_bounds(op: Seq<i64>, i: int)
    requires
        is_outline(op),
        0 <= i < op.len(),
    ensures
        0 <= op[i] <= UNIT,
{
    lemma_outline_ordered(op, 0, i);
    lemma_outline_ordered(op, i, op.len() - 1);
}

/// The breakpoints of an outline never decrease.
pub proof fn lemma_outline_ordered(op: Seq<i64>, i: int, j: int)
    requires
        is_outline(op),
        0 <= i <= j < op.len(),
    ensures
        op[i] <= op[j],
    decreases j - i,
{
    if i < j {
        lemma_outline_ordered(op, i, j - 1);
        assert(op[j - 1] <= op[j - 1 + 1]);
    }
}

} // verus!
