use vstd::prelude::*;
use crate::arith::lemma_whole_part;
use crate::cubic::Cubic;
use crate::error::ShapeError;
use crate::feature::Feature;
use crate::feature_mapper::spec_feature_mapping;
use crate::fixed::{wide_product, Fixed};
use crate::geometry::{Point, DISTANCE_EPSILON, UNIT};
use crate::mapper::{first_violation, sources_of, spec_linear_map, targets_of, valid_progress};
use crate::measured_polygon::{
    all_cubics, corners_before, cyclic_index, first_holding, kept_before, measurable, measured_by,
    spec_measured_cubics, spec_outline_progress, spec_turned_cubics, tiles_outline, MeasuredCubic,
    MeasuredPolygon, ProgressableFeature,
};
use crate::measurer::{LengthMeasurer, Measurer};
use crate::path::{path_commands, spec_commands, PathCommand};
use crate::rounded_polygon::RoundedPolygon;
use crate::sweep::{in_outlines, is_sweep_path, spec_sweep, sweep_exhausts, MatchStep, MorphPlan};

verus! {

/// A piece of a curve with the stretch of the outline that it covers.
#[derive(Debug, Clone, Copy, PartialEq)]
pub struct Piece {
    pub cubic: Cubic<Point>,
    pub measured: MeasuredCubic,
}

/// The length of each of the curves.
pub open spec fn spec_lengths(cubics: Seq<Cubic<Point>>) -> Seq<u64> {
    Seq::new(cubics.len(), |i: int| LengthMeasurer::spec_measure_cubic(cubics[i]) as u64)
}

/// Sizes that the length measurer gave to curves are their lengths.
pub proof fn lemma_lengths_unique(measurer: &LengthMeasurer, cubics: Seq<Cubic<Point>>, sizes: Seq<u64>)
    requires
        measured_by(measurer, cubics, sizes),
    ensures
        sizes == spec_lengths(cubics),
{
    assert forall|i: int| 0 <= i < cubics.len() implies sizes[i] == spec_lengths(cubics)[i] by {
        assert(call_ensures(
            <LengthMeasurer as Measurer<Point>>::measure_cubic,
            (measurer, &cubics[i]),
            sizes[i],
        ));
    }
    assert(sizes =~= spec_lengths(cubics));
}

/// A piece cut at an outline progress: the part before the cut, and the part
/// after it as a piece of its own.
///
/// The progress is brought into the stretch of the piece. The curve is cut
/// where it has reached the same part of its length as the cut has of the
/// stretch. A piece without width cannot be cut, nor one that is wider than
/// can be counted.
pub open spec fn spec_cut_piece(piece: Piece, progress: Fixed) -> Option<(Cubic<Point>, Piece)> {
    if !(0 < piece.measured.end_outline_progress - piece.measured.start_outline_progress
        <= i64::MAX) {
        None
    } else {
        let size = LengthMeasurer::spec_measure_cubic(piece.cubic);
        let bounded = piece.measured.spec_bounded(progress as int);
        let measure = ((bounded - piece.measured.start_outline_progress) * size) / (
        piece.measured.end_outline_progress - piece.measured.start_outline_progress);
        let t = LengthMeasurer::spec_find_cubic_cut_point(piece.cubic, measure as u64);
        let halves = piece.cubic.spec_split(t as i64);
        Some(
            (
                halves.0,
                Piece {
                    cubic: halves.1,
                    measured: MeasuredCubic {
                        source: piece.measured.source,
                        start_outline_progress: bounded as i64,
                        end_outline_progress: piece.measured.end_outline_progress,
                    },
                },
            ),
        )
    }
}

/// Cuts a piece at an outline progress.
pub fn cut_piece(piece: Piece, progress: Fixed) -> (r: Option<(Cubic<Point>, Piece)>)
    ensures
        r == spec_cut_piece(piece, progress),
{
    let width: i128 = piece.measured.end_outline_progress as i128
        - piece.measured.start_outline_progress as i128;
    if !(0 < width && width <= i64::MAX as i128) {
        return None;
    }
    let measurer = LengthMeasurer;
    let size: u64 = measurer.measure_cubic(&piece.cubic);
    let (_before, after, measure) = piece.measured.cut_at_progress(progress, size);
    let t: Fixed = measurer.find_cubic_cut_point(&piece.cubic, measure);
    let (c1, c2) = piece.cubic.split(t);
    Some((c1, Piece { cubic: c2, measured: after }))
}

/// The stretch of the piece has a width that can be counted.
pub open spec fn spec_can_be_cut(piece: Piece) -> bool {
    0 < piece.measured.end_outline_progress - piece.measured.start_outline_progress <= i64::MAX
}

/// The size, measured from the start of its curve, at which a piece of the
/// size `size` is to be cut for a cut at an outline progress: the same part
/// of `size` as the cut is of the stretch, rounded down.
pub open spec fn spec_cut_measure(piece: Piece, progress: Fixed, size: u64) -> int {
    ((piece.measured.spec_bounded(progress as int) - piece.measured.start_outline_progress) * size)
        / (piece.measured.end_outline_progress - piece.measured.start_outline_progress)
}

/// A piece cut at an outline progress, its curve cut at the parameter `t`:
/// the part before the cut, and the part after it as a piece of its own.
/// There is no such cut where the piece cannot be cut, or where `t` is no
/// parameter of a curve.
pub open spec fn spec_cut_piece_at(piece: Piece, progress: Fixed, t: Fixed) -> Option<
    (Cubic<Point>, Piece),
> {
    if !spec_can_be_cut(piece) || !(0 <= t <= UNIT) {
        None
    } else {
        let halves = piece.cubic.spec_split(t);
        Some(
            (
                halves.0,
                Piece {
                    cubic: halves.1,
                    measured: MeasuredCubic {
                        source: piece.measured.source,
                        start_outline_progress: piece.measured.spec_bounded(progress as int) as i64,
                        end_outline_progress: piece.measured.end_outline_progress,
                    },
                },
            ),
        )
    }
}

/// Cuts a piece at an outline progress, and its curve at the parameter `t`
/// that a measurer found for that cut.
pub fn cut_piece_at(piece: Piece, progress: Fixed, t: Fixed) -> (r: Option<(Cubic<Point>, Piece)>)
    ensures
        r == spec_cut_piece_at(piece, progress, t),
{
    let width: i128 = piece.measured.end_outline_progress as i128
        - piece.measured.start_outline_progress as i128;
    if !(0 < width && width <= i64::MAX as i128) || t < 0 || t > UNIT {
        return None;
    }
    let (_before, after, _measure) = piece.measured.cut_at_progress(progress, 0);
    let (c1, c2) = piece.cubic.split(t);
    Some((c1, Piece { cubic: c2, measured: after }))
}

/// What `measurer` may have made of a cut: it gave the curve of the piece
/// some size and found some parameter for the cut at the part of that size
/// that the cut is of the stretch, and `r` is the piece cut there.
pub open spec fn is_cut_by<M: Measurer<Point>>(
    measurer: &M,
    piece: Piece,
    progress: Fixed,
    r: Option<(Cubic<Point>, Piece)>,
) -> bool {
    exists|size: u64, t: Fixed|
        {
            &&& call_ensures(M::measure_cubic, (measurer, &piece.cubic), size)
            &&& call_ensures(
                M::find_cubic_cut_point,
                (measurer, &piece.cubic, spec_cut_measure(piece, progress, size) as u64),
                t,
            )
            &&& r == spec_cut_piece_at(piece, progress, t)
        }
}

/// Cuts a piece at an outline progress, with a measurer of the caller's.
///
/// A piece that cannot be cut is not shown to the measurer. Else the
/// measurer is asked for the size of the curve and for the parameter at which
/// the part of that size is reached that the cut is of the stretch; the piece
/// is cut there, if that is a parameter of a curve.
pub fn cut_piece_with<M: Measurer<Point>>(measurer: &M, piece: Piece, progress: Fixed) -> (r: Option<
    (Cubic<Point>, Piece),
>)
    ensures
        !spec_can_be_cut(piece) ==> r is None,
        spec_can_be_cut(piece) ==> is_cut_by(measurer, piece, progress, r),
{
    let width: i128 = piece.measured.end_outline_progress as i128
        - piece.measured.start_outline_progress as i128;
    if !(0 < width && width <= i64::MAX as i128) {
        return None;
    }
    let size: u64 = measurer.measure_cubic(&piece.cubic);
    let (_before, _after, measure) = piece.measured.cut_at_progress(progress, size);
    let t: Fixed = measurer.find_cubic_cut_point(&piece.cubic, measure);
    let r = cut_piece_at(piece, progress, t);
    proof {
        assert(measure == spec_cut_measure(piece, progress, size) as u64);
        assert(is_cut_by(measurer, piece, progress, r));
    }
    r
}

/// Every source is an index into a list of `count` curves.
pub open spec fn sources_below(measured: Seq<MeasuredCubic>, count: int) -> bool {
    forall|k: int| 0 <= k < measured.len() ==> (#[trigger] measured[k]).source < count
}

/// The wide curves among the first `upto` come from among the first `upto`.
pub proof fn lemma_kept_sources(op: Seq<i64>, upto: int)
    requires
        0 <= upto < op.len(),
        upto <= usize::MAX,
    ensures
        sources_below(kept_before(op, upto), upto),
        kept_before(op, upto).len() <= upto,
    decreases upto,
{
    if upto > 0 {
        lemma_kept_sources(op, upto - 1);
        let kept = kept_before(op, upto - 1);
        assert forall|k: int| 0 <= k < kept_before(op, upto).len() implies (
        #[trigger] kept_before(op, upto)[k]).source < upto by {
            if k < kept.len() {
                assert(kept_before(op, upto)[k] == kept[k]);
            }
        }
    }
}

/// The curves of a measured outline come from the curves that were measured.
pub proof fn lemma_measured_sources(op: Seq<i64>)
    requires
        op.len() >= 1,
        op.len() - 1 <= usize::MAX,
        kept_before(op, op.len() - 1).len() > 0,
    ensures
        sources_below(spec_measured_cubics(op), op.len() - 1),
{
    lemma_kept_sources(op, op.len() - 1);
    let kept = kept_before(op, op.len() - 1);
    assert forall|k: int| 0 <= k < spec_measured_cubics(op).len() implies (
    #[trigger] spec_measured_cubics(op)[k]).source < op.len() - 1 by {
        assert(spec_measured_cubics(op)[k].source == kept[k].source);
    }
}

/// The curve of each measured curve, looked up in the list that was
/// measured.
pub open spec fn spec_curves_of(measured: Seq<MeasuredCubic>, list: Seq<Cubic<Point>>) -> Seq<
    Cubic<Point>,
> {
    Seq::new(measured.len(), |k: int| list[measured[k].source as int])
}

pub fn curves_of(measured: &Vec<MeasuredCubic>, list: &Vec<Cubic<Point>>) -> (curves: Vec<Cubic<Point>>)
    requires
        sources_below(measured@, list.len() as int),
    ensures
        curves@ == spec_curves_of(measured@, list@),
{
    let mut curves: Vec<Cubic<Point>> = Vec::new();
    let mut k: usize = 0;
    while k < measured.len()
        invariant
            0 <= k <= measured.len(),
            sources_below(measured@, list.len() as int),
            curves.len() == k,
            forall|j: int| 0 <= j < k ==> #[trigger] curves[j] == list[measured[j].source as int],
        decreases measured.len() - k,
    {
        assert(measured@[k as int].source < list.len());
        curves.push(list[measured[k].source]);
        k = k + 1;
    }
    proof {
        assert(curves@ =~= spec_curves_of(measured@, list@));
    }
    curves
}

/// All curves of all features, in order: the list that the curves of a
/// measured outline name by index.
pub fn flatten(features: &Vec<Feature<Point>>) -> (cubics: Vec<Cubic<Point>>)
    ensures
        cubics@ == all_cubics(features@, features.len() as int),
{
    let mut cubics: Vec<Cubic<Point>> = Vec::new();
    let mut f: usize = 0;
    while f < features.len()
        invariant
            0 <= f <= features.len(),
            cubics@ == all_cubics(features@, f as int),
        decreases features.len() - f,
    {
        let ghost before = cubics@;
        let row: &Vec<Cubic<Point>> = &features[f].cubics;
        let mut c: usize = 0;
        while c < row.len()
            invariant
                0 <= c <= row.len(),
                cubics@ == before + row@.take(c as int),
            decreases row.len() - c,
        {
            cubics.push(row[c]);
            proof {
                assert(cubics@ =~= before + row@.take(c as int + 1));
            }
            c = c + 1;
        }
        proof {
            assert(row@.take(row.len() as int) =~= row@);
        }
        f = f + 1;
    }
    cubics
}

/// The point that stands for a feature when features are matched: the
/// middle between the start of its first and the end of its last curve.
pub open spec fn spec_representative(feature: Feature<Point>) -> Point {
    if feature.cubics.len() == 0 {
        Point { x: 0, y: 0 }
    } else {
        feature.cubics[0].anchor0.spec_plus(feature.cubics@.last().anchor1).spec_divided(
            2_000_000_000,
        )
    }
}

/// The square of the distance between two points, as a whole number.
pub open spec fn spec_distance_squared(p: Point, q: Point) -> u128 {
    let d = p.spec_minus(q);
    (d.x * d.x + d.y * d.y) as u128
}

/// The distances between the features of one polygon and those of another,
/// squared: row `i` is for feature `i` of the first list.
pub open spec fn spec_distances(
    features1: Seq<Feature<Point>>,
    measured1: Seq<ProgressableFeature>,
    features2: Seq<Feature<Point>>,
    measured2: Seq<ProgressableFeature>,
) -> Seq<Seq<u128>> {
    Seq::new(
        measured1.len(),
        |i: int|
            Seq::new(
                measured2.len(),
                |j: int|
                    spec_distance_squared(
                        spec_representative(features1[measured1[i].feature as int]),
                        spec_representative(features2[measured2[j].feature as int]),
                    ),
            ),
    )
}

/// Every measured feature is one of `count` features.
pub open spec fn features_below(measured: Seq<ProgressableFeature>, count: int) -> bool {
    forall|i: int| 0 <= i < measured.len() ==> (#[trigger] measured[i]).feature < count
}

/// The corners found among the first `upto` features are among them.
pub proof fn lemma_corner_features(features: Seq<Feature<Point>>, op: Seq<i64>, upto: int)
    requires
        0 <= upto <= features.len(),
        upto <= usize::MAX,
    ensures
        features_below(corners_before(features, op, upto), upto),
    decreases upto,
{
    if upto > 0 {
        lemma_corner_features(features, op, upto - 1);
        let before = corners_before(features, op, upto - 1);
        assert forall|i: int| 0 <= i < corners_before(features, op, upto).len() implies (
        #[trigger] corners_before(features, op, upto)[i]).feature < upto by {
            if i < before.len() {
                assert(corners_before(features, op, upto)[i] == before[i]);
            }
        }
    }
}

fn feature_representative_point(feature: &Feature<Point>) -> (p: Point)
    ensures
        p == spec_representative(*feature),
{
    if feature.cubics.len() == 0 {
        Point::zero()
    } else {
        let last: usize = feature.cubics.len() - 1;
        feature.cubics[0].anchor0.plus(feature.cubics[last].anchor1).divided(2_000_000_000)
    }
}

fn distance_squared(p: Point, q: Point) -> (d: u128)
    ensures
        d == spec_distance_squared(p, q),
{
    let v: Point = p.minus(q);
    let xx: i128 = wide_product(v.x, v.x);
    let yy: i128 = wide_product(v.y, v.y);
    proof {
        crate::fixed::lemma_square_not_negative(v.x as int);
        crate::fixed::lemma_square_not_negative(v.y as int);
    }
    xx as u128 + yy as u128
}

/// The point that stands for each of the measured features.
fn representatives(features: &Vec<Feature<Point>>, measured: &Vec<ProgressableFeature>) -> (points: Vec<
    Point,
>)
    requires
        features_below(measured@, features.len() as int),
    ensures
        points.len() == measured.len(),
        forall|i: int|
            0 <= i < measured.len() ==> #[trigger] points[i] == spec_representative(
                features[measured[i].feature as int],
            ),
{
    let mut points: Vec<Point> = Vec::new();
    let mut i: usize = 0;
    while i < measured.len()
        invariant
            0 <= i <= measured.len(),
            features_below(measured@, features.len() as int),
            points.len() == i,
            forall|k: int|
                0 <= k < i ==> #[trigger] points[k] == spec_representative(
                    features[measured[k].feature as int],
                ),
        decreases measured.len() - i,
    {
        assert(measured@[i as int].feature < features.len());
        points.push(feature_representative_point(&features[measured[i].feature]));
        i = i + 1;
    }
    points
}

/// The distances, squared, between the measured features of two polygons:
/// `distances[i][j]` is the square of the distance from the point that stands
/// for feature `measured1[i]` to the one that stands for `measured2[j]`.
/// `features1` and `features2` are the features of the polygons, which the
/// measured features name by index.
pub fn feature_distances(
    features1: &Vec<Feature<Point>>,
    measured1: &Vec<ProgressableFeature>,
    features2: &Vec<Feature<Point>>,
    measured2: &Vec<ProgressableFeature>,
) -> (distances: Vec<Vec<u128>>)
    requires
        features_below(measured1@, features1.len() as int),
        features_below(measured2@, features2.len() as int),
    ensures
        distances.len() == measured1.len(),
        forall|i: int|
            0 <= i < distances.len() ==> (#[trigger] distances[i]).len() == measured2.len(),
        crate::feature_mapper::rows(distances@) == spec_distances(
            features1@,
            measured1@,
            features2@,
            measured2@,
        ),
{
    let points1 = representatives(features1, measured1);
    let points2 = representatives(features2, measured2);
    let ghost expected = spec_distances(features1@, measured1@, features2@, measured2@);
    let mut distances: Vec<Vec<u128>> = Vec::new();
    let mut i: usize = 0;
    while i < points1.len()
        invariant
            0 <= i <= points1.len(),
            points1.len() == measured1.len(),
            points2.len() == measured2.len(),
            expected == spec_distances(features1@, measured1@, features2@, measured2@),
            forall|k: int|
                0 <= k < measured1.len() ==> #[trigger] points1[k] == spec_representative(
                    features1[measured1[k].feature as int],
                ),
            forall|k: int|
                0 <= k < measured2.len() ==> #[trigger] points2[k] == spec_representative(
                    features2[measured2[k].feature as int],
                ),
            distances.len() == i,
            forall|k: int| 0 <= k < i ==> (#[trigger] distances[k])@ == expected[k],
        decreases points1.len() - i,
    {
        let mut row: Vec<u128> = Vec::new();
        let mut j: usize = 0;
        while j < points2.len()
            invariant
                0 <= j <= points2.len(),
                i < points1.len(),
                points1.len() == measured1.len(),
                points2.len() == measured2.len(),
                expected == spec_distances(features1@, measured1@, features2@, measured2@),
                points1[i as int] == spec_representative(
                    features1[measured1[i as int].feature as int],
                ),
                forall|k: int|
                    0 <= k < measured2.len() ==> #[trigger] points2[k] == spec_representative(
                        features2[measured2[k].feature as int],
                    ),
                row.len() == j,
                forall|k: int| 0 <= k < j ==> #[trigger] row[k] == expected[i as int][k],
            decreases points2.len() - j,
        {
            row.push(distance_squared(points1[i], points2[j]));
            j = j + 1;
        }
        proof {
            assert(row@ =~= expected[i as int]);
        }
        let ghost rows_before = distances@;
        distances.push(row);
        proof {
            assert forall|k: int| 0 <= k < i + 1 implies (#[trigger] distances[k])@
                == expected[k] by {
                if k < i {
                    assert(distances[k] == rows_before[k]);
                }
            }
        }
        i = i + 1;
    }
    proof {
        assert(crate::feature_mapper::rows(distances@) =~= expected);
    }
    distances
}

/// The curves of an outline that was cut inside curve `target` and turned
/// so that it starts at the cut: the part of `target` after the cut, the
/// curves that follow `target` round to the one before it, and the part of
/// `target` before the cut.
pub open spec fn spec_turned_list(
    curves: Seq<Cubic<Point>>,
    measured: Seq<MeasuredCubic>,
    target: int,
    cut_point: Fixed,
) -> Option<Seq<Cubic<Point>>> {
    let n = curves.len() as int;
    match spec_cut_piece(Piece { cubic: curves[target], measured: measured[target] }, cut_point) {
        None => None,
        Some((before, after)) => Some(
            Seq::new(
                (n + 1) as nat,
                |j: int|
                    if j == 0 {
                        after.cubic
                    } else if j == n {
                        before
                    } else {
                        curves[cyclic_index(target, j, n)]
                    },
            ),
        ),
    }
}

/// The curves of an outline that was cut inside curve `target` into the
/// parts `before` and `after`, and turned so that it starts at the cut:
/// `after`, the curves that follow `target` round to the one before it, and
/// `before`.
pub open spec fn spec_turned_list_at(
    curves: Seq<Cubic<Point>>,
    target: int,
    before: Cubic<Point>,
    after: Cubic<Point>,
) -> Seq<Cubic<Point>> {
    let n = curves.len() as int;
    Seq::new(
        (n + 1) as nat,
        |j: int|
            if j == 0 {
                after
            } else if j == n {
                before
            } else {
                curves[cyclic_index(target, j, n)]
            },
    )
}

/// Turns the curves of an outline that was cut inside curve `target`.
pub fn turned_list_at(
    curves: &Vec<Cubic<Point>>,
    target: usize,
    before: Cubic<Point>,
    after: Cubic<Point>,
) -> (list: Vec<Cubic<Point>>)
    requires
        target < curves.len(),
        curves.len() < usize::MAX,
    ensures
        list@ == spec_turned_list_at(curves@, target as int, before, after),
{
    let n: usize = curves.len();
    let ghost expected = spec_turned_list_at(curves@, target as int, before, after);
    let mut list: Vec<Cubic<Point>> = Vec::new();
    list.push(after);
    let mut j: usize = 1;
    while j < n
        invariant
            n == curves.len(),
            target < n,
            1 <= j <= n,
            list.len() == j,
            expected.len() == n + 1,
            forall|k: int| 0 <= k < n + 1 ==> #[trigger] expected[k] == (if k == 0 {
                after
            } else if k == n {
                before
            } else {
                curves[cyclic_index(target as int, k, n as int)]
            }),
            forall|k: int| 0 <= k < j ==> #[trigger] list[k] == expected[k],
        decreases n - j,
    {
        let index: usize = if j < n - target {
            target + j
        } else {
            j - (n - target)
        };
        list.push(curves[index]);
        j = j + 1;
    }
    list.push(before);
    proof {
        assert(list@ =~= expected);
    }
    list
}

/// The turned curves of an outline for the parts that a cut gave, if it gave
/// any.
pub open spec fn spec_turned_parts(
    curves: Seq<Cubic<Point>>,
    target: int,
    parts: Option<(Cubic<Point>, Piece)>,
) -> Option<Seq<Cubic<Point>>> {
    match parts {
        None => None,
        Some((before, after)) => Some(spec_turned_list_at(curves, target, before, after.cubic)),
    }
}

/// What `measurer` may have made of an outline that is cut inside curve
/// `target` and turned: `list` holds the turned curves for some cut of that
/// curve that the measurer may have made.
pub open spec fn is_turned_by<M: Measurer<Point>>(
    measurer: &M,
    curves: Seq<Cubic<Point>>,
    measured: Seq<MeasuredCubic>,
    target: int,
    cut_point: Fixed,
    list: Option<Seq<Cubic<Point>>>,
) -> bool {
    let piece = Piece { cubic: curves[target], measured: measured[target] };
    exists|parts: Option<(Cubic<Point>, Piece)>|
        #[trigger] is_cut_by(measurer, piece, cut_point, parts) && list == spec_turned_parts(
            curves,
            target,
            parts,
        )
}

/// The curves of an outline cut inside curve `target` and turned, the cut
/// made with a measurer of the caller's: none where the curve cannot be cut.
pub fn turned_list_with<M: Measurer<Point>>(
    measurer: &M,
    curves: &Vec<Cubic<Point>>,
    measured: &Vec<MeasuredCubic>,
    target: usize,
    cut_point: Fixed,
) -> (r: Option<Vec<Cubic<Point>>>)
    requires
        curves.len() == measured.len(),
        target < curves.len(),
        curves.len() < usize::MAX,
    ensures
        !spec_can_be_cut(Piece { cubic: curves[target as int], measured: measured[target as int] })
            ==> r is None,
        spec_can_be_cut(Piece { cubic: curves[target as int], measured: measured[target as int] })
            ==> is_turned_by(
            measurer,
            curves@,
            measured@,
            target as int,
            cut_point,
            match r {
                Some(v) => Some(v@),
                None => None,
            },
        ),
{
    let piece = Piece { cubic: curves[target], measured: measured[target] };
    let parts = cut_piece_with(measurer, piece, cut_point);
    let r = match parts {
        None => None,
        Some((before, after)) => Some(turned_list_at(curves, target, before, after.cubic)),
    };
    proof {
        if spec_can_be_cut(piece) {
            let list: Option<Seq<Cubic<Point>>> = if r is Some {
                Some(r->0@)
            } else {
                None
            };
            assert(is_cut_by(measurer, piece, cut_point, parts));
            assert(list == spec_turned_parts(curves@, target as int, parts));
        }
    }
    r
}

fn turned_list(
    curves: &Vec<Cubic<Point>>,
    measured: &Vec<MeasuredCubic>,
    target: usize,
    cut_point: Fixed,
) -> (r: Option<Vec<Cubic<Point>>>)
    requires
        curves.len() == measured.len(),
        target < curves.len(),
        curves.len() < usize::MAX,
    ensures
        match spec_turned_list(curves@, measured@, target as int, cut_point) {
            Some(list) => r matches Some(v) && v@ == list,
            None => r is None,
        },
{
    match cut_piece(Piece { cubic: curves[target], measured: measured[target] }, cut_point) {
        None => None,
        Some((before, after)) => {
            let list = turned_list_at(curves, target, before, after.cubic);
            proof {
                assert(list@ =~= spec_turned_list(
                    curves@,
                    measured@,
                    target as int,
                    cut_point,
                )->0);
            }
            Some(list)
        },
    }
}

/// What a side of a sweep pairs in a step, and the piece that it goes on
/// with: with a cut, the part of its piece before the cut, and the part
/// after it; without one, its whole piece, and the curve with the index
/// `next`, if there is one.
pub open spec fn spec_side(
    cut: Option<Fixed>,
    current: Piece,
    curves: Seq<Cubic<Point>>,
    measured: Seq<MeasuredCubic>,
    next: int,
) -> Option<(Cubic<Point>, Piece)> {
    match cut {
        Some(progress) => spec_cut_piece(current, progress),
        None => Some(
            (
                current.cubic,
                if 0 <= next < curves.len() {
                    Piece { cubic: curves[next], measured: measured[next] }
                } else {
                    current
                },
            ),
        ),
    }
}

/// The pairs of curves that the steps from `k` on make of the pieces that the
/// two sides have come to; none if a piece cannot be cut where it should.
pub open spec fn spec_pairs(
    steps: Seq<MatchStep>,
    curves1: Seq<Cubic<Point>>,
    measured1: Seq<MeasuredCubic>,
    curves2: Seq<Cubic<Point>>,
    measured2: Seq<MeasuredCubic>,
    k: int,
    current1: Piece,
    current2: Piece,
) -> Option<Seq<(Cubic<Point>, Cubic<Point>)>>
    decreases steps.len() - k,
{
    if k < 0 || k >= steps.len() {
        Some(Seq::empty())
    } else {
        let step = steps[k];
        match (
            spec_side(step.cut_first, current1, curves1, measured1, step.first + 1),
            spec_side(step.cut_second, current2, curves2, measured2, step.second + 1),
        ) {
            (Some((seg1, next1)), Some((seg2, next2))) => match spec_pairs(
                steps,
                curves1,
                measured1,
                curves2,
                measured2,
                k + 1,
                next1,
                next2,
            ) {
                Some(rest) => Some(seq![(seg1, seg2)] + rest),
                None => None,
            },
            _ => None,
        }
    }
}

/// The pairs made so far, followed by those that are still to come.
pub open spec fn spec_joined(
    made: Seq<(Cubic<Point>, Cubic<Point>)>,
    rest: Option<Seq<(Cubic<Point>, Cubic<Point>)>>,
) -> Option<Seq<(Cubic<Point>, Cubic<Point>)>> {
    match rest {
        Some(pairs) => Some(made + pairs),
        None => None,
    }
}

fn side(
    cut: Option<Fixed>,
    current: Piece,
    curves: &Vec<Cubic<Point>>,
    measured: &Vec<MeasuredCubic>,
    next: usize,
) -> (r: Option<(Cubic<Point>, Piece)>)
    requires
        curves.len() == measured.len(),
    ensures
        r == spec_side(cut, current, curves@, measured@, next as int),
{
    match cut {
        Some(progress) => cut_piece(current, progress),
        None => Some(
            (
                current.cubic,
                if next < curves.len() {
                    Piece { cubic: curves[next], measured: measured[next] }
                } else {
                    current
                },
            ),
        ),
    }
}

/// Makes the pairs of curves that a match is made of.
fn make_pairs(
    steps: &Vec<MatchStep>,
    curves1: &Vec<Cubic<Point>>,
    measured1: &Vec<MeasuredCubic>,
    curves2: &Vec<Cubic<Point>>,
    measured2: &Vec<MeasuredCubic>,
) -> (r: Option<Vec<(Cubic<Point>, Cubic<Point>)>>)
    requires
        curves1.len() == measured1.len(),
        curves2.len() == measured2.len(),
        curves1.len() > 0,
        curves2.len() > 0,
        forall|k: int|
            0 <= k < steps.len() ==> in_outlines(
                #[trigger] steps[k],
                curves1.len() as int,
                curves2.len() as int,
            ),
    ensures
        match spec_pairs(
            steps@,
            curves1@,
            measured1@,
            curves2@,
            measured2@,
            0,
            Piece { cubic: curves1[0], measured: measured1[0] },
            Piece { cubic: curves2[0], measured: measured2[0] },
        ) {
            Some(pairs) => r matches Some(v) && v@ == pairs && v.len() == steps.len(),
            None => r is None,
        },
{
    let ghost whole = spec_pairs(
        steps@,
        curves1@,
        measured1@,
        curves2@,
        measured2@,
        0,
        Piece { cubic: curves1[0], measured: measured1[0] },
        Piece { cubic: curves2[0], measured: measured2[0] },
    );
    let mut ret: Vec<(Cubic<Point>, Cubic<Point>)> = Vec::new();
    let mut current1 = Piece { cubic: curves1[0], measured: measured1[0] };
    let mut current2 = Piece { cubic: curves2[0], measured: measured2[0] };
    let mut k: usize = 0;
    while k < steps.len()
        invariant
            0 <= k <= steps.len(),
            curves1.len() == measured1.len(),
            curves2.len() == measured2.len(),
            forall|k: int|
                0 <= k < steps.len() ==> in_outlines(
                    #[trigger] steps[k],
                    curves1.len() as int,
                    curves2.len() as int,
                ),
            ret.len() == k,
            curves1.len() > 0,
            curves2.len() > 0,
            whole == spec_pairs(
                steps@,
                curves1@,
                measured1@,
                curves2@,
                measured2@,
                0,
                Piece { cubic: curves1[0], measured: measured1[0] },
                Piece { cubic: curves2[0], measured: measured2[0] },
            ),
            whole == spec_joined(
                ret@,
                spec_pairs(
                    steps@,
                    curves1@,
                    measured1@,
                    curves2@,
                    measured2@,
                    k as int,
                    current1,
                    current2,
                ),
            ),
        decreases steps.len() - k,
    {
        let step: MatchStep = steps[k];
        assert(in_outlines(steps@[k as int], curves1.len() as int, curves2.len() as int));
        let first = side(step.cut_first, current1, curves1, measured1, step.first + 1);
        let second = side(step.cut_second, current2, curves2, measured2, step.second + 1);
        match (first, second) {
            (Some((seg1, next1)), Some((seg2, next2))) => {
                proof {
                    let rest = spec_pairs(
                        steps@,
                        curves1@,
                        measured1@,
                        curves2@,
                        measured2@,
                        k as int + 1,
                        next1,
                        next2,
                    );
                    if rest is Some {
                        assert(ret@ + (seq![(seg1, seg2)] + rest->0) =~= ret@.push((seg1, seg2))
                            + rest->0);
                    }
                }
                ret.push((seg1, seg2));
                current1 = next1;
                current2 = next2;
            },
            _ => {
                proof {
                    assert(spec_pairs(
                        steps@,
                        curves1@,
                        measured1@,
                        curves2@,
                        measured2@,
                        k as int,
                        current1,
                        current2,
                    ) is None);
                }
                return None;
            },
        }
        k = k + 1;
    }
    proof {
        assert(ret@ + Seq::<(Cubic<Point>, Cubic<Point>)>::empty() =~= ret@);
    }
    Some(ret)
}

/// A polygon measured by the length of its curves: the curve of each
/// measured curve, the measured curves, and the measured features. There is
/// none for a polygon whose outline cannot be measured.
pub open spec fn spec_measured(polygon: RoundedPolygon<Point>) -> Option<
    (Seq<Cubic<Point>>, Seq<MeasuredCubic>, Seq<ProgressableFeature>),
> {
    let features = polygon.features@;
    let all = all_cubics(features, features.len() as int);
    let sizes = spec_lengths(all);
    if !measurable(sizes) {
        None
    } else {
        let op = spec_outline_progress(sizes);
        let measured = spec_measured_cubics(op);
        Some((spec_curves_of(measured, all), measured, corners_before(features, op, features.len() as int)))
    }
}

/// The curves of the end outline after it was turned to start where the
/// start outline does; none if the curve to be cut for that cannot be cut.
pub open spec fn spec_end_curves(
    curves: Seq<Cubic<Point>>,
    measured: Seq<MeasuredCubic>,
    cut_point: int,
) -> Option<Seq<Cubic<Point>>> {
    if cut_point < DISTANCE_EPSILON {
        Some(curves)
    } else {
        match spec_turned_list(
            curves,
            measured,
            first_holding(measured, cut_point, 0),
            cut_point as i64,
        ) {
            Some(list) => Some(spec_curves_of(spec_turned_cubics(measured, cut_point), list)),
            None => None,
        }
    }
}

/// The pairs of curves that a sweep over two measured outlines makes, once
/// their corners are mapped to each other by the given source and target
/// values: the end outline is turned so that it starts where the start
/// outline does, and the curves are paired piece by piece.
#[verifier::opaque]
pub open spec fn spec_match_mapped(
    curves1: Seq<Cubic<Point>>,
    measured1: Seq<MeasuredCubic>,
    curves2: Seq<Cubic<Point>>,
    measured2: Seq<MeasuredCubic>,
    sources: Seq<i64>,
    targets: Seq<i64>,
) -> Result<Seq<(Cubic<Point>, Cubic<Point>)>, ShapeError> {
    let cut_point = spec_linear_map(sources, targets, 0);
    let turned = spec_turned_cubics(measured2, cut_point);
    if !sweep_exhausts(measured1, turned, sources, targets, cut_point, 0, 0) {
        Err(ShapeError::UnmatchedMorph)
    } else {
        match spec_end_curves(curves2, measured2, cut_point) {
            None => Err(ShapeError::UnmatchedMorph),
            Some(end_curves) => match spec_pairs(
                spec_sweep(measured1, turned, sources, targets, cut_point, 0, 0),
                curves1,
                measured1,
                end_curves,
                turned,
                0,
                Piece { cubic: curves1[0], measured: measured1[0] },
                Piece { cubic: end_curves[0], measured: turned[0] },
            ) {
                Some(pairs) => Ok(pairs),
                None => Err(ShapeError::UnmatchedMorph),
            },
        }
    }
}

/// The pairs of curves that match two measured polygons: their corners are
/// mapped to each other, nearest first, and then their curves are paired.
#[verifier::opaque]
pub open spec fn spec_match_measured(
    features1: Seq<Feature<Point>>,
    curves1: Seq<Cubic<Point>>,
    measured1: Seq<MeasuredCubic>,
    corners1: Seq<ProgressableFeature>,
    features2: Seq<Feature<Point>>,
    curves2: Seq<Cubic<Point>>,
    measured2: Seq<MeasuredCubic>,
    corners2: Seq<ProgressableFeature>,
) -> Result<Seq<(Cubic<Point>, Cubic<Point>)>, ShapeError> {
    let mapping = spec_feature_mapping(
        corners1,
        corners2,
        spec_distances(features1, corners1, features2, corners2),
    );
    let sources = sources_of(mapping);
    let targets = targets_of(mapping);
    if !valid_progress(sources) {
        Err(first_violation(sources, 0)->0)
    } else if !valid_progress(targets) {
        Err(first_violation(targets, 0)->0)
    } else {
        spec_match_mapped(curves1, measured1, curves2, measured2, sources, targets)
    }
}

/// The pairs of curves that match a start and an end polygon.
///
/// Both polygons are measured by the length of their curves. Their corners
/// are mapped to each other, nearest first. The end outline is turned so that
/// it starts where the start outline does. Then a sweep pairs the curves of
/// the two outlines piece by piece, cutting the one of each pair that goes on
/// for longer.
pub open spec fn spec_match(start: RoundedPolygon<Point>, end: RoundedPolygon<Point>) -> Result<
    Seq<(Cubic<Point>, Cubic<Point>)>,
    ShapeError,
> {
    match (spec_measured(start), spec_measured(end)) {
        (
            Some((curves1, measured1, corners1)),
            Some((curves2, measured2, corners2)),
        ) => spec_match_measured(
            start.features@,
            curves1,
            measured1,
            corners1,
            end.features@,
            curves2,
            measured2,
            corners2,
        ),
        _ => Err(ShapeError::NothingToMeasure),
    }
}

/// The curves between the two curves of each pair at the part `progress` of
/// the way from the first to the second one, the last one made to end
/// exactly where the first one starts.
pub open spec fn spec_as_cubics(pairs: Seq<(Cubic<Point>, Cubic<Point>)>, progress: Fixed) -> Seq<
    Cubic<Point>,
> {
    let blended = Seq::new(pairs.len(), |i: int| pairs[i].0.spec_lerp(pairs[i].1, progress));
    if blended.len() > 0 {
        blended.update(blended.len() - 1, blended.last().spec_ending_at(blended[0].anchor0))
    } else {
        blended
    }
}

/// Every pair holds the same curve twice.
pub open spec fn pairs_are_equal(pairs: Seq<(Cubic<Point>, Cubic<Point>)>) -> bool {
    forall|i: int| 0 <= i < pairs.len() ==> (#[trigger] pairs[i]).0 == pairs[i].1
}

/// Any part of the way from a coordinate to itself is the coordinate.
proof fn lemma_lerp_of_equal(a: int, t: int)
    requires
        i64::MIN <= a <= i64::MAX,
        0 <= t <= UNIT,
    ensures
        crate::fixed::spec_dot_over(
            crate::fixed::spec_minus(UNIT as int, t),
            a,
            t,
            a,
            UNIT as int,
        ) == a,
{
    vstd::arithmetic::mul::lemma_mul_is_distributive_add_other_way(a, UNIT - t, t);
    lemma_whole_part(a, UNIT as int);
}

/// A morph between equal curves stays where it is: where every pair holds
/// the same curve twice, the shape at any part of the way is made of these
/// curves, whatever the part is. Only the end of the last curve is put where
/// the first one starts.
pub proof fn lemma_equal_pairs_stay(pairs: Seq<(Cubic<Point>, Cubic<Point>)>, progress: Fixed)
    requires
        pairs_are_equal(pairs),
        0 <= progress <= UNIT,
    ensures
        spec_as_cubics(pairs, progress).len() == pairs.len(),
        forall|i: int|
            0 <= i < pairs.len() - 1 ==> #[trigger] spec_as_cubics(pairs, progress)[i] == pairs[i].0,
        pairs.len() > 0 ==> spec_as_cubics(pairs, progress).last() == pairs.last().0.spec_ending_at(
            pairs[0].0.anchor0,
        ),
{
    assert forall|i: int| 0 <= i < pairs.len() implies (#[trigger] pairs[i]).0.spec_lerp(
        pairs[i].1,
        progress,
    ) == pairs[i].0 by {
        let curve = pairs[i].0;
        lemma_lerp_of_equal(curve.anchor0.x as int, progress as int);
        lemma_lerp_of_equal(curve.anchor0.y as int, progress as int);
        lemma_lerp_of_equal(curve.control0.x as int, progress as int);
        lemma_lerp_of_equal(curve.control0.y as int, progress as int);
        lemma_lerp_of_equal(curve.control1.x as int, progress as int);
        lemma_lerp_of_equal(curve.control1.y as int, progress as int);
        lemma_lerp_of_equal(curve.anchor1.x as int, progress as int);
        lemma_lerp_of_equal(curve.anchor1.y as int, progress as int);
    }
    if pairs.len() > 0 {
        assert(pairs[0].0.spec_lerp(pairs[0].1, progress) == pairs[0].0);
        assert(pairs.last().0.spec_lerp(pairs.last().1, progress) == pairs.last().0);
    }
}

/// Measures a polygon by the length of its curves.
fn measure(polygon: &RoundedPolygon<Point>) -> (r: Option<(Vec<Cubic<Point>>, MeasuredPolygon)>)
    ensures
        match spec_measured(*polygon) {
            Some((curves, measured, features)) => {
                &&& r matches Some((v, m))
                &&& v@ == curves
                &&& m.spec_cubics() == measured
                &&& m.spec_features() == features
                &&& m.wf()
                &&& features_below(features, polygon.features.len() as int)
            },
            None => r is None,
        },
{
    let measurer = LengthMeasurer;
    let flat = flatten(&polygon.features);
    let ghost all = all_cubics(polygon.features@, polygon.features.len() as int);
    let ghost sizes = spec_lengths(all);
    proof {
        crate::measured_polygon::lemma_all_cubics_len(
            polygon.features@,
            polygon.features.len() as int,
        );
        assert forall|other: Seq<u64>| measured_by(&measurer, all, other) implies other
            == sizes by {
            lemma_lengths_unique(&measurer, all, other);
        }
    }
    match MeasuredPolygon::measure_polygon(&measurer, polygon) {
        Some(measured) => {
            proof {
                let op = spec_outline_progress(sizes);
                crate::measured_polygon::lemma_outline_progress_is_outline(sizes);
                crate::measured_polygon::lemma_kept_when_wide(op);
                lemma_measured_sources(op);
                lemma_corner_features(polygon.features@, op, polygon.features.len() as int);
            }
            let curves = curves_of(measured.cubics(), &flat);
            Some((curves, measured))
        },
        None => None,
    }
}

/// A copy of a list of measured curves.
fn copy_of(measured: &Vec<MeasuredCubic>) -> (copy: Vec<MeasuredCubic>)
    ensures
        copy@ == measured@,
{
    let mut copy: Vec<MeasuredCubic> = Vec::new();
    let mut k: usize = 0;
    while k < measured.len()
        invariant
            0 <= k <= measured.len(),
            copy@ == measured@.take(k as int),
        decreases measured.len() - k,
    {
        copy.push(measured[k]);
        proof {
            assert(copy@ =~= measured@.take(k as int + 1));
        }
        k = k + 1;
    }
    proof {
        assert(measured@.take(measured.len() as int) =~= measured@);
    }
    copy
}

/// Matches two measured polygons.
fn match_measured(
    features1: &Vec<Feature<Point>>,
    curves1: Vec<Cubic<Point>>,
    measured_polygon1: MeasuredPolygon,
    features2: &Vec<Feature<Point>>,
    curves2: Vec<Cubic<Point>>,
    measured_polygon2: MeasuredPolygon,
) -> (r: Result<Vec<(Cubic<Point>, Cubic<Point>)>, ShapeError>)
    requires
        measured_polygon1.wf(),
        measured_polygon2.wf(),
        curves1.len() == measured_polygon1.spec_cubics().len(),
        curves2.len() == measured_polygon2.spec_cubics().len(),
        features_below(measured_polygon1.spec_features(), features1.len() as int),
        features_below(measured_polygon2.spec_features(), features2.len() as int),
    ensures
        match spec_match_measured(
            features1@,
            curves1@,
            measured_polygon1.spec_cubics(),
            measured_polygon1.spec_features(),
            features2@,
            curves2@,
            measured_polygon2.spec_cubics(),
            measured_polygon2.spec_features(),
        ) {
            Ok(pairs) => r matches Ok(v) && v@ == pairs,
            Err(e) => r matches Err(error) && error == e,
        },
{
    reveal(spec_match_measured);
    let ghost corners1 = measured_polygon1.spec_features();
    let ghost corners2 = measured_polygon2.spec_features();
    let distances = feature_distances(
        features1,
        measured_polygon1.features(),
        features2,
        measured_polygon2.features(),
    );
    let before2 = copy_of(measured_polygon2.cubics());
    let ghost mapping = spec_feature_mapping(
        corners1,
        corners2,
        spec_distances(features1@, corners1, features2@, corners2),
    );
    proof {
        crate::mapper::lemma_first_violation_none(sources_of(mapping), 0);
        crate::mapper::lemma_first_violation_none(targets_of(mapping), 0);
    }
    proof {
        crate::mapper::lemma_linear_map_range(sources_of(mapping), targets_of(mapping), 0);
    }
    let ghost measured1 = measured_polygon1.spec_cubics();
    match MorphPlan::new(measured_polygon1, measured_polygon2, &distances) {
        Ok(plan) => match_planned(
            &plan,
            &curves1,
            curves2,
            &before2,
            Ghost(sources_of(mapping)),
            Ghost(targets_of(mapping)),
        ),
        Err(e) => {
            proof {
                if valid_progress(sources_of(mapping)) && valid_progress(targets_of(mapping)) {
                    lemma_unmatched(
                        curves1@,
                        measured1,
                        curves2@,
                        before2@,
                        sources_of(mapping),
                        targets_of(mapping),
                    );
                }
            }
            Err(e)
        },
    }
}

/// A sweep that does not use up both outlines together makes no match.
proof fn lemma_unmatched(
    curves1: Seq<Cubic<Point>>,
    measured1: Seq<MeasuredCubic>,
    curves2: Seq<Cubic<Point>>,
    measured2: Seq<MeasuredCubic>,
    sources: Seq<i64>,
    targets: Seq<i64>,
)
    requires
        !sweep_exhausts(
            measured1,
            spec_turned_cubics(measured2, spec_linear_map(sources, targets, 0)),
            sources,
            targets,
            spec_linear_map(sources, targets, 0),
            0,
            0,
        ),
    ensures
        spec_match_mapped(curves1, measured1, curves2, measured2, sources, targets) == Err::<
            Seq<(Cubic<Point>, Cubic<Point>)>,
            ShapeError,
        >(ShapeError::UnmatchedMorph),
{
    reveal(spec_match_mapped);
}

/// The curves of an outline that was cut and turned come from the list of
/// its curves, likewise cut and turned.
proof fn lemma_turned_sources(before: Seq<MeasuredCubic>, cut_point: int)
    requires
        tiles_outline(before),
        DISTANCE_EPSILON <= cut_point <= UNIT,
        before.len() + 2 <= usize::MAX,
    ensures
        sources_below(spec_turned_cubics(before, cut_point), before.len() as int + 1),
        0 <= first_holding(before, cut_point, 0) < before.len(),
{
    let target = first_holding(before, cut_point, 0);
    crate::measured_polygon::lemma_first_holding(before, cut_point, 0);
    let shifted = crate::measured_polygon::shifted_outline(before, target, cut_point);
    crate::measured_polygon::lemma_shifted_outline(before, target, cut_point);
    crate::measured_polygon::lemma_kept_when_wide(shifted);
    lemma_measured_sources(shifted);
}

/// The curves of the end outline, turned like the outline.
fn end_curves_of(
    curves2: Vec<Cubic<Point>>,
    before2: &Vec<MeasuredCubic>,
    turned: &Vec<MeasuredCubic>,
    cut: Option<usize>,
    cut_point: Fixed,
) -> (r: Option<Vec<Cubic<Point>>>)
    requires
        tiles_outline(before2@),
        curves2.len() == before2.len(),
        0 <= cut_point <= UNIT,
        turned@ == spec_turned_cubics(before2@, cut_point as int),
        cut == if cut_point < DISTANCE_EPSILON {
            None
        } else {
            Some(first_holding(before2@, cut_point as int, 0) as usize)
        },
        cut is Some ==> before2.len() + 2 <= usize::MAX,
    ensures
        match spec_end_curves(curves2@, before2@, cut_point as int) {
            Some(curves) => r matches Some(v) && v@ == curves && v.len() == turned.len(),
            None => r is None,
        },
{
    match cut {
        None => Some(curves2),
        Some(target) => {
            proof {
                lemma_turned_sources(before2@, cut_point as int);
                assert(target == first_holding(before2@, cut_point as int, 0));
            }
            match turned_list(&curves2, before2, target, cut_point) {
                Some(list) => {
                    assert(list.len() == before2.len() + 1);
                    Some(curves_of(turned, &list))
                },
                None => None,
            }
        },
    }
}

/// Makes the pairs of a match that is planned.
fn match_planned(
    plan: &MorphPlan,
    curves1: &Vec<Cubic<Point>>,
    curves2: Vec<Cubic<Point>>,
    before2: &Vec<MeasuredCubic>,
    Ghost(sources): Ghost<Seq<i64>>,
    Ghost(targets): Ghost<Seq<i64>>,
) -> (r: Result<Vec<(Cubic<Point>, Cubic<Point>)>, ShapeError>)
    requires
        tiles_outline(before2@),
        tiles_outline(plan.spec_start().spec_cubics()),
        tiles_outline(plan.spec_end().spec_cubics()),
        curves1.len() == plan.spec_start().spec_cubics().len(),
        curves2.len() == before2.len(),
        plan.spec_cut_point() == spec_linear_map(sources, targets, 0),
        0 <= plan.spec_cut_point() <= UNIT,
        plan.spec_end().spec_cubics() == spec_turned_cubics(
            before2@,
            plan.spec_cut_point() as int,
        ),
        plan.spec_cut() == if plan.spec_cut_point() < DISTANCE_EPSILON {
            None
        } else {
            Some(first_holding(before2@, plan.spec_cut_point() as int, 0) as usize)
        },
        plan.spec_cut() is Some ==> before2.len() + 2 <= usize::MAX,
        sweep_exhausts(
            plan.spec_start().spec_cubics(),
            plan.spec_end().spec_cubics(),
            sources,
            targets,
            plan.spec_cut_point() as int,
            0,
            0,
        ),
        plan.spec_steps() == spec_sweep(
            plan.spec_start().spec_cubics(),
            plan.spec_end().spec_cubics(),
            sources,
            targets,
            plan.spec_cut_point() as int,
            0,
            0,
        ),
        is_sweep_path(
            plan.spec_steps(),
            plan.spec_start().spec_cubics().len() as int,
            plan.spec_end().spec_cubics().len() as int,
        ),
    ensures
        match spec_match_mapped(
            curves1@,
            plan.spec_start().spec_cubics(),
            curves2@,
            before2@,
            sources,
            targets,
        ) {
            Ok(pairs) => r matches Ok(v) && v@ == pairs,
            Err(e) => r matches Err(error) && error == e,
        },
{
    reveal(spec_match_mapped);
    let end_curves = match end_curves_of(
        curves2,
        before2,
        plan.end().cubics(),
        plan.cut(),
        plan.cut_point(),
    ) {
        Some(curves) => curves,
        None => {
            return Err(ShapeError::UnmatchedMorph);
        },
    };
    match make_pairs(
        plan.steps(),
        curves1,
        plan.start().cubics(),
        &end_curves,
        plan.end().cubics(),
    ) {
        Some(pairs) => Ok(pairs),
        None => Err(ShapeError::UnmatchedMorph),
    }
}

/// A way to turn one polygon into another by degrees.
pub struct Morph {
    start: RoundedPolygon<Point>,
    end: RoundedPolygon<Point>,
    pairs: Vec<(Cubic<Point>, Cubic<Point>)>,
}

impl Morph {
    /// The polygon that the morph starts from.
    pub closed spec fn spec_start(&self) -> RoundedPolygon<Point> {
        self.start
    }

    /// The polygon that the morph ends in.
    pub closed spec fn spec_end(&self) -> RoundedPolygon<Point> {
        self.end
    }

    /// The matched curves: a curve of the start and a curve of the end
    /// outline each.
    pub closed spec fn spec_pairs(&self) -> Seq<(Cubic<Point>, Cubic<Point>)> {
        self.pairs@
    }

    /// Matches the curves of the start and of the end polygon.
    ///
    /// Fails with `NothingToMeasure` if an outline cannot be measured, with
    /// the first violation of the mapping between the corners if it has one,
    /// and with `UnmatchedMorph` if the sweep uses up one outline before the
    /// other or would have to cut a piece without width.
    pub fn new(start: RoundedPolygon<Point>, end: RoundedPolygon<Point>) -> (r: Result<Self, ShapeError>)
        ensures
            match spec_match(start, end) {
                Ok(pairs) => {
                    &&& r matches Ok(morph)
                    &&& morph.spec_start() == start
                    &&& morph.spec_end() == end
                    &&& morph.spec_pairs() == pairs
                },
                Err(e) => r matches Err(error) && error == e,
            },
    {
        match Self::match_morph(&start, &end) {
            Ok(pairs) => Ok(Morph { start, end, pairs }),
            Err(e) => Err(e),
        }
    }

    fn match_morph(p1: &RoundedPolygon<Point>, p2: &RoundedPolygon<Point>) -> (r: Result<
        Vec<(Cubic<Point>, Cubic<Point>)>,
        ShapeError,
    >)
        ensures
            match spec_match(*p1, *p2) {
                Ok(pairs) => r matches Ok(v) && v@ == pairs,
                Err(e) => r matches Err(error) && error == e,
            },
    {
        // Measure the polygons: the lists of measured curves are what start
        // and end curves are matched by.
        let (curves1, measured_polygon1) = match measure(p1) {
            Some(measured) => measured,
            None => {
                return Err(ShapeError::NothingToMeasure);
            },
        };
        let (curves2, measured_polygon2) = match measure(p2) {
            Some(measured) => measured,
            None => {
                return Err(ShapeError::NothingToMeasure);
            },
        };
        match_measured(
            &p1.features,
            curves1,
            measured_polygon1,
            &p2.features,
            curves2,
            measured_polygon2,
        )
    }

    /// Returns the curves of the shape at the part `progress` of the way
    /// from the start polygon to the end polygon.
    pub fn as_cubics(&self, progress: Fixed) -> (cubics: Vec<Cubic<Point>>)
        ensures
            cubics@ == spec_as_cubics(self.spec_pairs(), progress),
            cubics.len() == self.spec_pairs().len(),
            cubics.len() > 0 ==> cubics@.last().anchor1 == cubics[0].anchor0,
    {
        let ghost expected = spec_as_cubics(self.pairs@, progress);
        let mut cubics: Vec<Cubic<Point>> = Vec::new();
        let mut i: usize = 0;
        while i < self.pairs.len()
            invariant
                0 <= i <= self.pairs.len(),
                cubics.len() == i,
                forall|k: int|
                    0 <= k < i ==> #[trigger] cubics[k] == self.pairs[k].0.spec_lerp(
                        self.pairs[k].1,
                        progress,
                    ),
            decreases self.pairs.len() - i,
        {
            let pair: (Cubic<Point>, Cubic<Point>) = self.pairs[i];
            cubics.push(pair.0.lerp(pair.1, progress));
            i = i + 1;
        }
        if cubics.len() > 0 {
            // The last anchor is rewritten, not computed: the outline closes
            // without any drift.
            let last_index: usize = cubics.len() - 1;
            let last: Cubic<Point> = cubics[last_index];
            let first: Cubic<Point> = cubics[0];
            cubics.set(last_index, last.ending_at(first.anchor0));
        }
        proof {
            assert(cubics@ =~= expected);
        }
        cubics
    }

    /// The instructions that draw the shape at the part `progress` of the
    /// way from the start polygon to the end polygon.
    pub fn as_path(&self, progress: Fixed, repeat_path: bool, close_path: bool) -> (commands: Vec<
        PathCommand<Point>,
    >)
        ensures
            commands@ == spec_commands(
                spec_as_cubics(self.spec_pairs(), progress),
                repeat_path,
                close_path,
            ),
    {
        let cubics = self.as_cubics(progress);
        path_commands(repeat_path, close_path, &cubics)
    }
}

} // verus!
