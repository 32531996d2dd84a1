use vstd::prelude::*;
use crate::error::ShapeError;
use crate::feature::FeatureType;
use crate::geometry::{DISTANCE_EPSILON, UNIT};
use crate::mapper::{is_result_of_new, wide_distance, DoubleMapper};
use crate::measured_polygon::{on_outline, ProgressableFeature};
use crate::util::{positive_modulo, progress_in_range, spec_progress_distance, spec_progress_in_range};

verus! {

/// A corner of the first polygon and one of the second that may be mapped to
/// each other, with how far apart they are. The distance is a key: a smaller
/// one means nearer, and nothing else is read from it.
#[derive(Debug, Clone, Copy, PartialEq, Eq, Structural)]
pub struct DistanceVertex {
    pub distance: u128,
    pub f1: usize,
    pub f2: usize,
}

/// Both features are corners, and both are convex or both are concave.
pub open spec fn same_concavity(a: FeatureType, b: FeatureType) -> bool {
    a is Corner && b is Corner && a->convex == b->convex
}

/// The features that feature `i` of the first list, with type `ty`, may be
/// mapped to among the first `upto` features of the second list.
pub open spec fn row_candidates(
    ty: FeatureType,
    i: int,
    features2: Seq<ProgressableFeature>,
    row: Seq<u128>,
    upto: int,
) -> Seq<DistanceVertex>
    decreases upto,
{
    if upto <= 0 {
        Seq::empty()
    } else {
        let before = row_candidates(ty, i, features2, row, upto - 1);
        if same_concavity(ty, features2[upto - 1].ty) {
            before.push(
                DistanceVertex { distance: row[upto - 1], f1: i as usize, f2: (upto - 1) as usize },
            )
        } else {
            before
        }
    }
}

/// All pairs of a corner among the first `upto` features of the first list
/// and a corner of the second list with the same concavity, row by row.
/// `distances[i][j]` is the distance between feature `i` of the first and
/// feature `j` of the second list.
pub open spec fn candidates(
    features1: Seq<ProgressableFeature>,
    features2: Seq<ProgressableFeature>,
    distances: Seq<Seq<u128>>,
    upto: int,
) -> Seq<DistanceVertex>
    decreases upto,
{
    if upto <= 0 {
        Seq::empty()
    } else {
        candidates(features1, features2, distances, upto - 1) + row_candidates(
            features1[upto - 1].ty,
            upto - 1,
            features2,
            distances[upto - 1],
            features2.len() as int,
        )
    }
}

/// The rows of a table of distances.
pub open spec fn rows(distances: Seq<Vec<u128>>) -> Seq<Seq<u128>> {
    Seq::new(distances.len(), |i: int| distances[i]@)
}

/// Where a pair at the given distance goes into a list ordered by distance:
/// behind the last pair that is not farther.
pub open spec fn insertion_point(sorted: Seq<DistanceVertex>, distance: u128) -> int
    decreases sorted.len(),
{
    if sorted.len() == 0 {
        0
    } else if sorted.last().distance <= distance {
        sorted.len() as int
    } else {
        insertion_point(sorted.drop_last(), distance)
    }
}

/// The list ordered by distance, nearest first; pairs at the same distance
/// keep their order.
pub open spec fn sorted_by_distance(list: Seq<DistanceVertex>) -> Seq<DistanceVertex>
    decreases list.len(),
{
    if list.len() == 0 {
        Seq::empty()
    } else {
        let before = sorted_by_distance(list.drop_last());
        before.insert(insertion_point(before, list.last().distance), list.last())
    }
}

pub proof fn lemma_insertion_point_bounds(sorted: Seq<DistanceVertex>, distance: u128)
    ensures
        0 <= insertion_point(sorted, distance) <= sorted.len(),
    decreases sorted.len(),
{
    if sorted.len() > 0 && sorted.last().distance > distance {
        lemma_insertion_point_bounds(sorted.drop_last(), distance);
    }
}

/// Sorting keeps the number of pairs.
pub proof fn lemma_sorted_len(list: Seq<DistanceVertex>)
    ensures
        sorted_by_distance(list).len() == list.len(),
    decreases list.len(),
{
    if list.len() > 0 {
        lemma_sorted_len(list.drop_last());
        lemma_insertion_point_bounds(sorted_by_distance(list.drop_last()), list.last().distance);
    }
}

/// The pairs up to the insertion point are no farther than the given
/// distance, the pairs from it on are farther.
pub proof fn lemma_insertion_point_splits(sorted: Seq<DistanceVertex>, distance: u128)
    requires
        is_ordered(sorted),
    ensures
        forall|k: int|
            0 <= k < insertion_point(sorted, distance) ==> (#[trigger] sorted[k]).distance
                <= distance,
        forall|k: int|
            insertion_point(sorted, distance) <= k < sorted.len() ==> (
            #[trigger] sorted[k]).distance > distance,
    decreases sorted.len(),
{
    lemma_insertion_point_bounds(sorted, distance);
    if sorted.len() > 0 {
        if sorted.last().distance <= distance {
            assert forall|k: int| 0 <= k < sorted.len() implies (#[trigger] sorted[k]).distance
                <= distance by {
                if k < sorted.len() - 1 {
                    assert(sorted[k].distance <= sorted[sorted.len() - 1].distance);
                }
            }
        } else {
            let front = sorted.drop_last();
            assert forall|a: int, b: int| 0 <= a <= b < front.len() implies (
            #[trigger] front[a]).distance <= (#[trigger] front[b]).distance by {
                assert(front[a] == sorted[a] && front[b] == sorted[b]);
            }
            lemma_insertion_point_splits(front, distance);
            lemma_insertion_point_bounds(front, distance);
            assert forall|k: int| 0 <= k < insertion_point(sorted, distance) implies (
            #[trigger] sorted[k]).distance <= distance by {
                assert(sorted[k] == front[k]);
            }
            assert forall|k: int|
                insertion_point(sorted, distance) <= k < sorted.len() implies (
            #[trigger] sorted[k]).distance > distance by {
                if k < front.len() {
                    assert(sorted[k] == front[k]);
                }
            }
        }
    }
}

/// No pair of the list comes before a nearer one.
pub open spec fn is_ordered(list: Seq<DistanceVertex>) -> bool {
    forall|a: int, b: int|
        0 <= a <= b < list.len() ==> (#[trigger] list[a]).distance <= (#[trigger] list[b]).distance
}

/// The sorted list is ordered by distance.
pub proof fn lemma_sorted_is_ordered(list: Seq<DistanceVertex>)
    ensures
        is_ordered(sorted_by_distance(list)),
        sorted_by_distance(list).len() == list.len(),
    decreases list.len(),
{
    lemma_sorted_len(list);
    if list.len() > 0 {
        let before = sorted_by_distance(list.drop_last());
        let vertex = list.last();
        let at = insertion_point(before, vertex.distance);
        lemma_sorted_is_ordered(list.drop_last());
        lemma_insertion_point_bounds(before, vertex.distance);
        lemma_insertion_point_splits(before, vertex.distance);
        let sorted = before.insert(at, vertex);
        assert forall|a: int, b: int| 0 <= a <= b < sorted.len() implies (
        #[trigger] sorted[a]).distance <= (#[trigger] sorted[b]).distance by {
            let da = if a < at {
                before[a]
            } else if a == at {
                vertex
            } else {
                before[a - 1]
            };
            let db = if b < at {
                before[b]
            } else if b == at {
                vertex
            } else {
                before[b - 1]
            };
            assert(sorted[a] == da && sorted[b] == db);
            if a < at && b > at {
                assert(before[a].distance <= vertex.distance);
                assert(before[b - 1].distance > vertex.distance);
            } else if a < at && b < at {
                assert(before[a].distance <= before[b].distance);
            } else if a > at && b > at {
                assert(before[a - 1].distance <= before[b - 1].distance);
            }
        }
    }
}

/// No pair of the list of `candidates` is named twice, and each names a
/// feature of either list.
fn collect_candidates(
    features1: &Vec<ProgressableFeature>,
    features2: &Vec<ProgressableFeature>,
    distances: &Vec<Vec<u128>>,
) -> (list: Vec<DistanceVertex>)
    requires
        distances.len() == features1.len(),
        forall|i: int| 0 <= i < distances.len() ==> (#[trigger] distances[i]).len() == features2.len(),
    ensures
        list@ == candidates(features1@, features2@, rows(distances@), features1.len() as int),
        forall|k: int|
            0 <= k < list.len() ==> (#[trigger] list[k]).f1 < features1.len() && list[k].f2
                < features2.len(),
{
    let mut list: Vec<DistanceVertex> = Vec::new();
    let mut i: usize = 0;
    while i < features1.len()
        invariant
            0 <= i <= features1.len(),
            distances.len() == features1.len(),
            forall|i: int|
                0 <= i < distances.len() ==> (#[trigger] distances[i]).len() == features2.len(),
            list@ == candidates(features1@, features2@, rows(distances@), i as int),
            forall|k: int|
                0 <= k < list.len() ==> (#[trigger] list[k]).f1 < features1.len() && list[k].f2
                    < features2.len(),
        decreases features1.len() - i,
    {
        let ty1: FeatureType = features1[i].ty;
        let row: &Vec<u128> = &distances[i];
        let ghost before = list@;
        let mut j: usize = 0;
        while j < features2.len()
            invariant
                0 <= j <= features2.len(),
                i < features1.len(),
                row.len() == features2.len(),
                list@ == before + row_candidates(ty1, i as int, features2@, row@, j as int),
                forall|k: int|
                    0 <= k < list.len() ==> (#[trigger] list[k]).f1 < features1.len()
                        && list[k].f2 < features2.len(),
                forall|k: int|
                    0 <= k < before.len() ==> (#[trigger] before[k]).f1 < features1.len()
                        && before[k].f2 < features2.len(),
            decreases features2.len() - j,
        {
            let ty2: FeatureType = features2[j].ty;
            let same: bool = match (ty1, ty2) {
                (FeatureType::Corner { convex: c1 }, FeatureType::Corner { convex: c2 }) => c1 == c2,
                _ => false,
            };
            if same {
                list.push(DistanceVertex { distance: row[j], f1: i, f2: j });
                proof {
                    assert(list@ =~= before + row_candidates(
                        ty1,
                        i as int,
                        features2@,
                        row@,
                        j as int + 1,
                    ));
                }
            }
            j = j + 1;
        }
        i = i + 1;
    }
    list
}

/// Orders the pairs by distance, nearest first, without changing the order of
/// pairs at the same distance.
fn sort_by_distance(list: &Vec<DistanceVertex>) -> (sorted: Vec<DistanceVertex>)
    ensures
        sorted@ == sorted_by_distance(list@),
{
    let mut sorted: Vec<DistanceVertex> = Vec::new();
    let mut k: usize = 0;
    while k < list.len()
        invariant
            0 <= k <= list.len(),
            sorted@ == sorted_by_distance(list@.take(k as int)),
            sorted.len() == k,
        decreases list.len() - k,
    {
        let vertex: DistanceVertex = list[k];
        let mut position: usize = sorted.len();
        proof {
            assert(sorted@.take(sorted.len() as int) =~= sorted@);
        }
        while position > 0 && sorted[position - 1].distance > vertex.distance
            invariant
                0 <= position <= sorted.len(),
                insertion_point(sorted@, vertex.distance) == insertion_point(
                    sorted@.take(position as int),
                    vertex.distance,
                ),
            decreases position,
        {
            proof {
                assert(sorted@.take(position as int).drop_last() =~= sorted@.take(
                    position as int - 1,
                ));
            }
            position = position - 1;
        }
        proof {
            assert(sorted@.take(sorted.len() as int) =~= sorted@);
            assert(list@.take(k as int + 1).drop_last() =~= list@.take(k as int));
            assert(list@.take(k as int + 1).last() == vertex);
            if position > 0 {
                assert(sorted@.take(position as int).last() == sorted@[position as int - 1]);
            }
        }
        sorted.insert(position, vertex);
        k = k + 1;
    }
    proof {
        assert(list@.take(list.len() as int) =~= list@);
    }
    sorted
}

/// What the matching has settled so far: the pairs of a source and a target
/// progress, ordered by source progress, and the features of either list that
/// are part of a pair.
pub struct MappingState {
    pub mapping: Seq<(i64, i64)>,
    pub used_f1: Seq<usize>,
    pub used_f2: Seq<usize>,
}

/// Index of the first pair, at or after `from`, whose source progress is not
/// below `progress`; the length of the list when there is none.
pub open spec fn lower_bound(mapping: Seq<(i64, i64)>, progress: i64, from: int) -> int
    decreases mapping.len() - from,
{
    if from < 0 || from >= mapping.len() {
        mapping.len() as int
    } else if mapping[from].0 >= progress {
        from
    } else {
        lower_bound(mapping, progress, from + 1)
    }
}

/// Two progress values are nearer than `DISTANCE_EPSILON` on the circle.
pub open spec fn too_close(a: i64, b: i64) -> bool {
    spec_progress_distance(a as int, b as int) < DISTANCE_EPSILON
}

/// Whether the pair `(p1, p2)` may join the mapping.
///
/// The first pair always may. A later one must keep its distance, on both
/// sides, from the pairs that would come to stand before and after it; and
/// once there are two pairs, its target must lie on the arc from the target
/// before it to the target after it, so that the mapping does not cross.
pub open spec fn fits(mapping: Seq<(i64, i64)>, p1: i64, p2: i64) -> bool {
    let n = mapping.len() as int;
    let at = lower_bound(mapping, p1, 0);
    n == 0 || {
        let before = mapping[if at == 0 {
            n - 1
        } else {
            at - 1
        }];
        let after = mapping[if at == n {
            0
        } else {
            at
        }];
        &&& !too_close(p1, before.0)
        &&& !too_close(p1, after.0)
        &&& !too_close(p2, before.1)
        &&& !too_close(p2, after.1)
        &&& (n > 1 ==> spec_progress_in_range(p2 as int, before.1 as int, after.1 as int))
    }
}

/// The state after the pair of feature `f1`, at progress `p1`, and feature
/// `f2`, at progress `p2`, was offered: unchanged when either feature is
/// already part of a pair or the pair does not fit, else with the pair put in
/// at its place.
pub open spec fn spec_add_mapping(state: MappingState, f1: usize, f2: usize, p1: i64, p2: i64) -> MappingState {
    if state.used_f1.contains(f1) || state.used_f2.contains(f2) || !fits(state.mapping, p1, p2) {
        state
    } else {
        MappingState {
            mapping: state.mapping.insert(lower_bound(state.mapping, p1, 0), (p1, p2)),
            used_f1: state.used_f1.push(f1),
            used_f2: state.used_f2.push(f2),
        }
    }
}

/// The state after the first `upto` pairs of `sorted` were offered in turn.
pub open spec fn greedy(
    sorted: Seq<DistanceVertex>,
    features1: Seq<ProgressableFeature>,
    features2: Seq<ProgressableFeature>,
    upto: int,
) -> MappingState
    decreases upto,
{
    if upto <= 0 {
        MappingState { mapping: Seq::empty(), used_f1: Seq::empty(), used_f2: Seq::empty() }
    } else {
        let vertex = sorted[upto - 1];
        spec_add_mapping(
            greedy(sorted, features1, features2, upto - 1),
            vertex.f1,
            vertex.f2,
            features1[vertex.f1 as int].progress,
            features2[vertex.f2 as int].progress,
        )
    }
}

/// The pairs from which the mapper between two feature lists is built.
///
/// Corners are matched with corners of the same concavity, nearest first.
/// With no such pair at all the result is the identity; with a single one it
/// is that pair and the pair half a turn away from it.
pub open spec fn spec_feature_mapping(
    features1: Seq<ProgressableFeature>,
    features2: Seq<ProgressableFeature>,
    distances: Seq<Seq<u128>>,
) -> Seq<(i64, i64)> {
    let sorted = sorted_by_distance(
        candidates(features1, features2, distances, features1.len() as int),
    );
    if sorted.len() == 0 {
        seq![(0i64, 0i64), (500_000_000i64, 500_000_000i64)]
    } else if sorted.len() == 1 {
        let p1 = features1[sorted[0].f1 as int].progress;
        let p2 = features2[sorted[0].f2 as int].progress;
        seq![
            (p1, p2),
            (
                ((p1 + 500_000_000) % (UNIT as int)) as i64,
                ((p2 + 500_000_000) % (UNIT as int)) as i64,
            ),
        ]
    } else {
        greedy(sorted, features1, features2, sorted.len() as int).mapping
    }
}

/// Once a pair is in the mapping it stays: the mapping never gets shorter.
pub proof fn lemma_greedy_not_empty(
    sorted: Seq<DistanceVertex>,
    features1: Seq<ProgressableFeature>,
    features2: Seq<ProgressableFeature>,
    upto: int,
)
    requires
        1 <= upto,
    ensures
        greedy(sorted, features1, features2, upto).mapping.len() >= 1,
    decreases upto,
{
    if upto > 1 {
        lemma_greedy_not_empty(sorted, features1, features2, upto - 1);
    } else {
        let start = greedy(sorted, features1, features2, 0);
        assert(start.mapping.len() == 0);
        assert(!start.used_f1.contains(sorted[0].f1));
        assert(!start.used_f2.contains(sorted[0].f2));
    }
}

struct MappingHelper {
    mapping: Vec<(i64, i64)>,
    used_f1: Vec<usize>,
    used_f2: Vec<usize>,
}

/// Whether `value` is among `list`.
fn contains_index(list: &Vec<usize>, value: usize) -> (found: bool)
    ensures
        found == list@.contains(value),
{
    let mut i: usize = 0;
    while i < list.len()
        invariant
            0 <= i <= list.len(),
            forall|k: int| 0 <= k < i ==> list[k] != value,
        decreases list.len() - i,
    {
        if list[i] == value {
            return true;
        }
        i = i + 1;
    }
    false
}

impl MappingHelper {
    spec fn state(&self) -> MappingState {
        MappingState { mapping: self.mapping@, used_f1: self.used_f1@, used_f2: self.used_f2@ }
    }

    fn add_mapping(&mut self, f1: usize, f2: usize, p1: i64, p2: i64)
        ensures
            final(self).state() == spec_add_mapping(old(self).state(), f1, f2, p1, p2),
    {
        // The same feature is not mapped twice.
        if contains_index(&self.used_f1, f1) || contains_index(&self.used_f2, f2) {
            return ;
        }
        // The mapping is ordered: find the place of the new pair.
        let n: usize = self.mapping.len();
        let mut insertion_index: usize = 0;
        while insertion_index < n && self.mapping[insertion_index].0 < p1
            invariant
                n == self.mapping.len(),
                0 <= insertion_index <= n,
                lower_bound(self.mapping@, p1, 0) == lower_bound(
                    self.mapping@,
                    p1,
                    insertion_index as int,
                ),
            decreases n - insertion_index,
        {
            insertion_index = insertion_index + 1;
        }
        // The first pair can always be added.
        if n >= 1 {
            let before: (i64, i64) = self.mapping[if insertion_index == 0 {
                n - 1
            } else {
                insertion_index - 1
            }];
            let after: (i64, i64) = self.mapping[if insertion_index == n {
                0
            } else {
                insertion_index
            }];
            // Features that are too close to each other make the mapper unstable.
            let epsilon: i128 = DISTANCE_EPSILON as i128;
            if wide_distance(p1, before.0) < epsilon || wide_distance(p1, after.0) < epsilon
                || wide_distance(p2, before.1) < epsilon || wide_distance(p2, after.1) < epsilon {
                return ;
            }
            // With two or more pairs in place, a new one must not cross them.
            if n > 1 && !progress_in_range(p2, before.1, after.1) {
                return ;
            }
        }
        self.mapping.insert(insertion_index, (p1, p2));
        self.used_f1.push(f1);
        self.used_f2.push(f2);
    }
}

impl DoubleMapper {
    /// Builds the mapper between the outlines of two polygons from their
    /// features. `distances[i][j]` tells how far feature `i` of the first list
    /// is from feature `j` of the second; only the order of these values
    /// counts.
    pub fn from_features(
        features1: &Vec<ProgressableFeature>,
        features2: &Vec<ProgressableFeature>,
        distances: &Vec<Vec<u128>>,
    ) -> (r: Result<Self, ShapeError>)
        requires
            distances.len() == features1.len(),
            forall|i: int|
                0 <= i < distances.len() ==> (#[trigger] distances[i]).len() == features2.len(),
            on_outline(features1@),
            on_outline(features2@),
        ensures
            is_result_of_new(spec_feature_mapping(features1@, features2@, rows(distances@)), r),
    {
        let distance_vertex_list = sort_by_distance(
            &collect_candidates(features1, features2, distances),
        );
        let ghost list = candidates(
            features1@,
            features2@,
            rows(distances@),
            features1.len() as int,
        );
        proof {
            lemma_sorted_members(list, features1.len() as int, features2.len() as int);
        }
        let count: usize = distance_vertex_list.len();
        if count == 0 {
            let mut mapping: Vec<(i64, i64)> = Vec::new();
            mapping.push((0, 0));
            mapping.push((500_000_000, 500_000_000));
            proof {
                assert(mapping@ =~= spec_feature_mapping(
                    features1@,
                    features2@,
                    rows(distances@),
                ));
            }
            Self::new(mapping)
        } else if count == 1 {
            let f1: i64 = features1[distance_vertex_list[0].f1].progress;
            let f2: i64 = features2[distance_vertex_list[0].f2].progress;
            let mut mapping: Vec<(i64, i64)> = Vec::new();
            mapping.push((f1, f2));
            mapping.push(
                (positive_modulo(f1 + 500_000_000, UNIT), positive_modulo(f2 + 500_000_000, UNIT)),
            );
            proof {
                assert(mapping@ =~= spec_feature_mapping(
                    features1@,
                    features2@,
                    rows(distances@),
                ));
            }
            Self::new(mapping)
        } else {
            let mut helper = MappingHelper {
                mapping: Vec::new(),
                used_f1: Vec::new(),
                used_f2: Vec::new(),
            };
            let mut k: usize = 0;
            while k < count
                invariant
                    0 <= k <= count,
                    count == distance_vertex_list.len(),
                    forall|i: int|
                        0 <= i < distance_vertex_list.len() ==> (
                        #[trigger] distance_vertex_list[i]).f1 < features1.len()
                            && distance_vertex_list[i].f2 < features2.len(),
                    helper.state() == greedy(
                        distance_vertex_list@,
                        features1@,
                        features2@,
                        k as int,
                    ),
                decreases count - k,
            {
                let vertex: DistanceVertex = distance_vertex_list[k];
                helper.add_mapping(
                    vertex.f1,
                    vertex.f2,
                    features1[vertex.f1].progress,
                    features2[vertex.f2].progress,
                );
                k = k + 1;
            }
            proof {
                lemma_greedy_not_empty(distance_vertex_list@, features1@, features2@, count as int);
            }
            Self::new(helper.mapping)
        }
    }
}

/// Every pair of a sorted list of candidates names a feature of either list.
proof fn lemma_sorted_members(list: Seq<DistanceVertex>, n1: int, n2: int)
    requires
        forall|k: int| 0 <= k < list.len() ==> (#[trigger] list[k]).f1 < n1 && list[k].f2 < n2,
    ensures
        forall|k: int|
            0 <= k < sorted_by_distance(list).len() ==> (#[trigger] sorted_by_distance(
                list,
            )[k]).f1 < n1 && sorted_by_distance(list)[k].f2 < n2,
    decreases list.len(),
{
    if list.len() > 0 {
        lemma_sorted_members(list.drop_last(), n1, n2);
        lemma_insertion_point_bounds(sorted_by_distance(list.drop_last()), list.last().distance);
    }
}

} // verus!
