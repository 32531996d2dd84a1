use vstd::prelude::*;
use vstd::arithmetic::div_mod::lemma_div_nonincreasing;
use crate::arith::{lemma_floor, lemma_product_bound, lemma_whole_part};
use crate::error::ShapeError;
use crate::geometry::{DISTANCE_EPSILON, UNIT};
use crate::util::{
    positive_modulo, progress_in_range, spec_progress_distance, spec_progress_in_range,
};

verus! {

/// A source segment narrower than this (a thousandth of a turn) is mapped to
/// the middle of its target segment.
pub const NARROW_SEGMENT: i64 = 1_000_000;

/// Index of the entry that precedes entry `i` in a cyclic list of `n` entries.
pub open spec fn prev_index(i: int, n: int) -> int {
    if i == 0 {
        n - 1
    } else {
        i - 1
    }
}

/// Index of the entry that follows entry `i` in a cyclic list of `n` entries.
pub open spec fn next_index(i: int, n: int) -> int {
    if i + 1 == n {
        0
    } else {
        i + 1
    }
}

/// Entry `i` is smaller than its cyclic predecessor: the list wraps there.
pub open spec fn wraps_at(p: Seq<i64>, i: int) -> bool {
    p[i] < p[prev_index(i, p.len() as int)]
}

/// How many of the first `upto` entries the list wraps at.
pub open spec fn wrap_count(p: Seq<i64>, upto: int) -> int
    decreases upto,
{
    if upto <= 0 {
        0
    } else {
        wrap_count(p, upto - 1) + if wraps_at(p, upto - 1) {
            1int
        } else {
            0int
        }
    }
}

/// What is wrong with entry `i` of a progress list, if anything. An entry must
/// lie in `0..UNIT`, be farther than `DISTANCE_EPSILON` from its cyclic
/// predecessor, and must not be the second place where the list wraps.
pub open spec fn violation_at(p: Seq<i64>, i: int) -> Option<ShapeError> {
    let prev = p[prev_index(i, p.len() as int)];
    if !(0 <= p[i] < UNIT) {
        Some(ShapeError::ProgressOutOfRange)
    } else if spec_progress_distance(p[i] as int, prev as int) <= DISTANCE_EPSILON {
        Some(ShapeError::ProgressRepeat)
    } else if wraps_at(p, i) && wrap_count(p, i) >= 1 {
        Some(ShapeError::MultipleWrap)
    } else {
        None
    }
}

/// The violation of the first entry at or after `from` that has one.
pub open spec fn first_violation(p: Seq<i64>, from: int) -> Option<ShapeError>
    decreases p.len() - from,
{
    if from < 0 || from >= p.len() {
        None
    } else if violation_at(p, from) is Some {
        violation_at(p, from)
    } else {
        first_violation(p, from + 1)
    }
}

/// A progress list is valid when no entry violates anything: all values lie in
/// `0..UNIT`, cyclic neighbours are more than `DISTANCE_EPSILON` apart, and
/// the list increases all the way round but for at most one wrap.
pub open spec fn valid_progress(p: Seq<i64>) -> bool {
    forall|i: int| 0 <= i < p.len() ==> (#[trigger] violation_at(p, i)) is None
}

/// `first_violation` finds nothing exactly when the rest of the list is clean.
pub proof fn lemma_first_violation_none(p: Seq<i64>, from: int)
    requires
        0 <= from,
    ensures
        first_violation(p, from) is None <==> forall|i: int|
            from <= i < p.len() ==> (#[trigger] violation_at(p, i)) is None,
    decreases p.len() - from,
{
    if from < p.len() {
        lemma_first_violation_none(p, from + 1);
    }
}

/// The circular distance between two values, computed without overflow.
pub(crate) fn wide_distance(p1: i64, p2: i64) -> (d: i128)
    ensures
        d == spec_progress_distance(p1 as int, p2 as int),
{
    let a: i128 = p1 as i128;
    let b: i128 = p2 as i128;
    let value: i128 = if a >= b {
        a - b
    } else {
        b - a
    };
    let unit: i128 = UNIT as i128;
    if value <= unit - value {
        value
    } else {
        unit - value
    }
}

/// Checks a progress list entry by entry and reports the first violation.
pub fn validate_progress(p: &Vec<i64>) -> (r: Result<(), ShapeError>)
    ensures
        r is Ok <==> valid_progress(p@),
        r == match first_violation(p@, 0) {
            None => Ok::<(), ShapeError>(()),
            Some(e) => Err::<(), ShapeError>(e),
        },
{
    let n: usize = p.len();
    let mut wraps: usize = 0;
    let mut i: usize = 0;
    proof {
        lemma_first_violation_none(p@, 0);
    }
    while i < n
        invariant
            n == p.len(),
            0 <= i <= n,
            wraps == wrap_count(p@, i as int),
            wraps <= i,
            forall|j: int| 0 <= j < i ==> (#[trigger] violation_at(p@, j)) is None,
            first_violation(p@, 0) == first_violation(p@, i as int),
        decreases n - i,
    {
        let curr: i64 = p[i];
        let prev: i64 = if i == 0 {
            p[n - 1]
        } else {
            p[i - 1]
        };
        if !(0 <= curr && curr < UNIT) {
            return Err(ShapeError::ProgressOutOfRange);
        }
        if wide_distance(curr, prev) <= DISTANCE_EPSILON as i128 {
            return Err(ShapeError::ProgressRepeat);
        }
        if curr < prev {
            if wraps >= 1 {
                return Err(ShapeError::MultipleWrap);
            }
            wraps = wraps + 1;
        }
        i = i + 1;
    }
    Ok(())
}

/// Index of the first segment of `xs` that holds `x`, searching from `from`;
/// 0 when none does. Segment `i` runs from `xs[i]` to its cyclic successor.
pub open spec fn first_segment(xs: Seq<i64>, x: int, from: int) -> int
    decreases xs.len() - from,
{
    if from < 0 || from >= xs.len() {
        0
    } else if spec_progress_in_range(
        x,
        xs[from] as int,
        xs[next_index(from, xs.len() as int)] as int,
    ) {
        from
    } else {
        first_segment(xs, x, from + 1)
    }
}

/// The piecewise-linear map that sends `xs[i]` to `ys[i]` for every `i`.
///
/// `x` lies in segment `s = first_segment(xs, x, 0)`. Its offset from the
/// start of that segment is scaled by the ratio of the widths of segment `s`
/// of `ys` and of `xs`, rounded down, and added to `ys[s]`; all offsets,
/// widths and the result are taken modulo `UNIT`. A segment of `xs` narrower
/// than `NARROW_SEGMENT` is sent to the middle of its target.
pub open spec fn spec_linear_map(xs: Seq<i64>, ys: Seq<i64>, x: int) -> int {
    let s = first_segment(xs, x, 0);
    let e = next_index(s, xs.len() as int);
    let size_x = (xs[e] - xs[s]) % (UNIT as int);
    let size_y = (ys[e] - ys[s]) % (UNIT as int);
    if size_x < NARROW_SEGMENT {
        (ys[s] + size_y / 2) % (UNIT as int)
    } else {
        (ys[s] + (size_y * ((x - xs[s]) % (UNIT as int))) / size_x) % (UNIT as int)
    }
}

fn linear_map(x_values: &Vec<i64>, y_values: &Vec<i64>, x: i64) -> (r: i64)
    requires
        x_values.len() == y_values.len(),
        x_values.len() > 0,
        0 <= x <= UNIT,
        forall|i: int| 0 <= i < x_values.len() ==> 0 <= #[trigger] x_values[i] < UNIT,
        forall|i: int| 0 <= i < y_values.len() ==> 0 <= #[trigger] y_values[i] < UNIT,
    ensures
        r == spec_linear_map(x_values@, y_values@, x as int),
        0 <= r < UNIT,
{
    let n: usize = x_values.len();
    let mut segment_start_index: usize = 0;
    let mut i: usize = 0;
    while i < n
        invariant_except_break
            n == x_values.len(),
            0 < n,
            0 <= i <= n,
            segment_start_index == 0,
            first_segment(x_values@, x as int, 0) == first_segment(x_values@, x as int, i as int),
        ensures
            segment_start_index == first_segment(x_values@, x as int, 0),
            segment_start_index < n,
        decreases n - i,
    {
        let next: usize = if i + 1 == n {
            0
        } else {
            i + 1
        };
        if progress_in_range(x, x_values[i], x_values[next]) {
            segment_start_index = i;
            break ;
        }
        i = i + 1;
    }
    let segment_end_index: usize = if segment_start_index + 1 == n {
        0
    } else {
        segment_start_index + 1
    };
    let segment_size_x: i64 = positive_modulo(
        x_values[segment_end_index] - x_values[segment_start_index],
        UNIT,
    );
    let segment_size_y: i64 = positive_modulo(
        y_values[segment_end_index] - y_values[segment_start_index],
        UNIT,
    );
    let offset: i64 = if segment_size_x < NARROW_SEGMENT {
        segment_size_y / 2
    } else {
        let position: i64 = positive_modulo(x - x_values[segment_start_index], UNIT);
        proof {
            lemma_product_bound(
                segment_size_y as int,
                1_000_000_000,
                position as int,
                1_000_000_000,
            );
            lemma_floor(segment_size_y * position, segment_size_x as int);
            lemma_div_nonincreasing(segment_size_y * position, segment_size_x as int);
        }
        (segment_size_y * position) / segment_size_x
    };
    positive_modulo(y_values[segment_start_index] + offset, UNIT)
}

/// Whatever is mapped, what comes out lies in `0..UNIT`.
pub proof fn lemma_linear_map_range(xs: Seq<i64>, ys: Seq<i64>, x: int)
    ensures
        0 <= spec_linear_map(xs, ys, x) < UNIT,
{
}

/// A piecewise-linear map of the circle onto itself, given by pairs of a
/// source and a target progress: `map` sends each source value to its target
/// value and interpolates in between, `map_back` goes the other way.
pub struct DoubleMapper {
    source_values: Vec<i64>,
    target_values: Vec<i64>,
}

impl DoubleMapper {
    /// The source values, in the order given at construction.
    pub closed spec fn source(&self) -> Seq<i64> {
        self.source_values@
    }

    /// The target values, in the order given at construction.
    pub closed spec fn target(&self) -> Seq<i64> {
        self.target_values@
    }

    /// Every mapper holds as many source as target values, at least two of
    /// them, and both lists are valid progress lists.
    #[verifier::type_invariant]
    pub open spec fn wf(&self) -> bool {
        &&& self.source().len() == self.target().len()
        &&& self.source().len() >= 2
        &&& valid_progress(self.source())
        &&& valid_progress(self.target())
    }

    /// Where `map` sends `x`.
    pub open spec fn spec_map(&self, x: int) -> int {
        spec_linear_map(self.source(), self.target(), x)
    }

    /// Where `map_back` sends `x`.
    pub open spec fn spec_map_back(&self, x: int) -> int {
        spec_linear_map(self.target(), self.source(), x)
    }

    /// The mapper that sends every progress to itself.
    pub fn identity() -> (m: Self)
        ensures
            m.wf(),
            m.source() == seq![0i64, 500_000_000i64],
            m.target() == seq![0i64, 500_000_000i64],
    {
        let mut source_values: Vec<i64> = Vec::new();
        source_values.push(0);
        source_values.push(500_000_000);
        let mut target_values: Vec<i64> = Vec::new();
        target_values.push(0);
        target_values.push(500_000_000);
        proof {
            lemma_identity_lists_valid();
            assert(source_values@ =~= seq![0i64, 500_000_000i64]);
            assert(target_values@ =~= seq![0i64, 500_000_000i64]);
        }
        DoubleMapper { source_values, target_values }
    }

    /// Builds a mapper from pairs of a source and a target progress.
    ///
    /// The source values are checked first, then the target values; the first
    /// violation found is the error.
    pub fn new(mappings: Vec<(i64, i64)>) -> (r: Result<Self, ShapeError>)
        requires
            mappings.len() > 0,
        ensures
            is_result_of_new(mappings@, r),
            r is Ok <==> valid_progress(sources_of(mappings@)) && valid_progress(
                targets_of(mappings@),
            ),
    {
        let n: usize = mappings.len();
        let mut source_values: Vec<i64> = Vec::new();
        let mut target_values: Vec<i64> = Vec::new();
        let mut i: usize = 0;
        while i < n
            invariant
                n == mappings.len(),
                0 <= i <= n,
                source_values@ == sources_of(mappings@).take(i as int),
                target_values@ == targets_of(mappings@).take(i as int),
            decreases n - i,
        {
            let pair: (i64, i64) = mappings[i];
            source_values.push(pair.0);
            target_values.push(pair.1);
            proof {
                assert(source_values@ =~= sources_of(mappings@).take(i + 1));
                assert(target_values@ =~= targets_of(mappings@).take(i + 1));
            }
            i = i + 1;
        }
        proof {
            assert(source_values@ =~= sources_of(mappings@));
            assert(target_values@ =~= targets_of(mappings@));
        }
        match validate_progress(&source_values) {
            Err(e) => {
                return Err(e);
            },
            Ok(_) => {},
        }
        match validate_progress(&target_values) {
            Err(e) => {
                return Err(e);
            },
            Ok(_) => {},
        }
        proof {
            lemma_valid_list_has_two(source_values@);
        }
        Ok(DoubleMapper { source_values, target_values })
    }

    /// Sends a source progress to the target side.
    pub fn map(&self, x: i64) -> (r: Result<i64, ShapeError>)
        ensures
            r is Ok <==> 0 <= x <= UNIT,
            r matches Ok(v) ==> v == self.spec_map(x as int) && 0 <= v < UNIT,
            r matches Err(e) ==> e == ShapeError::ProgressOutOfRange,
    {
        if !(0 <= x && x <= UNIT) {
            return Err(ShapeError::ProgressOutOfRange);
        }
        proof {
            use_type_invariant(self);
            lemma_valid_list_in_range(self.source());
            lemma_valid_list_in_range(self.target());
        }
        Ok(linear_map(&self.source_values, &self.target_values, x))
    }

    /// Sends a target progress back to the source side.
    pub fn map_back(&self, x: i64) -> (r: Result<i64, ShapeError>)
        ensures
            r is Ok <==> 0 <= x <= UNIT,
            r matches Ok(v) ==> v == self.spec_map_back(x as int) && 0 <= v < UNIT,
            r matches Err(e) ==> e == ShapeError::ProgressOutOfRange,
    {
        if !(0 <= x && x <= UNIT) {
            return Err(ShapeError::ProgressOutOfRange);
        }
        proof {
            use_type_invariant(self);
            lemma_valid_list_in_range(self.source());
            lemma_valid_list_in_range(self.target());
        }
        Ok(linear_map(&self.target_values, &self.source_values, x))
    }
}

/// The mapper built from the pairs `(0, 0)` and `(UNIT / 2, UNIT / 2)` sends
/// every progress to itself, in both directions; the end of the turn, `UNIT`,
/// comes out as its start, 0.
pub proof fn lemma_identity_maps_to_itself(m: DoubleMapper, x: int)
    requires
        m.source() == seq![0i64, 500_000_000i64],
        m.target() == seq![0i64, 500_000_000i64],
        0 <= x <= UNIT,
    ensures
        m.spec_map(x) == x % (UNIT as int),
        m.spec_map_back(x) == x % (UNIT as int),
{
    let p = seq![0i64, 500_000_000i64];
    let half = 500_000_000int;
    reveal_with_fuel(first_segment, 3);
    assert(p[0] == 0 && p[1] == half && p.len() == 2);
    assert((half - 0) % 1_000_000_000 == half);
    assert((0 - half) % 1_000_000_000 == half);
    if x <= half {
        assert(spec_progress_in_range(x, p[0] as int, p[1] as int));
        assert(first_segment(p, x, 0) == 0);
        assert((x - 0) % 1_000_000_000 == x);
        lemma_whole_part(x, half);
        assert(spec_linear_map(p, p, x) == (0 + x) % 1_000_000_000);
    } else {
        assert(!spec_progress_in_range(x, p[0] as int, p[1] as int));
        assert(spec_progress_in_range(x, p[1] as int, p[0] as int));
        assert(first_segment(p, x, 1) == 1);
        assert(first_segment(p, x, 0) == 1);
        assert((x - half) % 1_000_000_000 == x - half);
        lemma_whole_part(x - half, half);
        assert(spec_linear_map(p, p, x) == (half + (x - half)) % 1_000_000_000);
    }
}

/// What `DoubleMapper::new` returns for a list of pairs: a mapper that holds
/// them when both lists are valid, else the first violation of the source
/// list or, if that list is valid, of the target list.
pub open spec fn is_result_of_new(mappings: Seq<(i64, i64)>, r: Result<DoubleMapper, ShapeError>) -> bool {
    match r {
        Ok(m) => {
            &&& m.wf()
            &&& m.source() == sources_of(mappings)
            &&& m.target() == targets_of(mappings)
            &&& valid_progress(sources_of(mappings))
            &&& valid_progress(targets_of(mappings))
        },
        Err(e) => {
            if first_violation(sources_of(mappings), 0) is Some {
                first_violation(sources_of(mappings), 0) == Some(e)
            } else {
                first_violation(targets_of(mappings), 0) == Some(e)
            }
        },
    }
}

/// The first components of a list of pairs.
pub open spec fn sources_of(mappings: Seq<(i64, i64)>) -> Seq<i64> {
    Seq::new(mappings.len(), |i: int| mappings[i].0)
}

/// The second components of a list of pairs.
pub open spec fn targets_of(mappings: Seq<(i64, i64)>) -> Seq<i64> {
    Seq::new(mappings.len(), |i: int| mappings[i].1)
}

/// Every entry of a valid list lies in `0..UNIT`.
pub proof fn lemma_valid_list_in_range(p: Seq<i64>)
    requires
        valid_progress(p),
    ensures
        forall|i: int| 0 <= i < p.len() ==> 0 <= #[trigger] p[i] < UNIT,
{
    assert forall|i: int| 0 <= i < p.len() implies 0 <= #[trigger] p[i] < UNIT by {
        assert(violation_at(p, i) is None);
    }
}

/// A valid list is empty or has at least two entries: a single entry would
/// be its own neighbour.
pub proof fn lemma_valid_list_has_two(p: Seq<i64>)
    requires
        valid_progress(p),
        p.len() > 0,
    ensures
        p.len() >= 2,
{
    if p.len() == 1 {
        assert(violation_at(p, 0) is None);
        assert(spec_progress_distance(p[0] as int, p[0] as int) == 0);
    }
}

proof fn lemma_identity_lists_valid()
    ensures
        valid_progress(seq![0i64, 500_000_000i64]),
{
    let p = seq![0i64, 500_000_000i64];
    reveal_with_fuel(wrap_count, 3);
    assert(violation_at(p, 0) is None);
    assert(violation_at(p, 1) is None);
}

} // verus!
