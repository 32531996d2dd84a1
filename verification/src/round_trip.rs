use vstd::prelude::*;
use vstd::arithmetic::mul::{
    lemma_mul_inequality, lemma_mul_inequality_converse, lemma_mul_is_commutative,
    lemma_mul_is_distributive_add, lemma_mul_is_distributive_sub,
};
use crate::arith::{lemma_floor, lemma_part_bound, lemma_product_bound};
use crate::geometry::UNIT;
use crate::mapper::{
    first_segment, next_index, prev_index, valid_progress, violation_at, wrap_count, wraps_at,
    DoubleMapper, NARROW_SEGMENT,
};
use crate::util::{spec_progress_distance, spec_progress_in_range};

verus! {

/// The width of segment `i` of a progress list: how far its end lies ahead of
/// its start on the circle.
pub open spec fn segment_width(p: Seq<i64>, i: int) -> int {
    (p[next_index(i, p.len() as int)] - p[i]) % (UNIT as int)
}

/// `v` is one of the values of the list.
pub open spec fn is_breakpoint(p: Seq<i64>, v: int) -> bool {
    exists|i: int| 0 <= i < p.len() && #[trigger] p[i] == v
}

/// In a valid list every entry but the one at the wrap is above the entry
/// before it.
proof fn lemma_rises(p: Seq<i64>, i: int)
    requires
        valid_progress(p),
        0 <= i < p.len(),
        !wraps_at(p, i),
    ensures
        p[prev_index(i, p.len() as int)] < p[i],
{
    assert(violation_at(p, i) is None);
    let prev = p[prev_index(i, p.len() as int)];
    if prev == p[i] {
        assert(spec_progress_distance(p[i] as int, prev as int) == 0);
    }
}

/// `wrap_count` counts the wraps below `upto`: it is positive exactly when
/// there is one.
proof fn lemma_wrap_count(p: Seq<i64>, upto: int)
    requires
        0 <= upto <= p.len(),
    ensures
        wrap_count(p, upto) >= 0,
        wrap_count(p, upto) >= 1 <==> exists|j: int| 0 <= j < upto && wraps_at(p, j),
    decreases upto,
{
    if upto > 0 {
        lemma_wrap_count(p, upto - 1);
        if wraps_at(p, upto - 1) {
            assert(0 <= upto - 1 < upto && wraps_at(p, upto - 1));
        }
    }
}

/// The entries from `from` on rise as long as there is no wrap.
proof fn lemma_rising_run(p: Seq<i64>, from: int, to: int)
    requires
        valid_progress(p),
        0 <= from <= to < p.len(),
        forall|k: int| from < k <= to ==> !wraps_at(p, k),
    ensures
        p[from] <= p[to],
        from < to ==> p[from] < p[to],
    decreases to - from,
{
    if from < to {
        lemma_rising_run(p, from, to - 1);
        lemma_rises(p, to);
    }
}

/// A valid list of two or more entries wraps at exactly one place.
pub proof fn lemma_single_wrap(p: Seq<i64>) -> (w: int)
    requires
        valid_progress(p),
        p.len() >= 2,
    ensures
        0 <= w < p.len(),
        wraps_at(p, w),
        forall|i: int| 0 <= i < p.len() && i != w ==> !wraps_at(p, i),
{
    let n = p.len() as int;
    // There is a wrap: else the list would rise all the way round.
    if forall|k: int| 0 < k < n ==> !wraps_at(p, k) {
        lemma_rising_run(p, 0, n - 1);
        assert(wraps_at(p, 0));
    }
    let w = choose|w: int| 0 <= w < n && wraps_at(p, w);
    assert forall|i: int| 0 <= i < n && i != w implies !wraps_at(p, i) by {
        if wraps_at(p, i) {
            let lo = if i < w {
                i
            } else {
                w
            };
            let hi = if i < w {
                w
            } else {
                i
            };
            lemma_wrap_count(p, hi);
            assert(0 <= lo < hi && wraps_at(p, lo));
            assert(violation_at(p, hi) is None);
        }
    }
    w
}

/// Where entry `i` stands when the list is read from the wrap on.
pub open spec fn rank(i: int, w: int, n: int) -> int {
    if i >= w {
        i - w
    } else {
        i + n - w
    }
}

/// Read from the wrap on, a valid list rises.
proof fn lemma_ranked(p: Seq<i64>, w: int, i: int, j: int)
    requires
        valid_progress(p),
        p.len() >= 2,
        0 <= w < p.len(),
        wraps_at(p, w),
        forall|k: int| 0 <= k < p.len() && k != w ==> !wraps_at(p, k),
        0 <= i < p.len(),
        0 <= j < p.len(),
        rank(i, w, p.len() as int) < rank(j, w, p.len() as int),
    ensures
        p[i] < p[j],
{
    let n = p.len() as int;
    if i >= w && j >= w {
        lemma_rising_run(p, i, j);
    } else if i < w && j < w {
        lemma_rising_run(p, i, j);
    } else {
        // i is in the run from the wrap to the end, j in the run from the start.
        assert(i >= w && j < w);
        lemma_rising_run(p, i, n - 1);
        lemma_rising_run(p, 0, j);
        lemma_rises(p, 0);
    }
}

/// A progress held by a segment of a valid list, and not one of its values,
/// is held by no other segment.
proof fn lemma_segments_disjoint(p: Seq<i64>, y: int, s: int, j: int)
    requires
        valid_progress(p),
        p.len() >= 2,
        0 <= s < p.len(),
        0 <= j < p.len(),
        j != s,
        !is_breakpoint(p, y),
        spec_progress_in_range(y, p[s] as int, p[next_index(s, p.len() as int)] as int),
    ensures
        !spec_progress_in_range(y, p[j] as int, p[next_index(j, p.len() as int)] as int),
{
    let n = p.len() as int;
    let w = lemma_single_wrap(p);
    let s1 = next_index(s, n);
    let j1 = next_index(j, n);
    assert(p[s] != y && p[s1] != y && p[j] != y && p[j1] != y);
    // The wrap is the lowest entry; the one before it is the highest.
    let top = prev_index(w, n);
    if s != w {
        lemma_ranked(p, w, w, s);
    }
    if j != w {
        lemma_ranked(p, w, w, j);
    }
    if s1 != w {
        lemma_ranked(p, w, w, s1);
    }
    if j1 != w {
        lemma_ranked(p, w, w, j1);
    }
    if s != top {
        lemma_ranked(p, w, s, top);
    }
    if j != top {
        lemma_ranked(p, w, j, top);
    }
    if s1 != top {
        lemma_ranked(p, w, s1, top);
    }
    if j1 != top {
        lemma_ranked(p, w, j1, top);
    }
    assert(p[w] < p[top]);
    if s1 != w {
        assert(rank(s1, w, n) == rank(s, w, n) + 1);
        assert(prev_index(s1, n) == s);
        lemma_rises(p, s1);
    } else {
        assert(s == top);
    }
    if j1 != w {
        assert(rank(j1, w, n) == rank(j, w, n) + 1);
        assert(prev_index(j1, n) == j);
        lemma_rises(p, j1);
    } else {
        assert(j == top);
    }
    if s1 != w && j1 != w {
        // Two segments of the rising run: one ends before the other starts.
        if rank(s, w, n) < rank(j, w, n) {
            if s1 != j {
                lemma_ranked(p, w, s1, j);
            }
            assert(y <= p[s1] <= p[j]);
        } else {
            if j1 != s {
                lemma_ranked(p, w, j1, s);
            }
            assert(p[j1] <= p[s] <= y);
        }
    } else if s1 == w {
        // The segment through the wrap holds what lies above the highest or
        // below the lowest entry.
        assert(y > p[top] || y < p[w]);
        assert(p[w] <= p[j] && p[j1] <= p[top]);
    } else {
        assert(p[s] <= y <= p[s1]);
        assert(p[w] <= p[s] && p[s1] <= p[top]);
    }
}

/// `first_segment` returns the one segment that holds a progress which is
/// not a value of the list.
proof fn lemma_first_segment_is(p: Seq<i64>, y: int, s: int, from: int)
    requires
        valid_progress(p),
        p.len() >= 2,
        0 <= from <= s < p.len(),
        !is_breakpoint(p, y),
        spec_progress_in_range(y, p[s] as int, p[next_index(s, p.len() as int)] as int),
    ensures
        first_segment(p, y, from) == s,
    decreases s - from,
{
    if from < s {
        lemma_segments_disjoint(p, y, s, from);
        lemma_first_segment_is(p, y, s, from + 1);
    }
}

/// Some segment of a valid list holds any given progress in `0..=UNIT`, and
/// `first_segment` finds one that does.
proof fn lemma_first_segment_holds(p: Seq<i64>, x: int)
    requires
        valid_progress(p),
        p.len() >= 2,
        0 <= x <= UNIT,
    ensures
        0 <= first_segment(p, x, 0) < p.len(),
        spec_progress_in_range(
            x,
            p[first_segment(p, x, 0)] as int,
            p[next_index(first_segment(p, x, 0), p.len() as int)] as int,
        ),
{
    let n = p.len() as int;
    let w = lemma_single_wrap(p);
    let top = prev_index(w, n);
    assert(next_index(top, n) == w);
    // Find a segment that holds x.
    let holder: int;
    if x <= p[w] || x >= p[top] {
        holder = top;
    } else {
        holder = lemma_bracket(p, w, x, w);
    }
    lemma_first_segment_found(p, x, holder, 0);
}

/// Walking up the rising run from entry `at`, which lies below `x`, there is
/// a segment that holds `x` before the run ends above `x`.
proof fn lemma_bracket(p: Seq<i64>, w: int, x: int, at: int) -> (holder: int)
    requires
        valid_progress(p),
        p.len() >= 2,
        0 <= w < p.len(),
        wraps_at(p, w),
        forall|k: int| 0 <= k < p.len() && k != w ==> !wraps_at(p, k),
        0 <= at < p.len(),
        p[at] <= x,
        x < p[prev_index(w, p.len() as int)],
    ensures
        0 <= holder < p.len(),
        spec_progress_in_range(x, p[holder] as int, p[next_index(holder, p.len() as int)] as int),
    decreases p.len() - rank(at, w, p.len() as int),
{
    let n = p.len() as int;
    let next = next_index(at, n);
    assert(at != prev_index(w, n));
    assert(next != w);
    assert(rank(next, w, n) == rank(at, w, n) + 1);
    lemma_rises(p, next);
    assert(prev_index(next, n) == at);
    if x <= p[next] {
        at
    } else {
        lemma_bracket(p, w, x, next)
    }
}

/// When some segment at or after `from` holds `x`, `first_segment` finds one.
proof fn lemma_first_segment_found(p: Seq<i64>, x: int, holder: int, from: int)
    requires
        0 <= from <= holder < p.len(),
        spec_progress_in_range(x, p[holder] as int, p[next_index(holder, p.len() as int)] as int),
    ensures
        from <= first_segment(p, x, from) <= holder,
        spec_progress_in_range(
            x,
            p[first_segment(p, x, from)] as int,
            p[next_index(first_segment(p, x, from), p.len() as int)] as int,
        ),
    decreases holder - from,
{
    if !spec_progress_in_range(x, p[from] as int, p[next_index(from, p.len() as int)] as int) {
        lemma_first_segment_found(p, x, holder, from + 1);
    }
}

/// A progress held by a segment lies no farther ahead of the segment's start
/// than the segment is wide.
proof fn lemma_offset_within_width(a: int, b: int, x: int)
    requires
        0 <= a < UNIT,
        0 <= b < UNIT,
        a != b,
        0 <= x <= UNIT,
        spec_progress_in_range(x, a, b),
    ensures
        0 <= (x - a) % (UNIT as int) <= (b - a) % (UNIT as int),
        0 < (b - a) % (UNIT as int) < UNIT,
        x % (UNIT as int) == (a + (x - a) % (UNIT as int)) % (UNIT as int),
{
    let unit = 1_000_000_000int;
    if a < b {
        assert((b - a) % unit == b - a);
        assert((x - a) % unit == x - a);
    } else {
        assert((b - a) % unit == b - a + unit);
        if x >= a {
            assert((x - a) % unit == x - a);
        } else {
            assert((x - a) % unit == x - a + unit);
        }
    }
}

/// A place that lies `q` ahead of the start of a segment, with `q` no more
/// than the segment's width, is held by the segment.
proof fn lemma_ahead_is_held(c: int, d: int, q: int)
    requires
        0 <= c < UNIT,
        0 <= d < UNIT,
        c != d,
        0 <= q <= (d - c) % (UNIT as int),
    ensures
        spec_progress_in_range((c + q) % (UNIT as int), c, d),
        0 <= (c + q) % (UNIT as int) < UNIT,
        ((c + q) % (UNIT as int) - c) % (UNIT as int) == q,
{
    let unit = 1_000_000_000int;
    if c < d {
        assert((d - c) % unit == d - c);
        assert((c + q) % unit == c + q);
        assert(q % unit == q);
    } else {
        assert((d - c) % unit == d - c + unit);
        if c + q < unit {
            assert((c + q) % unit == c + q);
            assert(q % unit == q);
        } else {
            assert((c + q) % unit == c + q - unit);
            assert((q - unit) % unit == q);
        }
    }
}

/// Scaling an offset to another width and back loses less than the ratio of
/// the widths, and one unit for the rounding.
proof fn lemma_scale_there_and_back(pos: int, size_x: int, size_y: int)
    requires
        0 <= pos <= size_x,
        0 < size_x < UNIT,
        NARROW_SEGMENT <= size_y < UNIT,
    ensures
        0 <= (size_y * pos) / size_x <= size_y,
        0 <= pos - (size_x * ((size_y * pos) / size_x)) / size_y <= 1000,
{
    let q = (size_y * pos) / size_x;
    lemma_product_bound(size_y, size_y, pos, pos);
    lemma_floor(size_y * pos, size_x);
    lemma_part_bound(size_y, pos, size_x);
    let r = (size_x * q) / size_y;
    lemma_product_bound(size_x, size_x, q, q);
    lemma_floor(size_x * q, size_y);
    lemma_mul_is_commutative(size_x, q);
    lemma_mul_is_commutative(size_y, pos);
    // r * size_y <= size_x * q <= size_y * pos, so r <= pos.
    assert(r * size_y <= pos * size_y);
    lemma_mul_inequality_converse(r, pos, size_y);
    // size_y * (pos - r - 1) < size_x, which is below a thousand times size_y.
    let k = pos - r - 1;
    lemma_mul_is_distributive_sub(size_y, pos, r + 1);
    lemma_mul_is_distributive_add(size_y, r, 1);
    lemma_mul_is_commutative(size_y, r);
    assert(size_y * k == size_y * pos - r * size_y - size_y);
    assert(size_y * k < size_x);
    if k >= 1000 {
        lemma_mul_inequality(1000, k, size_y);
        lemma_mul_is_commutative(k, size_y);
        assert(1000 * size_y <= size_y * k);
    }
}

/// Two places that lie `r` and `pos` ahead of the same start, with `r` a
/// little behind `pos`, are as close on the circle.
proof fn lemma_close_on_circle(a: int, r: int, pos: int)
    requires
        0 <= a < UNIT,
        0 <= r <= pos < UNIT,
        pos - r <= 1000,
    ensures
        spec_progress_distance((a + r) % (UNIT as int), (a + pos) % (UNIT as int)) <= 1000,
{
    let unit = 1_000_000_000int;
    if a + pos < unit {
        assert((a + r) % unit == a + r);
        assert((a + pos) % unit == a + pos);
    } else if a + r >= unit {
        assert((a + r) % unit == a + r - unit);
        assert((a + pos) % unit == a + pos - unit);
    } else {
        assert((a + r) % unit == a + r);
        assert((a + pos) % unit == a + pos - unit);
    }
}

/// Mapping a progress and mapping the result back gives the progress again,
/// to within a millionth of a turn.
///
/// This holds of every progress that is not mapped to a breakpoint of the
/// mapper, as long as the segment that holds it is not a narrow one on either
/// side: a narrow segment is mapped to a single place, and nothing leads back
/// from there. The bound, 1000 units, is a hundredth of `DISTANCE_EPSILON`.
pub proof fn lemma_map_back_inverts_map(m: DoubleMapper, x: int)
    requires
        m.wf(),
        0 <= x <= UNIT,
        !is_breakpoint(m.target(), m.spec_map(x)),
        segment_width(m.source(), first_segment(m.source(), x, 0)) >= NARROW_SEGMENT,
        segment_width(m.target(), first_segment(m.source(), x, 0)) >= NARROW_SEGMENT,
    ensures
        spec_progress_distance(m.spec_map_back(m.spec_map(x)), x % (UNIT as int)) <= 1000,
{
    let unit = 1_000_000_000int;
    let xs = m.source();
    let ys = m.target();
    let n = xs.len() as int;
    let s = first_segment(xs, x, 0);
    let e = next_index(s, n);
    lemma_first_segment_holds(xs, x);
    assert(violation_at(xs, s) is None && violation_at(xs, e) is None);
    assert(violation_at(ys, s) is None && violation_at(ys, e) is None);
    let a = xs[s] as int;
    let b = xs[e] as int;
    let c = ys[s] as int;
    let d = ys[e] as int;
    // Neighbours of a valid list differ.
    assert(prev_index(e, n) == s);
    assert(a != b) by {
        if a == b {
            assert(spec_progress_distance(b, a) == 0);
        }
    }
    assert(c != d) by {
        if c == d {
            assert(spec_progress_distance(d, c) == 0);
        }
    }
    lemma_offset_within_width(a, b, x);
    let size_x = (b - a) % unit;
    let size_y = (d - c) % unit;
    let pos = (x - a) % unit;
    assert(size_x == segment_width(xs, s));
    assert(size_y == segment_width(ys, s));
    lemma_scale_there_and_back(pos, size_x, size_y);
    let q = (size_y * pos) / size_x;
    let y = (c + q) % unit;
    assert(m.spec_map(x) == y);
    // The way back starts in the same segment.
    lemma_ahead_is_held(c, d, q);
    lemma_first_segment_is(ys, y, s, 0);
    let r = (size_x * q) / size_y;
    assert(m.spec_map_back(y) == (a + r) % unit);
    lemma_close_on_circle(a, r, pos);
}

} // verus!
