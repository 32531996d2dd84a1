use vstd::prelude::*;
use crate::assembly::is_polygon_of;
use crate::corner::CornerRounding;
use crate::error::ShapeError;
use crate::fixed::{
    minus, mul_div, over, plus, spec_minus, spec_mul_div, spec_over, spec_plus, spec_times, times,
    Fixed,
};
use crate::geometry::{max, min, spec_max, spec_min, Point, Size, UNIT};
use crate::polygon_builder::{
    spec_vertex_roundings, vertex_roundings, PillStar, RoundedPolygonBuilder,
};
use crate::rounded_polygon::RoundedPolygon;
use crate::trig::{radial_to_cartesian, spec_radial_to_cartesian, HALF_PI, PI, TWO_PI};
use crate::util::positive_modulo;

verus! {

/// Three quarters of a turn.
pub const THREE_HALVES_PI: Fixed = 4_712_388_980;

/// The outline of a pill, as far as laying out vertices on it goes.
///
/// The outline starts on the x axis and runs through nine sections: up the
/// half of the right side, round the corner, along the top, round the next
/// corner, down the left side, and so on, back to the x axis. `sections[i]`
/// is where section `i` starts, as a length along the outline; the last entry
/// is the whole of it.
pub struct PillOutline {
    pub endcap_radius: Fixed,
    pub v_seg_len: Fixed,
    pub h_seg_len: Fixed,
    pub perimeter: Fixed,
    pub sections: Seq<Fixed>,
}

/// The outline of the pill of the given size. The round parts count for the
/// length of a circle between the outer and the inner one, as
/// `vertex_spacing` says: the inner one at 0, the outer one at `UNIT`.
pub open spec fn spec_pill_outline(size: Size, inner_radius: Fixed, vertex_spacing: Fixed) -> PillOutline {
    let endcap_radius = spec_min(size.width as int, size.height as int);
    let v_seg_len = spec_max(spec_minus(size.height as int, size.width as int), 0);
    let h_seg_len = spec_max(spec_minus(size.width as int, size.height as int), 0);
    let circle_perimeter = spec_times(
        spec_times(TWO_PI as int, endcap_radius),
        spec_plus(
            spec_times(inner_radius as int, spec_minus(UNIT as int, vertex_spacing as int)),
            vertex_spacing as int,
        ),
    );
    let perimeter = spec_plus(
        spec_plus(spec_mul_div(h_seg_len, 2, 1), spec_mul_div(v_seg_len, 2, 1)),
        circle_perimeter,
    );
    let quarter = spec_mul_div(circle_perimeter, 1, 4);
    let s1 = spec_mul_div(v_seg_len, 1, 2);
    let s2 = spec_plus(s1, quarter);
    let s3 = spec_plus(s2, h_seg_len);
    let s4 = spec_plus(s3, quarter);
    let s5 = spec_plus(s4, v_seg_len);
    let s6 = spec_plus(s5, quarter);
    let s7 = spec_plus(s6, h_seg_len);
    let s8 = spec_plus(s7, quarter);
    let s9 = spec_plus(s8, spec_mul_div(v_seg_len, 1, 2));
    PillOutline {
        endcap_radius: endcap_radius as i64,
        v_seg_len: v_seg_len as i64,
        h_seg_len: h_seg_len as i64,
        perimeter: perimeter as i64,
        sections: seq![
            0i64,
            s1 as i64,
            s2 as i64,
            s3 as i64,
            s4 as i64,
            s5 as i64,
            s6 as i64,
            s7 as i64,
            s8 as i64,
            s9 as i64,
            perimeter as i64,
        ],
    }
}

/// Where the walk along the outline stands: in which section, and where that
/// section starts and ends.
pub struct Section {
    pub index: int,
    pub start: Fixed,
    pub end: Fixed,
}

/// The section that holds the length `bounded_t`, found by walking on from
/// `section` for as long as the next section starts at or before
/// `bounded_t`.
pub open spec fn spec_walk(sections: Seq<Fixed>, bounded_t: Fixed, section: Section) -> Section
    decreases 9 - section.index,
{
    if section.index < 0 || section.index >= 9 || bounded_t < sections[section.index + 1] {
        section
    } else {
        spec_walk(
            sections,
            bounded_t,
            Section {
                index: section.index + 1,
                start: sections[section.index + 1],
                end: sections[section.index + 2],
            },
        )
    }
}

/// The section in which the next vertex lies, given the one in which the
/// last one did. A length before the start of that section has the walk
/// start over at the first section.
pub open spec fn spec_settle(sections: Seq<Fixed>, bounded_t: Fixed, section: Section) -> Section {
    spec_walk(
        sections,
        bounded_t,
        if bounded_t < section.start {
            Section { index: 0, start: section.start, end: section.end }
        } else {
            section
        },
    )
}

/// The place of a vertex in a section of the outline, at the part
/// `proportion` of the way through it, on the outline of the radius
/// `radius`. On a straight section the vertex moves along the side; on a
/// round one it turns round the corner of the rectangle inside the pill.
pub open spec fn spec_place(outline: PillOutline, index: int, proportion: Fixed, radius: Fixed) -> Point {
    let v_seg_half = spec_mul_div(outline.v_seg_len as int, 1, 2) as i64;
    let h_seg_half = spec_mul_div(outline.h_seg_len as int, 1, 2) as i64;
    let turn = spec_times(proportion as int, HALF_PI as int);
    if index == 0 {
        Point { x: radius, y: spec_times(proportion as int, v_seg_half as int) as i64 }
    } else if index == 1 {
        Point { x: h_seg_half, y: v_seg_half }.spec_plus(
            spec_radial_to_cartesian(radius, turn as i64),
        )
    } else if index == 2 {
        Point {
            x: spec_minus(
                h_seg_half as int,
                spec_times(proportion as int, outline.h_seg_len as int),
            ) as i64,
            y: radius,
        }
    } else if index == 3 {
        Point { x: spec_minus(0, h_seg_half as int) as i64, y: v_seg_half }.spec_plus(
            spec_radial_to_cartesian(radius, spec_plus(HALF_PI as int, turn) as i64),
        )
    } else if index == 4 {
        Point {
            x: spec_minus(0, radius as int) as i64,
            y: spec_minus(
                v_seg_half as int,
                spec_times(proportion as int, outline.v_seg_len as int),
            ) as i64,
        }
    } else if index == 5 {
        Point {
            x: spec_minus(0, h_seg_half as int) as i64,
            y: spec_minus(0, v_seg_half as int) as i64,
        }.spec_plus(spec_radial_to_cartesian(radius, spec_plus(PI as int, turn) as i64))
    } else if index == 6 {
        Point {
            x: spec_plus(
                spec_minus(0, h_seg_half as int),
                spec_times(proportion as int, outline.h_seg_len as int),
            ) as i64,
            y: spec_minus(0, radius as int) as i64,
        }
    } else if index == 7 {
        Point { x: h_seg_half, y: spec_minus(0, v_seg_half as int) as i64 }.spec_plus(
            spec_radial_to_cartesian(radius, spec_plus(THREE_HALVES_PI as int, turn) as i64),
        )
    } else {
        Point {
            x: radius,
            y: spec_plus(
                spec_minus(0, v_seg_half as int),
                spec_times(proportion as int, v_seg_half as int),
            ) as i64,
        }
    }
}

/// How far the walk has come: the length along the outline at which the
/// next vertex lies, whether that vertex is an inner one, and the section in
/// which the last vertex lay.
pub struct Walk {
    pub t: Fixed,
    pub inner: bool,
    pub section: Section,
}

/// The walk before vertex `k`.
pub open spec fn spec_walk_before(outline: PillOutline, t0: Fixed, t_per_vertex: Fixed, k: int) -> Walk
    decreases k,
{
    if k <= 0 {
        Walk { t: t0, inner: false, section: Section { index: 0, start: 0, end: outline.sections[1] } }
    } else {
        let before = spec_walk_before(outline, t0, t_per_vertex, k - 1);
        Walk {
            t: spec_plus(before.t as int, t_per_vertex as int) as i64,
            inner: !before.inner,
            section: spec_settle(
                outline.sections,
                (before.t % outline.perimeter) as i64,
                before.section,
            ),
        }
    }
}

/// Vertex `k` of a pill star, before it is moved to the center.
pub open spec fn spec_walk_vertex(
    outline: PillOutline,
    inner_radius: Fixed,
    t0: Fixed,
    t_per_vertex: Fixed,
    k: int,
) -> Point {
    let walk = spec_walk_before(outline, t0, t_per_vertex, k);
    let bounded_t = (walk.t % outline.perimeter) as i64;
    let section = spec_settle(outline.sections, bounded_t, walk.section);
    let proportion = spec_over(
        spec_minus(bounded_t as int, section.start as int),
        spec_minus(section.end as int, section.start as int),
    );
    let radius = if walk.inner {
        spec_times(outline.endcap_radius as int, inner_radius as int) as i64
    } else {
        outline.endcap_radius
    };
    spec_place(outline, section.index, proportion as i64, radius)
}

/// The vertices of a pill star: `2 * num_vertices_per_radius` of them, evenly
/// spread along the outline of the pill from `start_location` on, in turn
/// on the outline itself and on a smaller one inside it. A pill without any
/// outline has all its vertices in the center.
pub open spec fn spec_pill_star_vertices(
    num_vertices_per_radius: int,
    size: Size,
    inner_radius: Fixed,
    vertex_spacing: Fixed,
    start_location: Fixed,
    center: Point,
) -> Seq<Point> {
    let outline = spec_pill_outline(size, inner_radius, vertex_spacing);
    let t_per_vertex = spec_mul_div(outline.perimeter as int, 1, 2 * num_vertices_per_radius) as i64;
    let t0 = spec_times(start_location as int, outline.perimeter as int) as i64;
    Seq::new(
        (2 * num_vertices_per_radius) as nat,
        |k: int|
            if outline.perimeter > 0 {
                spec_walk_vertex(outline, inner_radius, t0, t_per_vertex, k).spec_plus(center)
            } else {
                center
            },
    )
}

/// The outline of a pill, worked out.
struct Outline {
    endcap_radius: Fixed,
    v_seg_len: Fixed,
    h_seg_len: Fixed,
    perimeter: Fixed,
    sections: [Fixed; 11],
}

impl Outline {
    spec fn view(&self) -> PillOutline {
        PillOutline {
            endcap_radius: self.endcap_radius,
            v_seg_len: self.v_seg_len,
            h_seg_len: self.h_seg_len,
            perimeter: self.perimeter,
            sections: self.sections@,
        }
    }
}

fn pill_outline(size: Size, inner_radius: Fixed, vertex_spacing: Fixed) -> (outline: Outline)
    ensures
        outline@ == spec_pill_outline(size, inner_radius, vertex_spacing),
        outline.sections[10] == outline.perimeter,
{
    let endcap_radius: Fixed = min(size.width, size.height);
    let v_seg_len: Fixed = max(minus(size.height, size.width), 0);
    let h_seg_len: Fixed = max(minus(size.width, size.height), 0);
    // The vertices on the round parts are spread as on a circle between the
    // inner and the outer one.
    let circle_perimeter: Fixed = times(
        times(TWO_PI, endcap_radius),
        plus(times(inner_radius, minus(UNIT, vertex_spacing)), vertex_spacing),
    );
    let perimeter: Fixed = plus(
        plus(mul_div(h_seg_len, 2, 1), mul_div(v_seg_len, 2, 1)),
        circle_perimeter,
    );
    let quarter: Fixed = mul_div(circle_perimeter, 1, 4);
    let s1: Fixed = mul_div(v_seg_len, 1, 2);
    let s2: Fixed = plus(s1, quarter);
    let s3: Fixed = plus(s2, h_seg_len);
    let s4: Fixed = plus(s3, quarter);
    let s5: Fixed = plus(s4, v_seg_len);
    let s6: Fixed = plus(s5, quarter);
    let s7: Fixed = plus(s6, h_seg_len);
    let s8: Fixed = plus(s7, quarter);
    let s9: Fixed = plus(s8, mul_div(v_seg_len, 1, 2));
    let sections: [Fixed; 11] = [0, s1, s2, s3, s4, s5, s6, s7, s8, s9, perimeter];
    let outline = Outline { endcap_radius, v_seg_len, h_seg_len, perimeter, sections };
    proof {
        assert(outline@.sections =~= spec_pill_outline(
            size,
            inner_radius,
            vertex_spacing,
        ).sections);
    }
    outline
}

/// The section in which the next vertex lies.
fn settle(outline: &Outline, bounded_t: Fixed, index: usize, start: Fixed, end: Fixed) -> (r: (
    usize,
    Fixed,
    Fixed,
))
    requires
        index <= 9,
    ensures
        r.0 <= 9,
        (Section { index: r.0 as int, start: r.1, end: r.2 }) == spec_settle(
            outline.sections@,
            bounded_t,
            Section { index: index as int, start, end },
        ),
{
    let mut curr_sec_index: usize = if bounded_t < start {
        0
    } else {
        index
    };
    let mut sec_start: Fixed = start;
    let mut sec_end: Fixed = end;
    while curr_sec_index < 9 && bounded_t >= outline.sections[curr_sec_index + 1]
        invariant
            curr_sec_index <= 9,
            spec_settle(
                outline.sections@,
                bounded_t,
                Section { index: index as int, start, end },
            ) == spec_walk(
                outline.sections@,
                bounded_t,
                Section { index: curr_sec_index as int, start: sec_start, end: sec_end },
            ),
        decreases 9 - curr_sec_index,
    {
        curr_sec_index = curr_sec_index + 1;
        sec_start = outline.sections[curr_sec_index];
        sec_end = outline.sections[curr_sec_index + 1];
    }
    (curr_sec_index, sec_start, sec_end)
}

/// The place of a vertex in a section of the outline.
fn place(outline: &Outline, index: usize, proportion: Fixed, radius: Fixed) -> (p: Point)
    ensures
        p == spec_place(outline@, index as int, proportion, radius),
{
    let v_seg_half: Fixed = mul_div(outline.v_seg_len, 1, 2);
    let h_seg_half: Fixed = mul_div(outline.h_seg_len, 1, 2);
    let turn: Fixed = times(proportion, HALF_PI);
    if index == 0 {
        Point::new(radius, times(proportion, v_seg_half))
    } else if index == 1 {
        Point::new(h_seg_half, v_seg_half).plus(radial_to_cartesian(radius, turn))
    } else if index == 2 {
        Point::new(minus(h_seg_half, times(proportion, outline.h_seg_len)), radius)
    } else if index == 3 {
        Point::new(minus(0, h_seg_half), v_seg_half).plus(
            radial_to_cartesian(radius, plus(HALF_PI, turn)),
        )
    } else if index == 4 {
        Point::new(minus(0, radius), minus(v_seg_half, times(proportion, outline.v_seg_len)))
    } else if index == 5 {
        Point::new(minus(0, h_seg_half), minus(0, v_seg_half)).plus(
            radial_to_cartesian(radius, plus(PI, turn)),
        )
    } else if index == 6 {
        Point::new(
            plus(minus(0, h_seg_half), times(proportion, outline.h_seg_len)),
            minus(0, radius),
        )
    } else if index == 7 {
        Point::new(h_seg_half, minus(0, v_seg_half)).plus(
            radial_to_cartesian(radius, plus(THREE_HALVES_PI, turn)),
        )
    } else {
        Point::new(radius, plus(minus(0, v_seg_half), times(proportion, v_seg_half)))
    }
}

/// The vertices of a pill star.
pub fn pill_star_vertices_from_num_verts(
    num_vertices_per_radius: usize,
    size: Size,
    inner_radius: Fixed,
    vertex_spacing: Fixed,
    start_location: Fixed,
    center: Point,
) -> (result: Vec<Point>)
    requires
        2 * num_vertices_per_radius <= usize::MAX,
        2 * num_vertices_per_radius <= i64::MAX,
    ensures
        result@ == spec_pill_star_vertices(
            num_vertices_per_radius as int,
            size,
            inner_radius,
            vertex_spacing,
            start_location,
            center,
        ),
{
    let outline = pill_outline(size, inner_radius, vertex_spacing);
    let count: usize = num_vertices_per_radius * 2;
    let t_per_vertex: Fixed = mul_div(outline.perimeter, 1, count as i64);
    let t0: Fixed = times(start_location, outline.perimeter);
    let ghost expected = spec_pill_star_vertices(
        num_vertices_per_radius as int,
        size,
        inner_radius,
        vertex_spacing,
        start_location,
        center,
    );
    let mut result: Vec<Point> = Vec::new();
    // How far along the outline the next vertex lies, and whether it is an
    // inner one.
    let mut t: Fixed = t0;
    let mut inner: bool = false;
    let mut curr_sec_index: usize = 0;
    let mut sec_start: Fixed = 0;
    let mut sec_end: Fixed = outline.sections[1];
    let mut k: usize = 0;
    while k < count
        invariant
            count == 2 * num_vertices_per_radius,
            0 <= k <= count,
            curr_sec_index <= 9,
            outline@ == spec_pill_outline(size, inner_radius, vertex_spacing),
            t_per_vertex == spec_mul_div(outline.perimeter as int, 1, count as int),
            t0 == spec_times(start_location as int, outline.perimeter as int),
            expected == spec_pill_star_vertices(
                num_vertices_per_radius as int,
                size,
                inner_radius,
                vertex_spacing,
                start_location,
                center,
            ),
            outline.perimeter > 0 ==> (Walk {
                t,
                inner,
                section: Section { index: curr_sec_index as int, start: sec_start, end: sec_end },
            }) == spec_walk_before(outline@, t0, t_per_vertex, k as int),
            result.len() == k,
            forall|j: int| 0 <= j < k ==> #[trigger] result[j] == expected[j],
        decreases count - k,
    {
        if outline.perimeter > 0 {
            // The length may start, and end, beyond the outline: it wraps.
            let bounded_t: Fixed = positive_modulo(t, outline.perimeter);
            let section = settle(&outline, bounded_t, curr_sec_index, sec_start, sec_end);
            curr_sec_index = section.0;
            sec_start = section.1;
            sec_end = section.2;
            // How far into its section the vertex lies.
            let t_in_section: Fixed = minus(bounded_t, sec_start);
            let t_proportion: Fixed = over(t_in_section, minus(sec_end, sec_start));
            let curr_radius: Fixed = if inner {
                times(outline.endcap_radius, inner_radius)
            } else {
                outline.endcap_radius
            };
            let vertex: Point = place(&outline, curr_sec_index, t_proportion, curr_radius);
            result.push(vertex.plus(center));
            t = plus(t, t_per_vertex);
            inner = !inner;
        } else {
            result.push(center);
        }
        k = k + 1;
    }
    proof {
        assert(result@ =~= expected);
    }
    result
}

impl RoundedPolygonBuilder<PillStar> {
    pub fn with_size(self, size: Size) -> (builder: Self)
        ensures
            builder.data == (PillStar { size, ..self.data }),
            builder.center == self.center,
            builder.rounding == self.rounding,
            builder.per_vertex_rounding == self.per_vertex_rounding,
    {
        Self {
            data: PillStar { size, ..self.data },
            center: self.center,
            rounding: self.rounding,
            per_vertex_rounding: self.per_vertex_rounding,
        }
    }

    pub fn with_width(self, width: Fixed) -> (builder: Self)
        ensures
            builder.data == (PillStar {
                size: Size { width, height: self.data.size.height },
                ..self.data
            }),
            builder.center == self.center,
            builder.rounding == self.rounding,
            builder.per_vertex_rounding == self.per_vertex_rounding,
    {
        Self {
            data: PillStar { size: Size { width, height: self.data.size.height }, ..self.data },
            center: self.center,
            rounding: self.rounding,
            per_vertex_rounding: self.per_vertex_rounding,
        }
    }

    pub fn with_height(self, height: Fixed) -> (builder: Self)
        ensures
            builder.data == (PillStar {
                size: Size { width: self.data.size.width, height },
                ..self.data
            }),
            builder.center == self.center,
            builder.rounding == self.rounding,
            builder.per_vertex_rounding == self.per_vertex_rounding,
    {
        Self {
            data: PillStar { size: Size { width: self.data.size.width, height }, ..self.data },
            center: self.center,
            rounding: self.rounding,
            per_vertex_rounding: self.per_vertex_rounding,
        }
    }

    pub fn with_vertices_per_radius(self, count: usize) -> (builder: Self)
        ensures
            builder.data == (PillStar { vertices_per_radius: count, ..self.data }),
            builder.center == self.center,
            builder.rounding == self.rounding,
            builder.per_vertex_rounding == self.per_vertex_rounding,
    {
        Self {
            data: PillStar { vertices_per_radius: count, ..self.data },
            center: self.center,
            rounding: self.rounding,
            per_vertex_rounding: self.per_vertex_rounding,
        }
    }

    pub fn with_vertex_spacing(self, spacing: Fixed) -> (builder: Self)
        ensures
            builder.data == (PillStar { vertex_spacing: spacing, ..self.data }),
            builder.center == self.center,
            builder.rounding == self.rounding,
            builder.per_vertex_rounding == self.per_vertex_rounding,
    {
        Self {
            data: PillStar { vertex_spacing: spacing, ..self.data },
            center: self.center,
            rounding: self.rounding,
            per_vertex_rounding: self.per_vertex_rounding,
        }
    }

    pub fn with_start_location(self, location: Fixed) -> (builder: Self)
        ensures
            builder.data == (PillStar { start_location: location, ..self.data }),
            builder.center == self.center,
            builder.rounding == self.rounding,
            builder.per_vertex_rounding == self.per_vertex_rounding,
    {
        Self {
            data: PillStar { start_location: location, ..self.data },
            center: self.center,
            rounding: self.rounding,
            per_vertex_rounding: self.per_vertex_rounding,
        }
    }

    pub fn with_inner_radius_ratio(self, radius: Fixed) -> (builder: Self)
        ensures
            builder.data == (PillStar { inner_radius_ratio: radius, ..self.data }),
            builder.center == self.center,
            builder.rounding == self.rounding,
            builder.per_vertex_rounding == self.per_vertex_rounding,
    {
        Self {
            data: PillStar { inner_radius_ratio: radius, ..self.data },
            center: self.center,
            rounding: self.rounding,
            per_vertex_rounding: self.per_vertex_rounding,
        }
    }

    pub fn with_inner_rounding(self, rounding: CornerRounding) -> (builder: Self)
        ensures
            builder.data == (PillStar { inner_rounding: Some(rounding), ..self.data }),
            builder.center == self.center,
            builder.rounding == self.rounding,
            builder.per_vertex_rounding == self.per_vertex_rounding,
    {
        Self {
            data: PillStar { inner_rounding: Some(rounding), ..self.data },
            center: self.center,
            rounding: self.rounding,
            per_vertex_rounding: self.per_vertex_rounding,
        }
    }

    /// Builds the pill star.
    pub fn build(self) -> (r: Result<RoundedPolygon<Point>, ShapeError>)
        requires
            4 * self.data.vertices_per_radius <= usize::MAX,
        ensures
            is_polygon_of(
                spec_pill_star_vertices(
                    self.data.vertices_per_radius as int,
                    self.data.size,
                    self.data.inner_radius_ratio,
                    self.data.vertex_spacing,
                    self.data.start_location,
                    self.center,
                ),
                self.rounding,
                spec_vertex_roundings(
                    self.per_vertex_rounding@,
                    self.rounding,
                    self.data.inner_rounding,
                    self.data.vertices_per_radius as int,
                ),
                Some(self.center),
                r,
            ),
    {
        let vertices = pill_star_vertices_from_num_verts(
            self.data.vertices_per_radius,
            self.data.size,
            self.data.inner_radius_ratio,
            self.data.vertex_spacing,
            self.data.start_location,
            self.center,
        );
        let roundings = vertex_roundings(
            self.per_vertex_rounding,
            self.rounding,
            self.data.inner_rounding,
            self.data.vertices_per_radius,
        );
        RoundedPolygon::from_points_list(&vertices, self.rounding, &roundings, Some(self.center))
    }
}

} // verus!
