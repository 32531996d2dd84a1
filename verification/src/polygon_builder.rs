use vstd::prelude::*;
use crate::assembly::is_polygon_of;
use crate::corner::CornerRounding;
use crate::error::ShapeError;
use crate::fixed::{
    minus, mul_div, over, plus, spec_minus, spec_mul_div, spec_over, spec_plus, Fixed,
};
use crate::geometry::{min, spec_min, Point, Size, UNIT};
use crate::rounded_polygon::RoundedPolygon;
use crate::trig::{cos, radial_to_cartesian, spec_cos, spec_radial_to_cartesian, PI, TWO_PI};

verus! {

/// Marks a shape whose vertices lie on two radii in turn and may be rounded
/// one by one.
pub trait HaveRounding {

}

/// Marks a shape that has a width and a height.
pub trait HaveSize {

}

/// Marks a shape that has a radius.
pub trait HaveRadius {

}

/// A rectangle of a size.
#[derive(Debug, Clone, Copy, PartialEq, Eq, Structural)]
pub struct Rectangle {
    pub size: Size,
}

impl HaveSize for Rectangle {

}

/// A polygon on a circle: as many vertices, evenly spread, that its sides
/// touch the circle of the radius.
#[derive(Debug, Clone, Copy, PartialEq, Eq, Structural)]
pub struct Circle {
    pub vertices: usize,
    pub radius: Fixed,
}

impl HaveRadius for Circle {

}

/// A star: vertices in turn on an outer and on an inner circle.
#[derive(Debug, Clone, Copy, PartialEq, Eq, Structural)]
pub struct Star {
    pub vertices_per_radius: usize,
    pub radius: Fixed,
    pub inner_radius: Fixed,
    pub inner_rounding: Option<CornerRounding>,
}

impl HaveRadius for Star {

}

impl HaveRounding for Star {

}

/// A rectangle with its short sides rounded all the way.
#[derive(Debug, Clone, Copy, PartialEq, Eq, Structural)]
pub struct Pill {
    pub size: Size,
    pub smoothing: Fixed,
}

impl HaveSize for Pill {

}

/// A star whose vertices lie in turn on the outline of a pill and on a
/// smaller outline inside it.
#[derive(Debug, Clone, Copy, PartialEq, Eq, Structural)]
pub struct PillStar {
    pub size: Size,
    pub vertices_per_radius: usize,
    pub inner_radius_ratio: Fixed,
    pub inner_rounding: Option<CornerRounding>,
    pub vertex_spacing: Fixed,
    pub start_location: Fixed,
}

impl HaveSize for PillStar {

}

impl HaveRounding for PillStar {

}

/// What a shape is built from: the shape itself, where its center lies, and
/// how its vertices are rounded.
pub struct RoundedPolygonBuilder<T> {
    pub data: T,
    pub center: Point,
    pub rounding: CornerRounding,
    pub per_vertex_rounding: Vec<CornerRounding>,
}

impl<T> RoundedPolygonBuilder<T> {
    /// The builder of a shape round the origin, without any rounding.
    pub fn new(data: T) -> (builder: Self)
        ensures
            builder.data == data,
            builder.center == (Point { x: 0, y: 0 }),
            builder.rounding == (CornerRounding { radius: 0, smoothing: 0 }),
            builder.per_vertex_rounding@ == Seq::<CornerRounding>::empty(),
    {
        Self {
            data,
            center: Point::zero(),
            rounding: CornerRounding::unrounded(),
            per_vertex_rounding: Vec::new(),
        }
    }

    pub fn with_center(self, center: Point) -> (builder: Self)
        ensures
            builder.data == self.data,
            builder.center == center,
            builder.rounding == self.rounding,
            builder.per_vertex_rounding == self.per_vertex_rounding,
    {
        Self {
            data: self.data,
            center,
            rounding: self.rounding,
            per_vertex_rounding: self.per_vertex_rounding,
        }
    }
}

impl<T: HaveRounding> RoundedPolygonBuilder<T> {
    pub fn with_rounding(self, rounding: CornerRounding) -> (builder: Self)
        ensures
            builder.data == self.data,
            builder.center == self.center,
            builder.rounding == rounding,
            builder.per_vertex_rounding == self.per_vertex_rounding,
    {
        Self {
            data: self.data,
            center: self.center,
            rounding,
            per_vertex_rounding: self.per_vertex_rounding,
        }
    }

    pub fn with_rounding_per_vertex(self, roundings: Vec<CornerRounding>) -> (builder: Self)
        ensures
            builder.data == self.data,
            builder.center == self.center,
            builder.rounding == self.rounding,
            builder.per_vertex_rounding == roundings,
    {
        Self {
            data: self.data,
            center: self.center,
            rounding: self.rounding,
            per_vertex_rounding: roundings,
        }
    }
}

/// The vertices of a polygon with `count` vertices on a circle, evenly
/// spread, the first one on the x axis.
pub open spec fn spec_vertices_from_count(count: int, radius: Fixed, center: Point) -> Seq<Point> {
    Seq::new(
        count as nat,
        |i: int|
            center.spec_plus(
                spec_radial_to_cartesian(radius, spec_mul_div(TWO_PI as int, i, count) as i64),
            ),
    )
}

/// The vertices of a polygon on a circle.
pub fn vertices_from_count(count: usize, radius: Fixed, center: Point) -> (result: Vec<Point>)
    requires
        count <= i64::MAX,
    ensures
        result@ == spec_vertices_from_count(count as int, radius, center),
{
    let mut result: Vec<Point> = Vec::new();
    let mut i: usize = 0;
    while i < count
        invariant
            count <= i64::MAX,
            0 <= i <= count,
            result.len() == i,
            forall|k: int|
                0 <= k < i ==> #[trigger] result[k] == spec_vertices_from_count(
                    count as int,
                    radius,
                    center,
                )[k],
        decreases count - i,
    {
        let angle: Fixed = mul_div(TWO_PI, i as i64, count as i64);
        result.push(center.plus(radial_to_cartesian(radius, angle)));
        i = i + 1;
    }
    proof {
        assert(result@ =~= spec_vertices_from_count(count as int, radius, center));
    }
    result
}

/// The vertices of a star: `2 * num_vertices_per_radius` of them, evenly
/// spread, in turn on the outer and on the inner circle.
pub open spec fn spec_star_vertices(
    num_vertices_per_radius: int,
    radius: Fixed,
    inner_radius: Fixed,
    center: Point,
) -> Seq<Point> {
    Seq::new(
        (2 * num_vertices_per_radius) as nat,
        |i: int|
            center.spec_plus(
                spec_radial_to_cartesian(
                    if i % 2 == 0 {
                        radius
                    } else {
                        inner_radius
                    },
                    spec_mul_div(PI as int, i, num_vertices_per_radius) as i64,
                ),
            ),
    )
}

/// The vertices of a star.
pub fn star_vertices_from_num_verts(
    num_vertices_per_radius: usize,
    radius: Fixed,
    inner_radius: Fixed,
    center: Point,
) -> (result: Vec<Point>)
    requires
        2 * num_vertices_per_radius <= usize::MAX,
        2 * num_vertices_per_radius <= i64::MAX,
    ensures
        result@ == spec_star_vertices(num_vertices_per_radius as int, radius, inner_radius, center),
{
    let count: usize = num_vertices_per_radius * 2;
    let mut result: Vec<Point> = Vec::new();
    let mut i: usize = 0;
    while i < count
        invariant
            count == 2 * num_vertices_per_radius,
            count <= i64::MAX,
            0 <= i <= count,
            result.len() == i,
            forall|k: int|
                0 <= k < i ==> #[trigger] result[k] == spec_star_vertices(
                    num_vertices_per_radius as int,
                    radius,
                    inner_radius,
                    center,
                )[k],
        decreases count - i,
    {
        let angle: Fixed = mul_div(PI, i as i64, num_vertices_per_radius as i64);
        let length: Fixed = if i % 2 == 0 {
            radius
        } else {
            inner_radius
        };
        result.push(center.plus(radial_to_cartesian(length, angle)));
        i = i + 1;
    }
    proof {
        assert(result@ =~= spec_star_vertices(
            num_vertices_per_radius as int,
            radius,
            inner_radius,
            center,
        ));
    }
    result
}

impl RoundedPolygon<Point> {
    /// The builder of a circle of radius 1 with eight vertices.
    pub fn circle() -> (builder: RoundedPolygonBuilder<Circle>)
        ensures
            builder.data == (Circle { vertices: 8, radius: UNIT }),
            builder.center == (Point { x: 0, y: 0 }),
    {
        RoundedPolygonBuilder::new(Circle { vertices: 8, radius: UNIT })
    }

    /// The builder of a square with sides of length 2.
    pub fn rectangle() -> (builder: RoundedPolygonBuilder<Rectangle>)
        ensures
            builder.data == (Rectangle {
                size: Size { width: 2_000_000_000, height: 2_000_000_000 },
            }),
            builder.center == (Point { x: 0, y: 0 }),
            builder.rounding == (CornerRounding { radius: 0, smoothing: 0 }),
            builder.per_vertex_rounding@ == Seq::<CornerRounding>::empty(),
    {
        RoundedPolygonBuilder::new(
            Rectangle { size: Size { width: 2_000_000_000, height: 2_000_000_000 } },
        )
    }

    /// The builder of a star with the outer radius 1 and the inner radius
    /// 1/2.
    pub fn star(vertices_per_radius: usize) -> (builder: RoundedPolygonBuilder<Star>)
        ensures
            builder.data == (Star {
                vertices_per_radius,
                radius: UNIT,
                inner_radius: 500_000_000,
                inner_rounding: None,
            }),
            builder.center == (Point { x: 0, y: 0 }),
            builder.rounding == (CornerRounding { radius: 0, smoothing: 0 }),
            builder.per_vertex_rounding@ == Seq::<CornerRounding>::empty(),
    {
        RoundedPolygonBuilder::new(
            Star { vertices_per_radius, radius: UNIT, inner_radius: 500_000_000, inner_rounding: None },
        )
    }

    /// The builder of a pill of width 2 and height 1.
    pub fn pill() -> (builder: RoundedPolygonBuilder<Pill>)
        ensures
            builder.data == (Pill {
                size: Size { width: 2_000_000_000, height: UNIT },
                smoothing: 0,
            }),
            builder.center == (Point { x: 0, y: 0 }),
    {
        RoundedPolygonBuilder::new(
            Pill { size: Size { width: 2_000_000_000, height: UNIT }, smoothing: 0 },
        )
    }

    /// The builder of a pill star of width 2 and height 1 with eight outer
    /// vertices.
    pub fn pill_star() -> (builder: RoundedPolygonBuilder<PillStar>)
        ensures
            builder.data == (PillStar {
                size: Size { width: 2_000_000_000, height: UNIT },
                vertices_per_radius: 8,
                inner_radius_ratio: 500_000_000,
                inner_rounding: None,
                vertex_spacing: 500_000_000,
                start_location: 0,
            }),
            builder.center == (Point { x: 0, y: 0 }),
            builder.rounding == (CornerRounding { radius: 0, smoothing: 0 }),
            builder.per_vertex_rounding@ == Seq::<CornerRounding>::empty(),
    {
        RoundedPolygonBuilder::new(
            PillStar {
                size: Size { width: 2_000_000_000, height: UNIT },
                vertices_per_radius: 8,
                inner_radius_ratio: 500_000_000,
                inner_rounding: None,
                vertex_spacing: 500_000_000,
                start_location: 0,
            },
        )
    }

    /// Builds the polygon with `vertices` vertices on the circle of the
    /// given radius round the origin.
    pub fn from_vertices_count(
        vertices: usize,
        radius: Fixed,
        rounding: Option<CornerRounding>,
        per_vertex_rounding: &Vec<CornerRounding>,
    ) -> (r: Result<Self, ShapeError>)
        requires
            2 * vertices <= usize::MAX,
        ensures
            is_polygon_of(
                spec_vertices_from_count(vertices as int, radius, Point { x: 0, y: 0 }),
                match rounding {
                    Some(given) => given,
                    None => CornerRounding { radius: 0, smoothing: 0 },
                },
                per_vertex_rounding@,
                Some(Point { x: 0, y: 0 }),
                r,
            ),
    {
        Self::from_vertices_count_at(vertices, radius, Point::zero(), rounding, per_vertex_rounding)
    }

    /// Builds the polygon with `vertices` vertices on the circle of the
    /// given radius round `center`.
    pub fn from_vertices_count_at(
        vertices: usize,
        radius: Fixed,
        center: Point,
        rounding: Option<CornerRounding>,
        per_vertex_rounding: &Vec<CornerRounding>,
    ) -> (r: Result<Self, ShapeError>)
        requires
            2 * vertices <= usize::MAX,
        ensures
            is_polygon_of(
                spec_vertices_from_count(vertices as int, radius, center),
                match rounding {
                    Some(given) => given,
                    None => CornerRounding { radius: 0, smoothing: 0 },
                },
                per_vertex_rounding@,
                Some(center),
                r,
            ),
    {
        let points = vertices_from_count(vertices, radius, center);
        let rounding: CornerRounding = match rounding {
            Some(given) => given,
            None => CornerRounding::unrounded(),
        };
        Self::from_points_list(&points, rounding, per_vertex_rounding, Some(center))
    }
}

impl RoundedPolygonBuilder<Circle> {
    pub fn with_vertices(self, vertices: usize) -> (builder: Self)
        ensures
            builder.data == (Circle { vertices, radius: self.data.radius }),
            builder.center == self.center,
            builder.rounding == self.rounding,
            builder.per_vertex_rounding == self.per_vertex_rounding,
    {
        Self {
            data: Circle { vertices, radius: self.data.radius },
            center: self.center,
            rounding: self.rounding,
            per_vertex_rounding: self.per_vertex_rounding,
        }
    }

    pub fn with_radius(self, radius: Fixed) -> (builder: Self)
        ensures
            builder.data == (Circle { vertices: self.data.vertices, radius }),
            builder.center == self.center,
            builder.rounding == self.rounding,
            builder.per_vertex_rounding == self.per_vertex_rounding,
    {
        Self {
            data: Circle { vertices: self.data.vertices, radius },
            center: self.center,
            rounding: self.rounding,
            per_vertex_rounding: self.per_vertex_rounding,
        }
    }

    /// The radius of the circle through the vertices of a polygon whose
    /// sides touch the circle of the given radius.
    pub open spec fn spec_polygon_radius(vertices: int, radius: Fixed) -> Fixed {
        spec_over(radius as int, spec_cos(spec_mul_div(PI as int, 1, vertices))) as i64
    }

    /// Builds the circle: a polygon whose sides touch the circle, with
    /// every corner rounded by the radius of the circle.
    pub fn build(self) -> (r: Result<RoundedPolygon<Point>, ShapeError>)
        requires
            2 * self.data.vertices <= usize::MAX,
        ensures
            is_polygon_of(
                spec_vertices_from_count(
                    self.data.vertices as int,
                    Self::spec_polygon_radius(self.data.vertices as int, self.data.radius),
                    self.center,
                ),
                CornerRounding { radius: self.data.radius, smoothing: 0 },
                Seq::<CornerRounding>::empty(),
                Some(self.center),
                r,
            ),
    {
        let theta: Fixed = mul_div(PI, 1, self.data.vertices as i64);
        let polygon_radius: Fixed = over(self.data.radius, cos(theta));
        let none: Vec<CornerRounding> = Vec::new();
        RoundedPolygon::from_vertices_count_at(
            self.data.vertices,
            polygon_radius,
            self.center,
            Some(CornerRounding::new(self.data.radius)),
            &none,
        )
    }
}

/// The corners of a rectangle of the given size round `center`, from the one
/// with the greatest coordinates on against the outline.
pub open spec fn spec_rectangle_vertices(size: Size, center: Point) -> Seq<Point> {
    let half = Point { x: (size.width / 2) as i64, y: (size.height / 2) as i64 };
    let low = center.spec_minus(half);
    let high = center.spec_plus(half);
    seq![
        Point { x: high.x, y: high.y },
        Point { x: low.x, y: high.y },
        Point { x: low.x, y: low.y },
        Point { x: high.x, y: low.y },
    ]
}

/// Half of a length, rounded down.
fn half(length: Fixed) -> (r: Fixed)
    ensures
        r == length / 2,
{
    if length >= 0 {
        length / 2
    } else if length % 2 == 0 {
        -((-(length + 2)) / 2) - 1
    } else {
        -((-(length + 1)) / 2) - 1
    }
}

fn rectangle_vertices(size: Size, center: Point) -> (points: Vec<Point>)
    ensures
        points@ == spec_rectangle_vertices(size, center),
{
    let half_size = Point { x: half(size.width), y: half(size.height) };
    let low: Point = center.minus(half_size);
    let high: Point = center.plus(half_size);
    let mut points: Vec<Point> = Vec::new();
    points.push(Point::new(high.x, high.y));
    points.push(Point::new(low.x, high.y));
    points.push(Point::new(low.x, low.y));
    points.push(Point::new(high.x, low.y));
    proof {
        assert(points@ =~= spec_rectangle_vertices(size, center));
    }
    points
}

impl RoundedPolygonBuilder<Rectangle> {
    pub fn with_size(self, size: Size) -> (builder: Self)
        ensures
            builder.data == (Rectangle { size }),
            builder.center == self.center,
            builder.rounding == self.rounding,
            builder.per_vertex_rounding == self.per_vertex_rounding,
    {
        Self {
            data: Rectangle { size },
            center: self.center,
            rounding: self.rounding,
            per_vertex_rounding: self.per_vertex_rounding,
        }
    }

    pub fn with_width(self, width: Fixed) -> (builder: Self)
        ensures
            builder.data == (Rectangle { size: Size { width, height: self.data.size.height } }),
            builder.center == self.center,
            builder.rounding == self.rounding,
            builder.per_vertex_rounding == self.per_vertex_rounding,
    {
        Self {
            data: Rectangle { size: Size { width, height: self.data.size.height } },
            center: self.center,
            rounding: self.rounding,
            per_vertex_rounding: self.per_vertex_rounding,
        }
    }

    pub fn with_height(self, height: Fixed) -> (builder: Self)
        ensures
            builder.data == (Rectangle { size: Size { width: self.data.size.width, height } }),
            builder.center == self.center,
            builder.rounding == self.rounding,
            builder.per_vertex_rounding == self.per_vertex_rounding,
    {
        Self {
            data: Rectangle { size: Size { width: self.data.size.width, height } },
            center: self.center,
            rounding: self.rounding,
            per_vertex_rounding: self.per_vertex_rounding,
        }
    }

    pub fn with_rounding(self, rounding: CornerRounding) -> (builder: Self)
        ensures
            builder.data == self.data,
            builder.center == self.center,
            builder.rounding == rounding,
            builder.per_vertex_rounding == self.per_vertex_rounding,
    {
        Self {
            data: self.data,
            center: self.center,
            rounding,
            per_vertex_rounding: self.per_vertex_rounding,
        }
    }

    /// Sets the rounding of each of the four corners, in the order of the
    /// vertices.
    pub fn with_rounding_per_vertex(self, corners: [CornerRounding; 4]) -> (builder: Self)
        ensures
            builder.data == self.data,
            builder.center == self.center,
            builder.rounding == self.rounding,
            builder.per_vertex_rounding@ == corners@,
    {
        let mut roundings: Vec<CornerRounding> = Vec::new();
        roundings.push(corners[0]);
        roundings.push(corners[1]);
        roundings.push(corners[2]);
        roundings.push(corners[3]);
        proof {
            assert(roundings@ =~= corners@);
        }
        Self {
            data: self.data,
            center: self.center,
            rounding: self.rounding,
            per_vertex_rounding: roundings,
        }
    }

    /// Builds the rectangle.
    pub fn build(self) -> (r: Result<RoundedPolygon<Point>, ShapeError>)
        ensures
            is_polygon_of(
                spec_rectangle_vertices(self.data.size, self.center),
                self.rounding,
                self.per_vertex_rounding@,
                Some(self.center),
                r,
            ),
    {
        let vertices = rectangle_vertices(self.data.size, self.center);
        RoundedPolygon::from_points_list(
            &vertices,
            self.rounding,
            &self.per_vertex_rounding,
            Some(self.center),
        )
    }
}

/// The rounding of each vertex of a shape with `vertices_per_radius` outer
/// and as many inner vertices, outer first.
///
/// A list given per vertex wins. Without one, a rounding given for the inner
/// vertices makes the list alternate between `rounding` and it. With neither,
/// the list is empty and every vertex takes `rounding`.
pub open spec fn spec_vertex_roundings<R>(
    per_vertex_rounding: Seq<R>,
    rounding: R,
    inner_rounding: Option<R>,
    vertices_per_radius: int,
) -> Seq<R> {
    if per_vertex_rounding.len() > 0 {
        per_vertex_rounding
    } else if inner_rounding is Some {
        Seq::new(
            (2 * vertices_per_radius) as nat,
            |i: int|
                if i % 2 == 0 {
                    rounding
                } else {
                    inner_rounding->0
                },
        )
    } else {
        Seq::empty()
    }
}

/// Works out the per-vertex rounding list of a shape with inner and outer
/// vertices from what its builder was given.
pub fn vertex_roundings<R: Copy>(
    per_vertex_rounding: Vec<R>,
    rounding: R,
    inner_rounding: Option<R>,
    vertices_per_radius: usize,
) -> (r: Vec<R>)
    requires
        2 * vertices_per_radius <= usize::MAX,
    ensures
        r@ == spec_vertex_roundings(
            per_vertex_rounding@,
            rounding,
            inner_rounding,
            vertices_per_radius as int,
        ),
{
    if per_vertex_rounding.len() > 0 {
        return per_vertex_rounding;
    }
    let mut result: Vec<R> = Vec::new();
    match inner_rounding {
        Some(inner) => {
            let mut i: usize = 0;
            while i < vertices_per_radius
                invariant
                    0 <= i <= vertices_per_radius,
                    2 * vertices_per_radius <= usize::MAX,
                    inner_rounding == Some(inner),
                    result@ == spec_vertex_roundings(
                        Seq::<R>::empty(),
                        rounding,
                        inner_rounding,
                        i as int,
                    ),
                decreases vertices_per_radius - i,
            {
                result.push(rounding);
                result.push(inner);
                proof {
                    assert(result@ =~= spec_vertex_roundings(
                        Seq::<R>::empty(),
                        rounding,
                        inner_rounding,
                        i + 1,
                    ));
                }
                i = i + 1;
            }
            proof {
                assert(per_vertex_rounding@ =~= Seq::<R>::empty());
            }
        },
        None => {
            proof {
                assert(result@ =~= Seq::<R>::empty());
            }
        },
    }
    result
}

impl RoundedPolygonBuilder<Star> {
    pub fn with_radius(self, radius: Fixed) -> (builder: Self)
        ensures
            builder.data == (Star { radius, ..self.data }),
            builder.center == self.center,
            builder.rounding == self.rounding,
            builder.per_vertex_rounding == self.per_vertex_rounding,
    {
        Self {
            data: Star { radius, ..self.data },
            center: self.center,
            rounding: self.rounding,
            per_vertex_rounding: self.per_vertex_rounding,
        }
    }

    pub fn with_inner_radius(self, radius: Fixed) -> (builder: Self)
        ensures
            builder.data == (Star { inner_radius: radius, ..self.data }),
            builder.center == self.center,
            builder.rounding == self.rounding,
            builder.per_vertex_rounding == self.per_vertex_rounding,
    {
        Self {
            data: Star { inner_radius: radius, ..self.data },
            center: self.center,
            rounding: self.rounding,
            per_vertex_rounding: self.per_vertex_rounding,
        }
    }

    pub fn with_inner_rounding(self, rounding: CornerRounding) -> (builder: Self)
        ensures
            builder.data == (Star { inner_rounding: Some(rounding), ..self.data }),
            builder.center == self.center,
            builder.rounding == self.rounding,
            builder.per_vertex_rounding == self.per_vertex_rounding,
    {
        Self {
            data: Star { inner_rounding: Some(rounding), ..self.data },
            center: self.center,
            rounding: self.rounding,
            per_vertex_rounding: self.per_vertex_rounding,
        }
    }

    /// Builds the star: the polygon with all its vertices, which lie on the
    /// two radii in turn. Unless a rounding is given for each vertex, a
    /// rounding for the inner vertices makes the roundings alternate.
    pub fn build(self) -> (r: Result<RoundedPolygon<Point>, ShapeError>)
        requires
            4 * self.data.vertices_per_radius <= usize::MAX,
        ensures
            is_polygon_of(
                spec_star_vertices(
                    self.data.vertices_per_radius as int,
                    self.data.radius,
                    self.data.inner_radius,
                    self.center,
                ),
                self.rounding,
                spec_vertex_roundings(
                    self.per_vertex_rounding@,
                    self.rounding,
                    self.data.inner_rounding,
                    self.data.vertices_per_radius as int,
                ),
                Some(self.center),
                r,
            ),
    {
        let vertices = star_vertices_from_num_verts(
            self.data.vertices_per_radius,
            self.data.radius,
            self.data.inner_radius,
            self.center,
        );
        let roundings = vertex_roundings(
            self.per_vertex_rounding,
            self.rounding,
            self.data.inner_rounding,
            self.data.vertices_per_radius,
        );
        RoundedPolygon::from_points_list(&vertices, self.rounding, &roundings, Some(self.center))
    }
}

/// The corners of the rectangle round a pill, from the one with the greatest
/// coordinates on against the outline.
pub open spec fn spec_pill_vertices(size: Size, center: Point) -> Seq<Point> {
    let half_width = (size.width / 2) as i64;
    let half_height = (size.height / 2) as i64;
    seq![
        center.spec_plus(Point { x: half_width, y: half_height }),
        center.spec_plus(Point { x: spec_minus(0, half_width as int) as i64, y: half_height }),
        center.spec_minus(Point { x: half_width, y: half_height }),
        center.spec_plus(Point { x: half_width, y: spec_minus(0, half_height as int) as i64 }),
    ]
}

impl RoundedPolygonBuilder<Pill> {
    pub fn with_size(self, size: Size) -> (builder: Self)
        ensures
            builder.data == (Pill { size, ..self.data }),
            builder.center == self.center,
            builder.rounding == self.rounding,
            builder.per_vertex_rounding == self.per_vertex_rounding,
    {
        Self {
            data: Pill { size, ..self.data },
            center: self.center,
            rounding: self.rounding,
            per_vertex_rounding: self.per_vertex_rounding,
        }
    }

    pub fn with_width(self, width: Fixed) -> (builder: Self)
        ensures
            builder.data == (Pill {
                size: Size { width, height: self.data.size.height },
                ..self.data
            }),
            builder.center == self.center,
            builder.rounding == self.rounding,
            builder.per_vertex_rounding == self.per_vertex_rounding,
    {
        Self {
            data: Pill { size: Size { width, height: self.data.size.height }, ..self.data },
            center: self.center,
            rounding: self.rounding,
            per_vertex_rounding: self.per_vertex_rounding,
        }
    }

    pub fn with_height(self, height: Fixed) -> (builder: Self)
        ensures
            builder.data == (Pill {
                size: Size { width: self.data.size.width, height },
                ..self.data
            }),
            builder.center == self.center,
            builder.rounding == self.rounding,
            builder.per_vertex_rounding == self.per_vertex_rounding,
    {
        Self {
            data: Pill { size: Size { width: self.data.size.width, height }, ..self.data },
            center: self.center,
            rounding: self.rounding,
            per_vertex_rounding: self.per_vertex_rounding,
        }
    }

    pub fn with_smoothing(self, smoothing: Fixed) -> (builder: Self)
        ensures
            builder.data == (Pill { smoothing, ..self.data }),
            builder.center == self.center,
            builder.rounding == self.rounding,
            builder.per_vertex_rounding == self.per_vertex_rounding,
    {
        Self {
            data: Pill { smoothing, ..self.data },
            center: self.center,
            rounding: self.rounding,
            per_vertex_rounding: self.per_vertex_rounding,
        }
    }

    /// Builds the pill: a rectangle with every corner rounded by half the
    /// length of its shorter side.
    pub fn build(self) -> (r: Result<RoundedPolygon<Point>, ShapeError>)
        ensures
            is_polygon_of(
                spec_pill_vertices(self.data.size, self.center),
                CornerRounding {
                    radius: spec_min(self.data.size.width / 2, self.data.size.height / 2) as i64,
                    smoothing: self.data.smoothing,
                },
                Seq::<CornerRounding>::empty(),
                Some(self.center),
                r,
            ),
    {
        let half_width: Fixed = half(self.data.size.width);
        let half_height: Fixed = half(self.data.size.height);
        let mut vertices: Vec<Point> = Vec::new();
        vertices.push(self.center.plus(Point::new(half_width, half_height)));
        vertices.push(self.center.plus(Point::new(minus(0, half_width), half_height)));
        vertices.push(self.center.minus(Point::new(half_width, half_height)));
        vertices.push(self.center.plus(Point::new(half_width, minus(0, half_height))));
        proof {
            assert(vertices@ =~= spec_pill_vertices(self.data.size, self.center));
        }
        let none: Vec<CornerRounding> = Vec::new();
        RoundedPolygon::from_points_list(
            &vertices,
            CornerRounding::smoothed(min(half_width, half_height), self.data.smoothing),
            &none,
            Some(self.center),
        )
    }
}

} // verus!
