//! Rounded polygons as closed outlines of cubic Bézier curves, and morphs
//! between two of them.
//!
//! A polygon is built from its vertices, each with a rounding; its corners
//! are rounded as far as its sides leave room. A morph matches the curves of
//! two polygons and gives, for any part of the way from the one to the other,
//! the outline in between.
//!
//! Every number is an integer that counts billionths: coordinates, lengths,
//! ratios and angles alike. One whole is [`geometry::UNIT`]. A position on a
//! closed outline, its *progress*, is counted in the same units, of which
//! `UNIT` make the whole outline. Sums, products and quotients that would
//! leave the range of a coordinate stay at its end; quotients are rounded
//! down.

pub mod arith;
pub mod assembly;
pub mod bezier;
pub mod corner;
pub mod cubic;
pub mod custom;
pub mod error;
pub mod feature;
pub mod feature_mapper;
pub mod fixed;
pub mod geometry;
pub mod mapper;
pub mod measured_polygon;
pub mod measurer;
pub mod morph;
pub mod path;
pub mod pill_star;
pub mod polygon_builder;
pub mod round_trip;
pub mod rounded_polygon;
pub mod scaling;
pub mod shapes;
pub mod sweep;
pub mod text;
pub mod trig;
pub mod unit_square;
pub mod util;

pub use crate::corner::{CornerRounding, RoundedPoint};
pub use crate::cubic::Cubic;
pub use crate::error::ShapeError;
pub use crate::feature::{Feature, FeatureType};
pub use crate::mapper::DoubleMapper;
pub use crate::measured_polygon::{MeasuredCubic, MeasuredPolygon, ProgressableFeature};
pub use crate::measurer::{LengthMeasurer, Measurer};
pub use crate::morph::Morph;
pub use crate::polygon_builder::{
    Circle, HaveRadius, HaveRounding, HaveSize, Pill, PillStar, Rectangle, RoundedPolygonBuilder,
    Star,
};
pub use crate::rounded_polygon::RoundedPolygon;
pub use crate::sweep::{MatchStep, MorphPlan};
pub use crate::trig::radial_to_cartesian;
pub use crate::util::{positive_modulo, progress_distance, progress_in_range};
