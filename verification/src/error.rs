use vstd::prelude::*;

verus! {

/// Why an input was rejected.
#[derive(Debug, Clone, Copy, PartialEq, Eq, Structural)]
pub enum ShapeError {
    /// Fewer than three vertices were supplied.
    InvalidVertexCount,
    /// A flat list of coordinates has odd length.
    VertexArrayMisshape,
    /// A per-vertex rounding list is neither empty nor as long as the vertex list.
    PerVertexRoundingLengthMismatch,
    /// A progress value lies outside the range it is allowed in.
    ProgressOutOfRange,
    /// Two neighbouring progress values of a mapping are too close on the circle.
    ProgressRepeat,
    /// A progress list wraps around more than once.
    MultipleWrap,
    /// A sweep over two outlines used one up before the other.
    UnmatchedMorph,
    /// A vector without length has no direction.
    ZeroDirection,
    /// An outline has no curve that covers a part of it worth measuring.
    NothingToMeasure,
}

} // verus!
