use vstd::prelude::*;
use crate::cubic::Cubic;
use crate::geometry::PointTransformer;

verus! {

/// What part of a polygon a group of curves stands for.
#[derive(Debug, Clone, Copy, PartialEq, Eq, Structural, PartialOrd, Ord)]
pub enum FeatureType {
    /// The stretch between two corners.
    Edge,
    /// A vertex, rounded or not, that turns outwards (`convex`) or inwards.
    Corner { convex: bool },
}

/// A group of consecutive curves of an outline together with what they stand
/// for.
#[derive(Debug, Clone, PartialEq)]
pub struct Feature<P> {
    pub ty: FeatureType,
    pub cubics: Vec<Cubic<P>>,
}

impl<P: Copy> Feature<P> {
    pub fn edge(cubics: Vec<Cubic<P>>) -> (feature: Self)
        ensures
            feature.ty == FeatureType::Edge,
            feature.cubics == cubics,
    {
        Self { cubics, ty: FeatureType::Edge }
    }

    pub fn corner(cubics: Vec<Cubic<P>>, convex: bool) -> (feature: Self)
        ensures
            feature.ty == (FeatureType::Corner { convex }),
            feature.cubics == cubics,
    {
        Self { cubics, ty: FeatureType::Corner { convex } }
    }

    /// `moved` is what `f` made of this feature: the same kind of feature,
    /// with each curve made of what `f` returned for the points of the
    /// curve in the same place.
    pub open spec fn is_transformed_to<T: PointTransformer<P>>(&self, f: &T, moved: Self) -> bool {
        &&& moved.ty == self.ty
        &&& moved.cubics.len() == self.cubics.len()
        &&& forall|i: int|
            0 <= i < self.cubics.len() ==> self.cubics[i].is_transformed_to(
                f,
                #[trigger] moved.cubics[i],
            )
    }

    /// Returns the feature with every point of every curve sent through `f`.
    pub fn transformed<T: PointTransformer<P>>(self, f: &T) -> (feature: Self)
        ensures
            self.is_transformed_to(f, feature),
    {
        self.moved_by(f)
    }

    /// The feature with every point of every curve sent through `f`.
    pub(crate) fn moved_by<T: PointTransformer<P>>(&self, f: &T) -> (feature: Self)
        ensures
            self.is_transformed_to(f, feature),
    {
        let mut cubics: Vec<Cubic<P>> = Vec::new();
        let mut i: usize = 0;
        while i < self.cubics.len()
            invariant
                0 <= i <= self.cubics.len(),
                cubics.len() == i,
                forall|k: int|
                    0 <= k < i ==> self.cubics[k].is_transformed_to(f, #[trigger] cubics[k]),
            decreases self.cubics.len() - i,
        {
            cubics.push(self.cubics[i].transformed(f));
            i = i + 1;
        }
        Self { cubics, ty: self.ty }
    }

    /// Whether the feature is a corner, convex or concave.
    pub open spec fn spec_is_corner(&self) -> bool {
        self.ty is Corner
    }

    /// Returns `true` if the feature is a corner.
    pub fn is_corner(&self) -> (r: bool)
        ensures
            r == self.spec_is_corner(),
    {
        match self.ty {
            FeatureType::Corner { .. } => true,
            FeatureType::Edge => false,
        }
    }

    /// For a corner, hands its convexity to `func` and returns what `func`
    /// returns; for an edge, returns `false` without calling `func`.
    pub fn is_corner_and<F: FnOnce(bool) -> bool>(&self, func: F) -> (r: bool)
        requires
            self.ty matches FeatureType::Corner { convex } ==> func.requires((convex,)),
        ensures
            match self.ty {
                FeatureType::Corner { convex } => func.ensures((convex,), r),
                FeatureType::Edge => !r,
            },
    {
        match self.ty {
            FeatureType::Corner { convex } => func(convex),
            FeatureType::Edge => false,
        }
    }
}

} // verus!
