//! The bounding region: its mathematical model and its operations.

use vstd::prelude::*;
use crate::binary64::{le, max, min, spec_is_nan, spec_le, spec_lt, spec_max, spec_min, ZERO};
use crate::vector::{origin, repeat, zip_apply};

verus! {

/// What a bounding region is, mathematically: two corners, each a sequence of
/// coordinate encodings. Nothing asks that `lower` be below `upper`.
pub struct Region {
    pub lower: Seq<u64>,
    pub upper: Seq<u64>,
}

impl Region {
    /// The number of coordinates of the lower corner.
    pub open spec fn dim(self) -> nat {
        self.lower.len()
    }

    /// Both corners have the same number of coordinates.
    pub open spec fn well_formed(self) -> bool {
        self.lower.len() == self.upper.len()
    }

    /// The region whose corners repeat one scalar each.
    pub open spec fn uniform(dim: nat, lower: u64, upper: u64) -> Region {
        Region { lower: Seq::new(dim, |i: int| lower), upper: Seq::new(dim, |i: int| upper) }
    }

    /// The region that holds `point` and nothing else.
    pub open spec fn at(point: Seq<u64>) -> Region {
        Region { lower: point, upper: point }
    }

    /// On some axis the lower bound is above the upper bound.
    pub open spec fn is_inverted(self) -> bool {
        exists|i: int| 0 <= i < self.dim() && spec_lt(self.upper[i], #[trigger] self.lower[i])
    }

    /// No bound of either corner is a NaN.
    pub open spec fn is_nan_free(self) -> bool {
        forall|i: int|
            0 <= i < self.dim() ==> !spec_is_nan(#[trigger] self.lower[i]) && !spec_is_nan(
                self.upper[i],
            )
    }

    /// On every axis the lower bound is at most the upper bound. A region
    /// with a NaN bound, or with bounds the wrong way round, is not ordered.
    pub open spec fn is_ordered(self) -> bool {
        forall|i: int| 0 <= i < self.dim() ==> spec_le(#[trigger] self.lower[i], self.upper[i])
    }

    /// `point` lies between the corners on every axis, bounds included.
    pub open spec fn contains(self, point: Seq<u64>) -> bool {
        forall|i: int|
            #![trigger self.lower[i]]
            #![trigger self.upper[i]]
            #![trigger point[i]]
            0 <= i < self.dim() ==> spec_le(self.lower[i], point[i]) && spec_le(
                point[i],
                self.upper[i],
            )
    }

    /// The region with its lower corner pulled down to `point` where needed.
    pub open spec fn expand_lower(self, point: Seq<u64>) -> Region {
        Region {
            lower: Seq::new(self.lower.len(), |i: int| spec_min(point[i], self.lower[i])),
            upper: self.upper,
        }
    }

    /// The region with its upper corner pushed up to `point` where needed.
    pub open spec fn expand_upper(self, point: Seq<u64>) -> Region {
        Region {
            lower: self.lower,
            upper: Seq::new(self.upper.len(), |i: int| spec_max(point[i], self.upper[i])),
        }
    }

    /// The region grown on both sides to take in `point`.
    pub open spec fn expand(self, point: Seq<u64>) -> Region {
        self.expand_lower(point).expand_upper(point)
    }
}

/// An axis-aligned bounding region in `D` dimensions.
///
/// Each corner holds `D` coordinates as binary64 encodings. The corners are
/// kept as given: a region may be inverted (`lower` above `upper`) or seeded
/// with NaN, and then contains nothing until it is expanded.
#[derive(Debug, Clone, Copy)]
pub struct BoundingSpaceN<const D: usize> {
    pub lower: [u64; D],
    pub upper: [u64; D],
}

pub type BoundingSpace1 = BoundingSpaceN<1>;

pub type BoundingSpace2 = BoundingSpaceN<2>;

pub type BoundingSpace3 = BoundingSpaceN<3>;

pub type BoundingRange = BoundingSpace1;

pub type BoundingSquare = BoundingSpace2;

pub type BoundingBox = BoundingSpace3;

impl<const D: usize> View for BoundingSpaceN<D> {
    type V = Region;

    open spec fn view(&self) -> Region {
        Region { lower: self.lower@, upper: self.upper@ }
    }
}

impl<const D: usize> BoundingSpaceN<D> {
    /// Takes the two corners as they are, in whatever order they stand.
    pub fn new(lower: [u64; D], upper: [u64; D]) -> (region: Self)
        ensures
            region.lower == lower,
            region.upper == upper,
            region@ == (Region { lower: lower@, upper: upper@ }),
    {
        Self { lower, upper }
    }

    /// The region that holds `point` and nothing else.
    pub fn from_point(point: [u64; D]) -> (region: Self)
        ensures
            region.lower == point,
            region.upper == point,
            region@ == Region::at(point@),
    {
        Self::new(point, point)
    }

    /// The region whose two corners have every coordinate equal to `value`.
    ///
    /// Seeding with a NaN gives a region that contains nothing and takes the
    /// first point it is expanded with as both corners.
    pub fn from_value(value: u64) -> (region: Self)
        ensures
            region@ == Region::uniform(D as nat, value, value),
            region.lower == region.upper,
    {
        let coords: [u64; D] = repeat(value);
        let region = Self { lower: coords, upper: coords };
        proof {
            assert(region@.lower =~= Region::uniform(D as nat, value, value).lower);
            assert(region@.upper =~= Region::uniform(D as nat, value, value).upper);
        }
        region
    }

    /// The region whose lower corner repeats `lower` and whose upper corner
    /// repeats `upper`. The two are not compared.
    pub fn from_values(lower: u64, upper: u64) -> (region: Self)
        ensures
            region@ == Region::uniform(D as nat, lower, upper),
    {
        let region = Self { lower: repeat(lower), upper: repeat(upper) };
        proof {
            assert(region@.lower =~= Region::uniform(D as nat, lower, upper).lower);
            assert(region@.upper =~= Region::uniform(D as nat, lower, upper).upper);
        }
        region
    }

    /// Tells whether `point` lies in the region, bounds included.
    ///
    /// A NaN in the point or in either corner fails the test on its axis, so
    /// the answer is then `false`.
    pub fn contains(&self, point: &[u64; D]) -> (inside: bool)
        ensures
            inside == self@.contains(point@),
    {
        for i in 0..D
            invariant
                forall|k: int| 0 <= k < i ==> spec_le(#[trigger] self.lower[k], point[k]),
        {
            if !le(self.lower[i], point[i]) {
                return false;
            }
        }
        for i in 0..D
            invariant
                forall|k: int| 0 <= k < D ==> spec_le(#[trigger] self.lower[k], point[k]),
                forall|k: int| 0 <= k < i ==> spec_le(point[k], #[trigger] self.upper[k]),
        {
            if !le(point[i], self.upper[i]) {
                return false;
            }
        }
        true
    }

    /// Lowers each lower bound to the point's coordinate where that is less.
    pub fn expand_lower(&mut self, point: &[u64; D])
        ensures
            final(self)@ == old(self)@.expand_lower(point@),
    {
        let keep_least = |current: u64, candidate: u64| -> (least: u64)
            ensures
                least == spec_min(candidate, current),
            { min(candidate, current) };
        zip_apply(&mut self.lower, point, keep_least);
        proof {
            assert(self@.lower =~= old(self)@.expand_lower(point@).lower);
        }
    }

    /// Raises each upper bound to the point's coordinate where that is more.
    pub fn expand_upper(&mut self, point: &[u64; D])
        ensures
            final(self)@ == old(self)@.expand_upper(point@),
    {
        let keep_most = |current: u64, candidate: u64| -> (most: u64)
            ensures
                most == spec_max(candidate, current),
            { max(candidate, current) };
        zip_apply(&mut self.upper, point, keep_most);
        proof {
            assert(self@.upper =~= old(self)@.expand_upper(point@).upper);
        }
    }

    /// Grows the region as little as it takes to hold `point` too.
    pub fn expand(&mut self, point: &[u64; D])
        ensures
            final(self)@ == old(self)@.expand(point@),
    {
        self.expand_lower(point);
        self.expand_upper(point);
    }
}

impl<const D: usize> Default for BoundingSpaceN<D> {
    /// The region that holds the origin and nothing else.
    fn default() -> (region: Self)
        ensures
            region@ == Region::uniform(D as nat, ZERO, ZERO),
            region.lower == region.upper,
            region@.is_ordered(),
    {
        let region = Self { lower: origin(), upper: origin() };
        proof {
            assert(region@.lower =~= Region::uniform(D as nat, ZERO, ZERO).lower);
            assert(region@.upper =~= Region::uniform(D as nat, ZERO, ZERO).upper);
            assert(region.lower =~= region.upper);
        }
        region
    }
}

} // verus!
