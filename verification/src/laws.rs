//! Laws of the bounding region.
//!
//! Each law is stated over [`Region`], the model that the operations of
//! [`BoundingSpaceN`](crate::region::BoundingSpaceN) are specified with, and
//! holds in every dimension.

use vstd::prelude::*;
use crate::binary64::{spec_is_nan, spec_le, spec_lt};
use crate::region::Region;
use crate::value::{lemma_order_is_numeric, number, Number};

verus! {

/// A region is ordered exactly when it is not inverted and none of its bounds
/// is a NaN.
pub proof fn lemma_ordered_is_upright_and_nan_free(region: Region)
    ensures
        region.is_ordered() <==> !region.is_inverted() && region.is_nan_free(),
{
    if !region.is_inverted() && region.is_nan_free() {
        assert forall|i: int| 0 <= i < region.dim() implies spec_le(
            #[trigger] region.lower[i],
            region.upper[i],
        ) by {
            assert(!spec_lt(region.upper[i], region.lower[i]));
        }
    }
}

/// A region seeded with a NaN takes the first point it is expanded with as
/// both of its corners, as long as no coordinate of the point is a NaN.
pub proof fn lemma_nan_seed_recovers(seed: u64, point: Seq<u64>)
    requires
        spec_is_nan(seed),
        forall|i: int| 0 <= i < point.len() ==> !spec_is_nan(#[trigger] point[i]),
    ensures
        Region::uniform(point.len(), seed, seed).expand(point) == Region::at(point),
{
    let grown = Region::uniform(point.len(), seed, seed).expand(point);
    assert(grown.lower =~= point);
    assert(grown.upper =~= point);
}

/// A region that is not inverted and has no NaN bound contains both of its
/// corners: the bounds are inclusive.
pub proof fn lemma_corners_inside(region: Region)
    requires
        region.well_formed(),
        !region.is_inverted(),
        region.is_nan_free(),
    ensures
        region.contains(region.lower),
        region.contains(region.upper),
{
    lemma_ordered_is_upright_and_nan_free(region);
}

/// A point that is below the lower bound or above the upper bound on some
/// axis is not in the region.
pub proof fn lemma_outside_excluded(region: Region, point: Seq<u64>)
    requires
        exists|i: int|
            0 <= i < region.dim() && (spec_lt(#[trigger] point[i], region.lower[i]) || spec_lt(
                region.upper[i],
                point[i],
            )),
    ensures
        !region.contains(point),
{
}

/// The region made of a single point contains a second point exactly when
/// the two stand for the same numbers: on every axis neither coordinate is a
/// NaN and both encode one number. The two zeros count as one number.
pub proof fn lemma_point_region_holds_its_point_only(point: Seq<u64>, other: Seq<u64>)
    ensures
        Region::at(point).contains(other) <==> forall|i: int|
            0 <= i < point.len() ==> number(#[trigger] point[i]) != Number::Nan && number(
                point[i],
            ) == number(other[i]),
{
    let region = Region::at(point);
    assert forall|i: int| 0 <= i < point.len() implies (spec_le(#[trigger] point[i], other[i])
        && spec_le(other[i], point[i]) <==> number(point[i]) != Number::Nan && number(point[i])
        == number(other[i])) by {
        lemma_order_is_numeric(point[i], other[i]);
        lemma_order_is_numeric(other[i], point[i]);
    }
    if region.contains(other) {
        assert forall|i: int| 0 <= i < point.len() implies number(#[trigger] point[i])
            != Number::Nan && number(point[i]) == number(other[i]) by {
            assert(region.lower[i] == point[i]);
        }
    }
}

/// Expanding a region with a point that it contains changes nothing.
pub proof fn lemma_expand_inside_is_identity(region: Region, point: Seq<u64>)
    requires
        region.well_formed(),
        region.contains(point),
    ensures
        region.expand(point) == region,
{
    let grown = region.expand(point);
    assert(grown.lower =~= region.lower);
    assert(grown.upper =~= region.upper);
}

/// After expansion the region contains the point, as long as no coordinate
/// of the point is a NaN.
pub proof fn lemma_expand_encloses(region: Region, point: Seq<u64>)
    requires
        region.well_formed(),
        forall|i: int| 0 <= i < region.dim() ==> !spec_is_nan(#[trigger] point[i]),
    ensures
        region.expand(point).contains(point),
{
}

/// Expansion never drops a point: what the region contained before, it
/// contains after.
pub proof fn lemma_expand_keeps(region: Region, point: Seq<u64>, other: Seq<u64>)
    requires
        region.well_formed(),
        region.contains(other),
    ensures
        region.expand(point).contains(other),
{
}

/// Expansion grows the region no more than needed: whatever region contains
/// the point and both corners as they were contains both corners as they are
/// after the expansion.
pub proof fn lemma_expand_is_least(region: Region, point: Seq<u64>, outer: Region)
    requires
        region.well_formed(),
        outer.dim() == region.dim(),
        outer.contains(region.lower),
        outer.contains(region.upper),
        outer.contains(point),
    ensures
        outer.contains(region.expand(point).lower),
        outer.contains(region.expand(point).upper),
{
}

/// One expansion with a point free of NaN repairs any region: whatever it
/// was before, inverted or seeded with NaN, it is ordered afterwards.
pub proof fn lemma_expand_repairs(region: Region, point: Seq<u64>)
    requires
        region.well_formed(),
        forall|i: int| 0 <= i < region.dim() ==> !spec_is_nan(#[trigger] point[i]),
    ensures
        region.expand(point).is_ordered(),
{
    let grown = region.expand(point);
    assert forall|i: int| 0 <= i < grown.dim() implies spec_le(
        #[trigger] grown.lower[i],
        grown.upper[i],
    ) by {
        assert(!spec_is_nan(point[i]));
    }
}

/// An ordered region stays ordered under expansion with any point at all.
pub proof fn lemma_expand_keeps_order(region: Region, point: Seq<u64>)
    requires
        region.well_formed(),
        region.is_ordered(),
    ensures
        region.expand(point).is_ordered(),
{
}

/// The two halves of an expansion touch different corners, so their order
/// does not matter.
pub proof fn lemma_expand_halves_commute(region: Region, point: Seq<u64>)
    ensures
        region.expand_lower(point).expand_upper(point) == region.expand_upper(point).expand_lower(
            point,
        ),
{
}

} // verus!
