//! Coordinate arrays, built and combined through `nalgebra`.
//!
//! Each function here hands fixed-size arrays of encodings to one `nalgebra`
//! operation and takes an array back. Their contracts are trusted: they say
//! what `nalgebra` documents of the operation, and nothing proves them.

use vstd::prelude::*;

verus! {

/// Calls `nalgebra::SVector::repeat`. Trusted: every component of the vector
/// it makes is `value`.
#[verifier::external_body]
pub(crate) fn repeat<const D: usize>(value: u64) -> (out: [u64; D])
    ensures
        forall|i: int| 0 <= i < D ==> out[i] == value,
{
    nalgebra::SVector::<u64, D>::repeat(value).into()
}

/// Calls `nalgebra::Point::origin`. Trusted: every coordinate of the point it
/// makes is zero, which as an encoding is positive zero.
#[verifier::external_body]
pub(crate) fn origin<const D: usize>() -> (out: [u64; D])
    ensures
        forall|i: int| 0 <= i < D ==> out[i] == 0,
{
    nalgebra::Point::<u64, D>::origin().into()
}

/// Calls `nalgebra::Matrix::zip_apply`. Trusted: each component of `lhs` is
/// replaced by what `f` returns for it and the component of `rhs` at the same
/// index, and `f` is called on such pairs only.
#[verifier::external_body]
pub(crate) fn zip_apply<const D: usize, F: Fn(u64, u64) -> u64>(
    lhs: &mut [u64; D],
    rhs: &[u64; D],
    f: F,
)
    requires
        forall|i: int| 0 <= i < D ==> call_requires(f, (#[trigger] old(lhs)[i], rhs[i])),
    ensures
        forall|i: int|
            0 <= i < D ==> call_ensures(f, (old(lhs)[i], rhs[i]), #[trigger] final(lhs)[i]),
{
    let mut left = nalgebra::SVector::<u64, D>::from(*lhs);
    left.zip_apply(&nalgebra::SVector::<u64, D>::from(*rhs), |l, r| *l = f(*l, r));
    *lhs = left.into();
}

} // verus!
