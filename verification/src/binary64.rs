//! The ordering of IEEE 754 binary64 numbers, read off their encodings.
//!
//! An encoding is the 64-bit pattern of a binary64 number: one sign bit,
//! eleven exponent bits, fifty-two fraction bits. With the sign bit taken
//! away, the remaining 63 bits grow with the absolute value of the number
//! they encode, infinity sits at [`INFINITY`], and everything above it is a
//! NaN. That is all the ordering needs.

use vstd::prelude::*;

verus! {

/// The sign bit of an encoding.
pub const SIGN: u64 = 0x8000_0000_0000_0000;

/// The encoding of positive infinity. A larger magnitude encodes a NaN.
pub const INFINITY: u64 = 0x7ff0_0000_0000_0000;

/// The encoding of positive zero.
pub const ZERO: u64 = 0;

/// The encoding without its sign bit.
pub open spec fn spec_magnitude(x: u64) -> u64 {
    if x >= SIGN {
        (x - SIGN) as u64
    } else {
        x
    }
}

/// Whether the encoding carries the sign bit.
pub open spec fn spec_is_negative(x: u64) -> bool {
    x >= SIGN
}

/// Whether the encoding is a NaN, of either sign and any payload.
pub open spec fn spec_is_nan(x: u64) -> bool {
    spec_magnitude(x) > INFINITY
}

/// Where a number stands on the extended real line, as an integer that grows
/// with the number. Both zeros stand at 0, the infinities at the two ends.
/// Meaningful for encodings that are not NaN.
pub open spec fn rank(x: u64) -> int {
    if spec_is_negative(x) {
        -(spec_magnitude(x) as int)
    } else {
        spec_magnitude(x) as int
    }
}

/// `a < b` as binary64 numbers: false as soon as either is a NaN.
pub open spec fn spec_lt(a: u64, b: u64) -> bool {
    !spec_is_nan(a) && !spec_is_nan(b) && rank(a) < rank(b)
}

/// `a <= b` as binary64 numbers: false as soon as either is a NaN.
pub open spec fn spec_le(a: u64, b: u64) -> bool {
    !spec_is_nan(a) && !spec_is_nan(b) && rank(a) <= rank(b)
}

/// The lesser of a candidate and a current bound. A NaN on either side gives
/// way to the other operand; between two numbers that compare equal the
/// current bound stays.
pub open spec fn spec_min(candidate: u64, current: u64) -> u64 {
    if spec_is_nan(candidate) {
        current
    } else if spec_is_nan(current) || spec_lt(candidate, current) {
        candidate
    } else {
        current
    }
}

/// The greater of a candidate and a current bound. A NaN on either side gives
/// way to the other operand; between two numbers that compare equal the
/// current bound stays.
pub open spec fn spec_max(candidate: u64, current: u64) -> u64 {
    if spec_is_nan(candidate) {
        current
    } else if spec_is_nan(current) || spec_lt(current, candidate) {
        candidate
    } else {
        current
    }
}

/// Strips the sign bit.
pub fn magnitude(x: u64) -> (m: u64)
    ensures
        m == spec_magnitude(x),
{
    if x >= SIGN {
        x - SIGN
    } else {
        x
    }
}

/// Tells whether the sign bit is set.
pub fn is_negative(x: u64) -> (negative: bool)
    ensures
        negative == spec_is_negative(x),
{
    x >= SIGN
}

/// Tells whether the encoding is a NaN.
pub fn is_nan(x: u64) -> (nan: bool)
    ensures
        nan == spec_is_nan(x),
{
    magnitude(x) > INFINITY
}

/// Decides `a < b`.
pub fn lt(a: u64, b: u64) -> (less: bool)
    ensures
        less == spec_lt(a, b),
{
    if is_nan(a) || is_nan(b) {
        return false;
    }
    let ma: u64 = magnitude(a);
    let mb: u64 = magnitude(b);
    if is_negative(a) {
        if is_negative(b) {
            ma > mb
        } else {
            ma > 0 || mb > 0
        }
    } else {
        !is_negative(b) && ma < mb
    }
}

/// Decides `a <= b`.
pub fn le(a: u64, b: u64) -> (at_most: bool)
    ensures
        at_most == spec_le(a, b),
{
    if is_nan(a) || is_nan(b) {
        return false;
    }
    !lt(b, a)
}

/// Returns the lesser of `candidate` and `current`, discarding a NaN.
pub fn min(candidate: u64, current: u64) -> (least: u64)
    ensures
        least == spec_min(candidate, current),
{
    if is_nan(candidate) {
        current
    } else if is_nan(current) || lt(candidate, current) {
        candidate
    } else {
        current
    }
}

/// Returns the greater of `candidate` and `current`, discarding a NaN.
pub fn max(candidate: u64, current: u64) -> (most: u64)
    ensures
        most == spec_max(candidate, current),
{
    if is_nan(candidate) {
        current
    } else if is_nan(current) || lt(current, candidate) {
        candidate
    } else {
        current
    }
}

/// A NaN is unordered: it is neither below, nor above, nor level with
/// anything, itself included.
pub proof fn lemma_nan_is_unordered(nan: u64, x: u64)
    requires
        spec_is_nan(nan),
    ensures
        !spec_le(nan, x),
        !spec_le(x, nan),
        !spec_lt(nan, x),
        !spec_lt(x, nan),
{
}

/// Away from NaN, `<=` is a total preorder: reflexive, transitive, and any
/// two numbers are comparable. Only the two zeros are level with each other
/// without having the same encoding.
pub proof fn lemma_le_is_total_preorder(a: u64, b: u64, c: u64)
    requires
        !spec_is_nan(a),
        !spec_is_nan(b),
        !spec_is_nan(c),
    ensures
        spec_le(a, a),
        spec_le(a, b) && spec_le(b, c) ==> spec_le(a, c),
        spec_le(a, b) || spec_le(b, a),
        spec_le(a, b) && spec_le(b, a) ==> a == b || (spec_magnitude(a) == 0 && spec_magnitude(b)
            == 0),
{
}

/// `<` is the strict part of `<=`.
pub proof fn lemma_lt_is_strict_le(a: u64, b: u64)
    ensures
        spec_lt(a, b) <==> spec_le(a, b) && !spec_le(b, a),
{
}

/// A NaN gives way: the minimum and the maximum of a NaN candidate and `x`
/// are `x`, and so are those of a candidate `x` and a NaN bound unless `x` is
/// a NaN too, in which case the bound stays.
pub proof fn lemma_nan_gives_way(nan: u64, x: u64)
    requires
        spec_is_nan(nan),
    ensures
        spec_min(nan, x) == x,
        spec_max(nan, x) == x,
        spec_min(x, nan) == if spec_is_nan(x) { nan } else { x },
        spec_max(x, nan) == if spec_is_nan(x) { nan } else { x },
{
}

/// Between two numbers the minimum is one of them and at most both, the
/// maximum is one of them and at least both.
pub proof fn lemma_min_max_bound(a: u64, b: u64)
    requires
        !spec_is_nan(a),
        !spec_is_nan(b),
    ensures
        spec_min(a, b) == a || spec_min(a, b) == b,
        spec_le(spec_min(a, b), a) && spec_le(spec_min(a, b), b),
        spec_max(a, b) == a || spec_max(a, b) == b,
        spec_le(a, spec_max(a, b)) && spec_le(b, spec_max(a, b)),
{
}

} // verus!
