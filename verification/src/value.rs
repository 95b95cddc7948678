//! The numbers that encodings stand for.
//!
//! [`number`] reads an encoding as IEEE 754 binary64 prescribes: a NaN, an
//! infinity, or a sign and a whole count of units of 2^-1074, the least
//! positive binary64 number. [`lemma_order_is_numeric`] then proves that the
//! ordering of encodings defined in [`binary64`](crate::binary64) is the
//! ordering of the numbers they stand for.

use vstd::prelude::*;
use vstd::arithmetic::power2::{
    lemma_pow2_pos, lemma_pow2_strictly_increases, lemma_pow2_unfold, pow2,
};
use crate::binary64::{
    rank, spec_is_nan, spec_is_negative, spec_le, spec_lt, spec_magnitude, INFINITY,
};

verus! {

/// The weight of the leading bit of a significand, 2^52. It is implicit in the
/// encoding of a normal number.
pub const HIDDEN_BIT: u64 = 0x0010_0000_0000_0000;

/// The biased exponent, the eleven bits below the sign bit.
pub open spec fn exponent(x: u64) -> nat {
    (spec_magnitude(x) / HIDDEN_BIT) as nat
}

/// The fraction, the low fifty-two bits.
pub open spec fn fraction(x: u64) -> nat {
    (spec_magnitude(x) % HIDDEN_BIT) as nat
}

/// The absolute value of a finite number, counted in units of 2^-1074. A
/// subnormal number is its fraction; a normal number puts the hidden bit on
/// top of the fraction and doubles with each step of the exponent.
pub open spec fn units(x: u64) -> nat {
    if exponent(x) == 0 {
        fraction(x)
    } else {
        ((HIDDEN_BIT + fraction(x)) * pow2((exponent(x) - 1) as nat)) as nat
    }
}

/// What an encoding stands for.
pub enum Number {
    /// Not a number.
    Nan,
    /// Positive or negative infinity.
    Infinite { negative: bool },
    /// The finite number `units` times 2^-1074. Both zeros are `units: 0`.
    Finite { units: int },
}

impl Number {
    /// `self < other` on the extended real line. A NaN is below nothing and
    /// nothing is below it.
    pub open spec fn lt(self, other: Number) -> bool {
        match (self, other) {
            (Number::Nan, _) => false,
            (_, Number::Nan) => false,
            (Number::Infinite { negative: n1 }, Number::Infinite { negative: n2 }) => n1 && !n2,
            (Number::Infinite { negative }, Number::Finite { .. }) => negative,
            (Number::Finite { .. }, Number::Infinite { negative }) => !negative,
            (Number::Finite { units: u1 }, Number::Finite { units: u2 }) => u1 < u2,
        }
    }

    /// `self <= other` on the extended real line.
    pub open spec fn le(self, other: Number) -> bool {
        self.lt(other) || (self != Number::Nan && self == other)
    }
}

/// The number that `x` encodes.
pub open spec fn number(x: u64) -> Number {
    if spec_is_nan(x) {
        Number::Nan
    } else if spec_magnitude(x) == INFINITY {
        Number::Infinite { negative: spec_is_negative(x) }
    } else if spec_is_negative(x) {
        Number::Finite { units: -(units(x) as int) }
    } else {
        Number::Finite { units: units(x) as int }
    }
}

/// Among finite numbers a larger magnitude encodes a larger absolute value.
pub proof fn lemma_units_increase(a: u64, b: u64)
    requires
        spec_magnitude(a) < spec_magnitude(b) < INFINITY,
    ensures
        units(a) < units(b),
{
    let (ea, fa) = (exponent(a), fraction(a));
    let (eb, fb) = (exponent(b), fraction(b));
    let h = HIDDEN_BIT as int;
    assert(spec_magnitude(a) == ea * h + fa && fa < h);
    assert(spec_magnitude(b) == eb * h + fb && fb < h);
    assert(ea <= eb);
    if ea == eb {
        if ea != 0 {
            let p = pow2((ea - 1) as nat) as int;
            lemma_pow2_pos((ea - 1) as nat);
            assert((h + fa) * p < (h + fb) * p) by (nonlinear_arith)
                requires
                    p > 0,
                    fa < fb,
            ;
        }
    } else {
        let q = pow2((eb - 1) as nat) as int;
        lemma_pow2_pos((eb - 1) as nat);
        assert(h <= (h + fb) * q) by (nonlinear_arith)
            requires
                q >= 1,
                h >= 0,
                fb >= 0,
        ;
        if ea != 0 {
            let p = pow2((ea - 1) as nat) as int;
            lemma_pow2_pos((ea - 1) as nat);
            lemma_pow2_unfold(ea);
            if ea < eb - 1 {
                lemma_pow2_strictly_increases(ea, (eb - 1) as nat);
            }
            assert(2 * p <= q);
            assert((h + fa) * p < (h + fb) * q) by (nonlinear_arith)
                requires
                    p > 0,
                    2 * p <= q,
                    0 <= fa < h,
                    fb >= 0,
            ;
        }
    }
}

/// A finite number is zero exactly when its magnitude is.
pub proof fn lemma_units_zero(x: u64)
    requires
        spec_magnitude(x) < INFINITY,
    ensures
        units(x) == 0 <==> spec_magnitude(x) == 0,
{
    if spec_magnitude(x) > 0 {
        lemma_units_increase(0, x);
    }
}

/// The ordering of encodings is the ordering of the numbers they stand for.
pub proof fn lemma_order_is_numeric(a: u64, b: u64)
    ensures
        spec_lt(a, b) <==> number(a).lt(number(b)),
        spec_le(a, b) <==> number(a).le(number(b)),
{
    let (ma, mb) = (spec_magnitude(a), spec_magnitude(b));
    if ma < INFINITY && mb < INFINITY {
        lemma_units_zero(a);
        lemma_units_zero(b);
        if ma < mb {
            lemma_units_increase(a, b);
        } else if mb < ma {
            lemma_units_increase(b, a);
        } else {
            assert(units(a) == units(b));
        }
    }
}

} // verus!
