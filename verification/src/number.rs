//! JSON numbers: whole numbers and finite binary floating-point numbers.

use vstd::prelude::*;
use crate::json::Num;

verus! {

/// The bit pattern of negative zero in binary64.
pub const NEGATIVE_ZERO: u64 = 0x8000_0000_0000_0000;

/// Whether a binary64 bit pattern stands for a finite number: its exponent
/// field is not all ones, so it is neither an infinity nor a NaN.
pub open spec fn is_finite(bits: u64) -> bool {
    (bits >> 52) & 0x7ff != 0x7ff
}

/// The bit pattern by which a finite float is known: its own, but for
/// negative zero, which is known by the pattern of zero.
pub open spec fn canonical(bits: u64) -> u64 {
    if bits == NEGATIVE_ZERO {
        0
    } else {
        bits
    }
}

/// How a number is held.
#[derive(Debug, Clone, Copy)]
enum Repr {
    /// A whole number from zero up.
    Unsigned(u64),
    /// A whole number below zero.
    Negative(i64),
    /// A finite float, by its binary64 bit pattern.
    Float(u64),
}

/// A JSON number.
///
/// It is a whole number from `i64::MIN` to `u64::MAX`, or a finite
/// floating-point number in binary64. The two kinds are kept apart: the whole
/// number 6 and the floating-point number 6.0 are different numbers.
#[derive(Debug, Clone, Copy)]
pub struct Number {
    repr: Repr,
}

impl Number {
    /// The number as a mathematical object.
    pub closed spec fn view(&self) -> Num {
        match self.repr {
            Repr::Unsigned(n) => Num::Integer(n as int),
            Repr::Negative(n) => Num::Integer(n as int),
            Repr::Float(bits) => Num::Float(canonical(bits)),
        }
    }

    /// The invariant of the type: a whole number below zero is held as such,
    /// and a float is finite.
    #[verifier::type_invariant]
    spec fn well_formed(self) -> bool {
        match self.repr {
            Repr::Unsigned(_) => true,
            Repr::Negative(n) => n < 0,
            Repr::Float(bits) => is_finite(bits),
        }
    }

    /// The whole number `n`.
    pub fn from_u64(n: u64) -> (r: Number)
        ensures
            r@ == Num::Integer(n as int),
    {
        Number { repr: Repr::Unsigned(n) }
    }

    /// The whole number `n`.
    pub fn from_i64(n: i64) -> (r: Number)
        ensures
            r@ == Num::Integer(n as int),
    {
        if n < 0 {
            Number { repr: Repr::Negative(n) }
        } else {
            Number { repr: Repr::Unsigned(n as u64) }
        }
    }

    /// The floating-point number with the binary64 bit pattern `bits`, if
    /// that is a finite number; nothing for an infinity or a NaN.
    pub fn from_f64_bits(bits: u64) -> (r: Option<Number>)
        ensures
            match r {
                Some(n) => is_finite(bits) && n@ == Num::Float(canonical(bits)),
                None => !is_finite(bits),
            },
    {
        if (bits >> 52) & 0x7ff != 0x7ff {
            Some(Number { repr: Repr::Float(bits) })
        } else {
            None
        }
    }

    /// Whether the two are the same number.
    ///
    /// Whole numbers are the same when they have the same value, floats when
    /// they have the same bit pattern or are both zero, of either sign; a
    /// whole number and a float are never the same.
    pub fn equals(&self, other: &Number) -> (r: bool)
        ensures
            r == (self@ == other@),
    {
        proof {
            use_type_invariant(self);
            use_type_invariant(other);
        }
        match self.repr {
            Repr::Unsigned(a) => match other.repr {
                Repr::Unsigned(b) => a == b,
                _ => false,
            },
            Repr::Negative(a) => match other.repr {
                Repr::Negative(b) => a == b,
                _ => false,
            },
            Repr::Float(a) => match other.repr {
                Repr::Float(b) => a == b || ((a == 0 || a == NEGATIVE_ZERO) && (b == 0 || b
                    == NEGATIVE_ZERO)),
                _ => false,
            },
        }
    }
}

} // verus!
