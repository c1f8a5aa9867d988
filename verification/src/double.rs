//! Double precision numbers, by their bits.
//!
//! The rules compare doubles, ask whether one is finite and whether one is
//! zero; all of that can be read off the bits of the number.

use vstd::prelude::*;

verus! {

/// The bit that is set in a negative number.
pub const SIGN: u64 = 0x8000_0000_0000_0000;

/// The bits of positive infinity; a magnitude above it is not a number.
pub const INFINITY: u64 = 0x7ff0_0000_0000_0000;

/// A double precision number, as the bits of its IEEE 754 form.
#[derive(Clone, Copy, Debug)]
pub struct Double {
    pub bits: u64,
}

impl Double {
    /// The bits less the sign, which order the numbers of one sign.
    pub open spec fn spec_magnitude(self) -> int {
        if self.bits >= SIGN {
            self.bits - SIGN
        } else {
            self.bits as int
        }
    }

    /// Whether this is not a number.
    pub open spec fn spec_nan(self) -> bool {
        self.spec_magnitude() > INFINITY
    }

    /// Where the number stands among the numbers: `a < b` exactly when the
    /// position of `a` is below that of `b`. The two zeros share a position.
    pub open spec fn position(self) -> int {
        if self.bits >= SIGN {
            -self.spec_magnitude()
        } else {
            self.spec_magnitude()
        }
    }

    /// Whether this is a number other than the two infinities.
    pub open spec fn spec_finite(self) -> bool {
        self.spec_magnitude() < INFINITY
    }

    /// The bits less the sign.
    fn magnitude(self) -> (r: u64)
        ensures
            r == self.spec_magnitude(),
    {
        if self.bits >= SIGN {
            self.bits - SIGN
        } else {
            self.bits
        }
    }

    /// Whether this is not a number.
    pub fn is_nan(self) -> (r: bool)
        ensures
            r == self.spec_nan(),
    {
        self.magnitude() > INFINITY
    }

    /// Whether this is a number other than the two infinities.
    pub fn is_finite(self) -> (r: bool)
        ensures
            r == self.spec_finite(),
    {
        self.magnitude() < INFINITY
    }

    /// Whether this is one of the two zeros.
    pub fn is_zero(self) -> (r: bool)
        ensures
            r == (self.position() == 0),
    {
        self.magnitude() == 0
    }

    /// Whether this stands below `other`.
    pub fn is_below(self, other: Double) -> (r: bool)
        ensures
            r == (self.position() < other.position()),
    {
        let a: u64 = self.magnitude();
        let b: u64 = other.magnitude();
        if self.bits >= SIGN {
            if other.bits >= SIGN {
                a > b
            } else {
                a > 0 || b > 0
            }
        } else if other.bits >= SIGN {
            false
        } else {
            a < b
        }
    }
}

} // verus!
