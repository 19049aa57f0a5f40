//! Real quantities as bit patterns, and their order.

use vstd::prelude::*;

verus! {

/// A real quantity of the simulation, held as the 32 bits of its IEEE-754
/// single-precision form: a sign bit and 31 bits of magnitude, of which the
/// patterns above that of infinity are not numbers. The library stores,
/// copies, orders and transmits scalars; it never does arithmetic on them.
#[derive(Clone, Copy, Debug, PartialEq, Eq, Structural)]
pub struct Scalar {
    pub bits: u32,
}

/// Bit pattern of the scalar one.
pub const ONE_BITS: u32 = 0x3F80_0000;

/// Bit pattern of the scalar one and a half.
pub const ONE_AND_HALF_BITS: u32 = 0x3FC0_0000;

/// Bit pattern of the scalar 20.
pub const TWENTY_BITS: u32 = 0x41A0_0000;

/// Bit pattern of the scalar 30.
pub const THIRTY_BITS: u32 = 0x41F0_0000;

/// Bit pattern of the scalar 50.
pub const FIFTY_BITS: u32 = 0x4248_0000;

/// Bit pattern of the scalar 100.
pub const HUNDRED_BITS: u32 = 0x42C8_0000;

/// Bit pattern of the scalar 200.
pub const TWO_HUNDRED_BITS: u32 = 0x4348_0000;

/// Bit pattern of the scalar 650.
pub const SIX_HUNDRED_FIFTY_BITS: u32 = 0x4422_8000;

/// Bit pattern of the scalar 850.
pub const EIGHT_HUNDRED_FIFTY_BITS: u32 = 0x4454_8000;

/// Bit pattern of the scalar 600.
pub const SIX_HUNDRED_BITS: u32 = 0x4416_0000;

/// Bit pattern of the scalar 800.
pub const EIGHT_HUNDRED_BITS: u32 = 0x4448_0000;

/// Bit pattern of the scalar 1000.
pub const THOUSAND_BITS: u32 = 0x447A_0000;

/// Bit pattern of positive infinity, the largest magnitude that is a number.
pub const INFINITY_BITS: u32 = 0x7F80_0000;

/// The sign bit; as a pattern, negative zero.
pub const SIGN_BIT: u32 = 0x8000_0000;

/// Bit pattern of the scalar 1200.
pub const TWELVE_HUNDRED_BITS: u32 = 0x4496_0000;

/// Bit pattern of the scalar 1600.
pub const SIXTEEN_HUNDRED_BITS: u32 = 0x44C8_0000;

impl Scalar {
    /// Positive zero: all bits clear.
    pub open spec fn zero() -> Scalar {
        Scalar { bits: 0 }
    }

    /// The scalar with the given bit pattern.
    pub fn from_bits(bits: u32) -> (s: Scalar)
        ensures
            s.bits == bits,
    {
        Scalar { bits }
    }

    /// The bit pattern of this scalar.
    pub fn to_bits(self) -> (bits: u32)
        ensures
            bits == self.bits,
    {
        self.bits
    }

    /// Positive zero.
    pub fn new_zero() -> (s: Scalar)
        ensures
            s == Scalar::zero(),
    {
        Scalar { bits: 0 }
    }

    /// The magnitude bits: the pattern without its sign.
    pub open spec fn magnitude(self) -> int {
        self.bits as int % 0x8000_0000
    }

    /// The pattern stands for no number.
    pub open spec fn is_nan(self) -> bool {
        self.magnitude() > INFINITY_BITS
    }

    /// Where a scalar that is a number stands among the others: its
    /// magnitude bits, counted downwards from zero for a negative sign. Both
    /// zeros stand in one place.
    pub open spec fn place(self) -> int {
        if self.bits >= SIGN_BIT {
            -self.magnitude()
        } else {
            self.magnitude()
        }
    }

    /// This scalar is less than `other`, in the order of the numbers they
    /// stand for. What is no number is neither less nor greater than anything.
    pub open spec fn less(self, other: Scalar) -> bool {
        !self.is_nan() && !other.is_nan() && self.place() < other.place()
    }

    /// This scalar, or the nearer of the two limits where it lies outside
    /// them. What is no number stays what it is.
    pub open spec fn clamped(self, lo: Scalar, hi: Scalar) -> Scalar {
        if self.less(lo) {
            lo
        } else if hi.less(self) {
            hi
        } else {
            self
        }
    }

    /// The same magnitude with the other sign.
    pub open spec fn negated(self) -> Scalar {
        Scalar { bits: if self.bits >= SIGN_BIT {
            (self.bits - SIGN_BIT) as u32
        } else {
            (self.bits + SIGN_BIT) as u32
        } }
    }

    /// The same magnitude with the other sign.
    pub fn neg(self) -> (s: Scalar)
        ensures
            s == self.negated(),
    {
        if self.bits >= SIGN_BIT {
            Scalar { bits: self.bits - SIGN_BIT }
        } else {
            Scalar { bits: self.bits + SIGN_BIT }
        }
    }

    /// Whether the pattern stands for no number.
    pub fn is_not_a_number(self) -> (r: bool)
        ensures
            r == self.is_nan(),
    {
        self.bits % SIGN_BIT > INFINITY_BITS
    }

    /// Whether this scalar is less than `other`.
    pub fn lt(self, other: Scalar) -> (r: bool)
        ensures
            r == self.less(other),
    {
        let a: u32 = self.bits % SIGN_BIT;
        let b: u32 = other.bits % SIGN_BIT;
        if a > INFINITY_BITS || b > INFINITY_BITS {
            return false;
        }
        let a_negative: bool = self.bits >= SIGN_BIT;
        let b_negative: bool = other.bits >= SIGN_BIT;
        if a_negative {
            if b_negative {
                a > b
            } else {
                a > 0 || b > 0
            }
        } else {
            if b_negative {
                false
            } else {
                a < b
            }
        }
    }

    /// This scalar held within `lo` and `hi`.
    pub fn clamp(self, lo: Scalar, hi: Scalar) -> (s: Scalar)
        ensures
            s == self.clamped(lo, hi),
    {
        if self.lt(lo) {
            lo
        } else if hi.lt(self) {
            hi
        } else {
            self
        }
    }

    /// The order of scalars is strict: nothing is less than itself, and of two
    /// scalars at most one is less than the other.
    pub proof fn lemma_less_is_strict(a: Scalar, b: Scalar)
        ensures
            !a.less(a),
            !(a.less(b) && b.less(a)),
    {
    }

    /// What is less than something that is less than a third is less than
    /// the third.
    pub proof fn lemma_less_is_transitive(a: Scalar, b: Scalar, c: Scalar)
        requires
            a.less(b),
            b.less(c),
        ensures
            a.less(c),
    {
    }

    /// Of two numbers that stand in different places one is less than the
    /// other.
    pub proof fn lemma_less_is_total(a: Scalar, b: Scalar)
        requires
            !a.is_nan(),
            !b.is_nan(),
        ensures
            a.less(b) || b.less(a) || a.place() == b.place(),
    {
    }

    /// A number held within two limits, the lower not above the upper, lies
    /// within them; one that lay within them already is left as it is.
    pub proof fn lemma_clamped_is_within(self, lo: Scalar, hi: Scalar)
        requires
            !self.is_nan(),
            !lo.is_nan(),
            !hi.is_nan(),
            !hi.less(lo),
        ensures
            !self.clamped(lo, hi).less(lo),
            !hi.less(self.clamped(lo, hi)),
            !self.less(lo) && !hi.less(self) ==> self.clamped(lo, hi) == self,
    {
    }
}

} // verus!
