//! Double-precision numbers, held by their place in the order of all doubles.
use vstd::prelude::*;

verus! {

/// The ordinal of positive infinity. Ordinals beyond it, on either side, are
/// not numbers.
pub const INFINITY_ORD: i64 = 0x7FF0_0000_0000_0000;

/// The ordinal of 1.
pub const ONE_ORD: i64 = 0x3FF0_0000_0000_0000;

/// The bit of an IEEE-754 double that holds its sign.
pub const SIGN_BIT: u64 = 0x8000_0000_0000_0000;

/// The bits of an IEEE-754 double that hold exponent and fraction.
pub const MAGNITUDE_BITS: u64 = 0x7FFF_FFFF_FFFF_FFFF;

/// The ordinal that stands for a bit pattern: exponent and fraction read as
/// an integer, negated where the sign bit is set. Both zeros have ordinal 0,
/// and of two numbers the smaller has the smaller ordinal.
pub open spec fn ord_of_bits(bits: u64) -> int {
    let magnitude = (bits & MAGNITUDE_BITS) as int;
    if bits & SIGN_BIT != 0 {
        -magnitude
    } else {
        magnitude
    }
}

/// The bit pattern that stands for an ordinal; the inverse of
/// [`ord_of_bits`] on every pattern but that of negative zero.
pub open spec fn bits_of_ord(ord: i64) -> u64 {
    if ord >= 0 {
        ord as u64
    } else {
        SIGN_BIT | ((-ord) as u64)
    }
}

/// A double-precision number, or a value that is not a number.
///
/// Two scalars are equal exactly when IEEE-754 comparison calls the numbers
/// equal; the sign of a zero is not kept.
#[derive(Clone, Copy, Debug, PartialEq, Eq, Structural)]
pub struct Scalar {
    pub ord: i64,
}

impl Scalar {
    /// Whether the scalar is not a number.
    pub open spec fn is_nan(self) -> bool {
        self.ord > INFINITY_ORD || self.ord < -INFINITY_ORD
    }

    /// Whether the scalar is a number, infinities included.
    pub open spec fn is_number(self) -> bool {
        -INFINITY_ORD <= self.ord <= INFINITY_ORD
    }

    /// `self < other` as IEEE-754 has it: false when either is not a number.
    pub open spec fn spec_lt(self, other: Scalar) -> bool {
        self.is_number() && other.is_number() && self.ord < other.ord
    }

    /// `self <= other` as IEEE-754 has it: false when either is not a number.
    pub open spec fn spec_le(self, other: Scalar) -> bool {
        self.is_number() && other.is_number() && self.ord <= other.ord
    }

    /// The smaller of two scalars; one that is not a number gives way to
    /// the other.
    pub open spec fn spec_min(self, other: Scalar) -> Scalar {
        if self.is_nan() {
            other
        } else if other.is_nan() {
            self
        } else if other.ord < self.ord {
            other
        } else {
            self
        }
    }

    /// The larger of two scalars; one that is not a number gives way to
    /// the other.
    pub open spec fn spec_max(self, other: Scalar) -> Scalar {
        if self.is_nan() {
            other
        } else if other.is_nan() {
            self
        } else if other.ord > self.ord {
            other
        } else {
            self
        }
    }

    /// The scalar of opposite sign. What is not a number stays so.
    pub open spec fn spec_neg(self) -> Scalar {
        if self.ord == i64::MIN {
            Scalar { ord: i64::MAX }
        } else {
            Scalar { ord: (-self.ord) as i64 }
        }
    }

    /// Zero.
    pub fn zero() -> (s: Scalar)
        ensures
            s.ord == 0,
    {
        Scalar { ord: 0 }
    }

    /// One.
    pub fn one() -> (s: Scalar)
        ensures
            s.ord == ONE_ORD,
    {
        Scalar { ord: ONE_ORD }
    }

    /// Positive infinity.
    pub fn infinity() -> (s: Scalar)
        ensures
            s.ord == INFINITY_ORD,
    {
        Scalar { ord: INFINITY_ORD }
    }

    /// Reads the bits of an IEEE-754 double.
    pub fn from_bits(bits: u64) -> (s: Scalar)
        ensures
            s.ord == ord_of_bits(bits),
            s.ord > i64::MIN,
    {
        let magnitude: u64 = bits & MAGNITUDE_BITS;
        assert(magnitude <= 0x7FFF_FFFF_FFFF_FFFF) by (bit_vector)
            requires
                magnitude == bits & 0x7FFF_FFFF_FFFF_FFFF,
        ;
        let m: i64 = magnitude as i64;
        if bits & SIGN_BIT != 0 {
            Scalar { ord: -m }
        } else {
            Scalar { ord: m }
        }
    }

    /// Writes the scalar as the bits of an IEEE-754 double. Zero is written
    /// with a clear sign bit.
    pub fn to_bits(self) -> (bits: u64)
        requires
            self.ord > i64::MIN,
        ensures
            bits == bits_of_ord(self.ord),
            ord_of_bits(bits) == self.ord,
    {
        let ord: i64 = self.ord;
        if ord >= 0 {
            let bits: u64 = ord as u64;
            assert(bits & 0x7FFF_FFFF_FFFF_FFFF == bits && bits & 0x8000_0000_0000_0000 == 0)
                by (bit_vector)
                requires
                    bits <= 0x7FFF_FFFF_FFFF_FFFF,
            ;
            bits
        } else {
            let magnitude: u64 = (-ord) as u64;
            let bits: u64 = SIGN_BIT | magnitude;
            assert(bits & 0x7FFF_FFFF_FFFF_FFFF == magnitude && bits & 0x8000_0000_0000_0000
                != 0) by (bit_vector)
                requires
                    magnitude <= 0x7FFF_FFFF_FFFF_FFFF,
                    bits == 0x8000_0000_0000_0000 | magnitude,
            ;
            bits
        }
    }

    /// Whether the scalar is a number.
    pub fn is_finite_or_infinite(self) -> (b: bool)
        ensures
            b == self.is_number(),
    {
        -INFINITY_ORD <= self.ord && self.ord <= INFINITY_ORD
    }

    /// `self < other`.
    pub fn lt(self, other: Scalar) -> (b: bool)
        ensures
            b == self.spec_lt(other),
    {
        self.is_finite_or_infinite() && other.is_finite_or_infinite() && self.ord < other.ord
    }

    /// `self <= other`.
    pub fn le(self, other: Scalar) -> (b: bool)
        ensures
            b == self.spec_le(other),
    {
        self.is_finite_or_infinite() && other.is_finite_or_infinite() && self.ord <= other.ord
    }

    /// `self > other`.
    pub fn gt(self, other: Scalar) -> (b: bool)
        ensures
            b == other.spec_lt(self),
    {
        other.lt(self)
    }

    /// The smaller of the two, passing over what is not a number.
    pub fn min(self, other: Scalar) -> (m: Scalar)
        ensures
            m == self.spec_min(other),
    {
        if !self.is_finite_or_infinite() {
            other
        } else if !other.is_finite_or_infinite() {
            self
        } else if other.ord < self.ord {
            other
        } else {
            self
        }
    }

    /// The larger of the two, passing over what is not a number.
    pub fn max(self, other: Scalar) -> (m: Scalar)
        ensures
            m == self.spec_max(other),
    {
        if !self.is_finite_or_infinite() {
            other
        } else if !other.is_finite_or_infinite() {
            self
        } else if other.ord > self.ord {
            other
        } else {
            self
        }
    }

    /// The scalar of opposite sign. What is not a number stays so.
    pub fn neg(self) -> (n: Scalar)
        ensures
            n == self.spec_neg(),
            self.is_number() ==> n.is_number() && n.ord == -self.ord,
    {
        if self.ord == i64::MIN {
            Scalar { ord: i64::MAX }
        } else {
            Scalar { ord: -self.ord }
        }
    }
}

/// Reading the bits that were written for a scalar gives the scalar back.
pub proof fn bits_round_trip(s: Scalar)
    requires
        s.ord > i64::MIN,
    ensures
        ord_of_bits(bits_of_ord(s.ord)) == s.ord,
{
    let ord: i64 = s.ord;
    if ord >= 0 {
        let bits: u64 = ord as u64;
        assert(bits & 0x7FFF_FFFF_FFFF_FFFF == bits && bits & 0x8000_0000_0000_0000 == 0)
            by (bit_vector)
            requires
                bits <= 0x7FFF_FFFF_FFFF_FFFF,
        ;
    } else {
        let magnitude: u64 = (-ord) as u64;
        let bits: u64 = SIGN_BIT | magnitude;
        assert(bits & 0x7FFF_FFFF_FFFF_FFFF == magnitude && bits & 0x8000_0000_0000_0000 != 0)
            by (bit_vector)
            requires
                magnitude <= 0x7FFF_FFFF_FFFF_FFFF,
                bits == 0x8000_0000_0000_0000 | magnitude,
        ;
    }
}

/// Writing the scalar that was read from a bit pattern gives the pattern
/// back, but for the pattern of negative zero, which is written as zero.
pub proof fn ord_round_trip(bits: u64)
    requires
        bits != SIGN_BIT,
    ensures
        -i64::MAX <= ord_of_bits(bits) <= i64::MAX,
        bits_of_ord(ord_of_bits(bits) as i64) == bits,
{
    let magnitude: u64 = bits & 0x7FFF_FFFF_FFFF_FFFF;
    assert(magnitude <= 0x7FFF_FFFF_FFFF_FFFF) by (bit_vector)
        requires
            magnitude == bits & 0x7FFF_FFFF_FFFF_FFFF,
    ;
    if bits & SIGN_BIT != 0 {
        assert(0x8000_0000_0000_0000 | magnitude == bits && magnitude != 0) by (bit_vector)
            requires
                magnitude == bits & 0x7FFF_FFFF_FFFF_FFFF,
                bits & 0x8000_0000_0000_0000 != 0,
                bits != 0x8000_0000_0000_0000,
        ;
    } else {
        assert(magnitude == bits) by (bit_vector)
            requires
                magnitude == bits & 0x7FFF_FFFF_FFFF_FFFF,
                bits & 0x8000_0000_0000_0000 == 0,
        ;
    }
}

/// Numbers are in order: of two numbers one is less than the other or they
/// are equal, never both; and what is less than something less is less.
pub proof fn numbers_are_ordered(a: Scalar, b: Scalar, c: Scalar)
    requires
        a.is_number(),
        b.is_number(),
        c.is_number(),
    ensures
        a.spec_lt(b) || b.spec_lt(a) || a == b,
        !(a.spec_lt(b) && b.spec_lt(a)),
        !(a.spec_lt(b) && a == b),
        a.spec_lt(b) && b.spec_lt(c) ==> a.spec_lt(c),
        a.spec_le(b) <==> a.spec_lt(b) || a == b,
        a.spec_min(b).spec_le(a) && a.spec_min(b).spec_le(b),
        a.spec_le(a.spec_max(b)) && b.spec_le(a.spec_max(b)),
        a.spec_lt(b) <==> b.spec_neg().spec_lt(a.spec_neg()),
{
}

/// What is not a number compares with nothing, and gives way wherever the
/// lesser or the greater of two is taken.
pub proof fn what_is_not_a_number_gives_way(a: Scalar, b: Scalar)
    requires
        a.is_nan(),
    ensures
        !a.spec_lt(b) && !b.spec_lt(a) && !a.spec_le(b) && !b.spec_le(a),
        a.spec_min(b) == b && a.spec_max(b) == b,
        !b.is_nan() ==> b.spec_min(a) == b && b.spec_max(a) == b,
        a.spec_neg().is_nan(),
{
}

} // verus!
