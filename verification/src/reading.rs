//! A measured number, held as the bit pattern of an IEEE 754 double.

use vstd::prelude::*;

verus! {

/// The bit that says a double is negative.
pub const SIGN: u64 = 0x8000_0000_0000_0000;

/// The pattern of positive infinity.
pub const INFINITE: u64 = 0x7ff0_0000_0000_0000;

/// A double, by its bit pattern.
#[derive(Clone, Copy, Debug, PartialEq, Eq, Structural)]
pub struct Reading {
    pub bits: u64,
}

impl Reading {
    /// Whether the sign bit is set.
    pub open spec fn negative(self) -> bool {
        self.bits >= SIGN
    }

    /// The pattern without its sign bit.
    pub open spec fn magnitude(self) -> int {
        if self.negative() {
            self.bits - SIGN
        } else {
            self.bits as int
        }
    }

    /// Whether the value is a number at all.
    pub open spec fn nan(self) -> bool {
        self.magnitude() > INFINITE
    }

    /// Whether the value is neither infinite nor not a number.
    pub open spec fn finite(self) -> bool {
        self.magnitude() < INFINITE
    }

    /// Where a number stands among the numbers; both zeros stand at 0.
    pub open spec fn rank(self) -> int {
        if self.negative() {
            -self.magnitude()
        } else {
            self.magnitude()
        }
    }

    /// Where a pattern stands in the total order: negative not-a-numbers
    /// first, then the numbers with -0 below +0, then the positive
    /// not-a-numbers.
    pub open spec fn place(self) -> int {
        if self.negative() {
            -self.magnitude() - 1
        } else {
            self.magnitude()
        }
    }

    /// `self < other` as doubles compare.
    pub open spec fn below(self, other: Reading) -> bool {
        !self.nan() && !other.nan() && self.rank() < other.rank()
    }

    /// `self <= other` as doubles compare.
    pub open spec fn at_most(self, other: Reading) -> bool {
        !self.nan() && !other.nan() && self.rank() <= other.rank()
    }

    /// The same number without its sign.
    pub open spec fn unsigned(self) -> Reading {
        Reading { bits: self.magnitude() as u64 }
    }

    pub fn is_nan(&self) -> (r: bool)
        ensures
            r == self.nan(),
    {
        self.size() > INFINITE
    }

    pub fn is_finite(&self) -> (r: bool)
        ensures
            r == self.finite(),
    {
        self.size() < INFINITE
    }

    /// The pattern without its sign bit.
    pub fn size(&self) -> (r: u64)
        ensures
            r == self.magnitude(),
    {
        if self.bits >= SIGN {
            self.bits - SIGN
        } else {
            self.bits
        }
    }

    /// The absolute value.
    pub fn abs(&self) -> (r: Reading)
        ensures
            r == self.unsigned(),
    {
        Reading { bits: self.size() }
    }

    /// The place of the pattern in the total order.
    pub fn key(&self) -> (r: i64)
        ensures
            r == self.place(),
    {
        if self.bits >= SIGN {
            -((self.bits - SIGN) as i64) - 1
        } else {
            self.bits as i64
        }
    }

    /// `self < other`; false where either is not a number.
    pub fn lt(&self, other: &Reading) -> (r: bool)
        ensures
            r == self.below(*other),
    {
        !self.is_nan() && !other.is_nan() && self.standing() < other.standing()
    }

    /// `self <= other`; false where either is not a number.
    pub fn le(&self, other: &Reading) -> (r: bool)
        ensures
            r == self.at_most(*other),
    {
        !self.is_nan() && !other.is_nan() && self.standing() <= other.standing()
    }

    /// Where the number stands among the numbers.
    pub fn standing(&self) -> (r: i64)
        ensures
            r == self.rank(),
    {
        if self.bits >= SIGN {
            -((self.bits - SIGN) as i64)
        } else {
            self.bits as i64
        }
    }
}

/// Two patterns share a place in the total order only if they are the same
/// pattern.
pub proof fn place_is_unique(a: Reading, b: Reading)
    requires
        a.place() == b.place(),
    ensures
        a == b,
{
}

/// The absolute value is never negative, and it is not a number exactly where
/// its argument is not.
pub proof fn unsigned_keeps_the_kind(a: Reading)
    ensures
        !a.unsigned().negative(),
        a.unsigned().nan() == a.nan(),
        a.unsigned().finite() == a.finite(),
        a.unsigned().unsigned() == a.unsigned(),
{
}

/// Of two numbers, `<` holds one way, the other way, or they compare equal.
pub proof fn numbers_are_comparable(a: Reading, b: Reading)
    requires
        !a.nan(),
        !b.nan(),
    ensures
        a.below(b) || b.below(a) || a.rank() == b.rank(),
        a.below(b) == !b.at_most(a),
{
}

/// Doubles compare by sign and size: of two without a sign the larger pattern is
/// the larger number, of two with one it is the smaller, a number with a sign is
/// below one without, both zeros are equal, and what is not a number is neither
/// below nor at most anything.
pub proof fn doubles_compare_by_sign_and_size(a: Reading, b: Reading)
    ensures
        a.nan() || b.nan() ==> !a.below(b) && !a.at_most(b),
        !a.nan() && !b.nan() && a.bits < 0x8000_0000_0000_0000 && b.bits < 0x8000_0000_0000_0000
            ==> (a.below(b) <==> a.bits < b.bits),
        !a.nan() && !b.nan() && a.bits >= 0x8000_0000_0000_0000 && b.bits >= 0x8000_0000_0000_0000
            ==> (a.below(b) <==> b.bits < a.bits),
        !a.nan() && !b.nan() && a.bits >= 0x8000_0000_0000_0000 && b.bits < 0x8000_0000_0000_0000
            ==> (a.below(b) <==> !(a.bits == 0x8000_0000_0000_0000 && b.bits == 0)) && !b.below(a),
        !a.nan() && !b.nan() ==> (a.at_most(b) <==> !b.below(a)),
        a.finite() <==> a.bits % 0x8000_0000_0000_0000 < 0x7ff0_0000_0000_0000,
        a.nan() <==> a.bits % 0x8000_0000_0000_0000 > 0x7ff0_0000_0000_0000,
        a.unsigned().bits == a.bits % 0x8000_0000_0000_0000,
{
}

} // verus!
