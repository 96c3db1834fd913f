//! Single precision numbers as their IEEE 754 bit patterns.
//!
//! The library orders and carries such numbers; it never computes with them.
use vstd::prelude::*;

verus! {

/// A single precision number, by its bits.
#[derive(Clone, Copy, Debug, PartialEq, Eq, Structural)]
pub struct Binary32 {
    pub bits: u32,
}

impl Binary32 {
    /// The sign bit is set.
    pub open spec fn negative(self) -> bool {
        self.bits >= 0x8000_0000
    }

    /// The bits without the sign.
    pub open spec fn magnitude(self) -> int {
        if self.negative() {
            self.bits - 0x8000_0000
        } else {
            self.bits as int
        }
    }

    pub open spec fn nan(self) -> bool {
        self.magnitude() > 0x7f80_0000
    }

    /// An integer that orders numbers by value; both zeros have the same.
    pub open spec fn value_rank(self) -> int {
        if self.negative() {
            -self.magnitude()
        } else {
            self.magnitude()
        }
    }

    /// `self < other` as numbers: false as soon as one of them is not a number.
    pub open spec fn below(self, other: Binary32) -> bool {
        !self.nan() && !other.nan() && self.value_rank() < other.value_rank()
    }

    /// `self <= other` as numbers: false as soon as one of them is not a number.
    pub open spec fn at_most(self, other: Binary32) -> bool {
        !self.nan() && !other.nan() && self.value_rank() <= other.value_rank()
    }

    /// An integer that orders all bit patterns: negative NaNs, negative numbers, zeros (the
    /// negative one first), positive numbers, positive NaNs.
    pub open spec fn total_rank(self) -> int {
        if self.negative() {
            -self.magnitude() - 1
        } else {
            self.magnitude()
        }
    }

    /// Positive zero.
    pub open spec fn zero_number() -> Binary32 {
        Binary32 { bits: 0 }
    }

    /// The least finite number.
    pub open spec fn least_finite_number() -> Binary32 {
        Binary32 { bits: 0xff7f_ffff }
    }

    pub fn zero() -> (r: Binary32)
        ensures
            r == Self::zero_number(),
    {
        Binary32 { bits: 0 }
    }

    pub fn least_finite() -> (r: Binary32)
        ensures
            r == Self::least_finite_number(),
    {
        Binary32 { bits: 0xff7f_ffff }
    }

    pub fn is_nan(self) -> (r: bool)
        ensures
            r == self.nan(),
    {
        if self.bits >= 0x8000_0000 {
            self.bits - 0x8000_0000 > 0x7f80_0000
        } else {
            self.bits > 0x7f80_0000
        }
    }

    pub fn rank(self) -> (r: i64)
        ensures
            r == self.value_rank(),
    {
        if self.bits >= 0x8000_0000 {
            -((self.bits - 0x8000_0000) as i64)
        } else {
            self.bits as i64
        }
    }

    pub fn order(self) -> (r: i64)
        ensures
            r == self.total_rank(),
    {
        if self.bits >= 0x8000_0000 {
            -((self.bits - 0x8000_0000) as i64) - 1
        } else {
            self.bits as i64
        }
    }

    /// `self < other` as numbers.
    pub fn is_below(self, other: Binary32) -> (r: bool)
        ensures
            r == self.below(other),
    {
        !self.is_nan() && !other.is_nan() && self.rank() < other.rank()
    }

    /// `self <= other` as numbers.
    pub fn is_at_most(self, other: Binary32) -> (r: bool)
        ensures
            r == self.at_most(other),
    {
        !self.is_nan() && !other.is_nan() && self.rank() <= other.rank()
    }
}

/// The total order tells any two bit patterns apart.
pub proof fn total_rank_is_injective(a: Binary32, b: Binary32)
    ensures
        a.total_rank() == b.total_rank() ==> a == b,
{
}

/// Where both are numbers, the total order refines the order by value.
pub proof fn total_rank_refines_value(a: Binary32, b: Binary32)
    requires
        a.below(b),
    ensures
        a.total_rank() < b.total_rank(),
{
}

/// Bits stand for numbers as they do in IEEE 754: with all exponent bits set and a fraction they
/// stand for no number, and what is no number is below nothing and above nothing. Positive numbers
/// grow with their bits and negative ones shrink; a negative number is below a positive one, but
/// the two zeros are the same.
pub proof fn bits_are_ordered_as_numbers(a: Binary32, b: Binary32)
    ensures
        a.nan() <==> 0x7f80_0000 < a.bits < 0x8000_0000 || 0xff80_0000 < a.bits,
        a.nan() ==> !a.below(b) && !b.below(a) && !a.at_most(b) && !b.at_most(a),
        !a.nan() && !b.nan() && a.bits < 0x8000_0000 && b.bits < 0x8000_0000 ==> (a.below(b)
            <==> a.bits < b.bits),
        !a.nan() && !b.nan() && a.bits >= 0x8000_0000 && b.bits >= 0x8000_0000 ==> (a.below(b)
            <==> a.bits > b.bits),
        !a.nan() && !b.nan() && a.bits >= 0x8000_0000 && b.bits < 0x8000_0000 ==> !b.below(a) && (
        a.below(b) <==> a.bits != 0x8000_0000 || b.bits != 0),
        !a.nan() && !b.nan() ==> (a.at_most(b) <==> !b.below(a)),
        Binary32::zero_number().bits == 0,
        !a.nan() && a.bits != 0xff80_0000 ==> Binary32::least_finite_number().at_most(a),
{
}

/// The order of all bits puts what is no number at the ends, by its sign, and the negative zero
/// before the positive one.
pub proof fn all_bits_have_their_place(a: Binary32, b: Binary32)
    ensures
        a.nan() && a.bits < 0x8000_0000 && !b.nan() ==> b.total_rank() < a.total_rank(),
        a.nan() && a.bits >= 0x8000_0000 && !b.nan() ==> a.total_rank() < b.total_rank(),
        a.bits == 0x8000_0000 && b.bits == 0 ==> a.total_rank() < b.total_rank(),
{
}

} // verus!
