//! Quantities of the simulation.
//!
//! A quantity is an IEEE-754 binary64 number, carried here by its bit
//! pattern (`f64::to_bits`). The library moves quantities between records and
//! compares them with zero and one; the arithmetic on them is done by the
//! caller on the `f64` that the bits stand for.

use vstd::prelude::*;

verus! {

/// The bit pattern of `+1.0`.
pub const ONE_BITS: u64 = 0x3FF0_0000_0000_0000;

/// The bit pattern of `+infinity`; every larger pattern without the sign bit is a NaN.
pub const POSITIVE_INFINITY_BITS: u64 = 0x7FF0_0000_0000_0000;

/// The sign bit.
pub const SIGN_BIT: u64 = 0x8000_0000_0000_0000;

/// The bit pattern of `-infinity`; every larger pattern is a NaN.
pub const NEGATIVE_INFINITY_BITS: u64 = 0xFFF0_0000_0000_0000;

/// The bit pattern of the simulation's tolerance `EPSILON`, `0.000001`.
pub const EPSILON_BITS: u64 = 0x3EB0_C6F7_A0B5_ED8D;

/// The bits stand for a NaN: all exponent bits set and a non-zero fraction.
pub open spec fn bits_are_nan(bits: u64) -> bool {
    (POSITIVE_INFINITY_BITS < bits < SIGN_BIT) || NEGATIVE_INFINITY_BITS < bits
}

/// The bits stand for `+0.0` or `-0.0`.
pub open spec fn bits_are_zero(bits: u64) -> bool {
    bits == 0 || bits == SIGN_BIT
}

/// The number the bits stand for is strictly below zero: the sign bit is set,
/// the number is not `-0.0` and not a NaN.
pub open spec fn bits_below_zero(bits: u64) -> bool {
    SIGN_BIT < bits <= NEGATIVE_INFINITY_BITS
}

/// The number the bits stand for lies in `0.0..=1.0`: it is a zero, or it is
/// positive and its pattern is at most that of `1.0` (positive binary64
/// numbers are ordered as their patterns are).
pub open spec fn bits_in_unit_interval(bits: u64) -> bool {
    bits_are_zero(bits) || bits <= ONE_BITS
}

/// The number the bits stand for is at most `EPSILON` (`qty <= EPSILON`): it
/// is not a NaN and it is negative, a zero, or a positive number whose
/// pattern is at most that of `EPSILON`.
pub open spec fn bits_at_most_epsilon(bits: u64) -> bool {
    (SIGN_BIT <= bits <= NEGATIVE_INFINITY_BITS) || bits <= EPSILON_BITS
}

/// The numbers that the two patterns stand for compare equal under `==` on
/// `f64`: neither is a NaN, and they are the same pattern or both zeros.
pub open spec fn bits_equal_numbers(a: u64, b: u64) -> bool {
    !bits_are_nan(a) && !bits_are_nan(b) && (a == b || (bits_are_zero(a) && bits_are_zero(b)))
}

/// A quantity: an `f64` carried by its bit pattern.
#[derive(Clone, Copy, Debug)]
pub struct Qty {
    bits: u64,
}

impl View for Qty {
    type V = u64;

    closed spec fn view(&self) -> u64 {
        self.bits
    }
}

impl Qty {
    /// The quantity whose `f64` has this bit pattern.
    pub fn from_bits(bits: u64) -> (q: Self)
        ensures
            q@ == bits,
    {
        Qty { bits }
    }

    /// The bit pattern of the quantity's `f64`.
    pub fn to_bits(&self) -> (bits: u64)
        ensures
            bits == self@,
    {
        self.bits
    }

    /// The quantity `0.0`.
    pub fn zero() -> (q: Self)
        ensures
            q@ == 0,
    {
        Qty { bits: 0 }
    }

    /// Whether the quantity is strictly below zero (`qty < 0.0`).
    pub fn is_negative(&self) -> (b: bool)
        ensures
            b == bits_below_zero(self@),
    {
        SIGN_BIT < self.bits && self.bits <= NEGATIVE_INFINITY_BITS
    }

    /// Whether the quantity is at most the tolerance (`qty <= EPSILON`).
    pub fn at_most_epsilon(&self) -> (b: bool)
        ensures
            b == bits_at_most_epsilon(self@),
    {
        (SIGN_BIT <= self.bits && self.bits <= NEGATIVE_INFINITY_BITS) || self.bits <= EPSILON_BITS
    }

    /// Whether the quantity lies in `0.0..=1.0`.
    pub fn is_in_unit_interval(&self) -> (b: bool)
        ensures
            b == bits_in_unit_interval(self@),
    {
        self.bits == 0 || self.bits == SIGN_BIT || self.bits <= ONE_BITS
    }
}

impl PartialEq for Qty {
    fn eq(&self, other: &Self) -> (same: bool) {
        let a = self.bits;
        let b = other.bits;
        let a_nan = (POSITIVE_INFINITY_BITS < a && a < SIGN_BIT) || NEGATIVE_INFINITY_BITS < a;
        let b_nan = (POSITIVE_INFINITY_BITS < b && b < SIGN_BIT) || NEGATIVE_INFINITY_BITS < b;
        let a_zero = a == 0 || a == SIGN_BIT;
        let b_zero = b == 0 || b == SIGN_BIT;
        !a_nan && !b_nan && (a == b || (a_zero && b_zero))
    }
}

impl vstd::std_specs::cmp::PartialEqSpecImpl for Qty {
    open spec fn obeys_eq_spec() -> bool {
        true
    }

    open spec fn eq_spec(&self, other: &Qty) -> bool {
        bits_equal_numbers(self@, other@)
    }
}

} // verus!
