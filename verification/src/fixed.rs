//! Unsigned fixed-point numbers with 53 binary places.
//!
//! A uniform draw from the unit interval has 53 significant bits. Scaled by a
//! whole number it is still an exact multiple of 2^-53, so a [`Fixed`] holds
//! it without rounding.

use vstd::prelude::*;

verus! {

/// The number of binary places behind the point.
pub const FRACTION_BITS: u32 = 53;

/// The raw value of the number one: 2^53.
pub const UNIT: u128 = 9_007_199_254_740_992;

/// A non-negative number, held as its multiple of 2^-53.
///
/// The view is the raw value: the number itself is `self@ / UNIT`.
#[derive(Clone, Copy, Debug, PartialEq, Eq, Structural)]
pub struct Fixed {
    raw: u128,
}

impl View for Fixed {
    type V = nat;

    closed spec fn view(&self) -> nat {
        self.raw as nat
    }
}

impl Fixed {
    /// The number `raw / 2^53`.
    pub fn from_raw(raw: u128) -> (number: Fixed)
        ensures
            number@ == raw,
    {
        Fixed { raw }
    }

    /// The number `span * numerator / 2^53`: the fraction `numerator / 2^53`
    /// of `span`.
    pub fn scaled(span: u64, numerator: u64) -> (number: Fixed)
        ensures
            number@ == span * numerator,
    {
        assert(span * numerator <= u128::MAX) by (nonlinear_arith)
            requires
                span <= u64::MAX,
                numerator <= u64::MAX,
        ;
        Fixed { raw: (span as u128) * (numerator as u128) }
    }

    /// The raw value: the number times 2^53.
    pub fn raw(&self) -> (raw: u128)
        ensures
            raw == self@,
    {
        self.raw
    }

    /// The whole part of the number.
    pub fn whole(&self) -> (whole: u128)
        ensures
            whole == self@ / (UNIT as nat),
    {
        self.raw / UNIT
    }

    /// What is behind the point, as a multiple of 2^-53.
    pub fn fraction(&self) -> (fraction: u64)
        ensures
            fraction == self@ % (UNIT as nat),
    {
        (self.raw % UNIT) as u64
    }
}

} // verus!
