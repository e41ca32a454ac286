//! Small arithmetic helpers used by the geometry computation.

use vstd::prelude::*;

verus! {

/// True when `x` is a power of two. The bit test `x & (x - 1) == 0` clears
/// the lowest set bit, so it holds of a nonzero `x` exactly when `x` has a
/// single set bit.
pub open spec fn u8_is_power_of_two(x: u8) -> bool {
    x != 0 && x & (x - 1) as u8 == 0
}

/// True when `x` is a power of two; the same bit test at 16 bits.
pub open spec fn u16_is_power_of_two(x: u16) -> bool {
    x != 0 && x & (x - 1) as u16 == 0
}

/// Division rounding up instead of down.
pub trait DivCeiling: Sized {
    type Value;

    /// Inputs on which `div_ceiling` is defined: the divisor is nonzero and
    /// the rounded sum does not overflow.
    spec fn div_ceiling_req(self, divisor: Self::Value) -> bool;

    /// What `div_ceiling` returns: the quotient rounded toward infinity.
    spec fn div_ceiling_spec(self, divisor: Self::Value) -> Self::Value;

    fn div_ceiling(self, divisor: Self::Value) -> (r: Self::Value)
        requires
            self.div_ceiling_req(divisor),
        ensures
            r == self.div_ceiling_spec(divisor),
    ;
}

impl DivCeiling for u32 {
    type Value = u32;

    open spec fn div_ceiling_req(self, divisor: u32) -> bool {
        divisor > 0 && self + divisor - 1 <= u32::MAX
    }

    open spec fn div_ceiling_spec(self, divisor: u32) -> u32 {
        ((self + divisor - 1) / (divisor as int)) as u32
    }

    fn div_ceiling(self, divisor: u32) -> (r: u32) {
        (self + (divisor - 1)) / divisor
    }
}

} // verus!
