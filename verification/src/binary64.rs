//! Double-precision numbers carried by their bit pattern.

use vstd::prelude::*;

verus! {

/// An IEEE 754 binary64 number, held as its 64-bit pattern.
///
/// The gateway never computes with these numbers: it copies the bounds of a
/// range from a manifest into the store and into a slider. Holding the bit
/// pattern keeps every value, including NaN payloads and signed zeros,
/// exactly as the device sent it.
#[derive(Clone, Copy, Debug, PartialEq, Eq, Hash, Structural)]
pub struct Binary64 {
    pub bits: u64,
}

impl Binary64 {
    /// The number whose bit pattern is `bits`.
    pub fn from_bits(bits: u64) -> (number: Self)
        ensures
            number.bits == bits,
    {
        Binary64 { bits }
    }

    /// The bit pattern of the number.
    pub fn to_bits(self) -> (bits: u64)
        ensures
            bits == self.bits,
    {
        self.bits
    }
}

impl DeepView for Binary64 {
    type V = Binary64;

    open spec fn deep_view(&self) -> Binary64 {
        *self
    }
}

} // verus!
