//! The price of an instrument, as the store keeps it.

use vstd::prelude::*;

verus! {

/// A price, held as the bit pattern of an IEEE 754 binary64 number.
///
/// The library only stores prices and hands them back; it never computes
/// with them. Keeping the sixty-four bits makes every stored price come back
/// exactly as it arrived, whatever number the bits encode.
#[derive(Clone, Copy, Debug, PartialEq, Eq, Structural)]
pub struct Price {
    bits: u64,
}

impl Price {
    /// The bit pattern of this price.
    pub closed spec fn spec_bits(self) -> u64 {
        self.bits
    }

    /// The price with the bit pattern `bits`.
    pub closed spec fn spec_from_bits(bits: u64) -> Price {
        Price { bits }
    }

    /// Makes a price from the bit pattern of a binary64 number.
    #[verifier::when_used_as_spec(spec_from_bits)]
    pub fn from_bits(bits: u64) -> (price: Price)
        ensures
            price == Price::spec_from_bits(bits),
            price.spec_bits() == bits,
    {
        Price { bits }
    }

    /// The bit pattern that this price was made from.
    #[verifier::when_used_as_spec(spec_bits)]
    pub fn to_bits(self) -> (bits: u64)
        ensures
            bits == self.spec_bits(),
    {
        self.bits
    }

    /// A price is its bits: two prices with the same bits are the same
    /// price, and the bits of a price made from `bits` are `bits`.
    pub proof fn lemma_bits_determine_price(a: Price, b: Price, bits: u64)
        ensures
            a.spec_bits() == b.spec_bits() ==> a == b,
            Price::spec_from_bits(bits).spec_bits() == bits,
            Price::spec_from_bits(a.spec_bits()) == a,
    {
    }
}

} // verus!
