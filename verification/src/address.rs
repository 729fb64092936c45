//! Account addresses.

use vstd::prelude::*;

verus! {

/// A 160-bit account address, kept as its upper 32 and lower 128 bits.
///
/// Two addresses are equal exactly when both parts are equal. The address
/// whose bits are all zero is the burn address: it never owns a token.
#[derive(Clone, Copy, Debug, PartialEq, Eq, Structural, Hash)]
pub struct Address {
    pub high: u32,
    pub low: u128,
}

impl Address {
    /// Whether this is the all-zero address.
    pub open spec fn is_zero_spec(&self) -> bool {
        self.high == 0 && self.low == 0
    }

    /// The all-zero address as a specification value.
    pub open spec fn zero_spec() -> Address {
        Address { high: 0, low: 0 }
    }

    /// The address with the given upper 32 and lower 128 bits.
    pub fn new(high: u32, low: u128) -> (address: Address)
        ensures
            address == (Address { high, low }),
    {
        Address { high, low }
    }

    /// The all-zero address.
    pub fn zero() -> (address: Address)
        ensures
            address == Address::zero_spec(),
            address.is_zero_spec(),
    {
        Address { high: 0, low: 0 }
    }

    /// Whether this is the all-zero address.
    #[verifier::when_used_as_spec(is_zero_spec)]
    pub fn is_zero(&self) -> (zero: bool)
        ensures
            zero == self.is_zero_spec(),
            zero == (*self == Address::zero_spec()),
    {
        self.high == 0 && self.low == 0
    }
}

} // verus!
