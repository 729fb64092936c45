//! Token identifiers.

use vstd::prelude::*;

verus! {

/// A 256-bit token identifier, kept as its upper and lower 128 bits.
///
/// Its view is the natural number it denotes.
#[derive(Clone, Copy, Debug, PartialEq, Eq, Structural, Hash)]
pub struct TokenId {
    pub high: u128,
    pub low: u128,
}

/// Two to the power 128: the weight of the upper half of an identifier.
pub open spec fn half_weight() -> nat {
    0x1_0000_0000_0000_0000_0000_0000_0000_0000nat
}

/// The largest number an identifier can denote: two to the power 256, less one.
pub open spec fn max_token_id() -> nat {
    0xFFFF_FFFF_FFFF_FFFF_FFFF_FFFF_FFFF_FFFF_FFFF_FFFF_FFFF_FFFF_FFFF_FFFF_FFFF_FFFFnat
}

impl View for TokenId {
    type V = nat;

    open spec fn view(&self) -> nat {
        (self.high as nat) * half_weight() + (self.low as nat)
    }
}

/// Distinct identifiers denote distinct numbers.
pub proof fn lemma_view_injective(a: TokenId, b: TokenId)
    requires
        a@ == b@,
    ensures
        a == b,
{
}

/// Every identifier denotes a number no larger than [`max_token_id`].
pub proof fn lemma_view_bounded(a: TokenId)
    ensures
        a@ <= max_token_id(),
{
}

impl TokenId {
    /// The identifier with the given upper and lower 128 bits.
    pub fn new(high: u128, low: u128) -> (id: TokenId)
        ensures
            id == (TokenId { high, low }),
    {
        TokenId { high, low }
    }

    /// The identifier that denotes `value`.
    pub fn from_u64(value: u64) -> (id: TokenId)
        ensures
            id@ == value,
    {
        TokenId { high: 0, low: value as u128 }
    }

    /// Whether this is the largest identifier, which has no successor.
    pub fn is_max(&self) -> (max: bool)
        ensures
            max == (self@ == max_token_id()),
    {
        proof {
            let top = TokenId { high: u128::MAX, low: u128::MAX };
            assert(top@ == max_token_id());
            if self@ == max_token_id() {
                lemma_view_injective(*self, top);
            }
        }
        self.high == u128::MAX && self.low == u128::MAX
    }

    /// The identifier that denotes the next number.
    pub fn successor(&self) -> (next: TokenId)
        requires
            self@ < max_token_id(),
        ensures
            next@ == self@ + 1,
    {
        if self.low == u128::MAX {
            TokenId { high: self.high + 1, low: 0 }
        } else {
            TokenId { high: self.high, low: self.low + 1 }
        }
    }
}

} // verus!
