//! The events that the ledger records for its listeners.

use vstd::prelude::*;
use crate::address::Address;
use crate::token_id::TokenId;

verus! {

/// An event as the ledger's journal holds it.
#[derive(Clone, Copy, Debug, PartialEq, Eq, Structural, Hash)]
pub enum LedgerEvent {
    /// A token moved. A mint moves it from the zero address, a burn to it.
    Transfer { from: Address, to: Address, token_id: TokenId },
    /// The approval for one token was set, or cleared with the zero address.
    Approval { owner: Address, approved: Address, token_id: TokenId },
    /// An owner granted or revoked an operator's approval for all its tokens.
    ApprovalForAll { owner: Address, operator: Address, granted: bool },
}

/// An event as the model sees it: token ids are natural numbers.
pub enum EventRecord {
    Transfer { from: Address, to: Address, token_id: nat },
    Approval { owner: Address, approved: Address, token_id: nat },
    ApprovalForAll { owner: Address, operator: Address, granted: bool },
}

impl View for LedgerEvent {
    type V = EventRecord;

    open spec fn view(&self) -> EventRecord {
        match *self {
            LedgerEvent::Transfer { from, to, token_id } => EventRecord::Transfer {
                from,
                to,
                token_id: token_id@,
            },
            LedgerEvent::Approval { owner, approved, token_id } => EventRecord::Approval {
                owner,
                approved,
                token_id: token_id@,
            },
            LedgerEvent::ApprovalForAll { owner, operator, granted } => EventRecord::ApprovalForAll {
                owner,
                operator,
                granted,
            },
        }
    }
}

/// The records of a sequence of events, in order.
pub open spec fn records(events: Seq<LedgerEvent>) -> Seq<EventRecord> {
    events.map_values(|e: LedgerEvent| e@)
}

} // verus!
