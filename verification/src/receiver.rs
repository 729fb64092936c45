//! Safe delivery: minting and transferring with the receiver's consent.
//!
//! A safe operation changes the ledger first and then asks the receiving
//! contract whether it accepts the token. The ledger cannot make that call
//! itself. It hands back a [`PendingDelivery`] that says which call to make
//! and remembers the ledger as it was; [`TokenLedger::settle`] takes the
//! receiver's reply and either keeps the change or undoes it whole.

use vstd::prelude::*;
use crate::address::Address;
use crate::error::LedgerError;
use crate::ledger::TokenLedger;
use crate::model::{after_mint, after_transfer, mint_result, transfer_result, LedgerState};
use crate::token_id::{max_token_id, TokenId};

verus! {

/// The value that a receiving contract returns to accept a token: the ERC-721
/// selector of `onERC721Received(address,address,uint256,bytes)`.
pub const ACCEPTANCE_MAGIC: u32 = 0x150b7a02;

/// What stands at a receiving address.
#[derive(Clone, Copy, Debug, PartialEq, Eq, Structural, Hash)]
pub enum ReceiverKind {
    /// A plain account: it is not asked, and accepts every token.
    Account,
    /// A contract: it must accept the token for the delivery to stand.
    Contract,
}

/// How the call to a receiving contract ended.
#[derive(Clone, Copy, Debug, PartialEq, Eq, Structural, Hash)]
pub enum ReceiverReply {
    /// The contract answered with this value.
    Returned(u32),
    /// The call reverted, or there was nothing to call.
    Failed,
}

/// The call to make to a receiving contract.
#[derive(Debug)]
pub struct ReceiverCall {
    /// The contract to call: the address that received the token.
    pub receiver: Address,
    /// The address on whose behalf the token moved.
    pub operator: Address,
    /// The previous owner: the zero address for a mint.
    pub from: Address,
    /// The token that moved.
    pub token_id: TokenId,
    /// What the sender passed along for the receiver.
    pub data: Vec<u8>,
}

/// A delivery that waits for the receiver's reply.
pub struct PendingDelivery {
    checkpoint: TokenLedger,
    call: ReceiverCall,
}

/// How a safe operation that went through stands.
pub enum Delivery {
    /// The receiver is a plain account: the operation is complete.
    Settled,
    /// The receiver is a contract: the operation stands only once it has
    /// accepted.
    Pending(PendingDelivery),
}

/// What a reply means for the delivery: only the acceptance value lets it
/// stand.
pub open spec fn verdict_of(reply: ReceiverReply) -> Result<(), LedgerError> {
    match reply {
        ReceiverReply::Returned(value) => if value == ACCEPTANCE_MAGIC {
            Ok(())
        } else {
            Err(LedgerError::ReceiverRejected)
        },
        ReceiverReply::Failed => Err(LedgerError::ReceiverCallFailed),
    }
}

/// What a reply means for the delivery: only the acceptance value lets it
/// stand.
pub fn verdict(reply: ReceiverReply) -> (outcome: Result<(), LedgerError>)
    ensures
        outcome == verdict_of(reply),
{
    match reply {
        ReceiverReply::Returned(value) => {
            if value == ACCEPTANCE_MAGIC {
                Ok(())
            } else {
                Err(LedgerError::ReceiverRejected)
            }
        },
        ReceiverReply::Failed => Err(LedgerError::ReceiverCallFailed),
    }
}

impl PendingDelivery {
    /// The state of the ledger before the operation.
    pub closed spec fn checkpoint(&self) -> LedgerState {
        self.checkpoint@
    }

    /// The call to make, as a specification value.
    pub closed spec fn request(&self) -> ReceiverCall {
        self.call
    }

    /// Whether the remembered ledger is well formed.
    pub closed spec fn wf(&self) -> bool {
        self.checkpoint.wf()
    }

    /// The call to make to the receiving contract.
    pub fn call(&self) -> (call: &ReceiverCall)
        ensures
            *call == self.request(),
    {
        &self.call
    }
}

/// Whether `delivery` is what a safe operation owes: nothing more for a plain
/// account; for a contract, a pending delivery that remembers `before` and
/// asks for the call that `receiver`, `operator`, `from`, `id` and `data`
/// describe.
pub open spec fn delivery_matches(
    delivery: Delivery,
    kind: ReceiverKind,
    before: LedgerState,
    receiver: Address,
    operator: Address,
    from: Address,
    id: nat,
    data: Seq<u8>,
) -> bool {
    match kind {
        ReceiverKind::Account => delivery is Settled,
        ReceiverKind::Contract => {
            &&& delivery is Pending
            &&& delivery->Pending_0.wf()
            &&& delivery->Pending_0.checkpoint() == before
            &&& delivery->Pending_0.request().receiver == receiver
            &&& delivery->Pending_0.request().operator == operator
            &&& delivery->Pending_0.request().from == from
            &&& delivery->Pending_0.request().token_id@ == id
            &&& delivery->Pending_0.request().data@ == data
        },
    }
}

impl TokenLedger {
    /// Mints a new token to `to` on behalf of `operator`, subject to the
    /// receiver's consent.
    ///
    /// The mint is carried out as [`TokenLedger::mint`] does. Where `to` is a
    /// contract, the delivery then waits for its reply: make the call and
    /// hand the reply to [`TokenLedger::settle`].
    pub fn safe_mint(&mut self, operator: Address, to: Address, data: Vec<u8>, kind: ReceiverKind) -> (minted:
        Result<Delivery, LedgerError>)
        requires
            old(self).wf(),
            old(self)@.next_id < max_token_id(),
        ensures
            final(self).wf(),
            final(self)@ == after_mint(old(self)@, to),
            match minted {
                Ok(delivery) => mint_result(old(self)@, to) is Ok && delivery_matches(
                    delivery,
                    kind,
                    old(self)@,
                    to,
                    operator,
                    Address::zero_spec(),
                    old(self)@.next_id,
                    data@,
                ),
                Err(e) => mint_result(old(self)@, to) == Err::<nat, LedgerError>(e),
            },
    {
        match kind {
            ReceiverKind::Account => {
                match self.mint(to) {
                    Ok(_) => Ok(Delivery::Settled),
                    Err(e) => Err(e),
                }
            },
            ReceiverKind::Contract => {
                let checkpoint = self.snapshot();
                match self.mint(to) {
                    Ok(token_id) => {
                        let call = ReceiverCall { receiver: to, operator, from: Address::zero(), token_id, data };
                        Ok(Delivery::Pending(PendingDelivery { checkpoint, call }))
                    },
                    Err(e) => Err(e),
                }
            },
        }
    }

    /// Transfers the token from `from` to `to` on behalf of `caller`, subject
    /// to the receiver's consent.
    ///
    /// The transfer is carried out as [`TokenLedger::transfer_from`] does.
    /// Where `to` is a contract, the delivery then waits for its reply: make
    /// the call and hand the reply to [`TokenLedger::settle`].
    pub fn safe_transfer_from(
        &mut self,
        caller: Address,
        from: Address,
        to: Address,
        token_id: TokenId,
        data: Vec<u8>,
        kind: ReceiverKind,
    ) -> (moved: Result<Delivery, LedgerError>)
        requires
            old(self).wf(),
        ensures
            final(self).wf(),
            final(self)@ == after_transfer(old(self)@, caller, from, to, token_id@),
            match moved {
                Ok(delivery) => transfer_result(old(self)@, caller, from, to, token_id@) is Ok
                    && delivery_matches(delivery, kind, old(self)@, to, caller, from, token_id@, data@),
                Err(e) => transfer_result(old(self)@, caller, from, to, token_id@) == Err::<(), LedgerError>(e),
            },
    {
        match kind {
            ReceiverKind::Account => {
                match self.transfer_from(caller, from, to, token_id) {
                    Ok(()) => Ok(Delivery::Settled),
                    Err(e) => Err(e),
                }
            },
            ReceiverKind::Contract => {
                let checkpoint = self.snapshot();
                match self.transfer_from(caller, from, to, token_id) {
                    Ok(()) => {
                        let call = ReceiverCall { receiver: to, operator: caller, from, token_id, data };
                        Ok(Delivery::Pending(PendingDelivery { checkpoint, call }))
                    },
                    Err(e) => Err(e),
                }
            },
        }
    }

    /// Settles a pending delivery with the receiver's reply.
    ///
    /// The acceptance value lets the ledger stand as it is. Any other value
    /// (`ReceiverRejected`) or a failed call (`ReceiverCallFailed`) puts the
    /// ledger back to what it was before the operation: the token, the
    /// balances, the id counter and the recorded events.
    pub fn settle(&mut self, pending: PendingDelivery, reply: ReceiverReply) -> (settled: Result<(), LedgerError>)
        requires
            old(self).wf(),
            pending.wf(),
        ensures
            final(self).wf(),
            settled == verdict_of(reply),
            settled is Ok ==> final(self)@ == old(self)@,
            settled is Err ==> final(self)@ == pending.checkpoint(),
    {
        match verdict(reply) {
            Ok(()) => Ok(()),
            Err(e) => {
                *self = pending.checkpoint;
                Err(e)
            },
        }
    }
}

} // verus!
