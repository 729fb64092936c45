//! The SuperPosition token contract: a ledger and the address of the contract
//! that draws its tokens' art.
//!
//! Its operations are the ledger's, made on behalf of whoever sent the
//! message. The sender is passed in, since only the caller knows it.

use vstd::prelude::*;
use crate::address::Address;
use crate::error::LedgerError;
use crate::ledger::TokenLedger;
use crate::model::{after_burn, after_mint, burn_result, genesis, mint_result};
use crate::receiver::{delivery_matches, Delivery, ReceiverKind};
use crate::token_id::{max_token_id, TokenId};

verus! {

/// The SuperPosition token contract.
pub struct SuperPositionNFT {
    /// The contract that draws the art of a token.
    pub art_contract_address: Address,
    /// The ledger of the tokens.
    pub erc721: TokenLedger,
}

impl SuperPositionNFT {
    /// Whether the contract's ledger is well formed.
    pub open spec fn wf(&self) -> bool {
        self.erc721.wf()
    }

    /// A contract with an empty ledger.
    pub fn new(art_contract_address: Address) -> (contract: SuperPositionNFT)
        ensures
            contract.wf(),
            contract.art_contract_address == art_contract_address,
            contract.erc721@ == genesis(),
    {
        SuperPositionNFT { art_contract_address, erc721: TokenLedger::new() }
    }

    /// Whether the ledger still has an id to assign.
    pub fn has_spare_id(&self) -> (spare: bool)
        ensures
            spare == (self.erc721@.next_id < max_token_id()),
    {
        self.erc721.has_spare_id()
    }

    /// Mints a token to `sender`, without asking it for consent.
    pub fn mint(&mut self, sender: Address) -> (minted: Result<(), LedgerError>)
        requires
            old(self).wf(),
            old(self).erc721@.next_id < max_token_id(),
        ensures
            final(self).wf(),
            final(self).art_contract_address == old(self).art_contract_address,
            final(self).erc721@ == after_mint(old(self).erc721@, sender),
            minted is Ok <==> mint_result(old(self).erc721@, sender) is Ok,
            minted is Err ==> mint_result(old(self).erc721@, sender) == Err::<nat, LedgerError>(minted->Err_0),
    {
        self.erc721.mint_to(sender)
    }

    /// Mints a token to `to`, without asking it for consent.
    pub fn mint_to(&mut self, to: Address) -> (minted: Result<(), LedgerError>)
        requires
            old(self).wf(),
            old(self).erc721@.next_id < max_token_id(),
        ensures
            final(self).wf(),
            final(self).art_contract_address == old(self).art_contract_address,
            final(self).erc721@ == after_mint(old(self).erc721@, to),
            minted is Ok <==> mint_result(old(self).erc721@, to) is Ok,
            minted is Err ==> mint_result(old(self).erc721@, to) == Err::<nat, LedgerError>(minted->Err_0),
    {
        self.erc721.mint_to(to)
    }

    /// Mints a token to `to` on behalf of `sender`, subject to the consent of
    /// `to` where it is a contract. Nothing is passed along for the receiver.
    pub fn safe_mint(&mut self, sender: Address, to: Address, kind: ReceiverKind) -> (minted: Result<
        Delivery,
        LedgerError,
    >)
        requires
            old(self).wf(),
            old(self).erc721@.next_id < max_token_id(),
        ensures
            final(self).wf(),
            final(self).art_contract_address == old(self).art_contract_address,
            final(self).erc721@ == after_mint(old(self).erc721@, to),
            match minted {
                Ok(delivery) => mint_result(old(self).erc721@, to) is Ok && delivery_matches(
                    delivery,
                    kind,
                    old(self).erc721@,
                    to,
                    sender,
                    Address::zero_spec(),
                    old(self).erc721@.next_id,
                    Seq::empty(),
                ),
                Err(e) => mint_result(old(self).erc721@, to) == Err::<nat, LedgerError>(e),
            },
    {
        self.erc721.safe_mint(sender, to, Vec::new(), kind)
    }

    /// Burns the token on behalf of `sender`, who must own it or be approved
    /// to act for its owner.
    pub fn burn(&mut self, sender: Address, token_id: TokenId) -> (burned: Result<(), LedgerError>)
        requires
            old(self).wf(),
        ensures
            final(self).wf(),
            final(self).art_contract_address == old(self).art_contract_address,
            burned == burn_result(old(self).erc721@, sender, token_id@),
            final(self).erc721@ == after_burn(old(self).erc721@, sender, token_id@),
    {
        self.erc721.burn(sender, token_id)
    }
}

} // verus!
