//! What holds of the ledger whatever is done to it.
//!
//! Each law is stated over the model of [`crate::model`], which the
//! operations of [`crate::ledger::TokenLedger`] are proved to follow.

use vstd::prelude::*;
use crate::address::Address;
use crate::error::LedgerError;
use crate::model::{
    after_approve, after_burn, after_mint, after_set_operator, after_transfer, approve_result,
    burn_result, consistent, genesis, lemma_approve_consistent, lemma_burn_consistent, lemma_debit,
    lemma_genesis_consistent, lemma_mint_consistent, lemma_owner_has_balance,
    lemma_set_operator_consistent,
    lemma_transfer_consistent, mint_result, set_operator_result, transfer_result, LedgerState,
};

verus! {

/// A request made of the ledger.
pub enum Operation {
    Mint { to: Address },
    Burn { caller: Address, token_id: nat },
    TransferFrom { caller: Address, from: Address, to: Address, token_id: nat },
    Approve { caller: Address, approved: Address, token_id: nat },
    SetApprovalForAll { caller: Address, operator: Address, granted: bool },
}

/// The state that a request leaves: the state it found, where it is refused.
pub open spec fn apply(s: LedgerState, op: Operation) -> LedgerState {
    match op {
        Operation::Mint { to } => after_mint(s, to),
        Operation::Burn { caller, token_id } => after_burn(s, caller, token_id),
        Operation::TransferFrom { caller, from, to, token_id } => after_transfer(s, caller, from, to, token_id),
        Operation::Approve { caller, approved, token_id } => after_approve(s, caller, approved, token_id),
        Operation::SetApprovalForAll { caller, operator, granted } => after_set_operator(
            s,
            caller,
            operator,
            granted,
        ),
    }
}

/// The state that a sequence of requests leaves, made one after the other.
pub open spec fn replay(s: LedgerState, ops: Seq<Operation>) -> LedgerState
    decreases ops.len(),
{
    if ops.len() == 0 {
        s
    } else {
        apply(replay(s, ops.drop_last()), ops.last())
    }
}

/// Every request, granted or refused, leaves a consistent state consistent.
pub proof fn lemma_apply_consistent(s: LedgerState, op: Operation)
    requires
        consistent(s),
    ensures
        consistent(apply(s, op)),
{
    match op {
        Operation::Mint { to } => {
            if mint_result(s, to) is Ok {
                lemma_mint_consistent(s, to);
            }
        },
        Operation::Burn { caller, token_id } => {
            if burn_result(s, caller, token_id) is Ok {
                lemma_burn_consistent(s, token_id);
            }
        },
        Operation::TransferFrom { caller, from, to, token_id } => {
            if transfer_result(s, caller, from, to, token_id) is Ok {
                lemma_transfer_consistent(s, to, token_id);
            }
        },
        Operation::Approve { caller, approved, token_id } => {
            if approve_result(s, caller, token_id) is Ok {
                lemma_approve_consistent(s, approved, token_id);
            }
        },
        Operation::SetApprovalForAll { caller, operator, granted } => {
            if set_operator_result(caller, operator) is Ok {
                lemma_set_operator_consistent(s, caller, operator, granted);
            }
        },
    }
}

/// After any sequence of requests on a new ledger, the balances add up to the
/// number of tokens that exist, each address's balance is the number of
/// tokens it owns, and each token that exists is owned by exactly one address.
pub proof fn lemma_balances_match_tokens(ops: Seq<Operation>)
    ensures
        consistent(replay(genesis(), ops)),
        replay(genesis(), ops).total_balance() == replay(genesis(), ops).supply(),
        forall|a: Address| #[trigger]
            replay(genesis(), ops).balance_of(a) == replay(genesis(), ops).holdings(a).len(),
        forall|a: Address, id: nat|
            replay(genesis(), ops).has_token(id) ==> (#[trigger] replay(genesis(), ops).holdings(a).contains(id)
                <==> a == replay(genesis(), ops).owners[id]),
    decreases ops.len(),
{
    if ops.len() == 0 {
        lemma_genesis_consistent();
    } else {
        lemma_balances_match_tokens(ops.drop_last());
        lemma_apply_consistent(replay(genesis(), ops.drop_last()), ops.last());
    }
}

/// Minting to the zero address is refused with `InvalidReceiver` and changes
/// nothing.
pub proof fn lemma_mint_to_zero_refused(s: LedgerState)
    ensures
        mint_result(s, Address::zero_spec()) == Err::<nat, LedgerError>(LedgerError::InvalidReceiver),
        after_mint(s, Address::zero_spec()) == s,
{
}

/// A mint that goes through assigns an id that no existing token has, raises
/// the receiver's balance by one, and leaves every other balance as it was.
pub proof fn lemma_mint_is_fresh(s: LedgerState, to: Address)
    requires
        consistent(s),
        !to.is_zero_spec(),
    ensures
        mint_result(s, to) == Ok::<nat, LedgerError>(s.next_id),
        !s.has_token(s.next_id),
        after_mint(s, to).owners == s.owners.insert(s.next_id, to),
        after_mint(s, to).balance_of(to) == s.balance_of(to) + 1,
        forall|a: Address| a != to ==> #[trigger] after_mint(s, to).balance_of(a) == s.balance_of(a),
{
    lemma_mint_consistent(s, to);
}

/// No request lowers the next id, and no token ever has an id at or above it:
/// an id, once assigned, is not assigned again, burned or not.
pub proof fn lemma_ids_not_reused(s: LedgerState, ops: Seq<Operation>)
    requires
        consistent(s),
    ensures
        consistent(replay(s, ops)),
        replay(s, ops).next_id >= s.next_id,
        forall|id: nat| #[trigger] replay(s, ops).has_token(id) ==> id < replay(s, ops).next_id,
        forall|to: Address| #[trigger]
            mint_result(replay(s, ops), to) is Ok ==> mint_result(replay(s, ops), to)->Ok_0 >= s.next_id,
    decreases ops.len(),
{
    if ops.len() > 0 {
        lemma_ids_not_reused(s, ops.drop_last());
        lemma_apply_consistent(replay(s, ops.drop_last()), ops.last());
    }
}

/// Burning a token that does not exist is refused with `NonexistentToken`;
/// burning by a caller who is neither the owner, nor approved for the token,
/// nor an operator of the owner is refused with `NotAuthorized`. Both change
/// nothing.
pub proof fn lemma_burn_refusals(s: LedgerState, caller: Address, token_id: nat)
    ensures
        !s.has_token(token_id) ==> burn_result(s, caller, token_id) == Err::<(), LedgerError>(
            LedgerError::NonexistentToken,
        ) && after_burn(s, caller, token_id) == s,
        s.has_token(token_id) && !s.may_move(caller, token_id) ==> burn_result(s, caller, token_id) == Err::<
            (),
            LedgerError,
        >(LedgerError::NotAuthorized) && after_burn(s, caller, token_id) == s,
{
}

/// A burn that goes through leaves the token without owner and without
/// approved address, and takes one off its owner's balance.
pub proof fn lemma_burn_removes_token(s: LedgerState, caller: Address, token_id: nat)
    requires
        consistent(s),
        burn_result(s, caller, token_id) is Ok,
    ensures
        !after_burn(s, caller, token_id).has_token(token_id),
        after_burn(s, caller, token_id).approved_of(token_id) == Address::zero_spec(),
        after_burn(s, caller, token_id).balance_of(s.owners[token_id]) + 1 == s.balance_of(s.owners[token_id]),
{
    lemma_owner_has_balance(s, token_id);
    lemma_debit(s.balances, s.owners[token_id]);
}

/// A transfer that goes through hands the token to the receiver and clears
/// the address approved for it.
pub proof fn lemma_transfer_clears_approval(
    s: LedgerState,
    caller: Address,
    from: Address,
    to: Address,
    token_id: nat,
)
    requires
        transfer_result(s, caller, from, to, token_id) is Ok,
    ensures
        after_transfer(s, caller, from, to, token_id).approved_of(token_id) == Address::zero_spec(),
        after_transfer(s, caller, from, to, token_id).owners[token_id] == to,
        after_transfer(s, caller, from, to, token_id).has_token(token_id),
{
}

/// Operators and tokens do not touch each other: minting, burning and
/// transferring leave every operator as it was, and granting or revoking an
/// operator leaves every token, approved address and balance as it was.
pub proof fn lemma_operators_outlive_transfers(
    s: LedgerState,
    caller: Address,
    from: Address,
    to: Address,
    token_id: nat,
    operator: Address,
    granted: bool,
)
    ensures
        after_transfer(s, caller, from, to, token_id).operators == s.operators,
        after_burn(s, caller, token_id).operators == s.operators,
        after_mint(s, to).operators == s.operators,
        after_set_operator(s, caller, operator, granted).owners == s.owners,
        after_set_operator(s, caller, operator, granted).approvals == s.approvals,
        after_set_operator(s, caller, operator, granted).balances == s.balances,
        after_set_operator(s, caller, operator, granted).next_id == s.next_id,
{
}

/// An owner that names itself as its operator is refused with
/// `InvalidOperator`, and nothing changes.
pub proof fn lemma_self_operator_refused(s: LedgerState, caller: Address, approved: bool)
    ensures
        set_operator_result(caller, caller) == Err::<(), LedgerError>(LedgerError::InvalidOperator),
        after_set_operator(s, caller, caller, approved) == s,
{
}

/// Once its owner has approved `spender` for a token, `spender` can transfer
/// it: the transfer goes through, hands the token to `to`, and clears the
/// approval. `spender` and `to` are not the zero address.
pub proof fn lemma_approve_then_transfer(
    s: LedgerState,
    owner: Address,
    spender: Address,
    to: Address,
    token_id: nat,
)
    requires
        consistent(s),
        s.has_token(token_id),
        s.owners[token_id] == owner,
        !spender.is_zero_spec(),
        !to.is_zero_spec(),
    ensures
        approve_result(s, owner, token_id) is Ok,
        after_approve(s, owner, spender, token_id).approved_of(token_id) == spender,
        transfer_result(after_approve(s, owner, spender, token_id), spender, owner, to, token_id) is Ok,
        after_transfer(
            after_approve(s, owner, spender, token_id),
            spender,
            owner,
            to,
            token_id,
        ).approved_of(token_id) == Address::zero_spec(),
        after_transfer(after_approve(s, owner, spender, token_id), spender, owner, to, token_id).owners[token_id]
            == to,
{
}

} // verus!
