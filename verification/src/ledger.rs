//! The executable ledger.
//!
//! A [`TokenLedger`] keeps its tables as vectors of pairs with distinct keys.
//! Its view is the [`LedgerState`] that those tables denote, and every
//! operation is proved to report the result and leave the state that
//! [`crate::model`] gives for it.

use vstd::prelude::*;
use crate::address::Address;
use crate::assoc::{
    has_key, keys_distinct, lemma_empty, lemma_entry, lemma_push, lemma_size, lemma_swap_remove,
    lemma_update, to_map,
};
use crate::error::LedgerError;
use crate::event::{records, LedgerEvent};
use crate::model::{
    after_approve, after_burn, after_mint, after_set_operator, after_transfer, approve_result,
    approve_step, burn_result, burn_step, consistent, count_of, credit, debit, genesis,
    lemma_approve_consistent, lemma_balance_within_supply, lemma_burn_consistent, lemma_credit,
    lemma_debit, lemma_events_irrelevant, lemma_genesis_consistent, lemma_mint_consistent,
    lemma_owner_has_balance, lemma_set_operator_consistent, lemma_transfer_consistent,
    mint_result, mint_step, set_operator_result, set_operator_step, transfer_result,
    transfer_step, LedgerState,
};
use crate::token_id::{lemma_view_bounded, lemma_view_injective, max_token_id, TokenId};

verus! {

/// What the ledger keeps for one token: its owner, and the address approved
/// for it, the zero address standing for none.
#[derive(Clone, Copy, Debug)]
struct TokenSlot {
    owner: Address,
    approved: Address,
}

/// A non-fungible-token ledger.
pub struct TokenLedger {
    tokens: Vec<(TokenId, TokenSlot)>,
    holdings: Vec<(Address, u64)>,
    grants: Vec<((Address, Address), bool)>,
    next_id: TokenId,
    journal: Vec<LedgerEvent>,
}

/// The token table with each id as the number it denotes.
spec fn token_pairs(tokens: Seq<(TokenId, TokenSlot)>) -> Seq<(nat, TokenSlot)> {
    tokens.map_values(|e: (TokenId, TokenSlot)| (e.0@, e.1))
}

/// The balance table with each count as a natural number.
spec fn holding_pairs(holdings: Seq<(Address, u64)>) -> Seq<(Address, nat)> {
    holdings.map_values(|e: (Address, u64)| (e.0, e.1 as nat))
}

/// The owner of each token in the table.
spec fn owners_of(slots: Map<nat, TokenSlot>) -> Map<nat, Address> {
    Map::new(|id: nat| slots.dom().contains(id), |id: nat| slots[id].owner)
}

/// The approved address of each token in the table that has one.
spec fn approvals_of(slots: Map<nat, TokenSlot>) -> Map<nat, Address> {
    Map::new(
        |id: nat| slots.dom().contains(id) && !slots[id].approved.is_zero_spec(),
        |id: nat| slots[id].approved,
    )
}

/// The pairs of owner and operator that the table holds as granted.
spec fn operators_of(grants: Map<(Address, Address), bool>) -> Set<(Address, Address)> {
    Set::new(|pair: (Address, Address)| grants.dom().contains(pair) && grants[pair])
}

impl View for TokenLedger {
    type V = LedgerState;

    closed spec fn view(&self) -> LedgerState {
        LedgerState {
            owners: owners_of(to_map(token_pairs(self.tokens@))),
            approvals: approvals_of(to_map(token_pairs(self.tokens@))),
            balances: to_map(holding_pairs(self.holdings@)),
            operators: operators_of(to_map(self.grants@)),
            next_id: self.next_id@,
            events: records(self.journal@),
        }
    }
}

/// The position of `id` in the token table, if it is there.
fn find_token(tokens: &Vec<(TokenId, TokenSlot)>, id: TokenId) -> (found: Option<usize>)
    ensures
        match found {
            Some(i) => i < tokens.len() && tokens[i as int].0 == id,
            None => !has_key(token_pairs(tokens@), id@),
        },
{
    let mut i: usize = 0;
    while i < tokens.len()
        invariant
            i <= tokens.len(),
            forall|j: int| 0 <= j < i ==> (#[trigger] tokens[j]).0 != id,
        decreases tokens.len() - i,
    {
        if tokens[i].0 == id {
            return Some(i);
        }
        i += 1;
    }
    proof {
        let pairs = token_pairs(tokens@);
        assert forall|j: int| 0 <= j < pairs.len() implies (#[trigger] pairs[j]).0 != id@ by {
            assert(tokens[j].0 != id);
            if tokens[j].0@ == id@ {
                lemma_view_injective(tokens[j].0, id);
            }
        }
    }
    None
}

/// The position of `a` in the balance table, if it is there.
fn find_holding(holdings: &Vec<(Address, u64)>, a: Address) -> (found: Option<usize>)
    ensures
        match found {
            Some(i) => i < holdings.len() && holdings[i as int].0 == a,
            None => !has_key(holding_pairs(holdings@), a),
        },
{
    let mut i: usize = 0;
    while i < holdings.len()
        invariant
            i <= holdings.len(),
            forall|j: int| 0 <= j < i ==> (#[trigger] holdings[j]).0 != a,
        decreases holdings.len() - i,
    {
        if holdings[i].0 == a {
            return Some(i);
        }
        i += 1;
    }
    proof {
        let pairs = holding_pairs(holdings@);
        assert forall|j: int| 0 <= j < pairs.len() implies (#[trigger] pairs[j]).0 != a by {
            assert(holdings[j].0 != a);
        }
    }
    None
}

/// The position of the pair of `owner` and `operator` in the grant table, if
/// it is there.
fn find_grant(grants: &Vec<((Address, Address), bool)>, owner: Address, operator: Address) -> (found: Option<
    usize,
>)
    ensures
        match found {
            Some(i) => i < grants.len() && grants[i as int].0 == (owner, operator),
            None => !has_key(grants@, (owner, operator)),
        },
{
    let mut i: usize = 0;
    while i < grants.len()
        invariant
            i <= grants.len(),
            forall|j: int| 0 <= j < i ==> (#[trigger] grants[j]).0 != (owner, operator),
        decreases grants.len() - i,
    {
        let key = grants[i].0;
        if key.0 == owner && key.1 == operator {
            return Some(i);
        }
        i += 1;
    }
    None
}

/// A copy of `items`, element by element.
fn copy_of<T: Copy>(items: &Vec<T>) -> (copy: Vec<T>)
    ensures
        copy@ == items@,
{
    let mut copy: Vec<T> = Vec::new();
    let mut i: usize = 0;
    while i < items.len()
        invariant
            i <= items.len(),
            copy@ == items@.subrange(0, i as int),
        decreases items.len() - i,
    {
        copy.push(items[i]);
        proof {
            assert(copy@ =~= items@.subrange(0, i + 1));
        }
        i += 1;
    }
    proof {
        assert(copy@ =~= items@);
    }
    copy
}

/// Adds one to the count of `a`, listing it where it was not.
fn credit_holding(holdings: &mut Vec<(Address, u64)>, a: Address)
    requires
        keys_distinct(holding_pairs(old(holdings)@)),
        count_of(to_map(holding_pairs(old(holdings)@)), a) < u64::MAX,
    ensures
        keys_distinct(holding_pairs(final(holdings)@)),
        to_map(holding_pairs(final(holdings)@)) == credit(to_map(holding_pairs(old(holdings)@)), a),
{
    let ghost before = holding_pairs(holdings@);
    match find_holding(holdings, a) {
        Some(i) => {
            proof {
                lemma_entry(before, i as int);
            }
            let count = holdings[i].1;
            holdings[i] = (a, count + 1);
            proof {
                lemma_update(before, i as int, (count + 1) as nat);
                assert(holding_pairs(holdings@) =~= before.update(i as int, (a, (count + 1) as nat)));
            }
        },
        None => {
            holdings.push((a, 1));
            proof {
                lemma_push(before, a, 1nat);
                assert(holding_pairs(holdings@) =~= before.push((a, 1nat)));
            }
        },
    }
}

/// Takes one off the count of `a`, which has at least one, dropping `a` from
/// the table where nothing is left.
fn debit_holding(holdings: &mut Vec<(Address, u64)>, a: Address)
    requires
        keys_distinct(holding_pairs(old(holdings)@)),
        count_of(to_map(holding_pairs(old(holdings)@)), a) >= 1,
    ensures
        keys_distinct(holding_pairs(final(holdings)@)),
        to_map(holding_pairs(final(holdings)@)) == debit(to_map(holding_pairs(old(holdings)@)), a),
{
    let ghost before = holding_pairs(holdings@);
    match find_holding(holdings, a) {
        Some(i) => {
            proof {
                lemma_entry(before, i as int);
            }
            let count = holdings[i].1;
            if count <= 1 {
                holdings.swap_remove(i);
                proof {
                    lemma_swap_remove(before, i as int);
                    assert(holding_pairs(holdings@) =~= before.update(i as int, before.last()).drop_last());
                }
            } else {
                holdings[i] = (a, count - 1);
                proof {
                    lemma_update(before, i as int, (count - 1) as nat);
                    assert(holding_pairs(holdings@) =~= before.update(i as int, (a, (count - 1) as nat)));
                }
            }
        },
        None => {
            // An address with a count is listed.
            assert(false);
        },
    }
}

impl TokenLedger {
    /// Whether the tables are well formed: no table holds a key twice, and the
    /// state they denote is consistent.
    pub closed spec fn wf(&self) -> bool {
        &&& keys_distinct(token_pairs(self.tokens@))
        &&& keys_distinct(holding_pairs(self.holdings@))
        &&& keys_distinct(self.grants@)
        &&& consistent(self@)
    }

    /// A well-formed ledger denotes a consistent state.
    pub proof fn lemma_wf_consistent(&self)
        requires
            self.wf(),
        ensures
            consistent(self@),
    {
    }

    /// A ledger with no tokens, approvals or events, whose first id is 1.
    pub fn new() -> (ledger: TokenLedger)
        ensures
            ledger.wf(),
            ledger@ == genesis(),
    {
        let ledger = TokenLedger {
            tokens: Vec::new(),
            holdings: Vec::new(),
            grants: Vec::new(),
            next_id: TokenId::from_u64(1),
            journal: Vec::new(),
        };
        proof {
            lemma_empty::<nat, TokenSlot>();
            lemma_empty::<Address, nat>();
            lemma_empty::<(Address, Address), bool>();
            lemma_genesis_consistent();
            assert(token_pairs(ledger.tokens@) =~= Seq::empty());
            assert(holding_pairs(ledger.holdings@) =~= Seq::empty());
            assert(ledger.grants@ =~= Seq::empty());
            assert(ledger@.owners =~= Map::empty());
            assert(ledger@.approvals =~= Map::empty());
            assert(ledger@.operators =~= Set::empty());
            assert(ledger@.events =~= Seq::empty());
        }
        ledger
    }

    /// The owner of the token, or `NonexistentToken` where it has none.
    pub fn owner_of(&self, token_id: TokenId) -> (owner: Result<Address, LedgerError>)
        requires
            self.wf(),
        ensures
            self@.has_token(token_id@) ==> owner == Ok::<Address, LedgerError>(self@.owners[token_id@]),
            !self@.has_token(token_id@) ==> owner == Err::<Address, LedgerError>(
                LedgerError::NonexistentToken,
            ),
    {
        match find_token(&self.tokens, token_id) {
            Some(i) => {
                proof {
                    lemma_entry(token_pairs(self.tokens@), i as int);
                }
                Ok(self.tokens[i].1.owner)
            },
            None => Err(LedgerError::NonexistentToken),
        }
    }

    /// The number of tokens that `owner` holds: zero for an address that
    /// holds none.
    pub fn balance_of(&self, owner: Address) -> (balance: u64)
        requires
            self.wf(),
        ensures
            balance == self@.balance_of(owner),
    {
        match find_holding(&self.holdings, owner) {
            Some(i) => {
                proof {
                    lemma_entry(holding_pairs(self.holdings@), i as int);
                }
                self.holdings[i].1
            },
            None => 0,
        }
    }

    /// The address approved for the token, or the zero address where there is
    /// none or the token does not exist.
    pub fn get_approved(&self, token_id: TokenId) -> (approved: Address)
        requires
            self.wf(),
        ensures
            approved == self@.approved_of(token_id@),
    {
        match find_token(&self.tokens, token_id) {
            Some(i) => {
                proof {
                    lemma_entry(token_pairs(self.tokens@), i as int);
                }
                self.tokens[i].1.approved
            },
            None => Address::zero(),
        }
    }

    /// Whether `owner` has approved `operator` for all its tokens.
    pub fn is_approved_for_all(&self, owner: Address, operator: Address) -> (approved: bool)
        requires
            self.wf(),
        ensures
            approved == self@.is_operator(owner, operator),
    {
        match find_grant(&self.grants, owner, operator) {
            Some(i) => {
                proof {
                    lemma_entry(self.grants@, i as int);
                }
                self.grants[i].1
            },
            None => false,
        }
    }

    /// Whether the token exists.
    pub fn has_token(&self, token_id: TokenId) -> (exists: bool)
        requires
            self.wf(),
        ensures
            exists == self@.has_token(token_id@),
    {
        match find_token(&self.tokens, token_id) {
            Some(i) => {
                proof {
                    lemma_entry(token_pairs(self.tokens@), i as int);
                }
                true
            },
            None => false,
        }
    }

    /// The number of tokens that exist.
    pub fn total_supply(&self) -> (supply: u64)
        requires
            self.wf(),
        ensures
            supply == self@.supply(),
    {
        proof {
            lemma_size(token_pairs(self.tokens@));
            assert(self@.owners.dom() =~= to_map(token_pairs(self.tokens@)).dom());
        }
        self.tokens.len() as u64
    }

    /// The id that the next mint will assign.
    pub fn next_token_id(&self) -> (next: TokenId)
        ensures
            next@ == self@.next_id,
    {
        self.next_id
    }

    /// Whether the ledger still has an id to assign: the counter has not
    /// reached the largest id.
    pub fn has_spare_id(&self) -> (spare: bool)
        ensures
            spare == (self@.next_id < max_token_id()),
    {
        proof {
            lemma_view_bounded(self.next_id);
        }
        !self.next_id.is_max()
    }

    /// Mints a new token to `to` and returns its id.
    ///
    /// The id is the ledger's next id, which no token has had before. The
    /// zero address is refused with `InvalidReceiver`.
    pub fn mint(&mut self, to: Address) -> (minted: Result<TokenId, LedgerError>)
        requires
            old(self).wf(),
            old(self)@.next_id < max_token_id(),
        ensures
            final(self).wf(),
            final(self)@ == after_mint(old(self)@, to),
            match minted {
                Ok(id) => mint_result(old(self)@, to) == Ok::<nat, LedgerError>(id@),
                Err(e) => mint_result(old(self)@, to) == Err::<nat, LedgerError>(e),
            },
            to.is_zero_spec() ==> minted == Err::<TokenId, LedgerError>(LedgerError::InvalidReceiver)
                && final(self)@ == old(self)@,
            !to.is_zero_spec() ==> minted is Ok && minted->Ok_0@ == old(self)@.next_id
                && !old(self)@.has_token(minted->Ok_0@),
    {
        if to.is_zero() {
            return Err(LedgerError::InvalidReceiver);
        }
        let id = self.next_id;
        let slot = TokenSlot { owner: to, approved: Address::zero() };
        let ghost before = self@;
        let ghost pairs = token_pairs(self.tokens@);
        proof {
            lemma_mint_consistent(before, to);
            lemma_balance_within_supply(before, to);
            lemma_size(pairs);
            assert(before.owners.dom() =~= to_map(pairs).dom());
        }
        self.tokens.push((id, slot));
        proof {
            lemma_push(pairs, id@, slot);
            assert(token_pairs(self.tokens@) =~= pairs.push((id@, slot)));
            assert(self.tokens.len() == pairs.len() + 1);
        }
        credit_holding(&mut self.holdings, to);
        self.next_id = id.successor();
        self.journal.push(LedgerEvent::Transfer { from: Address::zero(), to, token_id: id });
        proof {
            let after = mint_step(before, to);
            assert(self@.owners =~= after.owners);
            assert(self@.approvals =~= after.approvals);
            assert(self@.events =~= after.events);
            assert(self@ == after);
        }
        Ok(id)
    }

    /// Mints a new token to `to` without reporting its id.
    pub fn mint_to(&mut self, to: Address) -> (minted: Result<(), LedgerError>)
        requires
            old(self).wf(),
            old(self)@.next_id < max_token_id(),
        ensures
            final(self).wf(),
            final(self)@ == after_mint(old(self)@, to),
            minted is Ok <==> mint_result(old(self)@, to) is Ok,
            minted is Err ==> mint_result(old(self)@, to) == Err::<nat, LedgerError>(minted->Err_0),
    {
        match self.mint(to) {
            Ok(_) => Ok(()),
            Err(e) => Err(e),
        }
    }

    /// Whether `caller` may transfer or burn the token at position `i`.
    fn may_move_at(&self, caller: Address, i: usize) -> (allowed: bool)
        requires
            self.wf(),
            i < self.tokens.len(),
        ensures
            allowed == self@.may_move(caller, self.tokens[i as int].0@),
    {
        proof {
            lemma_entry(token_pairs(self.tokens@), i as int);
        }
        let slot = self.tokens[i].1;
        caller == slot.owner || (!slot.approved.is_zero() && slot.approved == caller)
            || self.is_approved_for_all(slot.owner, caller)
    }

    /// Whether `caller` may set the approval of the token at position `i`.
    fn may_approve_at(&self, caller: Address, i: usize) -> (allowed: bool)
        requires
            self.wf(),
            i < self.tokens.len(),
        ensures
            allowed == self@.may_approve(caller, self.tokens[i as int].0@),
    {
        proof {
            lemma_entry(token_pairs(self.tokens@), i as int);
        }
        let slot = self.tokens[i].1;
        caller == slot.owner || self.is_approved_for_all(slot.owner, caller)
    }

    /// Burns the token on behalf of `caller`.
    ///
    /// The token must exist (`NonexistentToken`), and `caller` must be its
    /// owner, the address approved for it, or an operator of its owner
    /// (`NotAuthorized`). The token then has no owner and no approved address,
    /// and its id is not assigned again.
    pub fn burn(&mut self, caller: Address, token_id: TokenId) -> (burned: Result<(), LedgerError>)
        requires
            old(self).wf(),
        ensures
            final(self).wf(),
            burned == burn_result(old(self)@, caller, token_id@),
            final(self)@ == after_burn(old(self)@, caller, token_id@),
            !old(self)@.has_token(token_id@) ==> burned == Err::<(), LedgerError>(LedgerError::NonexistentToken)
                && final(self)@ == old(self)@,
            old(self)@.has_token(token_id@) && !old(self)@.may_move(caller, token_id@) ==> burned == Err::<
                (),
                LedgerError,
            >(LedgerError::NotAuthorized) && final(self)@ == old(self)@,
            burned is Ok ==> !final(self)@.has_token(token_id@),
    {
        let ghost before = self@;
        let ghost pairs = token_pairs(self.tokens@);
        let i = match find_token(&self.tokens, token_id) {
            Some(i) => i,
            None => {
                return Err(LedgerError::NonexistentToken);
            },
        };
        proof {
            lemma_entry(pairs, i as int);
        }
        if !self.may_move_at(caller, i) {
            return Err(LedgerError::NotAuthorized);
        }
        let owner = self.tokens[i].1.owner;
        proof {
            lemma_burn_consistent(before, token_id@);
            lemma_owner_has_balance(before, token_id@);
            lemma_swap_remove(pairs, i as int);
        }
        self.tokens.swap_remove(i);
        proof {
            assert(token_pairs(self.tokens@) =~= pairs.update(i as int, pairs.last()).drop_last());
        }
        debit_holding(&mut self.holdings, owner);
        self.journal.push(LedgerEvent::Transfer { from: owner, to: Address::zero(), token_id });
        proof {
            let after = burn_step(before, token_id@);
            assert(self@.owners =~= after.owners);
            assert(self@.approvals =~= after.approvals);
            assert(self@.events =~= after.events);
            assert(self@ == after);
        }
        Ok(())
    }

    /// Transfers the token from `from` to `to` on behalf of `caller`.
    ///
    /// The checks come in this order: the token exists (`NonexistentToken`);
    /// `caller` is its owner, the address approved for it, or an operator of
    /// its owner (`NotAuthorized`); `to` is not the zero address
    /// (`InvalidReceiver`); `from` is its owner (`IncorrectOwner`). The
    /// transfer clears the token's approved address.
    pub fn transfer_from(&mut self, caller: Address, from: Address, to: Address, token_id: TokenId) -> (moved:
        Result<(), LedgerError>)
        requires
            old(self).wf(),
        ensures
            final(self).wf(),
            moved == transfer_result(old(self)@, caller, from, to, token_id@),
            final(self)@ == after_transfer(old(self)@, caller, from, to, token_id@),
            moved is Err ==> final(self)@ == old(self)@,
            moved is Ok ==> final(self)@.owners[token_id@] == to && final(self)@.approved_of(token_id@)
                == Address::zero_spec(),
    {
        let ghost before = self@;
        let ghost pairs = token_pairs(self.tokens@);
        let i = match find_token(&self.tokens, token_id) {
            Some(i) => i,
            None => {
                return Err(LedgerError::NonexistentToken);
            },
        };
        proof {
            lemma_entry(pairs, i as int);
        }
        if !self.may_move_at(caller, i) {
            return Err(LedgerError::NotAuthorized);
        }
        if to.is_zero() {
            return Err(LedgerError::InvalidReceiver);
        }
        if self.tokens[i].1.owner != from {
            return Err(LedgerError::IncorrectOwner);
        }
        let slot = TokenSlot { owner: to, approved: Address::zero() };
        let ghost after = transfer_step(before, to, token_id@);
        proof {
            lemma_transfer_consistent(before, to, token_id@);
            lemma_owner_has_balance(before, token_id@);
            lemma_debit(before.balances, from);
            lemma_credit(debit(before.balances, from), to);
            lemma_balance_within_supply(after, to);
            lemma_size(pairs);
            lemma_update(pairs, i as int, slot);
            assert(after.owners.dom() =~= to_map(pairs).dom());
            assert(self.tokens.len() == pairs.len());
        }
        self.tokens[i] = (token_id, slot);
        proof {
            assert(token_pairs(self.tokens@) =~= pairs.update(i as int, (token_id@, slot)));
        }
        debit_holding(&mut self.holdings, from);
        credit_holding(&mut self.holdings, to);
        self.journal.push(LedgerEvent::Transfer { from, to, token_id });
        proof {
            assert(self@.owners =~= after.owners);
            assert(self@.approvals =~= after.approvals);
            assert(self@.events =~= after.events);
            assert(self@ == after);
        }
        Ok(())
    }

    /// Sets the address approved for the token to `approved` on behalf of
    /// `caller`; the zero address clears it.
    ///
    /// The token must exist (`NonexistentToken`), and `caller` must be its
    /// owner or an operator of its owner (`NotAuthorized`).
    pub fn approve(&mut self, caller: Address, approved: Address, token_id: TokenId) -> (set: Result<
        (),
        LedgerError,
    >)
        requires
            old(self).wf(),
        ensures
            final(self).wf(),
            set == approve_result(old(self)@, caller, token_id@),
            final(self)@ == after_approve(old(self)@, caller, approved, token_id@),
    {
        let ghost before = self@;
        let ghost pairs = token_pairs(self.tokens@);
        let i = match find_token(&self.tokens, token_id) {
            Some(i) => i,
            None => {
                return Err(LedgerError::NonexistentToken);
            },
        };
        proof {
            lemma_entry(pairs, i as int);
        }
        if !self.may_approve_at(caller, i) {
            return Err(LedgerError::NotAuthorized);
        }
        let owner = self.tokens[i].1.owner;
        let slot = TokenSlot { owner, approved };
        proof {
            lemma_approve_consistent(before, approved, token_id@);
            lemma_update(pairs, i as int, slot);
        }
        self.tokens[i] = (token_id, slot);
        proof {
            assert(token_pairs(self.tokens@) =~= pairs.update(i as int, (token_id@, slot)));
        }
        self.journal.push(LedgerEvent::Approval { owner, approved, token_id });
        proof {
            let after = approve_step(before, approved, token_id@);
            assert(self@.owners =~= after.owners);
            assert(self@.approvals =~= after.approvals);
            assert(self@.events =~= after.events);
            assert(self@ == after);
        }
        Ok(())
    }

    /// Grants (`approved`) or revokes `operator`'s approval for all of
    /// `caller`'s tokens.
    ///
    /// An owner cannot name itself (`InvalidOperator`).
    pub fn set_approval_for_all(&mut self, caller: Address, operator: Address, approved: bool) -> (set: Result<
        (),
        LedgerError,
    >)
        requires
            old(self).wf(),
        ensures
            final(self).wf(),
            set == set_operator_result(caller, operator),
            final(self)@ == after_set_operator(old(self)@, caller, operator, approved),
            operator == caller ==> set == Err::<(), LedgerError>(LedgerError::InvalidOperator) && final(self)@
                == old(self)@,
            operator != caller ==> set is Ok && final(self)@.is_operator(caller, operator) == approved,
    {
        let ghost before = self@;
        let ghost pairs = self.grants@;
        if operator == caller {
            return Err(LedgerError::InvalidOperator);
        }
        proof {
            lemma_set_operator_consistent(before, caller, operator, approved);
        }
        match find_grant(&self.grants, caller, operator) {
            Some(i) => {
                proof {
                    lemma_entry(pairs, i as int);
                    lemma_update(pairs, i as int, approved);
                }
                self.grants[i] = ((caller, operator), approved);
                proof {
                    assert(self.grants@ =~= pairs.update(i as int, ((caller, operator), approved)));
                }
            },
            None => {
                proof {
                    lemma_push(pairs, (caller, operator), approved);
                }
                self.grants.push(((caller, operator), approved));
            },
        }
        self.journal.push(LedgerEvent::ApprovalForAll { owner: caller, operator, granted: approved });
        proof {
            let after = set_operator_step(before, caller, operator, approved);
            assert(self@.operators =~= after.operators);
            assert(self@.events =~= after.events);
            assert(self@ == after);
        }
        Ok(())
    }

    /// Hands over the events recorded since the last call, oldest first, and
    /// empties the journal. Nothing else changes.
    pub fn take_events(&mut self) -> (events: Vec<LedgerEvent>)
        requires
            old(self).wf(),
        ensures
            final(self).wf(),
            records(events@) == old(self)@.events,
            events@.len() == old(self)@.events.len(),
            final(self)@ == (LedgerState { events: Seq::empty(), ..old(self)@ }),
    {
        let mut events: Vec<LedgerEvent> = Vec::new();
        proof {
            lemma_events_irrelevant(self@, Seq::empty());
        }
        core::mem::swap(&mut self.journal, &mut events);
        proof {
            assert(self@.events =~= Seq::empty());
        }
        events
    }

    /// A copy of the ledger as it stands, to return to if what follows has to
    /// be undone.
    pub fn snapshot(&self) -> (copy: TokenLedger)
        ensures
            copy@ == self@,
            copy.wf() == self.wf(),
    {
        TokenLedger {
            tokens: copy_of(&self.tokens),
            holdings: copy_of(&self.holdings),
            grants: copy_of(&self.grants),
            next_id: self.next_id,
            journal: copy_of(&self.journal),
        }
    }
}

} // verus!
