//! The ledger as mathematics.
//!
//! A [`LedgerState`] is what the ledger holds, written with maps, sets and
//! natural numbers. Each operation is a function from a state to the result it
//! reports and the state it leaves. [`consistent`] is what must hold of every
//! state, and the lemmas at the end show that every operation keeps it.

use vstd::prelude::*;
use vstd::set_lib::lemma_len_subset;
use crate::address::Address;
use crate::error::LedgerError;
use crate::event::EventRecord;
use crate::tally::{lemma_sum_insert, lemma_sum_remove, sum_values};

verus! {

/// Everything the ledger holds.
pub struct LedgerState {
    /// The owner of each token that exists.
    pub owners: Map<nat, Address>,
    /// The address approved for a single token, where there is one.
    pub approvals: Map<nat, Address>,
    /// The number of tokens of each address that owns any.
    pub balances: Map<Address, nat>,
    /// The pairs of an owner and an operator it has approved for all its tokens.
    pub operators: Set<(Address, Address)>,
    /// The id that the next mint will assign.
    pub next_id: nat,
    /// The events recorded so far, oldest first.
    pub events: Seq<EventRecord>,
}

/// The number that a map of counts holds for `a`: nothing where `a` is absent.
pub open spec fn count_of(counts: Map<Address, nat>, a: Address) -> nat {
    if counts.dom().contains(a) {
        counts[a]
    } else {
        0
    }
}

/// The counts after `a` has received one more.
pub open spec fn credit(counts: Map<Address, nat>, a: Address) -> Map<Address, nat> {
    counts.insert(a, count_of(counts, a) + 1)
}

/// The counts after `a` has given one away. An address left with nothing is
/// no longer listed.
pub open spec fn debit(counts: Map<Address, nat>, a: Address) -> Map<Address, nat> {
    if count_of(counts, a) <= 1 {
        counts.remove(a)
    } else {
        counts.insert(a, (count_of(counts, a) - 1) as nat)
    }
}

/// Whether every listed count is at least one.
pub open spec fn all_positive(counts: Map<Address, nat>) -> bool {
    forall|a: Address| counts.dom().contains(a) ==> #[trigger] counts[a] >= 1
}

/// The state of a new ledger: no tokens, no approvals, no events. Ids start at 1.
pub open spec fn genesis() -> LedgerState {
    LedgerState {
        owners: Map::empty(),
        approvals: Map::empty(),
        balances: Map::empty(),
        operators: Set::empty(),
        next_id: 1,
        events: Seq::empty(),
    }
}

impl LedgerState {
    /// Whether the token exists.
    pub open spec fn has_token(self, id: nat) -> bool {
        self.owners.dom().contains(id)
    }

    /// The number of tokens that `a` is recorded to own.
    pub open spec fn balance_of(self, a: Address) -> nat {
        count_of(self.balances, a)
    }

    /// The tokens whose owner is `a`.
    pub open spec fn holdings(self, a: Address) -> Set<nat> {
        Set::new(|id: nat| self.owners.dom().contains(id) && self.owners[id] == a)
    }

    /// The address approved for the token, or the zero address where none is.
    pub open spec fn approved_of(self, id: nat) -> Address {
        if self.approvals.dom().contains(id) {
            self.approvals[id]
        } else {
            Address::zero_spec()
        }
    }

    /// Whether `owner` has approved `operator` for all its tokens.
    pub open spec fn is_operator(self, owner: Address, operator: Address) -> bool {
        self.operators.contains((owner, operator))
    }

    /// Whether `caller` may transfer or burn the existing token `id`: it is the
    /// owner, the address approved for this token, or an operator of the owner.
    pub open spec fn may_move(self, caller: Address, id: nat) -> bool {
        ||| caller == self.owners[id]
        ||| (self.approvals.dom().contains(id) && self.approvals[id] == caller)
        ||| self.is_operator(self.owners[id], caller)
    }

    /// Whether `caller` may set the approval of the existing token `id`: it is
    /// the owner or an operator of the owner.
    pub open spec fn may_approve(self, caller: Address, id: nat) -> bool {
        ||| caller == self.owners[id]
        ||| self.is_operator(self.owners[id], caller)
    }

    /// The sum of all balances.
    pub open spec fn total_balance(self) -> nat {
        sum_values(self.balances)
    }

    /// The number of tokens that exist.
    pub open spec fn supply(self) -> nat {
        self.owners.dom().len()
    }
}

// ---------------------------------------------------------------------------
// Mint

/// What minting to `to` reports: the new token's id, unless `to` is the zero
/// address.
pub open spec fn mint_result(s: LedgerState, to: Address) -> Result<nat, LedgerError> {
    if to.is_zero_spec() {
        Err(LedgerError::InvalidReceiver)
    } else {
        Ok(s.next_id)
    }
}

/// The state after a mint to `to` has gone through.
pub open spec fn mint_step(s: LedgerState, to: Address) -> LedgerState {
    LedgerState {
        owners: s.owners.insert(s.next_id, to),
        balances: credit(s.balances, to),
        next_id: s.next_id + 1,
        events: s.events.push(
            EventRecord::Transfer { from: Address::zero_spec(), to, token_id: s.next_id },
        ),
        ..s
    }
}

/// The state that minting to `to` leaves.
pub open spec fn after_mint(s: LedgerState, to: Address) -> LedgerState {
    if mint_result(s, to) is Ok {
        mint_step(s, to)
    } else {
        s
    }
}

// ---------------------------------------------------------------------------
// Burn

/// What `caller` burning `id` reports.
pub open spec fn burn_result(s: LedgerState, caller: Address, id: nat) -> Result<(), LedgerError> {
    if !s.has_token(id) {
        Err(LedgerError::NonexistentToken)
    } else if !s.may_move(caller, id) {
        Err(LedgerError::NotAuthorized)
    } else {
        Ok(())
    }
}

/// The state after the existing token `id` has been burned.
pub open spec fn burn_step(s: LedgerState, id: nat) -> LedgerState {
    LedgerState {
        owners: s.owners.remove(id),
        approvals: s.approvals.remove(id),
        balances: debit(s.balances, s.owners[id]),
        events: s.events.push(
            EventRecord::Transfer { from: s.owners[id], to: Address::zero_spec(), token_id: id },
        ),
        ..s
    }
}

/// The state that `caller` burning `id` leaves.
pub open spec fn after_burn(s: LedgerState, caller: Address, id: nat) -> LedgerState {
    if burn_result(s, caller, id) is Ok {
        burn_step(s, id)
    } else {
        s
    }
}

// ---------------------------------------------------------------------------
// Transfer

/// What `caller` transferring `id` from `from` to `to` reports. The checks
/// come in this order: the token exists, the caller may move it, the receiver
/// is not the zero address, and `from` is the owner.
pub open spec fn transfer_result(
    s: LedgerState,
    caller: Address,
    from: Address,
    to: Address,
    id: nat,
) -> Result<(), LedgerError> {
    if !s.has_token(id) {
        Err(LedgerError::NonexistentToken)
    } else if !s.may_move(caller, id) {
        Err(LedgerError::NotAuthorized)
    } else if to.is_zero_spec() {
        Err(LedgerError::InvalidReceiver)
    } else if s.owners[id] != from {
        Err(LedgerError::IncorrectOwner)
    } else {
        Ok(())
    }
}

/// The state after the existing token `id` has moved from its owner to `to`.
pub open spec fn transfer_step(s: LedgerState, to: Address, id: nat) -> LedgerState {
    LedgerState {
        owners: s.owners.insert(id, to),
        approvals: s.approvals.remove(id),
        balances: credit(debit(s.balances, s.owners[id]), to),
        events: s.events.push(EventRecord::Transfer { from: s.owners[id], to, token_id: id }),
        ..s
    }
}

/// The state that `caller` transferring `id` from `from` to `to` leaves.
pub open spec fn after_transfer(
    s: LedgerState,
    caller: Address,
    from: Address,
    to: Address,
    id: nat,
) -> LedgerState {
    if transfer_result(s, caller, from, to, id) is Ok {
        transfer_step(s, to, id)
    } else {
        s
    }
}

// ---------------------------------------------------------------------------
// Approvals

/// What `caller` setting the approval of `id` reports.
pub open spec fn approve_result(s: LedgerState, caller: Address, id: nat) -> Result<(), LedgerError> {
    if !s.has_token(id) {
        Err(LedgerError::NonexistentToken)
    } else if !s.may_approve(caller, id) {
        Err(LedgerError::NotAuthorized)
    } else {
        Ok(())
    }
}

/// The state after the approval of the existing token `id` has been set to
/// `approved`. The zero address clears it.
pub open spec fn approve_step(s: LedgerState, approved: Address, id: nat) -> LedgerState {
    LedgerState {
        approvals: if approved.is_zero_spec() {
            s.approvals.remove(id)
        } else {
            s.approvals.insert(id, approved)
        },
        events: s.events.push(EventRecord::Approval { owner: s.owners[id], approved, token_id: id }),
        ..s
    }
}

/// The state that `caller` setting the approval of `id` to `approved` leaves.
pub open spec fn after_approve(s: LedgerState, caller: Address, approved: Address, id: nat) -> LedgerState {
    if approve_result(s, caller, id) is Ok {
        approve_step(s, approved, id)
    } else {
        s
    }
}

/// What `caller` granting or revoking `operator` reports: an owner cannot name
/// itself.
pub open spec fn set_operator_result(caller: Address, operator: Address) -> Result<(), LedgerError> {
    if operator == caller {
        Err(LedgerError::InvalidOperator)
    } else {
        Ok(())
    }
}

/// The state after `owner` has granted (`approved`) or revoked `operator`.
pub open spec fn set_operator_step(
    s: LedgerState,
    owner: Address,
    operator: Address,
    approved: bool,
) -> LedgerState {
    LedgerState {
        operators: if approved {
            s.operators.insert((owner, operator))
        } else {
            s.operators.remove((owner, operator))
        },
        events: s.events.push(EventRecord::ApprovalForAll { owner, operator, granted: approved }),
        ..s
    }
}

/// The state that `caller` granting or revoking `operator` leaves.
pub open spec fn after_set_operator(
    s: LedgerState,
    caller: Address,
    operator: Address,
    approved: bool,
) -> LedgerState {
    if set_operator_result(caller, operator) is Ok {
        set_operator_step(s, caller, operator, approved)
    } else {
        s
    }
}

// ---------------------------------------------------------------------------
// Consistency

/// What holds of every state the ledger can be in.
///
/// - Finitely many tokens exist; each has an id from 1 up to, not including,
///   the next id to be assigned, and an owner other than the zero address.
/// - Only an existing token has an approved address, which is not the zero
///   address.
/// - An address is listed with a balance exactly when it owns a token, and its
///   balance is the number of tokens it owns.
/// - The balances add up to the number of tokens that exist.
pub open spec fn consistent(s: LedgerState) -> bool {
    &&& s.owners.dom().finite()
    &&& s.balances.dom().finite()
    &&& s.next_id >= 1
    &&& forall|id: nat| #[trigger]
        s.owners.dom().contains(id) ==> 1 <= id < s.next_id && !s.owners[id].is_zero_spec()
    &&& forall|id: nat| #[trigger]
        s.approvals.dom().contains(id) ==> s.owners.dom().contains(id) && !s.approvals[id].is_zero_spec()
    &&& all_positive(s.balances)
    &&& forall|a: Address| #[trigger] s.balance_of(a) == s.holdings(a).len()
    &&& s.total_balance() == s.supply()
}

/// Crediting an address raises its count, and the sum, by one.
pub proof fn lemma_credit(counts: Map<Address, nat>, a: Address)
    requires
        counts.dom().finite(),
        all_positive(counts),
    ensures
        credit(counts, a).dom().finite(),
        all_positive(credit(counts, a)),
        count_of(credit(counts, a), a) == count_of(counts, a) + 1,
        forall|x: Address| x != a ==> #[trigger] count_of(credit(counts, a), x) == count_of(counts, x),
        sum_values(credit(counts, a)) == sum_values(counts) + 1,
{
    lemma_sum_insert(counts, a, count_of(counts, a) + 1);
    let after = credit(counts, a);
    assert forall|x: Address| after.dom().contains(x) implies #[trigger] after[x] >= 1 by {
        if x != a {
            assert(counts.dom().contains(x));
        }
    }
}

/// Debiting an address that has something lowers its count, and the sum, by
/// one.
pub proof fn lemma_debit(counts: Map<Address, nat>, a: Address)
    requires
        counts.dom().finite(),
        all_positive(counts),
        count_of(counts, a) >= 1,
    ensures
        debit(counts, a).dom().finite(),
        all_positive(debit(counts, a)),
        count_of(debit(counts, a), a) + 1 == count_of(counts, a),
        forall|x: Address| x != a ==> #[trigger] count_of(debit(counts, a), x) == count_of(counts, x),
        sum_values(debit(counts, a)) + 1 == sum_values(counts),
{
    let after = debit(counts, a);
    if count_of(counts, a) <= 1 {
        lemma_sum_remove(counts, a);
    } else {
        lemma_sum_insert(counts, a, (count_of(counts, a) - 1) as nat);
    }
    assert forall|x: Address| after.dom().contains(x) implies #[trigger] after[x] >= 1 by {
        if x != a {
            assert(counts.dom().contains(x));
        }
    }
}

/// In a consistent state the owner of a token has a balance of at least one,
/// and no balance exceeds the number of tokens that exist.
pub proof fn lemma_owner_has_balance(s: LedgerState, id: nat)
    requires
        consistent(s),
        s.has_token(id),
    ensures
        s.balance_of(s.owners[id]) >= 1,
        s.balances.dom().contains(s.owners[id]),
{
    let owner = s.owners[id];
    let held = s.holdings(owner);
    lemma_len_subset(held, s.owners.dom());
    assert(held.contains(id));
    assert(held.remove(id).len() == held.len() - 1);
    assert(s.balance_of(owner) == held.len());
}

/// In a consistent state no balance exceeds the number of tokens that exist.
pub proof fn lemma_balance_within_supply(s: LedgerState, a: Address)
    requires
        consistent(s),
    ensures
        s.balance_of(a) <= s.supply(),
{
    lemma_len_subset(s.holdings(a), s.owners.dom());
    assert(s.balance_of(a) == s.holdings(a).len());
}

/// The new ledger is consistent.
pub proof fn lemma_genesis_consistent()
    ensures
        consistent(genesis()),
{
    let s = genesis();
    assert forall|a: Address| #[trigger] s.balance_of(a) == s.holdings(a).len() by {
        assert(s.holdings(a) =~= Set::<nat>::empty());
    }
}

/// A mint that goes through keeps the state consistent.
pub proof fn lemma_mint_consistent(s: LedgerState, to: Address)
    requires
        consistent(s),
        !to.is_zero_spec(),
    ensures
        consistent(mint_step(s, to)),
        !s.has_token(s.next_id),
{
    let t = mint_step(s, to);
    let n = s.next_id;
    lemma_credit(s.balances, to);
    assert forall|a: Address| #[trigger] t.balance_of(a) == t.holdings(a).len() by {
        assert(s.balance_of(a) == s.holdings(a).len());
        lemma_len_subset(s.holdings(a), s.owners.dom());
        if a == to {
            assert(t.holdings(a) =~= s.holdings(a).insert(n));
        } else {
            assert(t.holdings(a) =~= s.holdings(a));
            assert(count_of(credit(s.balances, to), a) == count_of(s.balances, a));
        }
    }
}

/// A burn of an existing token keeps the state consistent.
pub proof fn lemma_burn_consistent(s: LedgerState, id: nat)
    requires
        consistent(s),
        s.has_token(id),
    ensures
        consistent(burn_step(s, id)),
{
    let t = burn_step(s, id);
    let owner = s.owners[id];
    lemma_owner_has_balance(s, id);
    lemma_debit(s.balances, owner);
    assert forall|a: Address| #[trigger] t.balance_of(a) == t.holdings(a).len() by {
        assert(s.balance_of(a) == s.holdings(a).len());
        lemma_len_subset(s.holdings(a), s.owners.dom());
        if a == owner {
            assert(t.holdings(a) =~= s.holdings(a).remove(id));
        } else {
            assert(t.holdings(a) =~= s.holdings(a));
            assert(count_of(debit(s.balances, owner), a) == count_of(s.balances, a));
        }
    }
}

/// A transfer of an existing token to an address other than the zero address
/// keeps the state consistent.
pub proof fn lemma_transfer_consistent(s: LedgerState, to: Address, id: nat)
    requires
        consistent(s),
        s.has_token(id),
        !to.is_zero_spec(),
    ensures
        consistent(transfer_step(s, to, id)),
{
    let t = transfer_step(s, to, id);
    let from = s.owners[id];
    let mid = debit(s.balances, from);
    lemma_owner_has_balance(s, id);
    lemma_debit(s.balances, from);
    lemma_credit(mid, to);
    assert(t.owners.dom() =~= s.owners.dom());
    assert forall|a: Address| #[trigger] t.balance_of(a) == t.holdings(a).len() by {
        assert(s.balance_of(a) == s.holdings(a).len());
        lemma_len_subset(s.holdings(a), s.owners.dom());
        if a != from {
            assert(count_of(mid, a) == count_of(s.balances, a));
        }
        if a != to {
            assert(count_of(credit(mid, to), a) == count_of(mid, a));
        }
        if from == to {
            assert(t.holdings(a) =~= s.holdings(a));
        } else if a == from {
            assert(t.holdings(a) =~= s.holdings(a).remove(id));
        } else if a == to {
            assert(t.holdings(a) =~= s.holdings(a).insert(id));
        } else {
            assert(t.holdings(a) =~= s.holdings(a));
        }
    }
}

/// Setting the approval of an existing token keeps the state consistent.
pub proof fn lemma_approve_consistent(s: LedgerState, approved: Address, id: nat)
    requires
        consistent(s),
        s.has_token(id),
    ensures
        consistent(approve_step(s, approved, id)),
{
    let t = approve_step(s, approved, id);
    assert forall|a: Address| #[trigger] t.balance_of(a) == t.holdings(a).len() by {
        assert(s.balance_of(a) == s.holdings(a).len());
        assert(t.holdings(a) =~= s.holdings(a));
    }
}

/// Granting or revoking an operator keeps the state consistent.
pub proof fn lemma_set_operator_consistent(s: LedgerState, owner: Address, operator: Address, approved: bool)
    requires
        consistent(s),
    ensures
        consistent(set_operator_step(s, owner, operator, approved)),
{
    let t = set_operator_step(s, owner, operator, approved);
    assert forall|a: Address| #[trigger] t.balance_of(a) == t.holdings(a).len() by {
        assert(s.balance_of(a) == s.holdings(a).len());
        assert(t.holdings(a) =~= s.holdings(a));
    }
}

/// Consistency does not depend on the events recorded.
pub proof fn lemma_events_irrelevant(s: LedgerState, events: Seq<EventRecord>)
    requires
        consistent(s),
    ensures
        consistent(LedgerState { events, ..s }),
{
    let t = LedgerState { events, ..s };
    assert forall|a: Address| #[trigger] t.balance_of(a) == t.holdings(a).len() by {
        assert(s.balance_of(a) == s.holdings(a).len());
        assert(t.holdings(a) =~= s.holdings(a));
    }
}

} // verus!
