use superposition_nft::address::Address;
use superposition_nft::error::LedgerError;
use superposition_nft::event::LedgerEvent;
use superposition_nft::ledger::TokenLedger;
use superposition_nft::token_id::TokenId;

fn alice() -> Address {
    Address::new(0, 0xA11CE)
}

fn bob() -> Address {
    Address::new(0xB0B, 7)
}

fn carol() -> Address {
    Address::new(0xCA201, u128::MAX)
}

fn dave() -> Address {
    Address::new(u32::MAX, 0)
}

fn id(n: u64) -> TokenId {
    TokenId::from_u64(n)
}

#[test]
fn new_ledger_is_empty() {
    let mut ledger = TokenLedger::new();
    assert_eq!(ledger.total_supply(), 0);
    assert_eq!(ledger.next_token_id(), id(1));
    assert!(ledger.has_spare_id());
    assert_eq!(ledger.balance_of(alice()), 0);
    assert_eq!(ledger.balance_of(Address::zero()), 0);
    assert_eq!(ledger.owner_of(id(0)), Err(LedgerError::NonexistentToken));
    assert_eq!(ledger.owner_of(id(1)), Err(LedgerError::NonexistentToken));
    assert_eq!(ledger.get_approved(id(1)), Address::zero());
    assert!(!ledger.is_approved_for_all(alice(), bob()));
    assert!(ledger.take_events().is_empty());
}

#[test]
fn balances_add_up_to_the_number_of_tokens() {
    let people = [alice(), bob(), carol(), dave()];
    let mut ledger = TokenLedger::new();
    let check = |ledger: &TokenLedger, expected: [u64; 4]| {
        let mut sum = 0;
        for (person, want) in people.iter().zip(expected.iter()) {
            assert_eq!(ledger.balance_of(*person), *want);
            sum += ledger.balance_of(*person);
        }
        assert_eq!(sum, ledger.total_supply());
    };
    check(&ledger, [0, 0, 0, 0]);
    for _ in 0..3 {
        ledger.mint(alice()).unwrap();
    }
    ledger.mint(bob()).unwrap();
    check(&ledger, [3, 1, 0, 0]);
    ledger.transfer_from(alice(), alice(), carol(), id(2)).unwrap();
    check(&ledger, [2, 1, 1, 0]);
    ledger.transfer_from(bob(), bob(), carol(), id(4)).unwrap();
    check(&ledger, [2, 0, 2, 0]);
    ledger.burn(carol(), id(2)).unwrap();
    check(&ledger, [2, 0, 1, 0]);
    ledger.burn(alice(), id(1)).unwrap();
    ledger.burn(alice(), id(3)).unwrap();
    check(&ledger, [0, 0, 1, 0]);
    ledger.mint(dave()).unwrap();
    check(&ledger, [0, 0, 1, 1]);
    assert_eq!(ledger.owner_of(id(4)), Ok(carol()));
    assert_eq!(ledger.owner_of(id(5)), Ok(dave()));
    for gone in [1, 2, 3] {
        assert_eq!(ledger.owner_of(id(gone)), Err(LedgerError::NonexistentToken));
    }
}

#[test]
fn mint_to_zero_address_is_refused_and_changes_nothing() {
    let mut ledger = TokenLedger::new();
    ledger.mint(alice()).unwrap();
    ledger.take_events();
    assert_eq!(ledger.mint(Address::zero()), Err(LedgerError::InvalidReceiver));
    assert_eq!(ledger.mint_to(Address::zero()), Err(LedgerError::InvalidReceiver));
    assert_eq!(ledger.total_supply(), 1);
    assert_eq!(ledger.next_token_id(), id(2));
    assert_eq!(ledger.balance_of(Address::zero()), 0);
    assert_eq!(ledger.balance_of(alice()), 1);
    assert!(ledger.take_events().is_empty());
}

#[test]
fn mint_to_discards_the_id() {
    let mut ledger = TokenLedger::new();
    assert_eq!(ledger.mint_to(bob()), Ok(()));
    assert_eq!(ledger.mint_to(bob()), Ok(()));
    assert_eq!(ledger.owner_of(id(1)), Ok(bob()));
    assert_eq!(ledger.owner_of(id(2)), Ok(bob()));
    assert_eq!(ledger.balance_of(bob()), 2);
    assert_eq!(ledger.next_token_id(), id(3));
}

#[test]
fn burn_refusals_change_nothing() {
    let mut ledger = TokenLedger::new();
    ledger.mint(alice()).unwrap();
    ledger.approve(alice(), bob(), id(1)).unwrap();
    ledger.take_events();

    assert_eq!(ledger.burn(alice(), id(2)), Err(LedgerError::NonexistentToken));
    assert_eq!(ledger.burn(alice(), id(0)), Err(LedgerError::NonexistentToken));
    assert_eq!(ledger.burn(carol(), id(1)), Err(LedgerError::NotAuthorized));
    assert_eq!(ledger.burn(Address::zero(), id(1)), Err(LedgerError::NotAuthorized));

    assert_eq!(ledger.owner_of(id(1)), Ok(alice()));
    assert_eq!(ledger.get_approved(id(1)), bob());
    assert_eq!(ledger.balance_of(alice()), 1);
    assert_eq!(ledger.total_supply(), 1);
    assert!(ledger.take_events().is_empty());
}

#[test]
fn burn_by_approved_address_and_by_operator() {
    let mut ledger = TokenLedger::new();
    ledger.mint(alice()).unwrap();
    ledger.mint(alice()).unwrap();
    ledger.approve(alice(), bob(), id(1)).unwrap();
    ledger.set_approval_for_all(alice(), carol(), true).unwrap();

    // Bob is approved for token 1 only.
    assert_eq!(ledger.burn(bob(), id(2)), Err(LedgerError::NotAuthorized));
    assert_eq!(ledger.burn(bob(), id(1)), Ok(()));
    assert_eq!(ledger.burn(carol(), id(2)), Ok(()));
    assert_eq!(ledger.balance_of(alice()), 0);
    assert_eq!(ledger.total_supply(), 0);
}

#[test]
fn burn_clears_approval_and_retires_the_id() {
    let mut ledger = TokenLedger::new();
    ledger.mint(alice()).unwrap();
    ledger.approve(alice(), bob(), id(1)).unwrap();
    assert_eq!(ledger.burn(alice(), id(1)), Ok(()));
    assert_eq!(ledger.get_approved(id(1)), Address::zero());
    assert!(!ledger.has_token(id(1)));
    // A burned token cannot be burned, transferred or approved again.
    assert_eq!(ledger.burn(alice(), id(1)), Err(LedgerError::NonexistentToken));
    assert_eq!(ledger.transfer_from(alice(), alice(), bob(), id(1)), Err(LedgerError::NonexistentToken));
    assert_eq!(ledger.approve(alice(), bob(), id(1)), Err(LedgerError::NonexistentToken));
    // The next mint does not give the id out again.
    assert_eq!(ledger.mint(bob()), Ok(id(2)));
    assert_eq!(ledger.owner_of(id(1)), Err(LedgerError::NonexistentToken));
    assert_eq!(ledger.get_approved(id(2)), Address::zero());
}

#[test]
fn transfer_clears_the_approval() {
    let mut ledger = TokenLedger::new();
    ledger.mint(alice()).unwrap();
    ledger.approve(alice(), carol(), id(1)).unwrap();
    assert_eq!(ledger.get_approved(id(1)), carol());
    assert_eq!(ledger.transfer_from(alice(), alice(), bob(), id(1)), Ok(()));
    assert_eq!(ledger.get_approved(id(1)), Address::zero());
    // The address that was approved can no longer move the token.
    assert_eq!(ledger.transfer_from(carol(), bob(), carol(), id(1)), Err(LedgerError::NotAuthorized));
}

#[test]
fn approve_then_transfer_round_trip() {
    let mut ledger = TokenLedger::new();
    ledger.mint(alice()).unwrap();
    assert_eq!(ledger.approve(alice(), carol(), id(1)), Ok(()));
    assert_eq!(ledger.transfer_from(carol(), alice(), bob(), id(1)), Ok(()));
    assert_eq!(ledger.get_approved(id(1)), Address::zero());
    assert_eq!(ledger.owner_of(id(1)), Ok(bob()));
    assert_eq!(ledger.balance_of(alice()), 0);
    assert_eq!(ledger.balance_of(bob()), 1);
}

#[test]
fn approving_the_zero_address_gives_nobody_the_token() {
    let mut ledger = TokenLedger::new();
    ledger.mint(alice()).unwrap();
    ledger.approve(alice(), bob(), id(1)).unwrap();
    assert_eq!(ledger.approve(alice(), Address::zero(), id(1)), Ok(()));
    assert_eq!(ledger.get_approved(id(1)), Address::zero());
    assert_eq!(ledger.transfer_from(bob(), alice(), bob(), id(1)), Err(LedgerError::NotAuthorized));
    assert_eq!(
        ledger.transfer_from(Address::zero(), alice(), bob(), id(1)),
        Err(LedgerError::NotAuthorized)
    );
}

#[test]
fn transfer_checks_come_in_order() {
    let mut ledger = TokenLedger::new();
    ledger.mint(alice()).unwrap();
    ledger.take_events();

    // A token that does not exist, whatever else is wrong.
    assert_eq!(
        ledger.transfer_from(bob(), carol(), Address::zero(), id(9)),
        Err(LedgerError::NonexistentToken)
    );
    // A caller who may not move it, whatever else is wrong.
    assert_eq!(ledger.transfer_from(bob(), carol(), Address::zero(), id(1)), Err(LedgerError::NotAuthorized));
    // The zero address as receiver, even with the wrong owner named.
    assert_eq!(
        ledger.transfer_from(alice(), carol(), Address::zero(), id(1)),
        Err(LedgerError::InvalidReceiver)
    );
    assert_eq!(
        ledger.transfer_from(alice(), alice(), Address::zero(), id(1)),
        Err(LedgerError::InvalidReceiver)
    );
    // The wrong owner named by a caller who may move the token.
    assert_eq!(ledger.transfer_from(alice(), carol(), bob(), id(1)), Err(LedgerError::IncorrectOwner));

    assert_eq!(ledger.owner_of(id(1)), Ok(alice()));
    assert_eq!(ledger.balance_of(alice()), 1);
    assert_eq!(ledger.balance_of(bob()), 0);
    assert!(ledger.take_events().is_empty());
}

#[test]
fn transfer_to_oneself_keeps_the_balance_and_clears_the_approval() {
    let mut ledger = TokenLedger::new();
    ledger.mint(alice()).unwrap();
    ledger.approve(alice(), bob(), id(1)).unwrap();
    assert_eq!(ledger.transfer_from(alice(), alice(), alice(), id(1)), Ok(()));
    assert_eq!(ledger.owner_of(id(1)), Ok(alice()));
    assert_eq!(ledger.balance_of(alice()), 1);
    assert_eq!(ledger.total_supply(), 1);
    assert_eq!(ledger.get_approved(id(1)), Address::zero());
}

#[test]
fn approve_needs_the_owner_or_an_operator() {
    let mut ledger = TokenLedger::new();
    ledger.mint(alice()).unwrap();
    assert_eq!(ledger.approve(alice(), bob(), id(2)), Err(LedgerError::NonexistentToken));
    assert_eq!(ledger.approve(bob(), bob(), id(1)), Err(LedgerError::NotAuthorized));
    assert_eq!(ledger.get_approved(id(1)), Address::zero());

    // The approved address may move the token but not pass the approval on.
    ledger.approve(alice(), bob(), id(1)).unwrap();
    assert_eq!(ledger.approve(bob(), carol(), id(1)), Err(LedgerError::NotAuthorized));
    assert_eq!(ledger.get_approved(id(1)), bob());

    // An operator may.
    ledger.set_approval_for_all(alice(), dave(), true).unwrap();
    assert_eq!(ledger.approve(dave(), carol(), id(1)), Ok(()));
    assert_eq!(ledger.get_approved(id(1)), carol());
}

#[test]
fn naming_oneself_operator_is_refused() {
    let mut ledger = TokenLedger::new();
    assert_eq!(ledger.set_approval_for_all(alice(), alice(), true), Err(LedgerError::InvalidOperator));
    assert_eq!(ledger.set_approval_for_all(alice(), alice(), false), Err(LedgerError::InvalidOperator));
    assert!(!ledger.is_approved_for_all(alice(), alice()));
    assert!(ledger.take_events().is_empty());
}

#[test]
fn operators_are_granted_and_revoked_per_owner() {
    let mut ledger = TokenLedger::new();
    ledger.mint(alice()).unwrap();
    ledger.mint(bob()).unwrap();

    assert_eq!(ledger.set_approval_for_all(alice(), carol(), true), Ok(()));
    assert!(ledger.is_approved_for_all(alice(), carol()));
    assert!(!ledger.is_approved_for_all(carol(), alice()));
    assert!(!ledger.is_approved_for_all(bob(), carol()));
    assert_eq!(ledger.transfer_from(carol(), bob(), carol(), id(2)), Err(LedgerError::NotAuthorized));

    // Granting twice is granting once.
    assert_eq!(ledger.set_approval_for_all(alice(), carol(), true), Ok(()));
    assert!(ledger.is_approved_for_all(alice(), carol()));

    assert_eq!(ledger.set_approval_for_all(alice(), carol(), false), Ok(()));
    assert!(!ledger.is_approved_for_all(alice(), carol()));
    assert_eq!(ledger.transfer_from(carol(), alice(), carol(), id(1)), Err(LedgerError::NotAuthorized));

    // Revoking what was never granted changes nothing.
    assert_eq!(ledger.set_approval_for_all(bob(), dave(), false), Ok(()));
    assert!(!ledger.is_approved_for_all(bob(), dave()));

    assert_eq!(ledger.set_approval_for_all(alice(), carol(), true), Ok(()));
    assert_eq!(ledger.transfer_from(carol(), alice(), carol(), id(1)), Ok(()));
}

#[test]
fn operator_approval_outlives_transfers() {
    let mut ledger = TokenLedger::new();
    ledger.mint(alice()).unwrap();
    ledger.set_approval_for_all(alice(), carol(), true).unwrap();
    ledger.transfer_from(carol(), alice(), bob(), id(1)).unwrap();
    assert!(ledger.is_approved_for_all(alice(), carol()));
    // Carol acts for Alice, not for Bob.
    assert_eq!(ledger.transfer_from(carol(), bob(), alice(), id(1)), Err(LedgerError::NotAuthorized));
    ledger.transfer_from(bob(), bob(), alice(), id(1)).unwrap();
    assert_eq!(ledger.transfer_from(carol(), alice(), dave(), id(1)), Ok(()));
    assert_eq!(ledger.owner_of(id(1)), Ok(dave()));
}

#[test]
fn every_change_is_recorded_once() {
    let mut ledger = TokenLedger::new();
    ledger.mint(alice()).unwrap();
    ledger.approve(alice(), bob(), id(1)).unwrap();
    ledger.set_approval_for_all(alice(), carol(), true).unwrap();
    ledger.transfer_from(bob(), alice(), bob(), id(1)).unwrap();
    ledger.approve(bob(), Address::zero(), id(1)).unwrap();
    ledger.set_approval_for_all(alice(), carol(), false).unwrap();
    ledger.burn(bob(), id(1)).unwrap();
    // Refused requests are not recorded.
    ledger.burn(bob(), id(1)).unwrap_err();
    ledger.mint(Address::zero()).unwrap_err();

    assert_eq!(
        ledger.take_events(),
        vec![
            LedgerEvent::Transfer { from: Address::zero(), to: alice(), token_id: id(1) },
            LedgerEvent::Approval { owner: alice(), approved: bob(), token_id: id(1) },
            LedgerEvent::ApprovalForAll { owner: alice(), operator: carol(), granted: true },
            LedgerEvent::Transfer { from: alice(), to: bob(), token_id: id(1) },
            LedgerEvent::Approval { owner: bob(), approved: Address::zero(), token_id: id(1) },
            LedgerEvent::ApprovalForAll { owner: alice(), operator: carol(), granted: false },
            LedgerEvent::Transfer { from: bob(), to: Address::zero(), token_id: id(1) },
        ]
    );
    assert!(ledger.take_events().is_empty());
    // Taking the events leaves the tokens alone.
    ledger.mint(carol()).unwrap();
    assert_eq!(
        ledger.take_events(),
        vec![LedgerEvent::Transfer { from: Address::zero(), to: carol(), token_id: id(2) }]
    );
    assert_eq!(ledger.owner_of(id(2)), Ok(carol()));
}

#[test]
fn snapshot_is_independent_of_the_ledger() {
    let mut ledger = TokenLedger::new();
    ledger.mint(alice()).unwrap();
    ledger.set_approval_for_all(alice(), bob(), true).unwrap();
    let mut copy = ledger.snapshot();
    ledger.burn(alice(), id(1)).unwrap();
    assert_eq!(copy.owner_of(id(1)), Ok(alice()));
    assert_eq!(copy.balance_of(alice()), 1);
    assert!(copy.is_approved_for_all(alice(), bob()));
    assert_eq!(copy.next_token_id(), id(2));
    assert_eq!(copy.take_events().len(), 2);
    assert_eq!(ledger.take_events().len(), 3);
}

#[test]
fn addresses_differ_in_either_half() {
    let mut ledger = TokenLedger::new();
    let low_only = Address::new(0, 1);
    let high_only = Address::new(1, 0);
    ledger.mint(low_only).unwrap();
    assert_eq!(ledger.balance_of(low_only), 1);
    assert_eq!(ledger.balance_of(high_only), 0);
    assert_eq!(ledger.burn(high_only, id(1)), Err(LedgerError::NotAuthorized));
    assert!(Address::zero().is_zero());
    assert!(Address::new(0, 0).is_zero());
    assert!(!low_only.is_zero());
    assert!(!high_only.is_zero());
    assert_eq!(ledger.mint(high_only), Ok(id(2)));
}
