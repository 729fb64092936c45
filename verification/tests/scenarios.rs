use superposition_nft::address::Address;
use superposition_nft::error::LedgerError;
use superposition_nft::event::LedgerEvent;
use superposition_nft::ledger::TokenLedger;
use superposition_nft::receiver::{Delivery, ReceiverKind, ReceiverReply, ACCEPTANCE_MAGIC};
use superposition_nft::token_id::TokenId;

fn alice() -> Address {
    Address::new(0, 0xA11CE)
}

fn bob() -> Address {
    Address::new(0xB0B, 7)
}

fn carol() -> Address {
    Address::new(0xCA201, u128::MAX)
}

fn id(n: u64) -> TokenId {
    TokenId::from_u64(n)
}

#[test]
fn mint_transfer_burn_scenario() {
    let mut ledger = TokenLedger::new();

    let first = ledger.mint(alice()).unwrap();
    assert_eq!(first, id(1));
    assert_eq!(ledger.balance_of(alice()), 1);

    let second = ledger.mint(bob()).unwrap();
    assert_eq!(second, id(2));
    assert_eq!(ledger.balance_of(bob()), 1);

    assert_eq!(ledger.transfer_from(alice(), alice(), bob(), first), Ok(()));
    assert_eq!(ledger.owner_of(first), Ok(bob()));
    assert_eq!(ledger.balance_of(alice()), 0);
    assert_eq!(ledger.balance_of(bob()), 2);

    assert_eq!(ledger.burn(bob(), first), Ok(()));
    assert_eq!(ledger.owner_of(first), Err(LedgerError::NonexistentToken));
    assert_eq!(ledger.balance_of(bob()), 1);
}

#[test]
fn safe_mint_rejected_by_receiver_is_rolled_back() {
    let mut ledger = TokenLedger::new();
    ledger.mint(alice()).unwrap();
    ledger.take_events();

    let pending = match ledger.safe_mint(alice(), bob(), vec![1, 2, 3], ReceiverKind::Contract) {
        Ok(Delivery::Pending(pending)) => pending,
        _ => panic!("a contract receiver must be asked"),
    };
    // The mint is in place while the receiver is asked.
    assert_eq!(ledger.owner_of(id(2)), Ok(bob()));
    assert_eq!(ledger.balance_of(bob()), 1);
    assert_eq!(ledger.total_supply(), 2);

    let wrong_magic = ACCEPTANCE_MAGIC ^ 1;
    assert_eq!(
        ledger.settle(pending, ReceiverReply::Returned(wrong_magic)),
        Err(LedgerError::ReceiverRejected)
    );
    assert_eq!(ledger.owner_of(id(2)), Err(LedgerError::NonexistentToken));
    assert!(!ledger.has_token(id(2)));
    assert_eq!(ledger.balance_of(bob()), 0);
    assert_eq!(ledger.total_supply(), 1);
    assert_eq!(ledger.next_token_id(), id(2));
    assert!(ledger.take_events().is_empty());
    // The id that the rejected mint had taken is assigned by the next one.
    assert_eq!(ledger.mint(carol()), Ok(id(2)));
}

#[test]
fn safe_mint_failed_call_is_rolled_back() {
    let mut ledger = TokenLedger::new();
    let pending = match ledger.safe_mint(alice(), bob(), Vec::new(), ReceiverKind::Contract) {
        Ok(Delivery::Pending(pending)) => pending,
        _ => panic!("a contract receiver must be asked"),
    };
    assert_eq!(ledger.settle(pending, ReceiverReply::Failed), Err(LedgerError::ReceiverCallFailed));
    assert_eq!(ledger.total_supply(), 0);
    assert_eq!(ledger.balance_of(bob()), 0);
    assert_eq!(ledger.next_token_id(), id(1));
    assert!(ledger.take_events().is_empty());
}

#[test]
fn safe_mint_accepted_stands() {
    let mut ledger = TokenLedger::new();
    let pending = match ledger.safe_mint(alice(), bob(), vec![9], ReceiverKind::Contract) {
        Ok(Delivery::Pending(pending)) => pending,
        _ => panic!("a contract receiver must be asked"),
    };
    {
        let call = pending.call();
        assert_eq!(call.receiver, bob());
        assert_eq!(call.operator, alice());
        assert_eq!(call.from, Address::zero());
        assert_eq!(call.token_id, id(1));
        assert_eq!(call.data, vec![9]);
    }
    assert_eq!(ledger.settle(pending, ReceiverReply::Returned(0x150b7a02)), Ok(()));
    assert_eq!(ledger.owner_of(id(1)), Ok(bob()));
    assert_eq!(ledger.balance_of(bob()), 1);
    assert_eq!(
        ledger.take_events(),
        vec![LedgerEvent::Transfer { from: Address::zero(), to: bob(), token_id: id(1) }]
    );
}

#[test]
fn safe_mint_to_plain_account_asks_nobody() {
    let mut ledger = TokenLedger::new();
    assert!(matches!(
        ledger.safe_mint(alice(), bob(), Vec::new(), ReceiverKind::Account),
        Ok(Delivery::Settled)
    ));
    assert_eq!(ledger.owner_of(id(1)), Ok(bob()));
}

#[test]
fn safe_mint_to_zero_address_is_refused() {
    let mut ledger = TokenLedger::new();
    assert!(matches!(
        ledger.safe_mint(alice(), Address::zero(), Vec::new(), ReceiverKind::Contract),
        Err(LedgerError::InvalidReceiver)
    ));
    assert!(matches!(
        ledger.safe_mint(alice(), Address::zero(), Vec::new(), ReceiverKind::Account),
        Err(LedgerError::InvalidReceiver)
    ));
    assert_eq!(ledger.total_supply(), 0);
    assert_eq!(ledger.next_token_id(), id(1));
}

#[test]
fn safe_transfer_rejected_restores_owner_and_approval() {
    let mut ledger = TokenLedger::new();
    ledger.mint(alice()).unwrap();
    ledger.approve(alice(), carol(), id(1)).unwrap();
    ledger.take_events();

    let pending = match ledger.safe_transfer_from(carol(), alice(), bob(), id(1), vec![7, 7], ReceiverKind::Contract)
    {
        Ok(Delivery::Pending(pending)) => pending,
        _ => panic!("a contract receiver must be asked"),
    };
    {
        let call = pending.call();
        assert_eq!(call.receiver, bob());
        assert_eq!(call.operator, carol());
        assert_eq!(call.from, alice());
        assert_eq!(call.token_id, id(1));
        assert_eq!(call.data, vec![7, 7]);
    }
    assert_eq!(ledger.owner_of(id(1)), Ok(bob()));
    assert_eq!(ledger.get_approved(id(1)), Address::zero());

    assert_eq!(ledger.settle(pending, ReceiverReply::Returned(0)), Err(LedgerError::ReceiverRejected));
    assert_eq!(ledger.owner_of(id(1)), Ok(alice()));
    assert_eq!(ledger.get_approved(id(1)), carol());
    assert_eq!(ledger.balance_of(alice()), 1);
    assert_eq!(ledger.balance_of(bob()), 0);
    assert!(ledger.take_events().is_empty());
}

#[test]
fn safe_transfer_accepted_stands() {
    let mut ledger = TokenLedger::new();
    ledger.mint(alice()).unwrap();
    let pending = match ledger.safe_transfer_from(alice(), alice(), bob(), id(1), Vec::new(), ReceiverKind::Contract)
    {
        Ok(Delivery::Pending(pending)) => pending,
        _ => panic!("a contract receiver must be asked"),
    };
    assert_eq!(ledger.settle(pending, ReceiverReply::Returned(ACCEPTANCE_MAGIC)), Ok(()));
    assert_eq!(ledger.owner_of(id(1)), Ok(bob()));
    assert_eq!(ledger.balance_of(alice()), 0);
    assert_eq!(ledger.balance_of(bob()), 1);
}

#[test]
fn safe_transfer_refusals_match_plain_transfer() {
    let mut ledger = TokenLedger::new();
    ledger.mint(alice()).unwrap();
    assert!(matches!(
        ledger.safe_transfer_from(alice(), alice(), bob(), id(5), Vec::new(), ReceiverKind::Contract),
        Err(LedgerError::NonexistentToken)
    ));
    assert!(matches!(
        ledger.safe_transfer_from(bob(), alice(), bob(), id(1), Vec::new(), ReceiverKind::Contract),
        Err(LedgerError::NotAuthorized)
    ));
    assert!(matches!(
        ledger.safe_transfer_from(alice(), alice(), Address::zero(), id(1), Vec::new(), ReceiverKind::Account),
        Err(LedgerError::InvalidReceiver)
    ));
    assert!(matches!(
        ledger.safe_transfer_from(alice(), alice(), bob(), id(1), Vec::new(), ReceiverKind::Account),
        Ok(Delivery::Settled)
    ));
    assert_eq!(ledger.owner_of(id(1)), Ok(bob()));
}

#[test]
fn rollback_undoes_what_happened_while_the_receiver_was_asked() {
    let mut ledger = TokenLedger::new();
    ledger.mint(alice()).unwrap();
    let pending = match ledger.safe_mint(alice(), bob(), Vec::new(), ReceiverKind::Contract) {
        Ok(Delivery::Pending(pending)) => pending,
        _ => panic!("a contract receiver must be asked"),
    };
    // The receiver, while being asked, sees its token and moves it on.
    assert_eq!(ledger.transfer_from(bob(), bob(), carol(), id(2)), Ok(()));
    assert_eq!(ledger.owner_of(id(2)), Ok(carol()));
    assert_eq!(ledger.settle(pending, ReceiverReply::Failed), Err(LedgerError::ReceiverCallFailed));
    assert!(!ledger.has_token(id(2)));
    assert_eq!(ledger.balance_of(carol()), 0);
    assert_eq!(ledger.balance_of(bob()), 0);
    assert_eq!(ledger.balance_of(alice()), 1);
    assert_eq!(ledger.total_supply(), 1);
}
