use near_amm::a_token::Contract;
use near_amm::token::TokenError;

#[test]
fn a_token_new_starts_empty() {
    let c = Contract::new(false).unwrap();
    assert_eq!(c.ft_total_supply(), 0);
    assert_eq!(c.ft_balance_of(&"jonhuang.testnet".to_string()), 0);
}

#[test]
fn a_token_new_refuses_existing_state() {
    assert_eq!(Contract::new(true).err(), Some(TokenError::AlreadyInitialized));
}

#[test]
fn a_token_transfers_after_registration() {
    let mut c = Contract::new(false).unwrap();
    assert_eq!(c.storage_deposit("x".to_string(), None, 1, 1), Ok(0));
    assert_eq!(
        c.ft_transfer(&"x".to_string(), &"y".to_string(), 1, 1),
        Err(TokenError::Ledger(near_amm::ledger::LedgerError::NotEnoughBalance))
    );
    let (ledger, meta) = c.into_parts();
    assert_eq!(meta.name, "A Token".to_string());
    assert_eq!(meta.symbol, "A".to_string());
    assert_eq!(meta.decimals, 18);
    assert_eq!(meta.spec, "ft-1.0.0".to_string());
    assert_eq!(meta.icon, None);
    assert_eq!(meta.reference, None);
    assert_eq!(meta.reference_hash, None);
    assert_eq!(ledger.balance_of(&"x".to_string()), 0);
}

#[test]
fn a_token_storage_and_hand_over() {
    let mut c = Contract::new(false).unwrap();
    assert_eq!(c.storage_balance_bounds(7), (7, Some(7)));
    c.storage_deposit("x".to_string(), None, 7, 7).unwrap();
    c.storage_deposit("x".to_string(), Some("y".to_string()), 7, 7).unwrap();
    assert_eq!(
        c.storage_balance_of(&"x".to_string(), 7),
        Some(near_amm::token::StorageBalance { total: 7, available: 0 })
    );
    assert_eq!(c.storage_withdraw(&"x".to_string(), Some(1), 1, 7), Err(TokenError::AmountExceedsAvailable));
    assert_eq!(
        c.ft_transfer_call(&"x".to_string(), &"y".to_string(), 1, 1, "m".to_string()).err(),
        Some(TokenError::Ledger(near_amm::ledger::LedgerError::NotEnoughBalance))
    );
    assert_eq!(
        c.ft_resolve_transfer(&"a".to_string(), &"a".to_string(), &"x".to_string(), &"y".to_string(), 5, None),
        Ok((5, 0))
    );
    assert_eq!(c.storage_unregister(&"y".to_string(), None, 1), Ok(Some(0)));
    assert_eq!(c.ft_total_supply(), 0);
}
