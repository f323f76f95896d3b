use near_amm::ledger::LedgerError;
use near_amm::token::{Contract, OnTransferCall, StorageBalance, TokenError};

fn s(x: &str) -> String {
    x.to_string()
}

fn readme_token() -> Contract {
    Contract::new(s("jonhuang.testnet"), s("A Token Contract"), s("A"), 1_000_000_000_000, 18, false).unwrap()
}

#[test]
fn new_credits_owner_with_scaled_supply() {
    let c = readme_token();
    let supply: u128 = 1_000_000_000_000_000_000_000_000_000_000;
    assert_eq!(c.ft_total_supply(), supply);
    assert_eq!(c.ft_balance_of(&s("jonhuang.testnet")), supply);
    assert_eq!(c.ft_balance_of(&s("b.jonhuang.testnet")), 0);
    assert_eq!(c.get_info(), (s("A Token Contract"), 18));
}

#[test]
fn new_refuses_existing_state() {
    let r = Contract::new(s("owner"), s("T"), s("T"), 1, 0, true);
    assert_eq!(r.err(), Some(TokenError::AlreadyInitialized));
}

/// 10^22 whole tokens at 18 decimals are 10^40 minimal units, beyond `u128::MAX`
/// (about 3.4 * 10^38): `total_supply * 10^decimals` overflows, so initialization is refused
/// rather than crediting the owner with the unscaled supply.
#[test]
fn test_new() {
    let r = Contract::new(s("owner"), s("A Token Contract"), s("A"), 10_000_000_000_000_000_000_000, 18, false);
    assert_eq!(r.err(), Some(TokenError::SupplyOverflow));
}

#[test]
fn new_scale_limits() {
    let c = Contract::new(s("owner"), s("T"), s("T"), 1, 38, false).unwrap();
    assert_eq!(c.ft_total_supply(), 100_000_000_000_000_000_000_000_000_000_000_000_000);
    let r = Contract::new(s("owner"), s("T"), s("T"), 1, 39, false);
    assert_eq!(r.err(), Some(TokenError::SupplyOverflow));
    let z = Contract::new(s("owner"), s("T"), s("T"), 0, 39, false);
    assert_eq!(z.err(), Some(TokenError::SupplyOverflow));
    let c0 = Contract::new(s("owner"), s("T"), s("T"), 7, 0, false).unwrap();
    assert_eq!(c0.ft_balance_of(&s("owner")), 7);
}

#[test]
fn register_amm_moves_initial_balance() {
    let mut c = readme_token();
    let supply = c.ft_total_supply();
    let amount: u128 = 40_000_000_000_000_000_000_000;
    assert_eq!(c.register_amm(&s("z.jonhuang.testnet"), &s("jonhuang.testnet"), amount), Ok(()));
    assert_eq!(c.ft_balance_of(&s("z.jonhuang.testnet")), amount);
    assert_eq!(c.ft_balance_of(&s("jonhuang.testnet")), supply - amount);
    assert_eq!(c.ft_total_supply(), supply);
}

#[test]
fn register_amm_only_once() {
    let mut c = readme_token();
    assert_eq!(c.register_amm(&s("amm"), &s("jonhuang.testnet"), 5), Ok(()));
    assert_eq!(c.register_amm(&s("other"), &s("jonhuang.testnet"), 5), Err(TokenError::AmmAlreadyRegistered));
    assert_eq!(c.ft_balance_of(&s("other")), 0);
    assert_eq!(c.ft_balance_of(&s("amm")), 5);
}

#[test]
fn register_amm_refusals() {
    let mut c = readme_token();
    assert_eq!(
        c.register_amm(&s("jonhuang.testnet"), &s("jonhuang.testnet"), 5),
        Err(TokenError::Ledger(LedgerError::AlreadyRegistered))
    );
    assert_eq!(c.register_amm(&s("amm"), &s("amm"), 5), Err(TokenError::SameAccount));
    assert_eq!(c.register_amm(&s("amm"), &s("jonhuang.testnet"), 0), Err(TokenError::ZeroAmount));
    assert_eq!(c.register_amm(&s("amm"), &s("nobody"), 5), Err(TokenError::Ledger(LedgerError::NotRegistered)));
    let supply = c.ft_total_supply();
    assert_eq!(
        c.register_amm(&s("amm"), &s("jonhuang.testnet"), supply + 1),
        Err(TokenError::Ledger(LedgerError::NotEnoughBalance))
    );
    // a refused registration leaves no exchange behind
    assert_eq!(c.register_amm(&s("amm"), &s("jonhuang.testnet"), 1), Ok(()));
}

#[test]
fn transfer_from_by_exchange() {
    let mut c = readme_token();
    c.register_amm(&s("amm"), &s("jonhuang.testnet"), 1000).unwrap();
    let supply = c.ft_total_supply();
    assert_eq!(c.transfer_from(&s("amm"), &s("jonhuang.testnet"), &s("user"), 111), Ok(()));
    assert_eq!(c.ft_balance_of(&s("user")), 111);
    assert_eq!(c.transfer_from(&s("amm"), &s("user"), &s("amm"), 11), Ok(()));
    assert_eq!(c.ft_balance_of(&s("user")), 100);
    assert_eq!(c.ft_balance_of(&s("amm")), 1011);
    assert_eq!(c.ft_total_supply(), supply);
}

#[test]
fn transfer_from_refusals() {
    let mut c = readme_token();
    assert_eq!(c.transfer_from(&s("amm"), &s("jonhuang.testnet"), &s("user"), 1), Err(TokenError::NotAmm));
    c.register_amm(&s("amm"), &s("jonhuang.testnet"), 1000).unwrap();
    assert_eq!(c.transfer_from(&s("user"), &s("jonhuang.testnet"), &s("user"), 1), Err(TokenError::NotAmm));
    assert_eq!(c.transfer_from(&s("amm"), &s("user"), &s("user"), 1), Err(TokenError::SameAccount));
    assert_eq!(c.transfer_from(&s("amm"), &s("amm"), &s("user"), 0), Err(TokenError::ZeroAmount));
    assert_eq!(
        c.transfer_from(&s("amm"), &s("user"), &s("amm"), 1),
        Err(TokenError::Ledger(LedgerError::NotRegistered))
    );
    assert_eq!(
        c.transfer_from(&s("amm"), &s("amm"), &s("user"), 1001),
        Err(TokenError::Ledger(LedgerError::NotEnoughBalance))
    );
    assert_eq!(c.ft_balance_of(&s("user")), 0);
    assert_eq!(c.ft_balance_of(&s("amm")), 1000);
}

#[test]
fn ft_transfer_between_holders() {
    let mut c = readme_token();
    let supply = c.ft_total_supply();
    assert_eq!(c.storage_deposit(s("sim"), None, 10, 3), Ok(7));
    assert_eq!(c.ft_transfer(&s("jonhuang.testnet"), &s("sim"), 1000, 1), Ok(()));
    assert_eq!(c.ft_balance_of(&s("sim")), 1000);
    assert_eq!(c.ft_balance_of(&s("jonhuang.testnet")), supply - 1000);
    assert_eq!(c.ft_total_supply(), supply);
}

#[test]
fn ft_transfer_refusals() {
    let mut c = readme_token();
    assert_eq!(c.ft_transfer(&s("jonhuang.testnet"), &s("sim"), 1, 0), Err(TokenError::OneYoctoRequired));
    assert_eq!(c.ft_transfer(&s("jonhuang.testnet"), &s("jonhuang.testnet"), 1, 1), Err(TokenError::SameAccount));
    assert_eq!(c.ft_transfer(&s("jonhuang.testnet"), &s("sim"), 0, 1), Err(TokenError::ZeroAmount));
    assert_eq!(
        c.ft_transfer(&s("sim"), &s("jonhuang.testnet"), 1, 1),
        Err(TokenError::Ledger(LedgerError::NotRegistered))
    );
    assert_eq!(
        c.ft_transfer(&s("jonhuang.testnet"), &s("sim"), 1, 1),
        Err(TokenError::Ledger(LedgerError::NotRegistered))
    );
    c.storage_deposit(s("jonhuang.testnet"), Some(s("sim")), 5, 5).unwrap();
    assert_eq!(
        c.ft_transfer(&s("sim"), &s("jonhuang.testnet"), 1, 1),
        Err(TokenError::Ledger(LedgerError::NotEnoughBalance))
    );
    assert_eq!(c.ft_balance_of(&s("sim")), 0);
}

#[test]
fn storage_deposit_cases() {
    let mut c = readme_token();
    assert_eq!(c.storage_deposit(s("sim"), None, 2, 3), Err(TokenError::InsufficientStorageDeposit));
    assert_eq!(c.storage_deposit(s("sim"), None, 3, 3), Ok(0));
    assert_eq!(c.storage_deposit(s("other"), Some(s("sim")), 9, 3), Ok(9));
    assert_eq!(c.storage_deposit(s("jonhuang.testnet"), None, 4, 3), Ok(4));
    assert_eq!(c.ft_balance_of(&s("sim")), 0);
}

#[test]
fn token_parts_round_trip() {
    let mut c = readme_token();
    c.register_amm(&s("amm"), &s("jonhuang.testnet"), 10).unwrap();
    let (amm_id, ledger, meta) = c.into_parts();
    assert_eq!(amm_id, Some(s("amm")));
    assert_eq!(meta.name, s("A Token Contract"));
    assert_eq!(meta.symbol, s("A"));
    assert_eq!(meta.decimals, 18);
    assert_eq!(meta.spec, s("ft-1.0.0"));
    assert_eq!(meta.icon, None);
    assert_eq!(meta.reference, None);
    assert_eq!(meta.reference_hash, None);
    let mut c2 = Contract::from_parts(amm_id, ledger, meta);
    assert_eq!(c2.ft_balance_of(&s("amm")), 10);
    assert_eq!(c2.transfer_from(&s("amm"), &s("amm"), &s("u"), 10), Ok(()));
}

#[test]
fn storage_views_and_withdraw() {
    let mut c = readme_token();
    assert_eq!(c.storage_balance_bounds(125), (125, Some(125)));
    assert_eq!(c.storage_balance_of(&s("jonhuang.testnet"), 125), Some(StorageBalance { total: 125, available: 0 }));
    assert_eq!(c.storage_balance_of(&s("sim"), 125), None);
    assert_eq!(c.storage_withdraw(&s("jonhuang.testnet"), None, 1, 125), Ok(StorageBalance { total: 125, available: 0 }));
    assert_eq!(c.storage_withdraw(&s("jonhuang.testnet"), Some(0), 1, 125), Ok(StorageBalance { total: 125, available: 0 }));
    assert_eq!(c.storage_withdraw(&s("jonhuang.testnet"), Some(1), 1, 125), Err(TokenError::AmountExceedsAvailable));
    assert_eq!(c.storage_withdraw(&s("jonhuang.testnet"), None, 0, 125), Err(TokenError::OneYoctoRequired));
    assert_eq!(c.storage_withdraw(&s("sim"), None, 1, 125), Err(TokenError::Ledger(LedgerError::NotRegistered)));
    c.storage_deposit(s("sim"), None, 125, 125).unwrap();
    assert_eq!(c.storage_balance_of(&s("sim"), 125), Some(StorageBalance { total: 125, available: 0 }));
}

#[test]
fn storage_unregister_cases() {
    let mut c = readme_token();
    let supply = c.ft_total_supply();
    c.storage_deposit(s("sim"), None, 5, 5).unwrap();
    assert_eq!(c.storage_unregister(&s("nobody"), None, 1), Ok(None));
    assert_eq!(c.storage_unregister(&s("sim"), None, 0), Err(TokenError::OneYoctoRequired));
    assert_eq!(c.storage_unregister(&s("sim"), None, 1), Ok(Some(0)));
    assert_eq!(c.storage_balance_of(&s("sim"), 5), None);
    assert_eq!(c.storage_unregister(&s("jonhuang.testnet"), None, 1), Err(TokenError::PositiveBalance));
    assert_eq!(c.storage_unregister(&s("jonhuang.testnet"), Some(false), 1), Err(TokenError::PositiveBalance));
    assert_eq!(c.storage_unregister(&s("jonhuang.testnet"), Some(true), 1), Ok(Some(supply)));
    assert_eq!(c.ft_total_supply(), 0);
}

#[test]
fn transfer_call_and_resolve() {
    let mut c = readme_token();
    let supply = c.ft_total_supply();
    c.storage_deposit(s("dex"), None, 1, 1).unwrap();
    let call = c.ft_transfer_call(&s("jonhuang.testnet"), &s("dex"), 100, 1, s("swap")).unwrap();
    assert_eq!(
        call,
        OnTransferCall { receiver_id: s("dex"), sender_id: s("jonhuang.testnet"), amount: 100, msg: s("swap") }
    );
    assert_eq!(c.ft_balance_of(&s("dex")), 100);
    // the receiver used 60 and gives 40 back
    assert_eq!(
        c.ft_resolve_transfer(&s("tok"), &s("tok"), &s("jonhuang.testnet"), &s("dex"), 100, Some(40)),
        Ok((60, 0))
    );
    assert_eq!(c.ft_balance_of(&s("dex")), 60);
    assert_eq!(c.ft_balance_of(&s("jonhuang.testnet")), supply - 60);
    assert_eq!(c.ft_total_supply(), supply);
    assert_eq!(
        c.ft_resolve_transfer(&s("dex"), &s("tok"), &s("jonhuang.testnet"), &s("dex"), 100, None),
        Err(TokenError::PrivateMethod)
    );
    assert_eq!(
        c.ft_transfer_call(&s("jonhuang.testnet"), &s("dex"), 1, 0, s("")).err(),
        Some(TokenError::OneYoctoRequired)
    );
}

#[test]
fn resolve_transfer_failure_and_burn() {
    let mut c = readme_token();
    let supply = c.ft_total_supply();
    c.storage_deposit(s("dex"), None, 1, 1).unwrap();
    c.storage_deposit(s("sim"), None, 1, 1).unwrap();
    c.ft_transfer(&s("jonhuang.testnet"), &s("sim"), 50, 1).unwrap();
    c.ft_transfer_call(&s("sim"), &s("dex"), 50, 1, s("")).unwrap();
    // a failed receiver call counts the whole amount unused: all of it comes back
    assert_eq!(c.ft_resolve_transfer(&s("tok"), &s("tok"), &s("sim"), &s("dex"), 50, None), Ok((0, 0)));
    assert_eq!(c.ft_balance_of(&s("sim")), 50);
    c.ft_transfer_call(&s("sim"), &s("dex"), 50, 1, s("")).unwrap();
    // the sender leaves before the settlement: what comes back is burned
    c.storage_unregister(&s("sim"), None, 1).unwrap();
    assert_eq!(c.ft_resolve_transfer(&s("tok"), &s("tok"), &s("sim"), &s("dex"), 50, Some(80)), Ok((50, 50)));
    assert_eq!(c.ft_balance_of(&s("dex")), 0);
    assert_eq!(c.ft_total_supply(), supply - 50);
    // nothing unused, nothing moves
    assert_eq!(c.ft_resolve_transfer(&s("tok"), &s("tok"), &s("sim"), &s("dex"), 50, Some(0)), Ok((50, 0)));
}
