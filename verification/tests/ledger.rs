use near_amm::ledger::{Ledger, LedgerError};

fn s(x: &str) -> String {
    x.to_string()
}

#[test]
fn ledger_register_and_move() {
    let mut l = Ledger::new();
    assert_eq!(l.total_supply(), 0);
    assert!(!l.is_registered(&s("a")));
    assert_eq!(l.register(&s("a")), Ok(()));
    assert!(l.is_registered(&s("a")));
    assert_eq!(l.register(&s("a")), Err(LedgerError::AlreadyRegistered));
    assert_eq!(l.deposit(&s("a"), 10), Ok(()));
    assert_eq!(l.withdraw(&s("a"), 4), Ok(()));
    assert_eq!(l.balance_of(&s("a")), 6);
    assert_eq!(l.total_supply(), 6);
}

#[test]
fn ledger_refusals() {
    let mut l = Ledger::new();
    assert_eq!(l.deposit(&s("a"), 1), Err(LedgerError::NotRegistered));
    assert_eq!(l.withdraw(&s("a"), 1), Err(LedgerError::NotRegistered));
    l.register(&s("a")).unwrap();
    l.register(&s("b")).unwrap();
    assert_eq!(l.deposit(&s("a"), u128::MAX), Ok(()));
    assert_eq!(l.deposit(&s("a"), 1), Err(LedgerError::BalanceOverflow));
    assert_eq!(l.deposit(&s("b"), 1), Err(LedgerError::TotalSupplyOverflow));
    assert_eq!(l.withdraw(&s("b"), 1), Err(LedgerError::NotEnoughBalance));
    assert_eq!(l.balance_of(&s("b")), 0);
    assert_eq!(l.total_supply(), u128::MAX);
}

#[test]
fn ledger_from_accounts() {
    let l = Ledger::from_accounts(vec![(s("a"), 3), (s("b"), 4)]).unwrap();
    assert_eq!(l.total_supply(), 7);
    assert_eq!(l.balance_of(&s("b")), 4);
    let back = l.into_accounts();
    assert_eq!(back, vec![(s("a"), 3), (s("b"), 4)]);
    assert!(Ledger::from_accounts(vec![(s("a"), 3), (s("a"), 4)]).is_none());
    assert!(Ledger::from_accounts(vec![(s("a"), u128::MAX), (s("b"), 1)]).is_none());
    assert_eq!(Ledger::from_accounts(vec![]).unwrap().total_supply(), 0);
}
