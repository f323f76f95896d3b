use near_amm::amm::{AmmError, Callback, Contract, CrossCall, TokenCall, A_BALANCE, B_BALANCE};

fn s(x: &str) -> String {
    x.to_string()
}

const OWNER: &str = "jonhuang.testnet";
const A_ID: &str = "a.jonhuang.testnet";
const B_ID: &str = "b.jonhuang.testnet";
const AMM: &str = "z.jonhuang.testnet";
const USER: &str = "sim.testnet";

fn fresh() -> Contract {
    Contract::new(s(OWNER), s(A_ID), s(B_ID), false).unwrap().0
}

fn ready() -> Contract {
    let mut c = fresh();
    c.callback_get_info(s(A_ID), (s("A Token Contract"), 18), &s(AMM), &s(AMM)).unwrap();
    c.callback_get_info(s(B_ID), (s("B Token Contract"), 15), &s(AMM), &s(AMM)).unwrap();
    c
}

#[test]
fn amm_new_state_and_calls() {
    let (c, calls) = Contract::new(s(OWNER), s(A_ID), s(B_ID), false).unwrap();
    assert_eq!(c.get_ratio(), 0);
    assert_eq!(
        c.get_info(),
        ((s(A_ID), s(""), A_BALANCE, 1), (s(B_ID), s(""), B_BALANCE, 1))
    );
    assert_eq!(
        calls,
        vec![
            CrossCall {
                contract_id: s(A_ID),
                call: TokenCall::GetInfo,
                callback: Some(Callback::GetInfo { contract_id: s(A_ID) }),
            },
            CrossCall {
                contract_id: s(B_ID),
                call: TokenCall::GetInfo,
                callback: Some(Callback::GetInfo { contract_id: s(B_ID) }),
            },
            CrossCall {
                contract_id: s(A_ID),
                call: TokenCall::RegisterAmm { sender_id: s(OWNER), amount: 40_000_000_000_000_000_000_000 },
                callback: None,
            },
            CrossCall {
                contract_id: s(B_ID),
                call: TokenCall::RegisterAmm { sender_id: s(OWNER), amount: 300_000_000_000_000_000_000 },
                callback: None,
            },
        ]
    );
}

#[test]
fn amm_new_refuses_existing_state() {
    assert_eq!(Contract::new(s(OWNER), s(A_ID), s(B_ID), true).err(), Some(AmmError::AlreadyInitialized));
}

#[test]
fn amm_get_info_fills_metadata_and_ratio() {
    let mut c = fresh();
    c.callback_get_info(s(A_ID), (s("A Token Contract"), 18), &s(AMM), &s(AMM)).unwrap();
    assert_eq!(c.get_ratio(), 1_200_000_000_000_000_000_000_000);
    c.callback_get_info(s(B_ID), (s("B Token Contract"), 15), &s(AMM), &s(AMM)).unwrap();
    assert_eq!(c.get_ratio(), 12_000_000_000);
    assert_eq!(
        c.get_info(),
        (
            (s(A_ID), s("A Token Contract"), A_BALANCE, 18),
            (s(B_ID), s("B Token Contract"), B_BALANCE, 15)
        )
    );
}

#[test]
fn amm_get_info_refusals() {
    let mut c = ready();
    assert_eq!(
        c.callback_get_info(s(A_ID), (s("X"), 3), &s(USER), &s(AMM)),
        Err(AmmError::NotSelf)
    );
    assert_eq!(
        c.callback_get_info(s(A_ID), (s("X"), 39), &s(AMM), &s(AMM)),
        Err(AmmError::ArithmeticError)
    );
    assert_eq!(c.get_info().0 .1, s("A Token Contract"));
    assert_eq!(c.get_ratio(), 12_000_000_000);
    // an unknown contract changes no metadata
    c.callback_get_info(s("c.testnet"), (s("C"), 0), &s(AMM), &s(AMM)).unwrap();
    assert_eq!(c.get_info().0 .3, 18);
    assert_eq!(c.get_info().1 .3, 15);
}

#[test]
fn amm_deposit_a_readme_swap() {
    let c = ready();
    let call = c.deposit_a(111, &s(USER), &s(AMM)).unwrap();
    assert_eq!(
        call,
        CrossCall {
            contract_id: s(A_ID),
            call: TokenCall::TransferFrom {
                sender_id: s(USER),
                receiver_id: s(AMM),
                amount: 111_000_000_000_000_000_000,
            },
            callback: Some(Callback::FtDeposit {
                a_balance_after: 40_111_000_000_000_000_000_000,
                b_balance_after: 299_169_000_000_000_000_000,
                contract_id: s(B_ID),
                receiver_id: s(USER),
                amount: 831_000_000_000_000_000,
            }),
        }
    );
}

#[test]
fn amm_swap_a_round_trip_keeps_product() {
    let mut c = ready();
    let k = c.get_ratio();
    let call = c.deposit_a(111, &s(USER), &s(AMM)).unwrap();
    let (a_after, b_after, contract_id, receiver_id, amount) = match call.callback {
        Some(Callback::FtDeposit { a_balance_after, b_balance_after, contract_id, receiver_id, amount }) => {
            (a_balance_after, b_balance_after, contract_id, receiver_id, amount)
        }
        _ => panic!("expected a payout"),
    };
    let payout = c
        .callback_ft_deposit(a_after, b_after, contract_id, receiver_id, amount, true, &s(AMM), &s(AMM))
        .unwrap();
    assert_eq!(
        payout,
        CrossCall {
            contract_id: s(B_ID),
            call: TokenCall::TransferFrom { sender_id: s(AMM), receiver_id: s(USER), amount: 831_000_000_000_000_000 },
            callback: Some(Callback::UpdateBalances { a_balance_after: a_after, b_balance_after: b_after }),
        }
    );
    c.callback_update_balances(a_after, b_after, true, &s(AMM), &s(AMM)).unwrap();
    assert_eq!(c.get_ratio(), 11_999_967_759);
    assert!(c.get_ratio() <= k);
    assert_eq!(c.get_info().0 .2, 40_111_000_000_000_000_000_000);
    assert_eq!(c.get_info().1 .2, 299_169_000_000_000_000_000);
}

#[test]
fn amm_deposit_b_swap() {
    let c = ready();
    let call = c.deposit_b(1000, &s(USER), &s(AMM)).unwrap();
    assert_eq!(
        call,
        CrossCall {
            contract_id: s(B_ID),
            call: TokenCall::TransferFrom {
                sender_id: s(USER),
                receiver_id: s(AMM),
                amount: 1_000_000_000_000_000_000,
            },
            callback: Some(Callback::FtDeposit {
                a_balance_after: 39_867_000_000_000_000_000_000,
                b_balance_after: 301_000_000_000_000_000_000,
                contract_id: s(A_ID),
                receiver_id: s(USER),
                amount: 133_000_000_000_000_000_000,
            }),
        }
    );
}

#[test]
fn amm_swap_arithmetic_refusals() {
    let mut c = ready();
    // input that overflows u128 once scaled
    assert_eq!(c.deposit_a(u128::MAX, &s(USER), &s(AMM)).err(), Some(AmmError::ArithmeticError));
    // an empty A pool gives a zero divisor
    c.callback_update_balances(0, B_BALANCE, true, &s(AMM), &s(AMM)).unwrap();
    assert_eq!(c.deposit_a(0, &s(USER), &s(AMM)).err(), Some(AmmError::ArithmeticError));
}

#[test]
fn amm_swap_before_metadata_pays_whole_pool() {
    let c = fresh();
    let call = c.deposit_a(1, &s(USER), &s(AMM)).unwrap();
    match call.callback {
        Some(Callback::FtDeposit { b_balance_after, amount, .. }) => {
            assert_eq!(b_balance_after, 0);
            assert_eq!(amount, B_BALANCE);
        }
        _ => panic!("expected a payout"),
    }
}

#[test]
fn amm_owner_deposits() {
    let mut c = ready();
    assert_eq!(c.deposit_b_by_owner(34321, &s(USER), &s(AMM)).err(), Some(AmmError::NotOwner));
    let call = c.deposit_b_by_owner(34321, &s(OWNER), &s(AMM)).unwrap();
    assert_eq!(
        call,
        CrossCall {
            contract_id: s(B_ID),
            call: TokenCall::TransferFrom { sender_id: s(OWNER), receiver_id: s(AMM), amount: 34_321_000_000_000_000_000 },
            callback: Some(Callback::UpdateBalances {
                a_balance_after: A_BALANCE,
                b_balance_after: 334_321_000_000_000_000_000,
            }),
        }
    );
    c.callback_update_balances(A_BALANCE, 334_321_000_000_000_000_000, true, &s(AMM), &s(AMM)).unwrap();
    assert_eq!(c.get_ratio(), 13_372_840_000);
    let call_a = c.deposit_a_by_owner(2, &s(OWNER), &s(AMM)).unwrap();
    assert_eq!(
        call_a.call,
        TokenCall::TransferFrom { sender_id: s(OWNER), receiver_id: s(AMM), amount: 2_000_000_000_000_000_000 }
    );
    assert_eq!(
        call_a.callback,
        Some(Callback::UpdateBalances {
            a_balance_after: 40_002_000_000_000_000_000_000,
            b_balance_after: 334_321_000_000_000_000_000,
        })
    );
    assert_eq!(c.deposit_a_by_owner(2, &s(AMM), &s(AMM)).err(), Some(AmmError::NotOwner));
}

#[test]
fn amm_callbacks_only_from_self() {
    let mut c = ready();
    assert_eq!(
        c.callback_ft_deposit(1, 2, s(B_ID), s(USER), 3, true, &s(USER), &s(AMM)).err(),
        Some(AmmError::NotSelf)
    );
    assert_eq!(c.callback_update_balances(1, 2, true, &s(USER), &s(AMM)), Err(AmmError::NotSelf));
    assert_eq!(c.get_ratio(), 12_000_000_000);
    assert_eq!(
        c.callback_update_balances(u128::MAX, u128::MAX, true, &s(AMM), &s(AMM)),
        Err(AmmError::ArithmeticError)
    );
    assert_eq!(c.get_info().0 .2, A_BALANCE);
}

#[test]
fn amm_parts_round_trip() {
    let c = ready();
    let (owner, ratio, a_balance, a_meta, b_balance, b_meta) = c.into_parts();
    assert_eq!(owner, s(OWNER));
    assert_eq!(ratio, 12_000_000_000);
    assert_eq!(a_meta.into_parts(), (s(A_ID), s("A Token Contract"), 18));
    let b = near_amm::amm::TokenMeta::from_parts(s(B_ID), s("B"), 15);
    let a = near_amm::amm::TokenMeta::from_parts(s(A_ID), s("A"), 18);
    let c2 = Contract::from_parts(owner, ratio, a_balance, a, b_balance, b);
    assert_eq!(c2.get_info().1 .1, s("B"));
    let _ = b_meta;
}

#[test]
fn amm_failed_transfer_settles_nothing() {
    let mut c = ready();
    assert_eq!(
        c.callback_ft_deposit(1, 2, s(B_ID), s(USER), 3, false, &s(AMM), &s(AMM)).err(),
        Some(AmmError::TransferFailed)
    );
    assert_eq!(c.callback_update_balances(1, 2, false, &s(AMM), &s(AMM)), Err(AmmError::TransferFailed));
    assert_eq!(c.get_ratio(), 12_000_000_000);
    assert_eq!(c.get_info().0 .2, A_BALANCE);
    assert_eq!(c.get_info().1 .2, B_BALANCE);
    // the caller check comes first
    assert_eq!(c.callback_update_balances(1, 2, false, &s(USER), &s(AMM)), Err(AmmError::NotSelf));
}
