use near_amm::amm::{self, Callback, CrossCall, TokenCall};
use near_amm::token;

const OWNER: &str = "jonhuang.testnet";
const A_ID: &str = "a.jonhuang.testnet";
const B_ID: &str = "b.jonhuang.testnet";
const AMM: &str = "z.jonhuang.testnet";
const SIM: &str = "sim.jonhuang.testnet";

fn s(x: &str) -> String {
    x.to_string()
}

struct Chain {
    a: Option<token::Contract>,
    b: Option<token::Contract>,
    amm: amm::Contract,
}

impl Chain {
    fn token(&mut self, id: &str) -> &mut token::Contract {
        if id == A_ID {
            self.a.as_mut().unwrap()
        } else {
            self.b.as_mut().unwrap()
        }
    }

    fn token_info(&mut self, id: &str) -> (String, u8) {
        let slot = if id == A_ID { &mut self.a } else { &mut self.b };
        let (amm_id, ledger, meta) = slot.take().unwrap().into_parts();
        let info = (meta.name.clone(), meta.decimals);
        *slot = Some(token::Contract::from_parts(amm_id, ledger, meta));
        info
    }

    /// Runs a cross-contract call and the callbacks it leads to, as the chain would; a refused
    /// token call reverts nothing else, and its callback learns that it failed.
    fn run(&mut self, call: CrossCall) {
        let id = call.contract_id.clone();
        let (info, succeeded) = match call.call {
            TokenCall::GetInfo => (Some(self.token_info(&id)), true),
            TokenCall::RegisterAmm { sender_id, amount } => {
                (None, self.token(&id).register_amm(&s(AMM), &sender_id, amount).is_ok())
            }
            TokenCall::TransferFrom { sender_id, receiver_id, amount } => {
                (None, self.token(&id).transfer_from(&s(AMM), &sender_id, &receiver_id, amount).is_ok())
            }
        };
        match call.callback {
            None => {}
            Some(Callback::GetInfo { contract_id }) => {
                self.amm.callback_get_info(contract_id, info.unwrap(), &s(AMM), &s(AMM)).unwrap();
            }
            Some(Callback::FtDeposit { a_balance_after, b_balance_after, contract_id, receiver_id, amount }) => {
                if let Ok(next) = self.amm.callback_ft_deposit(
                    a_balance_after,
                    b_balance_after,
                    contract_id,
                    receiver_id,
                    amount,
                    succeeded,
                    &s(AMM),
                    &s(AMM),
                ) {
                    self.run(next);
                }
            }
            Some(Callback::UpdateBalances { a_balance_after, b_balance_after }) => {
                let _ = self.amm.callback_update_balances(a_balance_after, b_balance_after, succeeded, &s(AMM), &s(AMM));
            }
        }
    }
}

#[test]
fn readme_exchange_flow() {
    let a = token::Contract::new(s(OWNER), s("A Token Contract"), s("A"), 1_000_000_000_000, 18, false).unwrap();
    let b = token::Contract::new(s(OWNER), s("B Token Contract"), s("B"), 20_000_000_000_000, 15, false).unwrap();
    let (amm_contract, calls) = amm::Contract::new(s(OWNER), s(A_ID), s(B_ID), false).unwrap();
    let mut chain = Chain { a: Some(a), b: Some(b), amm: amm_contract };
    for c in calls {
        chain.run(c);
    }
    assert_eq!(chain.amm.get_ratio(), 12_000_000_000);
    assert_eq!(chain.token(A_ID).ft_balance_of(&s(AMM)), amm::A_BALANCE);
    assert_eq!(chain.token(B_ID).ft_balance_of(&s(AMM)), amm::B_BALANCE);

    // the simulated user registers with token A and receives 1000 A tokens from the owner
    let refund = chain
        .token(A_ID)
        .storage_deposit(s(OWNER), Some(s(SIM)), 1_000_000_000_000_000_000_000_000, 1_250_000_000_000_000_000_000)
        .unwrap();
    assert_eq!(refund, 998_750_000_000_000_000_000_000);
    chain.token(A_ID).ft_transfer(&s(OWNER), &s(SIM), 1_000_000_000_000_000_000_000, 1).unwrap();
    assert_eq!(chain.token(A_ID).ft_balance_of(&s(SIM)), 1_000_000_000_000_000_000_000);

    // a swap the user cannot pay for fails at the payment, and nothing is paid out or recorded
    let too_big = chain.amm.deposit_a(1_000_000, &s(SIM), &s(AMM)).unwrap();
    chain.run(too_big);
    assert_eq!(chain.token(A_ID).ft_balance_of(&s(SIM)), 1_000_000_000_000_000_000_000);
    assert_eq!(chain.token(B_ID).ft_balance_of(&s(SIM)), 0);
    assert_eq!(chain.amm.get_ratio(), 12_000_000_000);
    assert_eq!(chain.amm.get_info().0 .2, amm::A_BALANCE);

    // the user swaps 111 A tokens for B tokens
    let swap = chain.amm.deposit_a(111, &s(SIM), &s(AMM)).unwrap();
    chain.run(swap);
    assert_eq!(chain.token(A_ID).ft_balance_of(&s(SIM)), 889_000_000_000_000_000_000);
    assert_eq!(chain.token(B_ID).ft_balance_of(&s(SIM)), 831_000_000_000_000_000);
    assert_eq!(chain.token(A_ID).ft_balance_of(&s(AMM)), 40_111_000_000_000_000_000_000);
    assert_eq!(chain.token(B_ID).ft_balance_of(&s(AMM)), 299_169_000_000_000_000_000);
    let info = chain.amm.get_info();
    assert_eq!(info.0 .2, 40_111_000_000_000_000_000_000);
    assert_eq!(info.1 .2, 299_169_000_000_000_000_000);
    assert_eq!(chain.amm.get_ratio(), 11_999_967_759);

    // the owner adds B tokens, which changes the ratio
    let owner_call = chain.amm.deposit_b_by_owner(34321, &s(OWNER), &s(AMM)).unwrap();
    chain.run(owner_call);
    assert_eq!(chain.token(B_ID).ft_balance_of(&s(AMM)), 333_490_000_000_000_000_000);
    assert_eq!(chain.amm.get_ratio(), 40111 * 333490);
}
