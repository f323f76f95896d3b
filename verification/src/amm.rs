use vstd::prelude::*;
use vstd::arithmetic::power::pow;
use crate::decimals::{pow10, unit_scale};

verus! {

/// The amount of token A the exchange's account is given at initialization.
pub const A_BALANCE: u128 = 40_000_000_000_000_000_000_000;

/// The amount of token B the exchange's account is given at initialization.
pub const B_BALANCE: u128 = 300_000_000_000_000_000_000;

/// A method of a token contract that the exchange calls.
#[derive(Debug, PartialEq, Eq)]
pub enum TokenCall {
    /// Asks for the token's name and number of decimals.
    GetInfo,
    /// Registers the exchange with the token and moves `amount` from `sender_id` to it.
    RegisterAmm { sender_id: String, amount: u128 },
    /// Moves `amount` from `sender_id` to `receiver_id`.
    TransferFrom { sender_id: String, receiver_id: String, amount: u128 },
}

/// A method of the exchange itself, run once the call before it has finished.
#[derive(Debug, PartialEq, Eq)]
pub enum Callback {
    /// Stores the name and decimals reported by `contract_id`.
    GetInfo { contract_id: String },
    /// Pays `amount` of the token at `contract_id` to `receiver_id`, then records the balances.
    FtDeposit {
        a_balance_after: u128,
        b_balance_after: u128,
        contract_id: String,
        receiver_id: String,
        amount: u128,
    },
    /// Records the balances.
    UpdateBalances { a_balance_after: u128, b_balance_after: u128 },
}

/// A call to the token contract `contract_id`, followed by a call back to the exchange.
#[derive(Debug, PartialEq, Eq)]
pub struct CrossCall {
    pub contract_id: String,
    pub call: TokenCall,
    pub callback: Option<Callback>,
}

/// A token call with account names as character sequences.
pub enum TokenCallSpec {
    GetInfo,
    RegisterAmm { sender_id: Seq<char>, amount: u128 },
    TransferFrom { sender_id: Seq<char>, receiver_id: Seq<char>, amount: u128 },
}

/// A callback with account names as character sequences.
pub enum CallbackSpec {
    GetInfo { contract_id: Seq<char> },
    FtDeposit {
        a_balance_after: u128,
        b_balance_after: u128,
        contract_id: Seq<char>,
        receiver_id: Seq<char>,
        amount: u128,
    },
    UpdateBalances { a_balance_after: u128, b_balance_after: u128 },
}

/// A cross-contract call with account names as character sequences.
pub struct CrossCallSpec {
    pub contract_id: Seq<char>,
    pub call: TokenCallSpec,
    pub callback: Option<CallbackSpec>,
}

impl View for TokenCall {
    type V = TokenCallSpec;

    open spec fn view(&self) -> TokenCallSpec {
        match self {
            TokenCall::GetInfo => TokenCallSpec::GetInfo,
            TokenCall::RegisterAmm { sender_id, amount } => TokenCallSpec::RegisterAmm {
                sender_id: sender_id@,
                amount: *amount,
            },
            TokenCall::TransferFrom { sender_id, receiver_id, amount } => TokenCallSpec::TransferFrom {
                sender_id: sender_id@,
                receiver_id: receiver_id@,
                amount: *amount,
            },
        }
    }
}

impl View for Callback {
    type V = CallbackSpec;

    open spec fn view(&self) -> CallbackSpec {
        match self {
            Callback::GetInfo { contract_id } => CallbackSpec::GetInfo { contract_id: contract_id@ },
            Callback::FtDeposit {
                a_balance_after,
                b_balance_after,
                contract_id,
                receiver_id,
                amount,
            } => CallbackSpec::FtDeposit {
                a_balance_after: *a_balance_after,
                b_balance_after: *b_balance_after,
                contract_id: contract_id@,
                receiver_id: receiver_id@,
                amount: *amount,
            },
            Callback::UpdateBalances { a_balance_after, b_balance_after } =>
                CallbackSpec::UpdateBalances {
                a_balance_after: *a_balance_after,
                b_balance_after: *b_balance_after,
            },
        }
    }
}

impl View for CrossCall {
    type V = CrossCallSpec;

    open spec fn view(&self) -> CrossCallSpec {
        CrossCallSpec {
            contract_id: self.contract_id@,
            call: self.call@,
            callback: match self.callback {
                Some(c) => Some(c@),
                None => None,
            },
        }
    }
}

/// Why a call to the exchange was refused; the exchange is then left as it was.
#[derive(Debug, Clone, Copy, PartialEq, Eq, Structural)]
pub enum AmmError {
    /// The contract has already been initialized.
    AlreadyInitialized,
    /// A callback was called by another account than the exchange itself.
    NotSelf,
    /// An owner-only method was called by another account than the owner.
    NotOwner,
    /// An intermediate amount leaves the range of `u128`, or a division by zero would occur.
    ArithmeticError,
    /// The token transfer this callback follows did not succeed, so nothing is paid or recorded.
    TransferFailed,
}

/// What the exchange knows of one token: its contract, name and number of decimals.
pub struct TokenMetaModel {
    pub account_id: Seq<char>,
    pub ticker: Seq<char>,
    pub decimal: u32,
}

/// The exchange's state.
pub struct AmmModel {
    pub owner_id: Seq<char>,
    pub ratio: u128,
    pub a_balance: u128,
    pub a_meta: TokenMetaModel,
    pub b_balance: u128,
    pub b_meta: TokenMetaModel,
}

/// The whole tokens in `balance` minimal units, rounded down.
pub open spec fn units(balance: u128, decimal: u32) -> int {
    balance as int / unit_scale(decimal as nat)
}

/// The product of whole tokens `X * Y`, where each scale and the product fit in a `u128`.
pub open spec fn product_spec(a_balance: u128, a_decimal: u32, b_balance: u128, b_decimal: u32) -> Option<u128> {
    if unit_scale(a_decimal as nat) <= u128::MAX && unit_scale(b_decimal as nat) <= u128::MAX
        && units(a_balance, a_decimal) * units(b_balance, b_decimal) <= u128::MAX {
        Some((units(a_balance, a_decimal) * units(b_balance, b_decimal)) as u128)
    } else {
        None
    }
}

/// The state with `ratio` recomputed as `X * Y`, where that can be computed.
pub open spec fn with_ratio(m: AmmModel) -> Result<AmmModel, AmmError> {
    match product_spec(m.a_balance, m.a_meta.decimal, m.b_balance, m.b_meta.decimal) {
        Some(k) => Ok(AmmModel { ratio: k, ..m }),
        None => Err(AmmError::ArithmeticError),
    }
}

/// `ratio` is the product of whole tokens held.
pub open spec fn ratio_consistent(m: AmmModel) -> bool {
    m.ratio == units(m.a_balance, m.a_meta.decimal) * units(m.b_balance, m.b_meta.decimal)
}

/// A swap of `amount` whole input tokens: the input in minimal units, the input balance after,
/// the output balance after, and the output paid, where every step can be computed.
/// The output balance after is `ratio / X'` whole tokens, `X'` being the whole input tokens after.
pub open spec fn swap_quote(
    amount: u128,
    in_balance: u128,
    in_decimal: u32,
    out_balance: u128,
    out_decimal: u32,
    ratio: u128,
) -> Option<(u128, u128, u128, u128)> {
    let din = unit_scale(in_decimal as nat);
    let dout = unit_scale(out_decimal as nat);
    if din > u128::MAX || amount * din > u128::MAX || amount * din + in_balance > u128::MAX {
        None
    } else {
        let in_amount = amount * din;
        let in_after = in_amount + in_balance;
        let x = in_after / din;
        if x == 0 || dout > u128::MAX || (ratio as int / x) * dout > u128::MAX {
            None
        } else {
            let out_after = (ratio as int / x) * dout;
            if out_after > out_balance {
                None
            } else {
                Some((in_amount as u128, in_after as u128, out_after as u128, (out_balance - out_after) as u128))
            }
        }
    }
}

/// An owner's deposit of `amount` whole tokens: the amount in minimal units and the balance after.
pub open spec fn owner_deposit_quote(amount: u128, balance: u128, decimal: u32) -> Option<(u128, u128)> {
    let d = unit_scale(decimal as nat);
    if d > u128::MAX || amount * d > u128::MAX || amount * d + balance > u128::MAX {
        None
    } else {
        Some(((amount * d) as u128, (amount * d + balance) as u128))
    }
}

/// Initialization: the owner, both token contracts, the initial balances and a zero ratio.
pub open spec fn new_spec(owner_id: Seq<char>, a_contract_id: Seq<char>, b_contract_id: Seq<char>, state_exists: bool) -> Result<AmmModel, AmmError> {
    if state_exists {
        Err(AmmError::AlreadyInitialized)
    } else {
        Ok(
            AmmModel {
                owner_id,
                ratio: 0,
                a_balance: A_BALANCE,
                a_meta: TokenMetaModel { account_id: a_contract_id, ticker: Seq::empty(), decimal: 1 },
                b_balance: B_BALANCE,
                b_meta: TokenMetaModel { account_id: b_contract_id, ticker: Seq::empty(), decimal: 1 },
            },
        )
    }
}

/// The calls made at initialization: ask each token for its metadata, then register with each.
pub open spec fn new_calls(owner_id: Seq<char>, a_contract_id: Seq<char>, b_contract_id: Seq<char>) -> Seq<CrossCallSpec> {
    seq![
        CrossCallSpec { contract_id: a_contract_id, call: TokenCallSpec::GetInfo, callback: Some(CallbackSpec::GetInfo { contract_id: a_contract_id }) },
        CrossCallSpec { contract_id: b_contract_id, call: TokenCallSpec::GetInfo, callback: Some(CallbackSpec::GetInfo { contract_id: b_contract_id }) },
        CrossCallSpec { contract_id: a_contract_id, call: TokenCallSpec::RegisterAmm { sender_id: owner_id, amount: A_BALANCE }, callback: None },
        CrossCallSpec { contract_id: b_contract_id, call: TokenCallSpec::RegisterAmm { sender_id: owner_id, amount: B_BALANCE }, callback: None },
    ]
}

/// Storing a token's reported name and decimals, then recomputing the ratio.
pub open spec fn callback_get_info_spec(
    m: AmmModel,
    contract_id: Seq<char>,
    ticker: Seq<char>,
    decimal: u8,
    caller: Seq<char>,
    current: Seq<char>,
) -> Result<AmmModel, AmmError> {
    if caller != current {
        Err(AmmError::NotSelf)
    } else {
        let meta = TokenMetaModel { account_id: contract_id, ticker, decimal: decimal as u32 };
        let m1 = if contract_id == m.a_meta.account_id {
            AmmModel { a_meta: meta, ..m }
        } else if contract_id == m.b_meta.account_id {
            AmmModel { b_meta: meta, ..m }
        } else {
            m
        };
        with_ratio(m1)
    }
}

/// A user's swap of `amount` whole A tokens for B tokens: take the A tokens from the sender,
/// then pay out the B tokens and record the balances.
pub open spec fn deposit_a_spec(m: AmmModel, amount: u128, caller: Seq<char>, current: Seq<char>) -> Result<CrossCallSpec, AmmError> {
    match swap_quote(amount, m.a_balance, m.a_meta.decimal, m.b_balance, m.b_meta.decimal, m.ratio) {
        None => Err(AmmError::ArithmeticError),
        Some((a_amount, a_after, b_after, b_amount)) => Ok(
            CrossCallSpec {
                contract_id: m.a_meta.account_id,
                call: TokenCallSpec::TransferFrom { sender_id: caller, receiver_id: current, amount: a_amount },
                callback: Some(
                    CallbackSpec::FtDeposit {
                        a_balance_after: a_after,
                        b_balance_after: b_after,
                        contract_id: m.b_meta.account_id,
                        receiver_id: caller,
                        amount: b_amount,
                    },
                ),
            },
        ),
    }
}

/// A user's swap of `amount` whole B tokens for A tokens.
pub open spec fn deposit_b_spec(m: AmmModel, amount: u128, caller: Seq<char>, current: Seq<char>) -> Result<CrossCallSpec, AmmError> {
    match swap_quote(amount, m.b_balance, m.b_meta.decimal, m.a_balance, m.a_meta.decimal, m.ratio) {
        None => Err(AmmError::ArithmeticError),
        Some((b_amount, b_after, a_after, a_amount)) => Ok(
            CrossCallSpec {
                contract_id: m.b_meta.account_id,
                call: TokenCallSpec::TransferFrom { sender_id: caller, receiver_id: current, amount: b_amount },
                callback: Some(
                    CallbackSpec::FtDeposit {
                        a_balance_after: a_after,
                        b_balance_after: b_after,
                        contract_id: m.a_meta.account_id,
                        receiver_id: caller,
                        amount: a_amount,
                    },
                ),
            },
        ),
    }
}

/// The owner's deposit of `amount` whole A tokens, which raises the A balance.
pub open spec fn deposit_a_by_owner_spec(m: AmmModel, amount: u128, caller: Seq<char>, current: Seq<char>) -> Result<CrossCallSpec, AmmError> {
    if caller != m.owner_id {
        Err(AmmError::NotOwner)
    } else {
        match owner_deposit_quote(amount, m.a_balance, m.a_meta.decimal) {
            None => Err(AmmError::ArithmeticError),
            Some((a_amount, a_after)) => Ok(
                CrossCallSpec {
                    contract_id: m.a_meta.account_id,
                    call: TokenCallSpec::TransferFrom { sender_id: m.owner_id, receiver_id: current, amount: a_amount },
                    callback: Some(CallbackSpec::UpdateBalances { a_balance_after: a_after, b_balance_after: m.b_balance }),
                },
            ),
        }
    }
}

/// The owner's deposit of `amount` whole B tokens, which raises the B balance.
pub open spec fn deposit_b_by_owner_spec(m: AmmModel, amount: u128, caller: Seq<char>, current: Seq<char>) -> Result<CrossCallSpec, AmmError> {
    if caller != m.owner_id {
        Err(AmmError::NotOwner)
    } else {
        match owner_deposit_quote(amount, m.b_balance, m.b_meta.decimal) {
            None => Err(AmmError::ArithmeticError),
            Some((b_amount, b_after)) => Ok(
                CrossCallSpec {
                    contract_id: m.b_meta.account_id,
                    call: TokenCallSpec::TransferFrom { sender_id: m.owner_id, receiver_id: current, amount: b_amount },
                    callback: Some(CallbackSpec::UpdateBalances { a_balance_after: m.a_balance, b_balance_after: b_after }),
                },
            ),
        }
    }
}

/// Paying out the swapped tokens, then recording the balances; only where the user's payment
/// that this follows succeeded.
pub open spec fn callback_ft_deposit_spec(
    a_balance_after: u128,
    b_balance_after: u128,
    contract_id: Seq<char>,
    receiver_id: Seq<char>,
    amount: u128,
    transfer_succeeded: bool,
    caller: Seq<char>,
    current: Seq<char>,
) -> Result<CrossCallSpec, AmmError> {
    if caller != current {
        Err(AmmError::NotSelf)
    } else if !transfer_succeeded {
        Err(AmmError::TransferFailed)
    } else {
        Ok(
            CrossCallSpec {
                contract_id,
                call: TokenCallSpec::TransferFrom { sender_id: current, receiver_id, amount },
                callback: Some(CallbackSpec::UpdateBalances { a_balance_after, b_balance_after }),
            },
        )
    }
}

/// Recording both balances, then recomputing the ratio; only where the transfer that this
/// follows succeeded.
pub open spec fn callback_update_balances_spec(
    m: AmmModel,
    a_balance_after: u128,
    b_balance_after: u128,
    transfer_succeeded: bool,
    caller: Seq<char>,
    current: Seq<char>,
) -> Result<AmmModel, AmmError> {
    if caller != current {
        Err(AmmError::NotSelf)
    } else if !transfer_succeeded {
        Err(AmmError::TransferFailed)
    } else {
        with_ratio(AmmModel { a_balance: a_balance_after, b_balance: b_balance_after, ..m })
    }
}


/// A computed swap takes exactly `amount * 10^decimals` input units, pays out of the output
/// balance, and leaves `Y'` the largest whole number of output tokens with `X' * Y' <= K`.
proof fn lemma_quote_settles(
    amount: u128,
    in_balance: u128,
    in_decimal: u32,
    out_balance: u128,
    out_decimal: u32,
    ratio: u128,
)
    requires
        swap_quote(amount, in_balance, in_decimal, out_balance, out_decimal, ratio) is Some,
    ensures
        ({
            let (in_amount, in_after, out_after, out_amount) = swap_quote(
                amount,
                in_balance,
                in_decimal,
                out_balance,
                out_decimal,
                ratio,
            ).unwrap();
            &&& in_amount == amount * unit_scale(in_decimal as nat)
            &&& in_after == in_balance + in_amount
            &&& out_after + out_amount == out_balance
            &&& unit_scale(out_decimal as nat) <= u128::MAX
            &&& 0 < units(in_after, in_decimal)
            &&& units(in_after, in_decimal) * units(out_after, out_decimal) <= ratio
            &&& ratio < units(in_after, in_decimal) * (units(out_after, out_decimal) + 1)
        }),
{
    let din: int = unit_scale(in_decimal as nat);
    let dout: int = unit_scale(out_decimal as nat);
    let (in_amount, in_after, out_after, out_amount) = swap_quote(
        amount,
        in_balance,
        in_decimal,
        out_balance,
        out_decimal,
        ratio,
    ).unwrap();
    vstd::arithmetic::power::lemma_pow_positive(10, in_decimal as nat);
    vstd::arithmetic::power::lemma_pow_positive(10, out_decimal as nat);
    let x: int = in_after as int / din;
    let q: int = ratio as int / x;
    assert(units(in_after, in_decimal) == x);
    vstd::arithmetic::div_mod::lemma_div_pos_is_pos(in_after as int, din);
    vstd::arithmetic::div_mod::lemma_div_pos_is_pos(ratio as int, x);
    vstd::arithmetic::div_mod::lemma_div_by_multiple(q, dout);
    assert(out_after == q * dout);
    assert(units(out_after, out_decimal) == q);
    vstd::arithmetic::div_mod::lemma_fundamental_div_mod(ratio as int, x);
    vstd::arithmetic::div_mod::lemma_mod_pos_bound(ratio as int, x);
    let k: int = ratio as int;
    assert(x * q <= k && k < x * (q + 1)) by (nonlinear_arith)
        requires
            k == x * q + k % x,
            0 <= k % x < x,
    ;
}

/// A product of whole tokens is never negative.
proof fn lemma_product_nonneg(a_balance: u128, a_decimal: u32, b_balance: u128, b_decimal: u32)
    ensures
        0 <= units(a_balance, a_decimal) * units(b_balance, b_decimal),
{
    lemma_units_le(a_balance, a_decimal);
    lemma_units_le(b_balance, b_decimal);
    let x = units(a_balance, a_decimal);
    let y = units(b_balance, b_decimal);
    assert(0 <= x * y) by (nonlinear_arith)
        requires
            0 <= x,
            0 <= y,
    ;
}

/// The whole tokens of a balance within range do not exceed the balance.
proof fn lemma_units_le(balance: u128, decimal: u32)
    ensures
        0 <= units(balance, decimal) <= balance,
{
    vstd::arithmetic::power::lemma_pow_positive(10, decimal as nat);
    vstd::arithmetic::div_mod::lemma_div_pos_is_pos(balance as int, unit_scale(decimal as nat));
    vstd::arithmetic::div_mod::lemma_div_is_ordered_by_denominator(balance as int, 1, unit_scale(decimal as nat));
}

/// A swap of A for B, carried through: the user's `amount * 10^decimals` A tokens are taken,
/// the exchange pays the quoted B tokens out of its balance, and once the balances are recorded
/// the new product of whole tokens `X' * Y'` does not exceed the old `K`; `Y'` is the largest
/// whole number of B tokens for which that holds.
pub proof fn lemma_swap_a_keeps_product(m: AmmModel, amount: u128, caller: Seq<char>, current: Seq<char>)
    requires
        deposit_a_spec(m, amount, caller, current) is Ok,
    ensures
        ({
            let call = deposit_a_spec(m, amount, caller, current)->Ok_0;
            let a_amount = (amount * unit_scale(m.a_meta.decimal as nat)) as u128;
            let a_after = (m.a_balance + a_amount) as u128;
            let b_after = call.callback->Some_0->FtDeposit_b_balance_after;
            let b_amount = call.callback->Some_0->FtDeposit_amount;
            let payout = callback_ft_deposit_spec(a_after, b_after, m.b_meta.account_id, caller, b_amount, true, current, current);
            let settled = callback_update_balances_spec(m, a_after, b_after, true, current, current);
            &&& call == CrossCallSpec {
                contract_id: m.a_meta.account_id,
                call: TokenCallSpec::TransferFrom { sender_id: caller, receiver_id: current, amount: a_amount },
                callback: Some(CallbackSpec::FtDeposit {
                    a_balance_after: a_after,
                    b_balance_after: b_after,
                    contract_id: m.b_meta.account_id,
                    receiver_id: caller,
                    amount: b_amount,
                }),
            }
            &&& b_after + b_amount == m.b_balance
            &&& payout == Ok::<CrossCallSpec, AmmError>(CrossCallSpec {
                contract_id: m.b_meta.account_id,
                call: TokenCallSpec::TransferFrom { sender_id: current, receiver_id: caller, amount: b_amount },
                callback: Some(CallbackSpec::UpdateBalances { a_balance_after: a_after, b_balance_after: b_after }),
            })
            &&& settled is Ok
            &&& settled->Ok_0.a_balance == a_after
            &&& settled->Ok_0.b_balance == b_after
            &&& settled->Ok_0.ratio <= m.ratio
            &&& m.ratio < units(a_after, m.a_meta.decimal) * (units(b_after, m.b_meta.decimal) + 1)
        }),
{
    lemma_quote_settles(amount, m.a_balance, m.a_meta.decimal, m.b_balance, m.b_meta.decimal, m.ratio);
    let (a_amount, a_after, b_after, b_amount) = swap_quote(amount, m.a_balance, m.a_meta.decimal, m.b_balance, m.b_meta.decimal, m.ratio).unwrap();
    lemma_product_nonneg(a_after, m.a_meta.decimal, b_after, m.b_meta.decimal);
    vstd::arithmetic::power::lemma_pow_positive(10, m.a_meta.decimal as nat);
    assert(product_spec(a_after, m.a_meta.decimal, b_after, m.b_meta.decimal) is Some);
}

/// A swap of B for A, carried through: as for A, with the roles of the tokens exchanged.
pub proof fn lemma_swap_b_keeps_product(m: AmmModel, amount: u128, caller: Seq<char>, current: Seq<char>)
    requires
        deposit_b_spec(m, amount, caller, current) is Ok,
    ensures
        ({
            let call = deposit_b_spec(m, amount, caller, current)->Ok_0;
            let b_amount = (amount * unit_scale(m.b_meta.decimal as nat)) as u128;
            let b_after = (m.b_balance + b_amount) as u128;
            let a_after = call.callback->Some_0->FtDeposit_a_balance_after;
            let a_amount = call.callback->Some_0->FtDeposit_amount;
            let payout = callback_ft_deposit_spec(a_after, b_after, m.a_meta.account_id, caller, a_amount, true, current, current);
            let settled = callback_update_balances_spec(m, a_after, b_after, true, current, current);
            &&& call == CrossCallSpec {
                contract_id: m.b_meta.account_id,
                call: TokenCallSpec::TransferFrom { sender_id: caller, receiver_id: current, amount: b_amount },
                callback: Some(CallbackSpec::FtDeposit {
                    a_balance_after: a_after,
                    b_balance_after: b_after,
                    contract_id: m.a_meta.account_id,
                    receiver_id: caller,
                    amount: a_amount,
                }),
            }
            &&& a_after + a_amount == m.a_balance
            &&& payout == Ok::<CrossCallSpec, AmmError>(CrossCallSpec {
                contract_id: m.a_meta.account_id,
                call: TokenCallSpec::TransferFrom { sender_id: current, receiver_id: caller, amount: a_amount },
                callback: Some(CallbackSpec::UpdateBalances { a_balance_after: a_after, b_balance_after: b_after }),
            })
            &&& settled is Ok
            &&& settled->Ok_0.a_balance == a_after
            &&& settled->Ok_0.b_balance == b_after
            &&& settled->Ok_0.ratio <= m.ratio
            &&& m.ratio < units(b_after, m.b_meta.decimal) * (units(a_after, m.a_meta.decimal) + 1)
        }),
{
    lemma_quote_settles(amount, m.b_balance, m.b_meta.decimal, m.a_balance, m.a_meta.decimal, m.ratio);
    let (b_amount, b_after, a_after, a_amount) = swap_quote(amount, m.b_balance, m.b_meta.decimal, m.a_balance, m.a_meta.decimal, m.ratio).unwrap();
    lemma_product_nonneg(a_after, m.a_meta.decimal, b_after, m.b_meta.decimal);
    vstd::arithmetic::power::lemma_pow_positive(10, m.b_meta.decimal as nat);
    assert(units(b_after, m.b_meta.decimal) * units(a_after, m.a_meta.decimal) == units(a_after, m.a_meta.decimal) * units(b_after, m.b_meta.decimal)) by (nonlinear_arith);
    assert(product_spec(a_after, m.a_meta.decimal, b_after, m.b_meta.decimal) is Some);
}

/// The owner's deposit of A, carried through: the A balance grows by `amount * 10^decimals`,
/// the B balance stays, and where the ratio was the product of whole tokens before, it does not
/// fall once the balances are recorded.
pub proof fn lemma_owner_deposit_a_raises_ratio(m: AmmModel, amount: u128, caller: Seq<char>, current: Seq<char>)
    requires
        deposit_a_by_owner_spec(m, amount, caller, current) is Ok,
    ensures
        ({
            let call = deposit_a_by_owner_spec(m, amount, caller, current)->Ok_0;
            let a_amount = (amount * unit_scale(m.a_meta.decimal as nat)) as u128;
            let a_after = (m.a_balance + a_amount) as u128;
            let settled = callback_update_balances_spec(m, a_after, m.b_balance, true, current, current);
            &&& caller == m.owner_id
            &&& call == CrossCallSpec {
                contract_id: m.a_meta.account_id,
                call: TokenCallSpec::TransferFrom { sender_id: m.owner_id, receiver_id: current, amount: a_amount },
                callback: Some(CallbackSpec::UpdateBalances { a_balance_after: a_after, b_balance_after: m.b_balance }),
            }
            &&& (settled is Ok && ratio_consistent(m)) ==> settled->Ok_0.ratio >= m.ratio
        }),
{
    let d: int = unit_scale(m.a_meta.decimal as nat);
    vstd::arithmetic::power::lemma_pow_positive(10, m.a_meta.decimal as nat);
    let (a_amount, a_after) = owner_deposit_quote(amount, m.a_balance, m.a_meta.decimal).unwrap();
    vstd::arithmetic::div_mod::lemma_div_is_ordered(m.a_balance as int, a_after as int, d);
    lemma_units_le(m.b_balance, m.b_meta.decimal);
    vstd::arithmetic::mul::lemma_mul_inequality(
        units(m.a_balance, m.a_meta.decimal),
        units(a_after, m.a_meta.decimal),
        units(m.b_balance, m.b_meta.decimal),
    );
}

/// The owner's deposit of B, carried through: as for A, with the roles of the tokens exchanged.
pub proof fn lemma_owner_deposit_b_raises_ratio(m: AmmModel, amount: u128, caller: Seq<char>, current: Seq<char>)
    requires
        deposit_b_by_owner_spec(m, amount, caller, current) is Ok,
    ensures
        ({
            let call = deposit_b_by_owner_spec(m, amount, caller, current)->Ok_0;
            let b_amount = (amount * unit_scale(m.b_meta.decimal as nat)) as u128;
            let b_after = (m.b_balance + b_amount) as u128;
            let settled = callback_update_balances_spec(m, m.a_balance, b_after, true, current, current);
            &&& caller == m.owner_id
            &&& call == CrossCallSpec {
                contract_id: m.b_meta.account_id,
                call: TokenCallSpec::TransferFrom { sender_id: m.owner_id, receiver_id: current, amount: b_amount },
                callback: Some(CallbackSpec::UpdateBalances { a_balance_after: m.a_balance, b_balance_after: b_after }),
            }
            &&& (settled is Ok && ratio_consistent(m)) ==> settled->Ok_0.ratio >= m.ratio
        }),
{
    let d: int = unit_scale(m.b_meta.decimal as nat);
    vstd::arithmetic::power::lemma_pow_positive(10, m.b_meta.decimal as nat);
    let (b_amount, b_after) = owner_deposit_quote(amount, m.b_balance, m.b_meta.decimal).unwrap();
    vstd::arithmetic::div_mod::lemma_div_is_ordered(m.b_balance as int, b_after as int, d);
    lemma_units_le(m.a_balance, m.a_meta.decimal);
    vstd::arithmetic::mul::lemma_mul_inequality(
        units(m.b_balance, m.b_meta.decimal),
        units(b_after, m.b_meta.decimal),
        units(m.a_balance, m.a_meta.decimal),
    );
    assert(units(m.b_balance, m.b_meta.decimal) * units(m.a_balance, m.a_meta.decimal) == units(m.a_balance, m.a_meta.decimal) * units(m.b_balance, m.b_meta.decimal)) by (nonlinear_arith);
    assert(units(b_after, m.b_meta.decimal) * units(m.a_balance, m.a_meta.decimal) == units(m.a_balance, m.a_meta.decimal) * units(b_after, m.b_meta.decimal)) by (nonlinear_arith);
}

/// A settlement that follows a failed transfer pays nothing out and records nothing: the
/// exchange's state stays as it was.
pub proof fn lemma_failed_transfer_settles_nothing(
    m: AmmModel,
    a_balance_after: u128,
    b_balance_after: u128,
    contract_id: Seq<char>,
    receiver_id: Seq<char>,
    amount: u128,
    caller: Seq<char>,
    current: Seq<char>,
)
    ensures
        callback_ft_deposit_spec(a_balance_after, b_balance_after, contract_id, receiver_id, amount, false, caller, current) is Err,
        callback_update_balances_spec(m, a_balance_after, b_balance_after, false, caller, current) is Err,
{
}

/// A user's swap of A for B is accepted exactly where every step of the quote fits in a
/// `u128`: the input `amount * 10^a_decimals`, the A balance after it, a positive number `X'`
/// of whole A tokens after it, `10^b_decimals`, and the B balance after the swap,
/// `(K / X') * 10^b_decimals`, which must not exceed what the exchange holds. The call then
/// takes exactly that input from the caller and pays out the difference in B.
pub proof fn lemma_deposit_a_accepted(m: AmmModel, amount: u128, caller: Seq<char>, current: Seq<char>)
    ensures
        ({
            let din = pow(10, m.a_meta.decimal as nat);
            let dout = pow(10, m.b_meta.decimal as nat);
            let a_after = amount * din + m.a_balance;
            let x = a_after / din;
            let b_after = (m.ratio as int / x) * dout;
            let fits = din <= u128::MAX && a_after <= u128::MAX && x > 0 && dout <= u128::MAX
                && b_after <= m.b_balance;
            &&& (deposit_a_spec(m, amount, caller, current) is Ok <==> fits)
            &&& fits ==> deposit_a_spec(m, amount, caller, current) == Ok::<CrossCallSpec, AmmError>(
                CrossCallSpec {
                    contract_id: m.a_meta.account_id,
                    call: TokenCallSpec::TransferFrom {
                        sender_id: caller,
                        receiver_id: current,
                        amount: (amount * din) as u128,
                    },
                    callback: Some(CallbackSpec::FtDeposit {
                        a_balance_after: a_after as u128,
                        b_balance_after: b_after as u128,
                        contract_id: m.b_meta.account_id,
                        receiver_id: caller,
                        amount: (m.b_balance - b_after) as u128,
                    }),
                },
            )
        }),
{
    lemma_scaled_amount_fits(amount, m.a_balance, m.a_meta.decimal);
}

/// A user's swap of B for A is accepted exactly where every step of the quote fits in a
/// `u128`: the input `amount * 10^b_decimals`, the B balance after it, a positive number `X'`
/// of whole B tokens after it, `10^a_decimals`, and the A balance after the swap,
/// `(K / X') * 10^a_decimals`, which must not exceed what the exchange holds. The call then
/// takes exactly that input from the caller and pays out the difference in A.
pub proof fn lemma_deposit_b_accepted(m: AmmModel, amount: u128, caller: Seq<char>, current: Seq<char>)
    ensures
        ({
            let din = pow(10, m.b_meta.decimal as nat);
            let dout = pow(10, m.a_meta.decimal as nat);
            let b_after = amount * din + m.b_balance;
            let x = b_after / din;
            let a_after = (m.ratio as int / x) * dout;
            let fits = din <= u128::MAX && b_after <= u128::MAX && x > 0 && dout <= u128::MAX
                && a_after <= m.a_balance;
            &&& (deposit_b_spec(m, amount, caller, current) is Ok <==> fits)
            &&& fits ==> deposit_b_spec(m, amount, caller, current) == Ok::<CrossCallSpec, AmmError>(
                CrossCallSpec {
                    contract_id: m.b_meta.account_id,
                    call: TokenCallSpec::TransferFrom {
                        sender_id: caller,
                        receiver_id: current,
                        amount: (amount * din) as u128,
                    },
                    callback: Some(CallbackSpec::FtDeposit {
                        a_balance_after: a_after as u128,
                        b_balance_after: b_after as u128,
                        contract_id: m.a_meta.account_id,
                        receiver_id: caller,
                        amount: (m.a_balance - a_after) as u128,
                    }),
                },
            )
        }),
{
    lemma_scaled_amount_fits(amount, m.b_balance, m.b_meta.decimal);
}

/// The owner's deposit of A is accepted exactly where the caller is the owner and
/// `10^a_decimals`, `amount * 10^a_decimals` and the A balance after it fit in a `u128`; it
/// then takes exactly that amount from the owner and records the raised A balance beside the
/// unchanged B balance.
pub proof fn lemma_deposit_a_by_owner_accepted(m: AmmModel, amount: u128, caller: Seq<char>, current: Seq<char>)
    ensures
        ({
            let d = pow(10, m.a_meta.decimal as nat);
            let fits = d <= u128::MAX && amount * d + m.a_balance <= u128::MAX;
            &&& (deposit_a_by_owner_spec(m, amount, caller, current) is Ok <==> caller == m.owner_id && fits)
            &&& caller == m.owner_id && fits ==> deposit_a_by_owner_spec(m, amount, caller, current) == Ok::<
                CrossCallSpec,
                AmmError,
            >(
                CrossCallSpec {
                    contract_id: m.a_meta.account_id,
                    call: TokenCallSpec::TransferFrom {
                        sender_id: m.owner_id,
                        receiver_id: current,
                        amount: (amount * d) as u128,
                    },
                    callback: Some(CallbackSpec::UpdateBalances {
                        a_balance_after: (amount * d + m.a_balance) as u128,
                        b_balance_after: m.b_balance,
                    }),
                },
            )
        }),
{
    lemma_scaled_amount_fits(amount, m.a_balance, m.a_meta.decimal);
}

/// The owner's deposit of B is accepted exactly where the caller is the owner and
/// `10^b_decimals`, `amount * 10^b_decimals` and the B balance after it fit in a `u128`; it
/// then takes exactly that amount from the owner and records the raised B balance beside the
/// unchanged A balance.
pub proof fn lemma_deposit_b_by_owner_accepted(m: AmmModel, amount: u128, caller: Seq<char>, current: Seq<char>)
    ensures
        ({
            let d = pow(10, m.b_meta.decimal as nat);
            let fits = d <= u128::MAX && amount * d + m.b_balance <= u128::MAX;
            &&& (deposit_b_by_owner_spec(m, amount, caller, current) is Ok <==> caller == m.owner_id && fits)
            &&& caller == m.owner_id && fits ==> deposit_b_by_owner_spec(m, amount, caller, current) == Ok::<
                CrossCallSpec,
                AmmError,
            >(
                CrossCallSpec {
                    contract_id: m.b_meta.account_id,
                    call: TokenCallSpec::TransferFrom {
                        sender_id: m.owner_id,
                        receiver_id: current,
                        amount: (amount * d) as u128,
                    },
                    callback: Some(CallbackSpec::UpdateBalances {
                        a_balance_after: m.a_balance,
                        b_balance_after: (amount * d + m.b_balance) as u128,
                    }),
                },
            )
        }),
{
    lemma_scaled_amount_fits(amount, m.b_balance, m.b_meta.decimal);
}

/// Where `amount * 10^decimal` plus a balance fits in a `u128`, so does `amount * 10^decimal`.
proof fn lemma_scaled_amount_fits(amount: u128, balance: u128, decimal: u32)
    ensures
        0 < pow(10, decimal as nat),
        0 <= amount * pow(10, decimal as nat),
{
    vstd::arithmetic::power::lemma_pow_positive(10, decimal as nat);
    let d = pow(10, decimal as nat);
    assert(0 <= amount * d) by (nonlinear_arith)
        requires
            0 < d,
    ;
}

/// A token's reported metadata is stored as reported: after a successful callback for the
/// stored A contract (or, failing that, the stored B contract), that token's record holds
/// exactly the reported name and decimals, the other record and both balances stay as they
/// were, and the ratio is `(a_balance / 10^a_decimals) * (b_balance / 10^b_decimals)` over the
/// decimals now recorded. The callback succeeds whenever the exchange calls itself and those
/// scales and that product fit in a `u128`.
pub proof fn lemma_callback_get_info_stores_report(
    m: AmmModel,
    contract_id: Seq<char>,
    ticker: Seq<char>,
    decimal: u8,
    caller: Seq<char>,
    current: Seq<char>,
)
    ensures
        ({
            let is_a = contract_id == m.a_meta.account_id;
            let is_b = !is_a && contract_id == m.b_meta.account_id;
            let reported = TokenMetaModel { account_id: contract_id, ticker, decimal: decimal as u32 };
            let a_dec: u32 = if is_a { decimal as u32 } else { m.a_meta.decimal };
            let b_dec: u32 = if is_b { decimal as u32 } else { m.b_meta.decimal };
            let k = (m.a_balance as int / pow(10, a_dec as nat)) * (m.b_balance as int / pow(10, b_dec as nat));
            let r = callback_get_info_spec(m, contract_id, ticker, decimal, caller, current);
            &&& (caller == current && pow(10, a_dec as nat) <= u128::MAX && pow(10, b_dec as nat) <= u128::MAX
                && k <= u128::MAX) <==> r is Ok
            &&& r matches Ok(m2) ==> {
                &&& m2.a_meta == (if is_a { reported } else { m.a_meta })
                &&& m2.b_meta == (if is_b { reported } else { m.b_meta })
                &&& m2.owner_id == m.owner_id
                &&& m2.a_balance == m.a_balance
                &&& m2.b_balance == m.b_balance
                &&& m2.ratio == k
            }
        }),
{
    let is_a = contract_id == m.a_meta.account_id;
    let is_b = !is_a && contract_id == m.b_meta.account_id;
    let a_dec: u32 = if is_a { decimal as u32 } else { m.a_meta.decimal };
    let b_dec: u32 = if is_b { decimal as u32 } else { m.b_meta.decimal };
    lemma_product_nonneg(m.a_balance, a_dec, m.b_balance, b_dec);
}

/// Recording balances after a successful transfer stores exactly the given balances, keeps the
/// owner and both token records, and sets the ratio to
/// `(a_balance_after / 10^a_decimals) * (b_balance_after / 10^b_decimals)`. It succeeds exactly
/// where the exchange calls itself, the transfer succeeded, and those scales and that product
/// fit in a `u128`.
pub proof fn lemma_callback_update_balances_records(
    m: AmmModel,
    a_balance_after: u128,
    b_balance_after: u128,
    transfer_succeeded: bool,
    caller: Seq<char>,
    current: Seq<char>,
)
    ensures
        ({
            let da = pow(10, m.a_meta.decimal as nat);
            let db = pow(10, m.b_meta.decimal as nat);
            let k = (a_balance_after as int / da) * (b_balance_after as int / db);
            let r = callback_update_balances_spec(m, a_balance_after, b_balance_after, transfer_succeeded, caller, current);
            &&& (caller == current && transfer_succeeded && da <= u128::MAX && db <= u128::MAX && k <= u128::MAX)
                <==> r is Ok
            &&& r matches Ok(m2) ==> {
                &&& m2.a_balance == a_balance_after
                &&& m2.b_balance == b_balance_after
                &&& m2.owner_id == m.owner_id
                &&& m2.a_meta == m.a_meta
                &&& m2.b_meta == m.b_meta
                &&& m2.ratio == k
            }
        }),
{
    lemma_product_nonneg(a_balance_after, m.a_meta.decimal, b_balance_after, m.b_meta.decimal);
}

/// A call the exchange accepts, with the context and the outcomes it is made with.
pub enum AmmCall {
    CallbackGetInfo { contract_id: Seq<char>, ticker: Seq<char>, decimal: u8, caller: Seq<char>, current: Seq<char> },
    GetInfo,
    GetRatio,
    DepositA { amount: u128, caller: Seq<char>, current: Seq<char> },
    DepositAByOwner { amount: u128, caller: Seq<char>, current: Seq<char> },
    DepositB { amount: u128, caller: Seq<char>, current: Seq<char> },
    DepositBByOwner { amount: u128, caller: Seq<char>, current: Seq<char> },
    CallbackFtDeposit {
        a_balance_after: u128,
        b_balance_after: u128,
        contract_id: Seq<char>,
        receiver_id: Seq<char>,
        amount: u128,
        transfer_succeeded: bool,
        caller: Seq<char>,
        current: Seq<char>,
    },
    CallbackUpdateBalances {
        a_balance_after: u128,
        b_balance_after: u128,
        transfer_succeeded: bool,
        caller: Seq<char>,
        current: Seq<char>,
    },
}

/// The exchange's state after one call: what the call's specification gives where it succeeds,
/// and the state unchanged where it is refused or changes nothing.
pub open spec fn amm_step(m: AmmModel, c: AmmCall) -> AmmModel {
    match c {
        AmmCall::CallbackGetInfo { contract_id, ticker, decimal, caller, current } => match callback_get_info_spec(
            m,
            contract_id,
            ticker,
            decimal,
            caller,
            current,
        ) {
            Ok(m2) => m2,
            Err(_) => m,
        },
        AmmCall::CallbackUpdateBalances { a_balance_after, b_balance_after, transfer_succeeded, caller, current } =>
            match callback_update_balances_spec(m, a_balance_after, b_balance_after, transfer_succeeded, caller, current) {
            Ok(m2) => m2,
            Err(_) => m,
        },
        _ => m,
    }
}

/// The exchange's state after a sequence of calls.
pub open spec fn amm_run(m: AmmModel, calls: Seq<AmmCall>) -> AmmModel
    decreases calls.len(),
{
    if calls.len() == 0 {
        m
    } else {
        amm_step(amm_run(m, calls.drop_last()), calls.last())
    }
}

/// A call that recomputes the ratio, where it succeeds.
pub open spec fn recomputes_ratio(m: AmmModel, c: AmmCall) -> bool {
    match c {
        AmmCall::CallbackGetInfo { contract_id, ticker, decimal, caller, current } => callback_get_info_spec(
            m,
            contract_id,
            ticker,
            decimal,
            caller,
            current,
        ) is Ok,
        AmmCall::CallbackUpdateBalances { a_balance_after, b_balance_after, transfer_succeeded, caller, current } =>
            callback_update_balances_spec(m, a_balance_after, b_balance_after, transfer_succeeded, caller, current) is Ok,
        _ => false,
    }
}

/// A successful recomputation leaves `K = X * Y`, and every call keeps it so.
pub proof fn lemma_step_ratio_consistent(m: AmmModel, c: AmmCall)
    ensures
        recomputes_ratio(m, c) ==> ratio_consistent(amm_step(m, c)),
        ratio_consistent(m) ==> ratio_consistent(amm_step(m, c)),
{
    let m2 = amm_step(m, c);
    lemma_product_nonneg(m2.a_balance, m2.a_meta.decimal, m2.b_balance, m2.b_meta.decimal);
}

/// Once `K = X * Y` holds, it holds after any sequence of calls.
pub proof fn lemma_run_keeps_ratio_consistent(m: AmmModel, calls: Seq<AmmCall>)
    requires
        ratio_consistent(m),
    ensures
        ratio_consistent(amm_run(m, calls)),
    decreases calls.len(),
{
    if calls.len() > 0 {
        lemma_run_keeps_ratio_consistent(m, calls.drop_last());
        lemma_step_ratio_consistent(amm_run(m, calls.drop_last()), calls.last());
    }
}

/// In every state reached by calls that include one successful recomputation of the ratio (a
/// token's metadata arriving, or balances being recorded), the ratio is `K = X * Y`, the
/// product of the whole tokens of A and B that the exchange holds.
pub proof fn lemma_ratio_is_product_after_recompute(
    m: AmmModel,
    before: Seq<AmmCall>,
    c: AmmCall,
    after: Seq<AmmCall>,
)
    requires
        recomputes_ratio(amm_run(m, before), c),
    ensures
        ratio_consistent(amm_run(amm_step(amm_run(m, before), c), after)),
{
    lemma_step_ratio_consistent(amm_run(m, before), c);
    lemma_run_keeps_ratio_consistent(amm_step(amm_run(m, before), c), after);
}

/// `X * Y`, where the scales and the product fit in a `u128`.
fn compute_ratio(a_balance: u128, a_decimal: u32, b_balance: u128, b_decimal: u32) -> (r: Option<u128>)
    ensures
        r == product_spec(a_balance, a_decimal, b_balance, b_decimal),
{
    let da = match pow10(a_decimal) {
        Some(d) => d,
        None => {
            return None;
        },
    };
    let db = match pow10(b_decimal) {
        Some(d) => d,
        None => {
            return None;
        },
    };
    proof {
        vstd::arithmetic::power::lemma_pow_positive(10, a_decimal as nat);
        vstd::arithmetic::power::lemma_pow_positive(10, b_decimal as nat);
    }
    let a_num = a_balance / da;
    let b_num = b_balance / db;
    a_num.checked_mul(b_num)
}

/// The swap quote of `swap_quote`, computed.
fn quote(
    amount: u128,
    in_balance: u128,
    in_decimal: u32,
    out_balance: u128,
    out_decimal: u32,
    ratio: u128,
) -> (r: Option<(u128, u128, u128, u128)>)
    ensures
        r == swap_quote(amount, in_balance, in_decimal, out_balance, out_decimal, ratio),
{
    let din = match pow10(in_decimal) {
        Some(d) => d,
        None => {
            return None;
        },
    };
    proof {
        vstd::arithmetic::power::lemma_pow_positive(10, in_decimal as nat);
    }
    let in_amount = match amount.checked_mul(din) {
        Some(v) => v,
        None => {
            return None;
        },
    };
    let in_after = match in_amount.checked_add(in_balance) {
        Some(v) => v,
        None => {
            return None;
        },
    };
    let x = in_after / din;
    if x == 0 {
        return None;
    }
    let dout = match pow10(out_decimal) {
        Some(d) => d,
        None => {
            return None;
        },
    };
    let out_after = match (ratio / x).checked_mul(dout) {
        Some(v) => v,
        None => {
            return None;
        },
    };
    if out_after > out_balance {
        return None;
    }
    Some((in_amount, in_after, out_after, out_balance - out_after))
}

/// The owner's deposit quote of `owner_deposit_quote`, computed.
fn owner_quote(amount: u128, balance: u128, decimal: u32) -> (r: Option<(u128, u128)>)
    ensures
        r == owner_deposit_quote(amount, balance, decimal),
{
    let d = match pow10(decimal) {
        Some(d) => d,
        None => {
            return None;
        },
    };
    let v = match amount.checked_mul(d) {
        Some(v) => v,
        None => {
            return None;
        },
    };
    match v.checked_add(balance) {
        Some(after) => Some((v, after)),
        None => None,
    }
}

/// What the exchange knows of one token.
pub struct TokenMeta {
    account_id: String,
    ticker: String,
    decimal: u32,
}

impl TokenMeta {
    /// The token's contract, name and decimals.
    pub closed spec fn model(&self) -> TokenMetaModel {
        TokenMetaModel { account_id: self.account_id@, ticker: self.ticker@, decimal: self.decimal }
    }

    /// Builds the record of a token from its contract, name and decimals.
    pub fn from_parts(account_id: String, ticker: String, decimal: u32) -> (r: TokenMeta)
        ensures
            r.model() == (TokenMetaModel { account_id: account_id@, ticker: ticker@, decimal }),
    {
        TokenMeta { account_id, ticker, decimal }
    }

    /// The token's contract, name and decimals.
    pub fn into_parts(self) -> (r: (String, String, u32))
        ensures
            self.model() == (TokenMetaModel { account_id: r.0@, ticker: r.1@, decimal: r.2 }),
    {
        (self.account_id, self.ticker, self.decimal)
    }
}

/// A constant-product exchange between token A and token B.
pub struct Contract {
    owner_id: String,
    ratio: u128,
    a_balance: u128,
    a_meta: TokenMeta,
    b_balance: u128,
    b_meta: TokenMeta,
}

impl Contract {
    /// The exchange's state.
    pub closed spec fn model(&self) -> AmmModel {
        AmmModel {
            owner_id: self.owner_id@,
            ratio: self.ratio,
            a_balance: self.a_balance,
            a_meta: self.a_meta.model(),
            b_balance: self.b_balance,
            b_meta: self.b_meta.model(),
        }
    }

    /// Creates the exchange for tokens at `a_contract_id` and `b_contract_id`, and returns the
    /// calls that fetch both tokens' metadata and register the exchange with both tokens.
    /// `state_exists` tells whether the account already holds contract state.
    pub fn new(owner_id: String, a_contract_id: String, b_contract_id: String, state_exists: bool) -> (r: Result<
        (Contract, Vec<CrossCall>),
        AmmError,
    >)
        ensures
            match r {
                Ok((c, calls)) => new_spec(owner_id@, a_contract_id@, b_contract_id@, state_exists)
                    == Ok::<AmmModel, AmmError>(c.model()) && calls@.map_values(|x: CrossCall| x@)
                    == new_calls(owner_id@, a_contract_id@, b_contract_id@),
                Err(e) => new_spec(owner_id@, a_contract_id@, b_contract_id@, state_exists) == Err::<
                    AmmModel,
                    AmmError,
                >(e),
            },
    {
        if state_exists {
            return Err(AmmError::AlreadyInitialized);
        }
        let mut calls: Vec<CrossCall> = Vec::new();
        calls.push(
            CrossCall {
                contract_id: a_contract_id.clone(),
                call: TokenCall::GetInfo,
                callback: Some(Callback::GetInfo { contract_id: a_contract_id.clone() }),
            },
        );
        calls.push(
            CrossCall {
                contract_id: b_contract_id.clone(),
                call: TokenCall::GetInfo,
                callback: Some(Callback::GetInfo { contract_id: b_contract_id.clone() }),
            },
        );
        calls.push(
            CrossCall {
                contract_id: a_contract_id.clone(),
                call: TokenCall::RegisterAmm { sender_id: owner_id.clone(), amount: A_BALANCE },
                callback: None,
            },
        );
        calls.push(
            CrossCall {
                contract_id: b_contract_id.clone(),
                call: TokenCall::RegisterAmm { sender_id: owner_id.clone(), amount: B_BALANCE },
                callback: None,
            },
        );
        let c = Contract {
            owner_id,
            ratio: 0,
            a_balance: A_BALANCE,
            a_meta: TokenMeta { account_id: a_contract_id, ticker: String::new(), decimal: 1 },
            b_balance: B_BALANCE,
            b_meta: TokenMeta { account_id: b_contract_id, ticker: String::new(), decimal: 1 },
        };
        assert(calls@.map_values(|x: CrossCall| x@) =~= new_calls(owner_id@, a_contract_id@, b_contract_id@));
        Ok((c, calls))
    }

    /// Rebuilds an exchange from its owner, ratio, balances and token records.
    pub fn from_parts(
        owner_id: String,
        ratio: u128,
        a_balance: u128,
        a_meta: TokenMeta,
        b_balance: u128,
        b_meta: TokenMeta,
    ) -> (r: Contract)
        ensures
            r.model() == (AmmModel {
                owner_id: owner_id@,
                ratio,
                a_balance,
                a_meta: a_meta.model(),
                b_balance,
                b_meta: b_meta.model(),
            }),
    {
        Contract { owner_id, ratio, a_balance, a_meta, b_balance, b_meta }
    }

    /// The exchange's owner, ratio, balances and token records.
    pub fn into_parts(self) -> (r: (String, u128, u128, TokenMeta, u128, TokenMeta))
        ensures
            self.model() == (AmmModel {
                owner_id: r.0@,
                ratio: r.1,
                a_balance: r.2,
                a_meta: r.3.model(),
                b_balance: r.4,
                b_meta: r.5.model(),
            }),
    {
        (self.owner_id, self.ratio, self.a_balance, self.a_meta, self.b_balance, self.b_meta)
    }

    /// Stores the name and decimals that the token at `contract_id` reported, then recomputes
    /// the ratio. Only the exchange itself may call it.
    pub fn callback_get_info(&mut self, contract_id: String, val: (String, u8), caller: &String, current: &String) -> (r: Result<
        (),
        AmmError,
    >)
        ensures
            match r {
                Ok(()) => callback_get_info_spec(old(self).model(), contract_id@, val.0@, val.1, caller@, current@)
                    == Ok::<AmmModel, AmmError>(final(self).model()) && ratio_consistent(final(self).model()),
                Err(e) => callback_get_info_spec(old(self).model(), contract_id@, val.0@, val.1, caller@, current@)
                    == Err::<AmmModel, AmmError>(e) && *final(self) == *old(self),
            },
    {
        if *caller != *current {
            return Err(AmmError::NotSelf);
        }
        let is_a = contract_id == self.a_meta.account_id;
        let is_b = !is_a && contract_id == self.b_meta.account_id;
        let a_decimal = if is_a { val.1 as u32 } else { self.a_meta.decimal };
        let b_decimal = if is_b { val.1 as u32 } else { self.b_meta.decimal };
        proof {
            lemma_product_nonneg(self.a_balance, a_decimal, self.b_balance, b_decimal);
        }
        let k = match compute_ratio(self.a_balance, a_decimal, self.b_balance, b_decimal) {
            Some(k) => k,
            None => {
                return Err(AmmError::ArithmeticError);
            },
        };
        let (ticker, decimal) = val;
        if is_a {
            self.a_meta = TokenMeta { account_id: contract_id, ticker, decimal: decimal as u32 };
        } else if is_b {
            self.b_meta = TokenMeta { account_id: contract_id, ticker, decimal: decimal as u32 };
        }
        self.ratio = k;
        Ok(())
    }

    /// Both tokens' contract, name, balance held and decimals.
    pub fn get_info(&self) -> (r: ((String, String, u128, u32), (String, String, u128, u32)))
        ensures
            r.0.0@ == self.model().a_meta.account_id,
            r.0.1@ == self.model().a_meta.ticker,
            r.0.2 == self.model().a_balance,
            r.0.3 == self.model().a_meta.decimal,
            r.1.0@ == self.model().b_meta.account_id,
            r.1.1@ == self.model().b_meta.ticker,
            r.1.2 == self.model().b_balance,
            r.1.3 == self.model().b_meta.decimal,
    {
        (
            (self.a_meta.account_id.clone(), self.a_meta.ticker.clone(), self.a_balance, self.a_meta.decimal),
            (self.b_meta.account_id.clone(), self.b_meta.ticker.clone(), self.b_balance, self.b_meta.decimal),
        )
    }

    /// The current product `K` of whole tokens held.
    pub fn get_ratio(&self) -> (r: u128)
        ensures
            r == self.model().ratio,
    {
        self.ratio
    }

    /// Swaps `amount` whole A tokens of the caller for B tokens: returns the call that takes the
    /// A tokens, followed by the payout of B tokens.
    pub fn deposit_a(&self, amount: u128, caller: &String, current: &String) -> (r: Result<CrossCall, AmmError>)
        ensures
            match r {
                Ok(c) => deposit_a_spec(self.model(), amount, caller@, current@) == Ok::<CrossCallSpec, AmmError>(c@),
                Err(e) => deposit_a_spec(self.model(), amount, caller@, current@) == Err::<CrossCallSpec, AmmError>(e),
            },
    {
        match quote(amount, self.a_balance, self.a_meta.decimal, self.b_balance, self.b_meta.decimal, self.ratio) {
            None => Err(AmmError::ArithmeticError),
            Some((a_amount, a_after, b_after, b_amount)) => Ok(
                CrossCall {
                    contract_id: self.a_meta.account_id.clone(),
                    call: TokenCall::TransferFrom { sender_id: caller.clone(), receiver_id: current.clone(), amount: a_amount },
                    callback: Some(
                        Callback::FtDeposit {
                            a_balance_after: a_after,
                            b_balance_after: b_after,
                            contract_id: self.b_meta.account_id.clone(),
                            receiver_id: caller.clone(),
                            amount: b_amount,
                        },
                    ),
                },
            ),
        }
    }

    /// The owner adds `amount` whole A tokens to the pool, which changes the ratio.
    pub fn deposit_a_by_owner(&self, amount: u128, caller: &String, current: &String) -> (r: Result<CrossCall, AmmError>)
        ensures
            match r {
                Ok(c) => deposit_a_by_owner_spec(self.model(), amount, caller@, current@) == Ok::<CrossCallSpec, AmmError>(c@),
                Err(e) => deposit_a_by_owner_spec(self.model(), amount, caller@, current@) == Err::<CrossCallSpec, AmmError>(e),
            },
    {
        if *caller != self.owner_id {
            return Err(AmmError::NotOwner);
        }
        match owner_quote(amount, self.a_balance, self.a_meta.decimal) {
            None => Err(AmmError::ArithmeticError),
            Some((a_amount, a_after)) => Ok(
                CrossCall {
                    contract_id: self.a_meta.account_id.clone(),
                    call: TokenCall::TransferFrom { sender_id: self.owner_id.clone(), receiver_id: current.clone(), amount: a_amount },
                    callback: Some(Callback::UpdateBalances { a_balance_after: a_after, b_balance_after: self.b_balance }),
                },
            ),
        }
    }

    /// Swaps `amount` whole B tokens of the caller for A tokens.
    pub fn deposit_b(&self, amount: u128, caller: &String, current: &String) -> (r: Result<CrossCall, AmmError>)
        ensures
            match r {
                Ok(c) => deposit_b_spec(self.model(), amount, caller@, current@) == Ok::<CrossCallSpec, AmmError>(c@),
                Err(e) => deposit_b_spec(self.model(), amount, caller@, current@) == Err::<CrossCallSpec, AmmError>(e),
            },
    {
        match quote(amount, self.b_balance, self.b_meta.decimal, self.a_balance, self.a_meta.decimal, self.ratio) {
            None => Err(AmmError::ArithmeticError),
            Some((b_amount, b_after, a_after, a_amount)) => Ok(
                CrossCall {
                    contract_id: self.b_meta.account_id.clone(),
                    call: TokenCall::TransferFrom { sender_id: caller.clone(), receiver_id: current.clone(), amount: b_amount },
                    callback: Some(
                        Callback::FtDeposit {
                            a_balance_after: a_after,
                            b_balance_after: b_after,
                            contract_id: self.a_meta.account_id.clone(),
                            receiver_id: caller.clone(),
                            amount: a_amount,
                        },
                    ),
                },
            ),
        }
    }

    /// The owner adds `amount` whole B tokens to the pool, which changes the ratio.
    pub fn deposit_b_by_owner(&self, amount: u128, caller: &String, current: &String) -> (r: Result<CrossCall, AmmError>)
        ensures
            match r {
                Ok(c) => deposit_b_by_owner_spec(self.model(), amount, caller@, current@) == Ok::<CrossCallSpec, AmmError>(c@),
                Err(e) => deposit_b_by_owner_spec(self.model(), amount, caller@, current@) == Err::<CrossCallSpec, AmmError>(e),
            },
    {
        if *caller != self.owner_id {
            return Err(AmmError::NotOwner);
        }
        match owner_quote(amount, self.b_balance, self.b_meta.decimal) {
            None => Err(AmmError::ArithmeticError),
            Some((b_amount, b_after)) => Ok(
                CrossCall {
                    contract_id: self.b_meta.account_id.clone(),
                    call: TokenCall::TransferFrom { sender_id: self.owner_id.clone(), receiver_id: current.clone(), amount: b_amount },
                    callback: Some(Callback::UpdateBalances { a_balance_after: self.a_balance, b_balance_after: b_after }),
                },
            ),
        }
    }

    /// Pays out `amount` of the token at `contract_id` to `receiver_id`, then records the
    /// balances, where `transfer_succeeded` tells that the user's payment went through.
    /// Only the exchange itself may call it.
    pub fn callback_ft_deposit(
        &self,
        a_balance_after: u128,
        b_balance_after: u128,
        contract_id: String,
        receiver_id: String,
        amount: u128,
        transfer_succeeded: bool,
        caller: &String,
        current: &String,
    ) -> (r: Result<CrossCall, AmmError>)
        ensures
            match r {
                Ok(c) => callback_ft_deposit_spec(a_balance_after, b_balance_after, contract_id@, receiver_id@, amount, transfer_succeeded, caller@, current@)
                    == Ok::<CrossCallSpec, AmmError>(c@),
                Err(e) => callback_ft_deposit_spec(a_balance_after, b_balance_after, contract_id@, receiver_id@, amount, transfer_succeeded, caller@, current@)
                    == Err::<CrossCallSpec, AmmError>(e),
            },
    {
        if *caller != *current {
            return Err(AmmError::NotSelf);
        }
        if !transfer_succeeded {
            return Err(AmmError::TransferFailed);
        }
        Ok(
            CrossCall {
                contract_id,
                call: TokenCall::TransferFrom { sender_id: current.clone(), receiver_id, amount },
                callback: Some(Callback::UpdateBalances { a_balance_after, b_balance_after }),
            },
        )
    }

    /// Records both balances and recomputes the ratio, where `transfer_succeeded` tells that the
    /// transfer this follows went through. Only the exchange itself may call it.
    pub fn callback_update_balances(
        &mut self,
        a_balance_after: u128,
        b_balance_after: u128,
        transfer_succeeded: bool,
        caller: &String,
        current: &String,
    ) -> (r: Result<
        (),
        AmmError,
    >)
        ensures
            match r {
                Ok(()) => callback_update_balances_spec(old(self).model(), a_balance_after, b_balance_after, transfer_succeeded, caller@, current@)
                    == Ok::<AmmModel, AmmError>(final(self).model()) && ratio_consistent(final(self).model()),
                Err(e) => callback_update_balances_spec(old(self).model(), a_balance_after, b_balance_after, transfer_succeeded, caller@, current@)
                    == Err::<AmmModel, AmmError>(e) && *final(self) == *old(self),
            },
    {
        if *caller != *current {
            return Err(AmmError::NotSelf);
        }
        if !transfer_succeeded {
            return Err(AmmError::TransferFailed);
        }
        proof {
            lemma_product_nonneg(a_balance_after, self.a_meta.decimal, b_balance_after, self.b_meta.decimal);
        }
        let k = match compute_ratio(a_balance_after, self.a_meta.decimal, b_balance_after, self.b_meta.decimal) {
            Some(k) => k,
            None => {
                return Err(AmmError::ArithmeticError);
            },
        };
        self.a_balance = a_balance_after;
        self.b_balance = b_balance_after;
        self.ratio = k;
        Ok(())
    }
}

} // verus!
