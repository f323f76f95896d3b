use vstd::prelude::*;
use vstd::arithmetic::power::pow;
use crate::decimals::{pow10, unit_scale};
use crate::ledger::{
    Ledger, LedgerError, LedgerModel, balance_spec, deposit_spec, register_spec, remove_spec,
    withdraw_spec,
};

verus! {

/// The token's metadata: the version of the metadata standard, name, symbol, optional icon,
/// reference and reference hash, and number of decimals.
pub struct TokenMetadata {
    pub spec: String,
    pub name: String,
    pub symbol: String,
    pub icon: Option<String>,
    pub reference: Option<String>,
    pub reference_hash: Option<Vec<u8>>,
    pub decimals: u8,
}

/// The token's metadata with strings as character sequences and bytes as byte sequences.
pub struct MetadataModel {
    pub spec: Seq<char>,
    pub name: Seq<char>,
    pub symbol: Seq<char>,
    pub icon: Option<Seq<char>>,
    pub reference: Option<Seq<char>>,
    pub reference_hash: Option<Seq<u8>>,
    pub decimals: u8,
}

impl View for TokenMetadata {
    type V = MetadataModel;

    open spec fn view(&self) -> MetadataModel {
        MetadataModel {
            spec: self.spec@,
            name: self.name@,
            symbol: self.symbol@,
            icon: opt_view(self.icon),
            reference: opt_view(self.reference),
            reference_hash: match self.reference_hash {
                Some(h) => Some(h@),
                None => None,
            },
            decimals: self.decimals,
        }
    }
}

/// The metadata of a newly created token: the standard's version, the given name, symbol and
/// decimals, and no icon, reference or reference hash.
pub open spec fn initial_metadata(name: Seq<char>, symbol: Seq<char>, decimals: u8) -> MetadataModel {
    MetadataModel {
        spec: "ft-1.0.0"@,
        name,
        symbol,
        icon: None,
        reference: None,
        reference_hash: None,
        decimals,
    }
}

/// The version string of the fungible-token metadata standard:
/// `near_contract_standards::fungible_token::metadata::FT_METADATA_SPEC`, which that crate
/// defines as `"ft-1.0.0"`.
#[verifier::external_body]
pub(crate) fn ft_metadata_spec() -> (r: String)
    ensures
        r@ == "ft-1.0.0"@,
{
    near_contract_standards::fungible_token::metadata::FT_METADATA_SPEC.to_string()
}

/// Builds the metadata of a newly created token.
pub(crate) fn new_metadata(name: String, symbol: String, decimals: u8) -> (r: TokenMetadata)
    ensures
        r@ == initial_metadata(name@, symbol@, decimals),
{
    TokenMetadata { spec: ft_metadata_spec(), name, symbol, icon: None, reference: None, reference_hash: None, decimals }
}

/// The state of a token contract: the exchange allowed to move tokens, the ledger and the metadata.
pub struct TokenModel {
    pub amm_id: Option<Seq<char>>,
    pub ledger: LedgerModel,
    pub meta: MetadataModel,
}

/// Why a call to the token contract was refused; the contract is then left as it was.
#[derive(Debug, Clone, Copy, PartialEq, Eq, Structural)]
pub enum TokenError {
    /// The contract has already been initialized.
    AlreadyInitialized,
    /// `total_supply * 10^decimals` does not fit in a `u128`.
    SupplyOverflow,
    /// An exchange has already been registered.
    AmmAlreadyRegistered,
    /// The caller is not the registered exchange.
    NotAmm,
    /// Sender and receiver are the same account.
    SameAccount,
    /// The amount is zero.
    ZeroAmount,
    /// A transfer by an account holder must carry an attached deposit of exactly one yoctoNEAR.
    OneYoctoRequired,
    /// The deposit attached to a registration is less than the storage it pays for.
    InsufficientStorageDeposit,
    /// A private method was called by another account than the contract itself.
    PrivateMethod,
    /// A storage withdrawal asked for more than the zero balance that is available.
    AmountExceedsAvailable,
    /// An account with a positive balance was to be unregistered without `force`.
    PositiveBalance,
    /// The ledger refused the operation.
    Ledger(LedgerError),
}

/// The initial supply in minimal units, `total_supply * 10^decimals`, where it fits in a `u128`.
pub open spec fn initial_supply_spec(total_supply: u128, decimals: u8) -> Option<u128> {
    let scale = unit_scale(decimals as nat);
    if scale <= u128::MAX && total_supply * scale <= u128::MAX {
        Some((total_supply * scale) as u128)
    } else {
        None
    }
}

/// Initialization: the owner holds the whole initial supply, and no exchange is registered.
pub open spec fn new_spec(
    owner_id: Seq<char>,
    name: Seq<char>,
    symbol: Seq<char>,
    total_supply: u128,
    decimals: u8,
    state_exists: bool,
) -> Result<TokenModel, TokenError> {
    if state_exists {
        Err(TokenError::AlreadyInitialized)
    } else {
        match initial_supply_spec(total_supply, decimals) {
            None => Err(TokenError::SupplyOverflow),
            Some(v) => Ok(
                TokenModel {
                    amm_id: None,
                    ledger: LedgerModel { balances: map![owner_id => v], supply: v },
                    meta: initial_metadata(name, symbol, decimals),
                },
            ),
        }
    }
}

/// A transfer by the exchange of `amount` from `sender_id` to `receiver_id`; the receiver is
/// registered on the way where it is not yet.
pub open spec fn transfer_from_spec(
    m: TokenModel,
    caller: Seq<char>,
    sender_id: Seq<char>,
    receiver_id: Seq<char>,
    amount: u128,
) -> Result<TokenModel, TokenError> {
    if m.amm_id != Some(caller) {
        Err(TokenError::NotAmm)
    } else if sender_id == receiver_id {
        Err(TokenError::SameAccount)
    } else if amount == 0 {
        Err(TokenError::ZeroAmount)
    } else {
        match withdraw_spec(m.ledger, sender_id, amount) {
            Err(e) => Err(TokenError::Ledger(e)),
            Ok(l1) => {
                let l2 = if l1.balances.dom().contains(receiver_id) {
                    l1
                } else {
                    LedgerModel { balances: l1.balances.insert(receiver_id, 0), supply: l1.supply }
                };
                match deposit_spec(l2, receiver_id, amount) {
                    Err(e) => Err(TokenError::Ledger(e)),
                    Ok(l3) => Ok(TokenModel { ledger: l3, ..m }),
                }
            },
        }
    }
}

/// The caller becomes the exchange, is registered, and receives `amount` from `sender_id`.
pub open spec fn register_amm_spec(
    m: TokenModel,
    caller: Seq<char>,
    sender_id: Seq<char>,
    amount: u128,
) -> Result<TokenModel, TokenError> {
    if m.amm_id.is_some() {
        Err(TokenError::AmmAlreadyRegistered)
    } else {
        match register_spec(m.ledger, caller) {
            Err(e) => Err(TokenError::Ledger(e)),
            Ok(l) => transfer_from_spec(
                TokenModel { amm_id: Some(caller), ledger: l, ..m },
                caller,
                sender_id,
                caller,
                amount,
            ),
        }
    }
}


/// A transfer is made only by the registered exchange; it keeps the total supply, takes exactly
/// `amount` from the sender, gives exactly `amount` to the receiver, registering it where it was
/// not, and leaves every other balance and the metadata as they were.
pub proof fn lemma_transfer_from_moves_amount(
    m: TokenModel,
    caller: Seq<char>,
    sender_id: Seq<char>,
    receiver_id: Seq<char>,
    amount: u128,
)
    requires
        transfer_from_spec(m, caller, sender_id, receiver_id, amount) is Ok,
    ensures
        ({
            let m2 = transfer_from_spec(m, caller, sender_id, receiver_id, amount)->Ok_0;
            &&& m.amm_id == Some(caller)
            &&& sender_id != receiver_id
            &&& amount > 0
            &&& m2.ledger.supply == m.ledger.supply
            &&& balance_spec(m2.ledger, sender_id) + amount == balance_spec(m.ledger, sender_id)
            &&& balance_spec(m2.ledger, receiver_id) == balance_spec(m.ledger, receiver_id) + amount
            &&& forall|k: Seq<char>|
                k != sender_id && k != receiver_id ==> #[trigger] balance_spec(m2.ledger, k)
                    == balance_spec(m.ledger, k)
            &&& m2.ledger.balances.dom() == m.ledger.balances.dom().insert(receiver_id)
            &&& m2.amm_id == m.amm_id
            &&& m2.meta == m.meta
        }),
{
    let m2 = transfer_from_spec(m, caller, sender_id, receiver_id, amount)->Ok_0;
    assert(m2.ledger.balances.dom() =~= m.ledger.balances.dom().insert(receiver_id));
}

/// A transfer by an account holder keeps the total supply, takes exactly `amount` from the
/// caller, gives exactly `amount` to the receiver, and leaves every other balance as it was.
pub proof fn lemma_ft_transfer_moves_amount(
    l: LedgerModel,
    caller: Seq<char>,
    receiver_id: Seq<char>,
    amount: u128,
    attached_deposit: u128,
)
    requires
        ft_transfer_spec(l, caller, receiver_id, amount, attached_deposit) is Ok,
    ensures
        ({
            let l2 = ft_transfer_spec(l, caller, receiver_id, amount, attached_deposit)->Ok_0;
            &&& attached_deposit == 1
            &&& l2.supply == l.supply
            &&& balance_spec(l2, caller) + amount == balance_spec(l, caller)
            &&& balance_spec(l2, receiver_id) == balance_spec(l, receiver_id) + amount
            &&& forall|k: Seq<char>|
                k != caller && k != receiver_id ==> #[trigger] balance_spec(l2, k) == balance_spec(l, k)
            &&& l2.balances.dom() == l.balances.dom()
        }),
{
    let l2 = ft_transfer_spec(l, caller, receiver_id, amount, attached_deposit)->Ok_0;
    assert(l2.balances.dom() =~= l.balances.dom());
}

/// Settling a hand-over never creates tokens: what is not used goes back from the receiver,
/// to the sender where it is still registered, and is burned otherwise, so the total supply
/// falls by exactly the amount burned.
pub proof fn lemma_resolve_transfer_returns_unused(
    l: LedgerModel,
    sender_id: Seq<char>,
    receiver_id: Seq<char>,
    amount: u128,
    unused_reported: Option<u128>,
)
    requires
        sender_id != receiver_id,
        balance_spec(l, sender_id) + balance_spec(l, receiver_id) <= l.supply,
    ensures
        ({
            let (l2, used, burned) = resolve_transfer_spec(l, sender_id, receiver_id, amount, unused_reported);
            &&& used <= amount
            &&& l2.supply + burned == l.supply
            &&& balance_spec(l2, receiver_id) + (amount - used) + burned == balance_spec(l, receiver_id)
            &&& balance_spec(l2, sender_id) == balance_spec(l, sender_id) + (amount - used)
            &&& burned > 0 ==> !l.balances.dom().contains(sender_id)
            &&& forall|k: Seq<char>|
                k != sender_id && k != receiver_id ==> #[trigger] balance_spec(l2, k) == balance_spec(l, k)
        }),
{
}

/// Whoever is not the registered exchange cannot move tokens.
pub proof fn lemma_only_amm_transfers(
    m: TokenModel,
    caller: Seq<char>,
    sender_id: Seq<char>,
    receiver_id: Seq<char>,
    amount: u128,
)
    requires
        m.amm_id != Some(caller),
    ensures
        transfer_from_spec(m, caller, sender_id, receiver_id, amount) == Err::<TokenModel, TokenError>(
            TokenError::NotAmm,
        ),
{
}

/// An exchange registers at most once: after a registration succeeds the caller is the
/// exchange, holds exactly `amount` taken from `sender_id`, the total supply is unchanged,
/// and every later registration is refused.
pub proof fn lemma_register_amm_once(
    m: TokenModel,
    caller: Seq<char>,
    sender_id: Seq<char>,
    amount: u128,
    next_caller: Seq<char>,
    next_sender_id: Seq<char>,
    next_amount: u128,
)
    requires
        register_amm_spec(m, caller, sender_id, amount) is Ok,
    ensures
        ({
            let m2 = register_amm_spec(m, caller, sender_id, amount)->Ok_0;
            &&& m.amm_id is None
            &&& !m.ledger.balances.dom().contains(caller)
            &&& m2.amm_id == Some(caller)
            &&& balance_spec(m2.ledger, caller) == amount
            &&& balance_spec(m2.ledger, sender_id) + amount == balance_spec(m.ledger, sender_id)
            &&& m2.ledger.supply == m.ledger.supply
            &&& register_amm_spec(m2, next_caller, next_sender_id, next_amount) == Err::<
                TokenModel,
                TokenError,
            >(TokenError::AmmAlreadyRegistered)
        }),
{
}

/// A successful initialization credits the owner with the whole supply, `total_supply * 10^decimals`.
pub proof fn lemma_new_owner_holds_supply(
    owner_id: Seq<char>,
    name: Seq<char>,
    symbol: Seq<char>,
    total_supply: u128,
    decimals: u8,
    state_exists: bool,
)
    requires
        new_spec(owner_id, name, symbol, total_supply, decimals, state_exists) is Ok,
    ensures
        ({
            let m = new_spec(owner_id, name, symbol, total_supply, decimals, state_exists)->Ok_0;
            &&& !state_exists
            &&& m.ledger.supply == total_supply * unit_scale(decimals as nat)
            &&& balance_spec(m.ledger, owner_id) == m.ledger.supply
            &&& forall|k: Seq<char>| k != owner_id ==> #[trigger] balance_spec(m.ledger, k) == 0
            &&& m.amm_id is None
        }),
{
    let scale = unit_scale(decimals as nat);
    vstd::arithmetic::power::lemma_pow_positive(10, decimals as nat);
    assert(0 <= total_supply * scale) by (nonlinear_arith)
        requires
            0 < scale,
    ;
}

/// A successful initialization records the metadata exactly as given: the standard's version
/// "ft-1.0.0", the given name, symbol and number of decimals, and no icon, reference or
/// reference hash. Initialization succeeds whenever no state exists and `10^decimals` and
/// `total_supply * 10^decimals` fit in a `u128`.
pub proof fn lemma_new_token_metadata(
    owner_id: Seq<char>,
    name: Seq<char>,
    symbol: Seq<char>,
    total_supply: u128,
    decimals: u8,
    state_exists: bool,
)
    ensures
        (!state_exists && pow(10, decimals as nat) <= u128::MAX && total_supply * pow(10, decimals as nat)
            <= u128::MAX) <==> new_spec(owner_id, name, symbol, total_supply, decimals, state_exists) is Ok,
        new_spec(owner_id, name, symbol, total_supply, decimals, state_exists) matches Ok(m) ==> {
            &&& m.meta.spec == "ft-1.0.0"@
            &&& m.meta.name == name
            &&& m.meta.symbol == symbol
            &&& m.meta.decimals == decimals
            &&& m.meta.icon is None
            &&& m.meta.reference is None
            &&& m.meta.reference_hash is None
        },
{
}

/// A transfer by an account holder is accepted whenever the deposit is one yoctoNEAR, the
/// receiver is another account, the amount is positive, both accounts are registered and the
/// caller holds at least the amount: in a well-formed ledger nothing else can refuse it. The
/// caller's balance then falls by the amount, the receiver's rises by it, and the total supply
/// stays.
pub proof fn lemma_ft_transfer_accepted(
    ledger: Ledger,
    caller: Seq<char>,
    receiver_id: Seq<char>,
    amount: u128,
)
    requires
        ledger.wf(),
        caller != receiver_id,
        amount > 0,
        ledger.model().balances.dom().contains(caller),
        ledger.model().balances.dom().contains(receiver_id),
        ledger.model().balances[caller] >= amount,
    ensures
        ({
            let l = ledger.model();
            ft_transfer_spec(l, caller, receiver_id, amount, 1) == Ok::<LedgerModel, TokenError>(
                LedgerModel {
                    balances: l.balances.insert(caller, (l.balances[caller] - amount) as u128).insert(
                        receiver_id,
                        (l.balances[receiver_id] + amount) as u128,
                    ),
                    supply: l.supply,
                },
            )
        }),
{
    ledger.lemma_two_balances_le_supply(caller, receiver_id);
}

/// A transfer by the registered exchange is accepted whenever sender and receiver differ, the
/// amount is positive and the sender is registered and holds at least the amount: in a
/// well-formed ledger nothing else can refuse it, registered receiver or not. The sender's
/// balance then falls by the amount, the receiver's rises by it from zero where it was not
/// registered, and the total supply, the exchange and the metadata stay.
pub proof fn lemma_transfer_from_accepted(
    m: TokenModel,
    ledger: Ledger,
    caller: Seq<char>,
    sender_id: Seq<char>,
    receiver_id: Seq<char>,
    amount: u128,
)
    requires
        ledger.wf(),
        m.ledger == ledger.model(),
        m.amm_id == Some(caller),
        sender_id != receiver_id,
        amount > 0,
        m.ledger.balances.dom().contains(sender_id),
        m.ledger.balances[sender_id] >= amount,
    ensures
        ({
            let l = m.ledger;
            transfer_from_spec(m, caller, sender_id, receiver_id, amount) == Ok::<TokenModel, TokenError>(
                TokenModel {
                    ledger: LedgerModel {
                        balances: l.balances.insert(sender_id, (l.balances[sender_id] - amount) as u128).insert(
                            receiver_id,
                            (balance_spec(l, receiver_id) + amount) as u128,
                        ),
                        supply: l.supply,
                    },
                    ..m
                },
            )
        }),
{
    ledger.lemma_two_balances_le_supply(sender_id, receiver_id);
    let l = m.ledger;
    let l1 = withdraw_spec(l, sender_id, amount)->Ok_0;
    let l2 = if l1.balances.dom().contains(receiver_id) {
        l1
    } else {
        LedgerModel { balances: l1.balances.insert(receiver_id, 0), supply: l1.supply }
    };
    let l3 = deposit_spec(l2, receiver_id, amount)->Ok_0;
    assert(l3.balances =~= l.balances.insert(sender_id, (l.balances[sender_id] - amount) as u128).insert(
        receiver_id,
        (balance_spec(l, receiver_id) + amount) as u128,
    ));
}

/// An optional account name as a character sequence.
pub open spec fn opt_view(o: Option<String>) -> Option<Seq<char>> {
    match o {
        Some(a) => Some(a@),
        None => None,
    }
}

/// The storage paid for by a registered account: all of it is in use, none is available.
#[derive(Debug, Clone, Copy, PartialEq, Eq, Structural)]
pub struct StorageBalance {
    pub total: u128,
    pub available: u128,
}

/// The hand-over of tokens to a receiver contract: `ft_on_transfer` is called on `receiver_id`
/// with the sender, amount and message, and the contract then settles with `ft_resolve_transfer`.
#[derive(Debug, PartialEq, Eq)]
pub struct OnTransferCall {
    pub receiver_id: String,
    pub sender_id: String,
    pub amount: u128,
    pub msg: String,
}

/// The storage balance of `account_id`, where it is registered.
pub open spec fn storage_balance_of_spec(l: LedgerModel, account_id: Seq<char>, min_balance: u128) -> Option<StorageBalance> {
    if l.balances.dom().contains(account_id) {
        Some(StorageBalance { total: min_balance, available: 0 })
    } else {
        None
    }
}

/// A storage withdrawal by the caller: only a zero amount can be withdrawn, and nothing changes.
pub open spec fn storage_withdraw_spec(
    l: LedgerModel,
    caller: Seq<char>,
    amount: Option<u128>,
    attached_deposit: u128,
    min_balance: u128,
) -> Result<StorageBalance, TokenError> {
    if attached_deposit != 1 {
        Err(TokenError::OneYoctoRequired)
    } else if !l.balances.dom().contains(caller) {
        Err(TokenError::Ledger(LedgerError::NotRegistered))
    } else if amount matches Some(a) && a > 0 {
        Err(TokenError::AmountExceedsAvailable)
    } else {
        Ok(StorageBalance { total: min_balance, available: 0 })
    }
}

/// The caller leaves the token: its account is removed where its balance is zero or `force` is
/// set, and its balance leaves the total supply. The result holds the ledger after and, where
/// an account was removed, its balance.
pub open spec fn storage_unregister_spec(
    l: LedgerModel,
    caller: Seq<char>,
    force: Option<bool>,
    attached_deposit: u128,
) -> Result<(LedgerModel, Option<u128>), TokenError> {
    if attached_deposit != 1 {
        Err(TokenError::OneYoctoRequired)
    } else if !l.balances.dom().contains(caller) {
        Ok((l, None))
    } else if l.balances[caller] != 0 && force != Some(true) {
        Err(TokenError::PositiveBalance)
    } else {
        Ok((
            LedgerModel {
                balances: l.balances.remove(caller),
                supply: (l.supply - l.balances[caller]) as u128,
            },
            Some(l.balances[caller]),
        ))
    }
}

/// Settling a hand-over once the receiver contract reported how much it did not use (`None`
/// where it failed or answered nothing readable, which counts as the whole amount). Up to that
/// amount, and at most what the receiver still holds, goes back to the sender; where the sender
/// has left the token it is burned instead. The result holds the ledger after, the amount used
/// and the amount burned.
pub open spec fn resolve_transfer_spec(
    l: LedgerModel,
    sender_id: Seq<char>,
    receiver_id: Seq<char>,
    amount: u128,
    unused_reported: Option<u128>,
) -> (LedgerModel, u128, u128) {
    let reported = match unused_reported {
        Some(u) => u,
        None => amount,
    };
    let unused = if reported < amount { reported } else { amount };
    let rb = balance_spec(l, receiver_id);
    if unused > 0 && rb > 0 {
        let refund = if rb < unused { rb } else { unused };
        let b1 = l.balances.insert(receiver_id, (rb - refund) as u128);
        if b1.dom().contains(sender_id) {
            (
                LedgerModel { balances: b1.insert(sender_id, (b1[sender_id] + refund) as u128), supply: l.supply },
                (amount - refund) as u128,
                0,
            )
        } else {
            (LedgerModel { balances: b1, supply: (l.supply - refund) as u128 }, amount, refund)
        }
    } else {
        (l, amount, 0)
    }
}

/// The storage withdrawal of `storage_withdraw_spec`, computed.
pub fn ledger_storage_withdraw(
    token: &Ledger,
    caller: &String,
    amount: Option<u128>,
    attached_deposit: u128,
    min_balance: u128,
) -> (r: Result<StorageBalance, TokenError>)
    requires
        token.wf(),
    ensures
        r == storage_withdraw_spec(token.model(), caller@, amount, attached_deposit, min_balance),
{
    if attached_deposit != 1 {
        return Err(TokenError::OneYoctoRequired);
    }
    if !token.is_registered(caller) {
        return Err(TokenError::Ledger(LedgerError::NotRegistered));
    }
    match amount {
        Some(a) => {
            if a > 0 {
                return Err(TokenError::AmountExceedsAvailable);
            }
        },
        None => {},
    }
    Ok(StorageBalance { total: min_balance, available: 0 })
}

/// Removes the caller's account from `token`, as `storage_unregister_spec` says.
pub fn ledger_storage_unregister(
    token: &mut Ledger,
    caller: &String,
    force: Option<bool>,
    attached_deposit: u128,
) -> (r: Result<Option<u128>, TokenError>)
    requires
        old(token).wf(),
    ensures
        final(token).wf(),
        match r {
            Ok(removed) => storage_unregister_spec(old(token).model(), caller@, force, attached_deposit)
                == Ok::<(LedgerModel, Option<u128>), TokenError>((final(token).model(), removed)),
            Err(e) => storage_unregister_spec(old(token).model(), caller@, force, attached_deposit)
                == Err::<(LedgerModel, Option<u128>), TokenError>(e) && *final(token) == *old(token),
        },
{
    if attached_deposit != 1 {
        return Err(TokenError::OneYoctoRequired);
    }
    if !token.is_registered(caller) {
        return Ok(None);
    }
    let balance = token.balance_of(caller);
    let forced = match force {
        Some(f) => f,
        None => false,
    };
    if balance != 0 && !forced {
        return Err(TokenError::PositiveBalance);
    }
    proof {
        token.lemma_balance_le_supply(caller@);
    }
    let removed = token.remove(caller);
    assert(removed is Ok);
    Ok(Some(balance))
}

/// Settles a hand-over in `token`, as `resolve_transfer_spec` says; returns the amounts used and burned.
pub fn ledger_resolve_transfer(
    token: &mut Ledger,
    sender_id: &String,
    receiver_id: &String,
    amount: u128,
    unused_reported: Option<u128>,
) -> (r: (u128, u128))
    requires
        old(token).wf(),
    ensures
        final(token).wf(),
        resolve_transfer_spec(old(token).model(), sender_id@, receiver_id@, amount, unused_reported)
            == (final(token).model(), r.0, r.1),
{
    let reported = match unused_reported {
        Some(u) => u,
        None => amount,
    };
    let unused = if reported < amount { reported } else { amount };
    let rb = token.balance_of(receiver_id);
    if unused > 0 && rb > 0 {
        let refund = if rb < unused { rb } else { unused };
        proof {
            token.lemma_balance_le_supply(receiver_id@);
        }
        let wd = token.withdraw(receiver_id, refund);
        assert(wd is Ok);
        if token.is_registered(sender_id) {
            proof {
                token.lemma_balance_le_supply(sender_id@);
            }
            let dep = token.deposit(sender_id, refund);
            assert(dep is Ok);
            (amount - refund, 0)
        } else {
            (amount, refund)
        }
    } else {
        (amount, 0)
    }
}

/// Registering `account_id` against an attached deposit: an account already registered gets the
/// whole deposit back; otherwise the deposit must cover `min_balance`, and the rest is given back.
/// The result holds the ledger after and the amount to give back to the caller.
pub open spec fn storage_deposit_spec(
    l: LedgerModel,
    account_id: Seq<char>,
    attached_deposit: u128,
    min_balance: u128,
) -> Result<(LedgerModel, u128), TokenError> {
    if l.balances.dom().contains(account_id) {
        Ok((l, attached_deposit))
    } else if attached_deposit < min_balance {
        Err(TokenError::InsufficientStorageDeposit)
    } else {
        Ok((
            LedgerModel { balances: l.balances.insert(account_id, 0), supply: l.supply },
            (attached_deposit - min_balance) as u128,
        ))
    }
}

/// The account a registration is for: the one named, else the caller.
pub open spec fn storage_account(caller: Seq<char>, account_id: Option<Seq<char>>) -> Seq<char> {
    match account_id {
        Some(a) => a,
        None => caller,
    }
}

/// Registers an account in `token` against an attached deposit, as `storage_deposit_spec` says,
/// and returns the amount to give back to the caller.
pub fn ledger_storage_deposit(
    token: &mut Ledger,
    caller: String,
    account_id: Option<String>,
    attached_deposit: u128,
    min_balance: u128,
) -> (r: Result<u128, TokenError>)
    requires
        old(token).wf(),
    ensures
        final(token).wf(),
        match r {
            Ok(refund) => storage_deposit_spec(
                old(token).model(),
                storage_account(caller@, opt_view(account_id)),
                attached_deposit,
                min_balance,
            ) == Ok::<(LedgerModel, u128), TokenError>((final(token).model(), refund)),
            Err(e) => storage_deposit_spec(
                old(token).model(),
                storage_account(caller@, opt_view(account_id)),
                attached_deposit,
                min_balance,
            ) == Err::<(LedgerModel, u128), TokenError>(e) && *final(token) == *old(token),
        },
{
    let account = match account_id {
        Some(a) => a,
        None => caller,
    };
    if token.is_registered(&account) {
        return Ok(attached_deposit);
    }
    if attached_deposit < min_balance {
        return Err(TokenError::InsufficientStorageDeposit);
    }
    let reg = token.register(&account);
    assert(reg is Ok);
    Ok(attached_deposit - min_balance)
}

/// A call a token contract with an exchange accepts, with the context and the outcomes it is
/// made with.
pub enum TokenOp {
    GetInfo,
    RegisterAmm { caller: Seq<char>, sender_id: Seq<char>, amount: u128 },
    TransferFrom { caller: Seq<char>, sender_id: Seq<char>, receiver_id: Seq<char>, amount: u128 },
    FtTransfer { caller: Seq<char>, receiver_id: Seq<char>, amount: u128, attached_deposit: u128 },
    FtTransferCall { caller: Seq<char>, receiver_id: Seq<char>, amount: u128, attached_deposit: u128 },
    FtResolveTransfer {
        caller: Seq<char>,
        current: Seq<char>,
        sender_id: Seq<char>,
        receiver_id: Seq<char>,
        amount: u128,
        unused_reported: Option<u128>,
    },
    FtTotalSupply,
    FtBalanceOf { account_id: Seq<char> },
    StorageDeposit { caller: Seq<char>, account_id: Option<Seq<char>>, attached_deposit: u128, min_balance: u128 },
    StorageWithdraw { caller: Seq<char>, amount: Option<u128>, attached_deposit: u128, min_balance: u128 },
    StorageUnregister { caller: Seq<char>, force: Option<bool>, attached_deposit: u128 },
    StorageBalanceBounds { min_balance: u128 },
    StorageBalanceOf { account_id: Seq<char>, min_balance: u128 },
}

/// The token contract's state after one call: what the call's specification gives where it
/// succeeds, and the state unchanged where it is refused or changes nothing.
pub open spec fn token_step(m: TokenModel, op: TokenOp) -> TokenModel {
    match op {
        TokenOp::RegisterAmm { caller, sender_id, amount } => match register_amm_spec(m, caller, sender_id, amount) {
            Ok(m2) => m2,
            Err(_) => m,
        },
        TokenOp::TransferFrom { caller, sender_id, receiver_id, amount } => match transfer_from_spec(
            m,
            caller,
            sender_id,
            receiver_id,
            amount,
        ) {
            Ok(m2) => m2,
            Err(_) => m,
        },
        TokenOp::FtTransfer { caller, receiver_id, amount, attached_deposit } => match ft_transfer_spec(
            m.ledger,
            caller,
            receiver_id,
            amount,
            attached_deposit,
        ) {
            Ok(l) => TokenModel { ledger: l, ..m },
            Err(_) => m,
        },
        TokenOp::FtTransferCall { caller, receiver_id, amount, attached_deposit } => match ft_transfer_spec(
            m.ledger,
            caller,
            receiver_id,
            amount,
            attached_deposit,
        ) {
            Ok(l) => TokenModel { ledger: l, ..m },
            Err(_) => m,
        },
        TokenOp::FtResolveTransfer { caller, current, sender_id, receiver_id, amount, unused_reported } =>
            if caller == current {
            TokenModel {
                ledger: resolve_transfer_spec(m.ledger, sender_id, receiver_id, amount, unused_reported).0,
                ..m
            }
        } else {
            m
        },
        TokenOp::StorageDeposit { caller, account_id, attached_deposit, min_balance } => match storage_deposit_spec(
            m.ledger,
            storage_account(caller, account_id),
            attached_deposit,
            min_balance,
        ) {
            Ok((l, _)) => TokenModel { ledger: l, ..m },
            Err(_) => m,
        },
        TokenOp::StorageUnregister { caller, force, attached_deposit } => match storage_unregister_spec(
            m.ledger,
            caller,
            force,
            attached_deposit,
        ) {
            Ok((l, _)) => TokenModel { ledger: l, ..m },
            Err(_) => m,
        },
        _ => m,
    }
}

/// The token contract's state after a sequence of calls.
pub open spec fn token_run(m: TokenModel, ops: Seq<TokenOp>) -> TokenModel
    decreases ops.len(),
{
    if ops.len() == 0 {
        m
    } else {
        token_step(token_run(m, ops.drop_last()), ops.last())
    }
}

/// Once an exchange is registered it stays the exchange, whatever calls follow, so only it can
/// move tokens on behalf of others from then on.
pub proof fn lemma_amm_never_replaced(m: TokenModel, ops: Seq<TokenOp>, x: Seq<char>)
    requires
        m.amm_id == Some(x),
    ensures
        token_run(m, ops).amm_id == Some(x),
        forall|caller: Seq<char>, sender_id: Seq<char>, receiver_id: Seq<char>, amount: u128|
            caller != x ==> #[trigger] transfer_from_spec(token_run(m, ops), caller, sender_id, receiver_id, amount)
                == Err::<TokenModel, TokenError>(TokenError::NotAmm),
    decreases ops.len(),
{
    if ops.len() > 0 {
        lemma_amm_never_replaced(m, ops.drop_last(), x);
    }
}

/// A transfer by an account holder: `amount` moves from the caller to the registered receiver.
pub open spec fn ft_transfer_spec(
    l: LedgerModel,
    caller: Seq<char>,
    receiver_id: Seq<char>,
    amount: u128,
    attached_deposit: u128,
) -> Result<LedgerModel, TokenError> {
    if attached_deposit != 1 {
        Err(TokenError::OneYoctoRequired)
    } else if caller == receiver_id {
        Err(TokenError::SameAccount)
    } else if amount == 0 {
        Err(TokenError::ZeroAmount)
    } else {
        match withdraw_spec(l, caller, amount) {
            Err(e) => Err(TokenError::Ledger(e)),
            Ok(l1) => match deposit_spec(l1, receiver_id, amount) {
                Err(e) => Err(TokenError::Ledger(e)),
                Ok(l2) => Ok(l2),
            },
        }
    }
}

/// Moves `amount` from `caller` to `receiver_id` in `token`, as `ft_transfer_spec` says.
pub fn ledger_ft_transfer(
    token: &mut Ledger,
    caller: &String,
    receiver_id: &String,
    amount: u128,
    attached_deposit: u128,
) -> (r: Result<(), TokenError>)
    requires
        old(token).wf(),
    ensures
        final(token).wf(),
        r matches Err(TokenError::Ledger(e)) ==> e == LedgerError::NotRegistered || e
            == LedgerError::NotEnoughBalance,
        match r {
            Ok(()) => ft_transfer_spec(old(token).model(), caller@, receiver_id@, amount, attached_deposit)
                == Ok::<LedgerModel, TokenError>(final(token).model()),
            Err(e) => ft_transfer_spec(old(token).model(), caller@, receiver_id@, amount, attached_deposit)
                == Err::<LedgerModel, TokenError>(e) && *final(token) == *old(token),
        },
{
    if attached_deposit != 1 {
        return Err(TokenError::OneYoctoRequired);
    }
    if *caller == *receiver_id {
        return Err(TokenError::SameAccount);
    }
    if amount == 0 {
        return Err(TokenError::ZeroAmount);
    }
    if !token.is_registered(caller) {
        return Err(TokenError::Ledger(LedgerError::NotRegistered));
    }
    if token.balance_of(caller) < amount {
        return Err(TokenError::Ledger(LedgerError::NotEnoughBalance));
    }
    proof {
        token.lemma_balance_le_supply(caller@);
    }
    if !token.is_registered(receiver_id) {
        return Err(TokenError::Ledger(LedgerError::NotRegistered));
    }
    let wd = token.withdraw(caller, amount);
    assert(wd is Ok);
    proof {
        token.lemma_balance_le_supply(receiver_id@);
    }
    let dep = token.deposit(receiver_id, amount);
    assert(dep is Ok);
    Ok(())
}

/// A fungible token whose transfers between accounts are made by one registered exchange.
pub struct Contract {
    amm_id: Option<String>,
    token: Ledger,
    meta: TokenMetadata,
}

impl Contract {
    /// The contract's ledger.
    pub closed spec fn ledger(&self) -> Ledger {
        self.token
    }

    /// The ledger is well formed (every account once, the total supply the sum of balances), and
    /// it is what the state's ledger shows.
    pub open spec fn wf(&self) -> bool {
        self.ledger().wf() && self.model().ledger == self.ledger().model()
    }

    /// The contract's state.
    pub closed spec fn model(&self) -> TokenModel {
        TokenModel {
            amm_id: opt_view(self.amm_id),
            ledger: self.token.model(),
            meta: self.meta@,
        }
    }

    /// Creates the token: registers `owner_id` and credits it `total_supply * 10^decimals`.
    /// `state_exists` tells whether the account already holds contract state.
    pub fn new(
        owner_id: String,
        name: String,
        symbol: String,
        total_supply: u128,
        decimals: u8,
        state_exists: bool,
    ) -> (r: Result<Contract, TokenError>)
        ensures
            match r {
                Ok(c) => c.wf() && new_spec(owner_id@, name@, symbol@, total_supply, decimals, state_exists)
                    == Ok::<TokenModel, TokenError>(c.model()),
                Err(e) => new_spec(owner_id@, name@, symbol@, total_supply, decimals, state_exists)
                    == Err::<TokenModel, TokenError>(e),
            },
    {
        if state_exists {
            return Err(TokenError::AlreadyInitialized);
        }
        let amount = match pow10(decimals as u32) {
            None => {
                return Err(TokenError::SupplyOverflow);
            },
            Some(scale) => match total_supply.checked_mul(scale) {
                None => {
                    return Err(TokenError::SupplyOverflow);
                },
                Some(v) => v,
            },
        };
        let mut token = Ledger::new();
        let reg = token.register(&owner_id);
        assert(reg is Ok);
        let dep = token.deposit(&owner_id, amount);
        assert(dep is Ok);
        let c = Contract { amm_id: None, token, meta: new_metadata(name, symbol, decimals) };
        assert(c.model().ledger.balances =~= map![owner_id@ => amount]);
        Ok(c)
    }

    /// Rebuilds a contract from its exchange, ledger and metadata.
    pub fn from_parts(amm_id: Option<String>, token: Ledger, meta: TokenMetadata) -> (r: Contract)
        ensures
            r.ledger() == token,
            r.model() == (TokenModel {
                amm_id: opt_view(amm_id),
                ledger: token.model(),
                meta: meta@,
            }),
    {
        Contract { amm_id, token, meta }
    }

    /// The contract's exchange, ledger and metadata.
    pub fn into_parts(self) -> (r: (Option<String>, Ledger, TokenMetadata))
        ensures
            r.1 == self.ledger(),
            self.model() == (TokenModel {
                amm_id: opt_view(r.0),
                ledger: r.1.model(),
                meta: r.2@,
            }),
    {
        (self.amm_id, self.token, self.meta)
    }

    /// The token's name and number of decimals.
    pub fn get_info(self) -> (r: (String, u8))
        ensures
            r.0@ == self.model().meta.name,
            r.1 == self.model().meta.decimals,
    {
        (self.meta.name, self.meta.decimals)
    }

    /// The storage deposit each account needs, as lower and upper bound: both are `min_balance`.
    pub fn storage_balance_bounds(&self, min_balance: u128) -> (r: (u128, Option<u128>))
        ensures
            r == (min_balance, Some(min_balance)),
    {
        (min_balance, Some(min_balance))
    }

    /// The storage balance of `account_id`, where it is registered.
    pub fn storage_balance_of(&self, account_id: &String, min_balance: u128) -> (r: Option<StorageBalance>)
        requires
            self.wf(),
        ensures
            r == storage_balance_of_spec(self.model().ledger, account_id@, min_balance),
    {
        if self.token.is_registered(account_id) {
            Some(StorageBalance { total: min_balance, available: 0 })
        } else {
            None
        }
    }

    /// A storage withdrawal by the caller; nothing is ever available, so only a zero amount passes.
    pub fn storage_withdraw(&self, caller: &String, amount: Option<u128>, attached_deposit: u128, min_balance: u128) -> (r: Result<
        StorageBalance,
        TokenError,
    >)
        requires
            self.wf(),
        ensures
            r == storage_withdraw_spec(self.model().ledger, caller@, amount, attached_deposit, min_balance),
    {
        ledger_storage_withdraw(&self.token, caller, amount, attached_deposit, min_balance)
    }

    /// The caller leaves the token, as `storage_unregister_spec` says; returns the removed
    /// account's balance, or `None` where the caller was not registered.
    pub fn storage_unregister(&mut self, caller: &String, force: Option<bool>, attached_deposit: u128) -> (r: Result<
        Option<u128>,
        TokenError,
    >)
        requires
            old(self).wf(),
        ensures
            final(self).wf(),
            match r {
                Ok(removed) => storage_unregister_spec(old(self).model().ledger, caller@, force, attached_deposit)
                    == Ok::<(LedgerModel, Option<u128>), TokenError>((final(self).model().ledger, removed))
                    && final(self).model() == (TokenModel { ledger: final(self).model().ledger, ..old(self).model() }),
                Err(e) => storage_unregister_spec(old(self).model().ledger, caller@, force, attached_deposit)
                    == Err::<(LedgerModel, Option<u128>), TokenError>(e) && *final(self) == *old(self),
            },
    {
        ledger_storage_unregister(&mut self.token, caller, force, attached_deposit)
    }

    /// The caller hands `amount` of its tokens to the contract `receiver_id`: the tokens move as
    /// in `ft_transfer`, and the call to make on the receiver is returned.
    pub fn ft_transfer_call(
        &mut self,
        caller: &String,
        receiver_id: &String,
        amount: u128,
        attached_deposit: u128,
        msg: String,
    ) -> (r: Result<OnTransferCall, TokenError>)
        requires
            old(self).wf(),
        ensures
            final(self).wf(),
            match r {
                Ok(c) => ft_transfer_spec(old(self).model().ledger, caller@, receiver_id@, amount, attached_deposit)
                    == Ok::<LedgerModel, TokenError>(final(self).model().ledger)
                    && final(self).model() == (TokenModel { ledger: final(self).model().ledger, ..old(self).model() })
                    && c.receiver_id@ == receiver_id@ && c.sender_id@ == caller@ && c.amount == amount
                    && c.msg@ == msg@,
                Err(e) => ft_transfer_spec(old(self).model().ledger, caller@, receiver_id@, amount, attached_deposit)
                    == Err::<LedgerModel, TokenError>(e) && *final(self) == *old(self),
            },
    {
        match ledger_ft_transfer(&mut self.token, caller, receiver_id, amount, attached_deposit) {
            Err(e) => Err(e),
            Ok(()) => Ok(
                OnTransferCall { receiver_id: receiver_id.clone(), sender_id: caller.clone(), amount, msg },
            ),
        }
    }

    /// Settles a hand-over once the receiver reported its unused amount, as
    /// `resolve_transfer_spec` says; returns the amounts used and burned. Only the contract
    /// itself may call it.
    pub fn ft_resolve_transfer(
        &mut self,
        caller: &String,
        current: &String,
        sender_id: &String,
        receiver_id: &String,
        amount: u128,
        unused_reported: Option<u128>,
    ) -> (r: Result<(u128, u128), TokenError>)
        requires
            old(self).wf(),
        ensures
            final(self).wf(),
            match r {
                Ok((used, burned)) => caller@ == current@ && resolve_transfer_spec(
                    old(self).model().ledger,
                    sender_id@,
                    receiver_id@,
                    amount,
                    unused_reported,
                ) == (final(self).model().ledger, used, burned)
                    && final(self).model() == (TokenModel { ledger: final(self).model().ledger, ..old(self).model() }),
                Err(e) => caller@ != current@ && e == TokenError::PrivateMethod && *final(self) == *old(self),
            },
    {
        if *caller != *current {
            return Err(TokenError::PrivateMethod);
        }
        Ok(ledger_resolve_transfer(&mut self.token, sender_id, receiver_id, amount, unused_reported))
    }

    /// The total supply in minimal units.
    pub fn ft_total_supply(&self) -> (r: u128)
        ensures
            r == self.model().ledger.supply,
    {
        self.token.total_supply()
    }

    /// The balance of `account_id`, zero where it is not registered.
    pub fn ft_balance_of(&self, account_id: &String) -> (r: u128)
        requires
            self.wf(),
        ensures
            r == balance_spec(self.model().ledger, account_id@),
    {
        self.token.balance_of(account_id)
    }

    /// The caller moves `amount` of its own tokens to `receiver_id`, which must be registered.
    pub fn ft_transfer(&mut self, caller: &String, receiver_id: &String, amount: u128, attached_deposit: u128) -> (r: Result<
        (),
        TokenError,
    >)
        requires
            old(self).wf(),
        ensures
            final(self).wf(),
            r matches Err(TokenError::Ledger(e)) ==> e == LedgerError::NotRegistered || e
                == LedgerError::NotEnoughBalance,
            match r {
                Ok(()) => ft_transfer_spec(old(self).model().ledger, caller@, receiver_id@, amount, attached_deposit)
                    == Ok::<LedgerModel, TokenError>(final(self).model().ledger)
                    && final(self).model() == (TokenModel { ledger: final(self).model().ledger, ..old(self).model() }),
                Err(e) => ft_transfer_spec(old(self).model().ledger, caller@, receiver_id@, amount, attached_deposit)
                    == Err::<LedgerModel, TokenError>(e) && *final(self) == *old(self),
            },
    {
        ledger_ft_transfer(&mut self.token, caller, receiver_id, amount, attached_deposit)
    }

    /// Registers `account_id`, or the caller where it is `None`, against the attached deposit,
    /// which must cover `min_balance`; returns the amount to give back to the caller.
    pub fn storage_deposit(
        &mut self,
        caller: String,
        account_id: Option<String>,
        attached_deposit: u128,
        min_balance: u128,
    ) -> (r: Result<u128, TokenError>)
        requires
            old(self).wf(),
        ensures
            final(self).wf(),
            match r {
                Ok(refund) => storage_deposit_spec(
                    old(self).model().ledger,
                    storage_account(caller@, opt_view(account_id)),
                    attached_deposit,
                    min_balance,
                ) == Ok::<(LedgerModel, u128), TokenError>((final(self).model().ledger, refund))
                    && final(self).model() == (TokenModel { ledger: final(self).model().ledger, ..old(self).model() }),
                Err(e) => storage_deposit_spec(
                    old(self).model().ledger,
                    storage_account(caller@, opt_view(account_id)),
                    attached_deposit,
                    min_balance,
                ) == Err::<(LedgerModel, u128), TokenError>(e) && *final(self) == *old(self),
            },
    {
        ledger_storage_deposit(&mut self.token, caller, account_id, attached_deposit, min_balance)
    }

    /// Registers the caller as the exchange, registers its account and moves `amount`
    /// from `sender_id` to it. Only the first registration succeeds.
    pub fn register_amm(&mut self, caller: &String, sender_id: &String, amount: u128) -> (r: Result<
        (),
        TokenError,
    >)
        requires
            old(self).wf(),
        ensures
            final(self).wf(),
            r matches Err(TokenError::Ledger(e)) ==> e == LedgerError::AlreadyRegistered || e
                == LedgerError::NotRegistered || e == LedgerError::NotEnoughBalance,
            match r {
                Ok(()) => register_amm_spec(old(self).model(), caller@, sender_id@, amount) == Ok::<
                    TokenModel,
                    TokenError,
                >(final(self).model()),
                Err(e) => register_amm_spec(old(self).model(), caller@, sender_id@, amount) == Err::<
                    TokenModel,
                    TokenError,
                >(e) && *final(self) == *old(self),
            },
    {
        if self.amm_id.is_some() {
            return Err(TokenError::AmmAlreadyRegistered);
        }
        if self.token.is_registered(caller) {
            return Err(TokenError::Ledger(LedgerError::AlreadyRegistered));
        }
        if *sender_id == *caller {
            return Err(TokenError::SameAccount);
        }
        if amount == 0 {
            return Err(TokenError::ZeroAmount);
        }
        if !self.token.is_registered(sender_id) {
            return Err(TokenError::Ledger(LedgerError::NotRegistered));
        }
        if self.token.balance_of(sender_id) < amount {
            return Err(TokenError::Ledger(LedgerError::NotEnoughBalance));
        }
        proof {
            self.token.lemma_balance_le_supply(sender_id@);
        }
        self.amm_id = Some(caller.clone());
        let reg = self.token.register(caller);
        assert(reg is Ok);
        let wd = self.token.withdraw(sender_id, amount);
        assert(wd is Ok);
        proof {
            self.token.lemma_balance_le_supply(caller@);
        }
        let dep = self.token.deposit(caller, amount);
        assert(dep is Ok);
        Ok(())
    }

    /// The exchange moves `amount` from `sender_id` to `receiver_id`, registering the
    /// receiver where it is not yet.
    pub fn transfer_from(
        &mut self,
        caller: &String,
        sender_id: &String,
        receiver_id: &String,
        amount: u128,
    ) -> (r: Result<(), TokenError>)
        requires
            old(self).wf(),
        ensures
            final(self).wf(),
            r matches Err(TokenError::Ledger(e)) ==> e == LedgerError::NotRegistered || e
                == LedgerError::NotEnoughBalance,
            match r {
                Ok(()) => transfer_from_spec(
                    old(self).model(),
                    caller@,
                    sender_id@,
                    receiver_id@,
                    amount,
                ) == Ok::<TokenModel, TokenError>(final(self).model()),
                Err(e) => transfer_from_spec(
                    old(self).model(),
                    caller@,
                    sender_id@,
                    receiver_id@,
                    amount,
                ) == Err::<TokenModel, TokenError>(e) && *final(self) == *old(self),
            },
    {
        let is_amm = match &self.amm_id {
            Some(a) => *a == *caller,
            None => false,
        };
        if !is_amm {
            return Err(TokenError::NotAmm);
        }
        if *sender_id == *receiver_id {
            return Err(TokenError::SameAccount);
        }
        if amount == 0 {
            return Err(TokenError::ZeroAmount);
        }
        match self.token.withdraw(sender_id, amount) {
            Err(e) => {
                return Err(TokenError::Ledger(e));
            },
            Ok(()) => {},
        }
        if !self.token.is_registered(receiver_id) {
            let reg = self.token.register(receiver_id);
            assert(reg is Ok);
        }
        proof {
            self.token.lemma_balance_le_supply(receiver_id@);
        }
        let dep = self.token.deposit(receiver_id, amount);
        assert(dep is Ok);
        Ok(())
    }
}

} // verus!
