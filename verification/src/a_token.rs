use vstd::prelude::*;
use crate::ledger::{Ledger, LedgerError, LedgerModel, balance_spec};
use crate::token::{
    MetadataModel, OnTransferCall, StorageBalance, TokenError, TokenMetadata, initial_metadata, new_metadata, ft_transfer_spec, ledger_ft_transfer,
    ledger_resolve_transfer, ledger_storage_deposit, ledger_storage_unregister, ledger_storage_withdraw,
    opt_view, resolve_transfer_spec, storage_account, storage_balance_of_spec, storage_deposit_spec,
    storage_unregister_spec, storage_withdraw_spec,
};

verus! {

/// The state of the fixed "A Token" contract: its ledger and metadata.
pub struct ATokenModel {
    pub ledger: LedgerModel,
    pub meta: MetadataModel,
}

/// Initialization: an empty ledger and the fixed metadata "A Token", "A", 18 decimals, under
/// the standard's version and with no icon, reference or reference hash.
pub open spec fn new_spec(state_exists: bool) -> Result<ATokenModel, TokenError> {
    if state_exists {
        Err(TokenError::AlreadyInitialized)
    } else {
        Ok(
            ATokenModel {
                ledger: LedgerModel { balances: Map::empty(), supply: 0 },
                meta: initial_metadata("A Token"@, "A"@, 18),
            },
        )
    }
}

/// A fresh "A Token" contract starts with no accounts and a zero supply, and its metadata is
/// the standard's version "ft-1.0.0", name "A Token", symbol "A", 18 decimals, and no icon,
/// reference or reference hash; it is refused only where state already exists.
pub proof fn lemma_new_fixed_metadata(state_exists: bool)
    ensures
        new_spec(state_exists) is Ok <==> !state_exists,
        new_spec(state_exists) matches Ok(m) ==> {
            &&& m.ledger.balances == Map::<Seq<char>, u128>::empty()
            &&& m.ledger.supply == 0
            &&& m.meta.spec == "ft-1.0.0"@
            &&& m.meta.name == "A Token"@
            &&& m.meta.symbol == "A"@
            &&& m.meta.decimals == 18
            &&& m.meta.icon is None
            &&& m.meta.reference is None
            &&& m.meta.reference_hash is None
        },
{
}

/// A fungible token with fixed metadata, created with no accounts.
pub struct Contract {
    token: Ledger,
    meta: TokenMetadata,
}

impl Contract {
    /// The contract's ledger.
    pub closed spec fn ledger(&self) -> Ledger {
        self.token
    }

    /// The ledger is well formed, and it is what the state's ledger shows.
    pub open spec fn wf(&self) -> bool {
        self.ledger().wf() && self.model().ledger == self.ledger().model()
    }

    /// The contract's state.
    pub closed spec fn model(&self) -> ATokenModel {
        ATokenModel {
            ledger: self.token.model(),
            meta: self.meta@,
        }
    }

    /// Creates the token with its fixed metadata and no accounts.
    /// `state_exists` tells whether the account already holds contract state.
    pub fn new(state_exists: bool) -> (r: Result<Contract, TokenError>)
        ensures
            match r {
                Ok(c) => c.wf() && new_spec(state_exists) == Ok::<ATokenModel, TokenError>(c.model()),
                Err(e) => new_spec(state_exists) == Err::<ATokenModel, TokenError>(e),
            },
    {
        if state_exists {
            return Err(TokenError::AlreadyInitialized);
        }
        let meta = new_metadata(String::from_str("A Token"), String::from_str("A"), 18);
        let c = Contract { token: Ledger::new(), meta };
        Ok(c)
    }

    /// Rebuilds a contract from its ledger and metadata.
    pub fn from_parts(token: Ledger, meta: TokenMetadata) -> (r: Contract)
        ensures
            r.ledger() == token,
            r.model() == (ATokenModel {
                ledger: token.model(),
                meta: meta@,
            }),
    {
        Contract { token, meta }
    }

    /// The contract's ledger and metadata.
    pub fn into_parts(self) -> (r: (Ledger, TokenMetadata))
        ensures
            r.0 == self.ledger(),
            self.model() == (ATokenModel {
                ledger: r.0.model(),
                meta: r.1@,
            }),
    {
        (self.token, self.meta)
    }

    /// The caller moves `amount` of its own tokens to `receiver_id`, which must be registered.
    pub fn ft_transfer(&mut self, caller: &String, receiver_id: &String, amount: u128, attached_deposit: u128) -> (r: Result<
        (),
        TokenError,
    >)
        requires
            old(self).wf(),
        ensures
            final(self).wf(),
            r matches Err(TokenError::Ledger(e)) ==> e == LedgerError::NotRegistered || e
                == LedgerError::NotEnoughBalance,
            match r {
                Ok(()) => ft_transfer_spec(old(self).model().ledger, caller@, receiver_id@, amount, attached_deposit)
                    == Ok::<LedgerModel, TokenError>(final(self).model().ledger)
                    && final(self).model() == (ATokenModel { ledger: final(self).model().ledger, ..old(self).model() }),
                Err(e) => ft_transfer_spec(old(self).model().ledger, caller@, receiver_id@, amount, attached_deposit)
                    == Err::<LedgerModel, TokenError>(e) && *final(self) == *old(self),
            },
    {
        ledger_ft_transfer(&mut self.token, caller, receiver_id, amount, attached_deposit)
    }

    /// Registers `account_id`, or the caller where it is `None`, against the attached deposit,
    /// which must cover `min_balance`; returns the amount to give back to the caller.
    pub fn storage_deposit(
        &mut self,
        caller: String,
        account_id: Option<String>,
        attached_deposit: u128,
        min_balance: u128,
    ) -> (r: Result<u128, TokenError>)
        requires
            old(self).wf(),
        ensures
            final(self).wf(),
            match r {
                Ok(refund) => storage_deposit_spec(
                    old(self).model().ledger,
                    storage_account(caller@, opt_view(account_id)),
                    attached_deposit,
                    min_balance,
                ) == Ok::<(LedgerModel, u128), TokenError>((final(self).model().ledger, refund))
                    && final(self).model() == (ATokenModel { ledger: final(self).model().ledger, ..old(self).model() }),
                Err(e) => storage_deposit_spec(
                    old(self).model().ledger,
                    storage_account(caller@, opt_view(account_id)),
                    attached_deposit,
                    min_balance,
                ) == Err::<(LedgerModel, u128), TokenError>(e) && *final(self) == *old(self),
            },
    {
        ledger_storage_deposit(&mut self.token, caller, account_id, attached_deposit, min_balance)
    }

    /// The storage deposit each account needs, as lower and upper bound: both are `min_balance`.
    pub fn storage_balance_bounds(&self, min_balance: u128) -> (r: (u128, Option<u128>))
        ensures
            r == (min_balance, Some(min_balance)),
    {
        (min_balance, Some(min_balance))
    }

    /// The storage balance of `account_id`, where it is registered.
    pub fn storage_balance_of(&self, account_id: &String, min_balance: u128) -> (r: Option<StorageBalance>)
        requires
            self.wf(),
        ensures
            r == storage_balance_of_spec(self.model().ledger, account_id@, min_balance),
    {
        if self.token.is_registered(account_id) {
            Some(StorageBalance { total: min_balance, available: 0 })
        } else {
            None
        }
    }

    /// A storage withdrawal by the caller; nothing is ever available, so only a zero amount passes.
    pub fn storage_withdraw(&self, caller: &String, amount: Option<u128>, attached_deposit: u128, min_balance: u128) -> (r: Result<
        StorageBalance,
        TokenError,
    >)
        requires
            self.wf(),
        ensures
            r == storage_withdraw_spec(self.model().ledger, caller@, amount, attached_deposit, min_balance),
    {
        ledger_storage_withdraw(&self.token, caller, amount, attached_deposit, min_balance)
    }

    /// The caller leaves the token, as `storage_unregister_spec` says; returns the removed
    /// account's balance, or `None` where the caller was not registered.
    pub fn storage_unregister(&mut self, caller: &String, force: Option<bool>, attached_deposit: u128) -> (r: Result<
        Option<u128>,
        TokenError,
    >)
        requires
            old(self).wf(),
        ensures
            final(self).wf(),
            match r {
                Ok(removed) => storage_unregister_spec(old(self).model().ledger, caller@, force, attached_deposit)
                    == Ok::<(LedgerModel, Option<u128>), TokenError>((final(self).model().ledger, removed))
                    && final(self).model() == (ATokenModel { ledger: final(self).model().ledger, ..old(self).model() }),
                Err(e) => storage_unregister_spec(old(self).model().ledger, caller@, force, attached_deposit)
                    == Err::<(LedgerModel, Option<u128>), TokenError>(e) && *final(self) == *old(self),
            },
    {
        ledger_storage_unregister(&mut self.token, caller, force, attached_deposit)
    }

    /// The caller hands `amount` of its tokens to the contract `receiver_id`: the tokens move as
    /// in `ft_transfer`, and the call to make on the receiver is returned.
    pub fn ft_transfer_call(
        &mut self,
        caller: &String,
        receiver_id: &String,
        amount: u128,
        attached_deposit: u128,
        msg: String,
    ) -> (r: Result<OnTransferCall, TokenError>)
        requires
            old(self).wf(),
        ensures
            final(self).wf(),
            match r {
                Ok(c) => ft_transfer_spec(old(self).model().ledger, caller@, receiver_id@, amount, attached_deposit)
                    == Ok::<LedgerModel, TokenError>(final(self).model().ledger)
                    && final(self).model() == (ATokenModel { ledger: final(self).model().ledger, ..old(self).model() })
                    && c.receiver_id@ == receiver_id@ && c.sender_id@ == caller@ && c.amount == amount
                    && c.msg@ == msg@,
                Err(e) => ft_transfer_spec(old(self).model().ledger, caller@, receiver_id@, amount, attached_deposit)
                    == Err::<LedgerModel, TokenError>(e) && *final(self) == *old(self),
            },
    {
        match ledger_ft_transfer(&mut self.token, caller, receiver_id, amount, attached_deposit) {
            Err(e) => Err(e),
            Ok(()) => Ok(
                OnTransferCall { receiver_id: receiver_id.clone(), sender_id: caller.clone(), amount, msg },
            ),
        }
    }

    /// Settles a hand-over once the receiver reported its unused amount, as
    /// `resolve_transfer_spec` says; returns the amounts used and burned. Only the contract
    /// itself may call it.
    pub fn ft_resolve_transfer(
        &mut self,
        caller: &String,
        current: &String,
        sender_id: &String,
        receiver_id: &String,
        amount: u128,
        unused_reported: Option<u128>,
    ) -> (r: Result<(u128, u128), TokenError>)
        requires
            old(self).wf(),
        ensures
            final(self).wf(),
            match r {
                Ok((used, burned)) => caller@ == current@ && resolve_transfer_spec(
                    old(self).model().ledger,
                    sender_id@,
                    receiver_id@,
                    amount,
                    unused_reported,
                ) == (final(self).model().ledger, used, burned)
                    && final(self).model() == (ATokenModel { ledger: final(self).model().ledger, ..old(self).model() }),
                Err(e) => caller@ != current@ && e == TokenError::PrivateMethod && *final(self) == *old(self),
            },
    {
        if *caller != *current {
            return Err(TokenError::PrivateMethod);
        }
        Ok(ledger_resolve_transfer(&mut self.token, sender_id, receiver_id, amount, unused_reported))
    }

    /// The total supply in minimal units.
    pub fn ft_total_supply(&self) -> (r: u128)
        ensures
            r == self.model().ledger.supply,
    {
        self.token.total_supply()
    }

    /// The balance of `account_id`, zero where it is not registered.
    pub fn ft_balance_of(&self, account_id: &String) -> (r: u128)
        requires
            self.wf(),
        ensures
            r == balance_spec(self.model().ledger, account_id@),
    {
        self.token.balance_of(account_id)
    }
}

} // verus!
