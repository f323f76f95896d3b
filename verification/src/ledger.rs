use vstd::prelude::*;

verus! {

/// One registered account: its name and its balance in minimal units.
pub type Entry = (Seq<char>, u128);

/// No account name occurs twice.
pub open spec fn keys_unique(s: Seq<Entry>) -> bool {
    forall|i: int, j: int| 0 <= i < s.len() && 0 <= j < s.len() && i != j ==> s[i].0 != s[j].0
}

/// The sum of all balances.
pub open spec fn total_of(s: Seq<Entry>) -> int
    decreases s.len(),
{
    if s.len() == 0 {
        0
    } else {
        total_of(s.drop_last()) + s.last().1
    }
}

/// The balances as a map from account name to amount.
pub open spec fn balances_of(s: Seq<Entry>) -> Map<Seq<char>, u128>
    decreases s.len(),
{
    if s.len() == 0 {
        Map::empty()
    } else {
        balances_of(s.drop_last()).insert(s.last().0, s.last().1)
    }
}

/// What a ledger holds: the balance of each registered account, and the total supply.
pub struct LedgerModel {
    pub balances: Map<Seq<char>, u128>,
    pub supply: u128,
}

/// Why a ledger operation was refused; the ledger is then left as it was.
#[derive(Debug, Clone, Copy, PartialEq, Eq, Structural)]
pub enum LedgerError {
    /// The account is not registered.
    NotRegistered,
    /// The account is already registered.
    AlreadyRegistered,
    /// The account's balance would exceed `u128::MAX`.
    BalanceOverflow,
    /// The total supply would leave the range of `u128`.
    TotalSupplyOverflow,
    /// The account holds less than the amount to withdraw.
    NotEnoughBalance,
}

/// Registering an account with a zero balance.
pub open spec fn register_spec(m: LedgerModel, id: Seq<char>) -> Result<LedgerModel, LedgerError> {
    if m.balances.dom().contains(id) {
        Err(LedgerError::AlreadyRegistered)
    } else {
        Ok(LedgerModel { balances: m.balances.insert(id, 0), supply: m.supply })
    }
}

/// Crediting `amount` to a registered account, which raises the total supply.
pub open spec fn deposit_spec(m: LedgerModel, id: Seq<char>, amount: u128) -> Result<LedgerModel, LedgerError> {
    if !m.balances.dom().contains(id) {
        Err(LedgerError::NotRegistered)
    } else if m.balances[id] + amount > u128::MAX {
        Err(LedgerError::BalanceOverflow)
    } else if m.supply + amount > u128::MAX {
        Err(LedgerError::TotalSupplyOverflow)
    } else {
        Ok(LedgerModel {
            balances: m.balances.insert(id, (m.balances[id] + amount) as u128),
            supply: (m.supply + amount) as u128,
        })
    }
}

/// Debiting `amount` from a registered account, which lowers the total supply.
pub open spec fn withdraw_spec(m: LedgerModel, id: Seq<char>, amount: u128) -> Result<LedgerModel, LedgerError> {
    if !m.balances.dom().contains(id) {
        Err(LedgerError::NotRegistered)
    } else if m.balances[id] < amount {
        Err(LedgerError::NotEnoughBalance)
    } else if m.supply < amount {
        Err(LedgerError::TotalSupplyOverflow)
    } else {
        Ok(LedgerModel {
            balances: m.balances.insert(id, (m.balances[id] - amount) as u128),
            supply: (m.supply - amount) as u128,
        })
    }
}

/// Removing a registered account, whose balance leaves the total supply.
pub open spec fn remove_spec(m: LedgerModel, id: Seq<char>) -> Result<(LedgerModel, u128), LedgerError> {
    if !m.balances.dom().contains(id) {
        Err(LedgerError::NotRegistered)
    } else if m.supply < m.balances[id] {
        Err(LedgerError::TotalSupplyOverflow)
    } else {
        Ok((
            LedgerModel { balances: m.balances.remove(id), supply: (m.supply - m.balances[id]) as u128 },
            m.balances[id],
        ))
    }
}

/// The balance an account reports: zero where it is not registered.
pub open spec fn balance_spec(m: LedgerModel, id: Seq<char>) -> u128 {
    if m.balances.dom().contains(id) {
        m.balances[id]
    } else {
        0
    }
}

/// Every listed account is in the map, with its listed balance.
proof fn lemma_balances_of_entries(s: Seq<Entry>)
    requires
        keys_unique(s),
    ensures
        forall|i: int|
            0 <= i < s.len() ==> #[trigger] balances_of(s).dom().contains(s[i].0) && balances_of(
                s,
            )[s[i].0] == s[i].1,
        forall|k: Seq<char>|
            #[trigger] balances_of(s).dom().contains(k) ==> exists|i: int|
                0 <= i < s.len() && s[i].0 == k,
    decreases s.len(),
{
    if s.len() > 0 {
        let d = s.drop_last();
        assert(keys_unique(d));
        lemma_balances_of_entries(d);
        assert forall|i: int| 0 <= i < s.len() implies #[trigger] balances_of(s).dom().contains(
            s[i].0,
        ) && balances_of(s)[s[i].0] == s[i].1 by {
            if i < s.len() - 1 {
                assert(d[i] == s[i]);
                assert(s[i].0 != s.last().0);
                assert(balances_of(d).dom().contains(d[i].0));
            }
        }
        assert forall|k: Seq<char>| #[trigger] balances_of(s).dom().contains(k) implies exists|i: int|
            0 <= i < s.len() && s[i].0 == k by {
            if k != s.last().0 {
                assert(balances_of(d).dom().contains(k));
                let i = choose|i: int| 0 <= i < d.len() && d[i].0 == k;
                assert(s[i].0 == k);
            } else {
                assert(s[s.len() - 1].0 == k);
            }
        }
    }
}

/// The total of balances is never negative.
proof fn lemma_total_nonneg(s: Seq<Entry>)
    ensures
        0 <= total_of(s),
    decreases s.len(),
{
    if s.len() > 0 {
        lemma_total_nonneg(s.drop_last());
    }
}

/// Every balance is at most the total.
proof fn lemma_entry_le_total(s: Seq<Entry>, i: int)
    requires
        0 <= i < s.len(),
    ensures
        s[i].1 <= total_of(s),
    decreases s.len(),
{
    let d = s.drop_last();
    lemma_total_nonneg(d);
    if i < s.len() - 1 {
        lemma_entry_le_total(d, i);
        assert(d[i] == s[i]);
    }
}

/// Two different balances together are at most the total.
proof fn lemma_two_entries_le_total(s: Seq<Entry>, i: int, j: int)
    requires
        0 <= i < s.len(),
        0 <= j < s.len(),
        i != j,
    ensures
        s[i].1 + s[j].1 <= total_of(s),
    decreases s.len(),
{
    let d = s.drop_last();
    lemma_total_nonneg(d);
    if i < s.len() - 1 && j < s.len() - 1 {
        lemma_two_entries_le_total(d, i, j);
        assert(d[i] == s[i] && d[j] == s[j]);
    } else if i < s.len() - 1 {
        lemma_entry_le_total(d, i);
        assert(d[i] == s[i]);
    } else {
        lemma_entry_le_total(d, j);
        assert(d[j] == s[j]);
    }
}

/// A prefix of the balances sums to at most the whole.
proof fn lemma_prefix_total_le(s: Seq<Entry>, k: int)
    requires
        0 <= k <= s.len(),
    ensures
        total_of(s.take(k)) <= total_of(s),
    decreases s.len(),
{
    if k < s.len() {
        let d = s.drop_last();
        assert(d.take(k) =~= s.take(k));
        lemma_prefix_total_le(d, k);
    } else {
        assert(s.take(k) =~= s);
    }
}

/// Removing one entry removes its account from the map and its balance from the total.
proof fn lemma_remove_entry(s: Seq<Entry>, i: int)
    requires
        keys_unique(s),
        0 <= i < s.len(),
    ensures
        keys_unique(s.remove(i)),
        balances_of(s.remove(i)) == balances_of(s).remove(s[i].0),
        total_of(s.remove(i)) == total_of(s) - s[i].1,
    decreases s.len(),
{
    let u = s.remove(i);
    let d = s.drop_last();
    lemma_balances_of_entries(s);
    assert(keys_unique(u)) by {
        assert forall|a: int, b: int| 0 <= a < u.len() && 0 <= b < u.len() && a != b implies u[a].0 != u[b].0 by {
            let a2 = if a < i { a } else { a + 1 };
            let b2 = if b < i { b } else { b + 1 };
            assert(u[a] == s[a2]);
            assert(u[b] == s[b2]);
        }
    }
    if i == s.len() - 1 {
        assert(u =~= d);
        assert(!balances_of(d).dom().contains(s[i].0)) by {
            lemma_balances_of_entries(d);
            if balances_of(d).dom().contains(s[i].0) {
                let j = choose|j: int| 0 <= j < d.len() && d[j].0 == s[i].0;
                assert(s[j].0 == s[i].0);
            }
        }
        assert(balances_of(u) =~= balances_of(s).remove(s[i].0));
    } else {
        assert(keys_unique(d));
        assert(u.drop_last() =~= d.remove(i));
        assert(u.last() == s.last());
        lemma_remove_entry(d, i);
        assert(d[i] == s[i]);
        assert(s[i].0 != s.last().0);
        assert(balances_of(u) =~= balances_of(s).remove(s[i].0));
    }
}

/// Changing one balance changes the map at that account and the total by the difference.
proof fn lemma_update_entry(s: Seq<Entry>, i: int, v: u128)
    requires
        keys_unique(s),
        0 <= i < s.len(),
    ensures
        keys_unique(s.update(i, (s[i].0, v))),
        balances_of(s.update(i, (s[i].0, v))) == balances_of(s).insert(s[i].0, v),
        total_of(s.update(i, (s[i].0, v))) == total_of(s) - s[i].1 + v,
    decreases s.len(),
{
    let u = s.update(i, (s[i].0, v));
    let d = s.drop_last();
    assert(u.drop_last() =~= if i == s.len() - 1 {
        d
    } else {
        d.update(i, (s[i].0, v))
    });
    if i == s.len() - 1 {
        assert(balances_of(u) =~= balances_of(s).insert(s[i].0, v));
    } else {
        assert(keys_unique(d));
        lemma_update_entry(d, i, v);
        assert(s[i].0 != s.last().0);
        assert(balances_of(u) =~= balances_of(s).insert(s[i].0, v));
    }
}

/// The balances of all registered accounts, kept in registration order.
pub struct Ledger {
    accounts: Vec<(String, u128)>,
    total_supply: u128,
}

impl Ledger {
    /// The registered accounts with their balances, in registration order.
    pub closed spec fn entries(&self) -> Seq<Entry> {
        self.accounts@.map_values(|e: (String, u128)| (e.0@, e.1))
    }

    /// The total supply that the ledger records.
    pub closed spec fn supply(&self) -> u128 {
        self.total_supply
    }

    /// The ledger's balances and total supply.
    pub open spec fn model(&self) -> LedgerModel {
        LedgerModel { balances: balances_of(self.entries()), supply: self.supply() }
    }

    /// Each account occurs once, and the total supply is the sum of all balances.
    pub open spec fn wf(&self) -> bool {
        keys_unique(self.entries()) && self.supply() == total_of(self.entries())
    }

    /// In a well-formed ledger no balance exceeds the total supply.
    pub proof fn lemma_balance_le_supply(&self, id: Seq<char>)
        requires
            self.wf(),
        ensures
            balance_spec(self.model(), id) <= self.model().supply,
    {
        lemma_balances_of_entries(self.entries());
        if self.model().balances.dom().contains(id) {
            let i = choose|i: int| 0 <= i < self.entries().len() && self.entries()[i].0 == id;
            lemma_entry_le_total(self.entries(), i);
        }
    }

    /// In a well-formed ledger the balances of two different accounts together do not exceed
    /// the total supply.
    pub proof fn lemma_two_balances_le_supply(&self, a: Seq<char>, b: Seq<char>)
        requires
            self.wf(),
            a != b,
        ensures
            balance_spec(self.model(), a) + balance_spec(self.model(), b) <= self.model().supply,
    {
        lemma_balances_of_entries(self.entries());
        self.lemma_balance_le_supply(a);
        self.lemma_balance_le_supply(b);
        if self.model().balances.dom().contains(a) && self.model().balances.dom().contains(b) {
            let i = choose|i: int| 0 <= i < self.entries().len() && self.entries()[i].0 == a;
            let j = choose|j: int| 0 <= j < self.entries().len() && self.entries()[j].0 == b;
            lemma_two_entries_le_total(self.entries(), i, j);
        }
    }

    /// Rebuilds a ledger from its accounts in registration order, the total supply being the
    /// sum of their balances; `None` where an account occurs twice or the sum exceeds `u128::MAX`.
    pub fn from_accounts(accounts: Vec<(String, u128)>) -> (r: Option<Ledger>)
        ensures
            match r {
                Some(l) => l.wf() && l.entries() == accounts@.map_values(
                    |e: (String, u128)| (e.0@, e.1),
                ),
                None => !keys_unique(accounts@.map_values(|e: (String, u128)| (e.0@, e.1)))
                    || total_of(accounts@.map_values(|e: (String, u128)| (e.0@, e.1))) > u128::MAX,
            },
    {
        let ghost v = accounts@.map_values(|e: (String, u128)| (e.0@, e.1));
        let n = accounts.len();
        let mut total: u128 = 0;
        let mut i: usize = 0;
        assert(v.take(0) =~= Seq::<Entry>::empty());
        while i < n
            invariant
                n == accounts@.len(),
                v == accounts@.map_values(|e: (String, u128)| (e.0@, e.1)),
                i <= n,
                keys_unique(v.take(i as int)),
                total == total_of(v.take(i as int)),
            decreases n - i,
        {
            let mut j: usize = 0;
            while j < i
                invariant
                    n == accounts@.len(),
                    v == accounts@.map_values(|e: (String, u128)| (e.0@, e.1)),
                    i < n,
                    j <= i,
                    forall|k: int| 0 <= k < j ==> v[k].0 != v[i as int].0,
                decreases i - j,
            {
                if accounts[j].0 == accounts[i].0 {
                    assert(v[j as int].0 == v[i as int].0);
                    return None;
                }
                j = j + 1;
            }
            assert(v.take(i + 1).drop_last() =~= v.take(i as int));
            match total.checked_add(accounts[i].1) {
                None => {
                    proof {
                        lemma_prefix_total_le(v, i + 1);
                    }
                    return None;
                },
                Some(t) => {
                    total = t;
                },
            }
            i = i + 1;
        }
        assert(v.take(n as int) =~= v);
        let l = Ledger { accounts, total_supply: total };
        assert(l.entries() =~= v);
        Some(l)
    }

    /// The accounts and their balances, in registration order.
    pub fn into_accounts(self) -> (r: Vec<(String, u128)>)
        ensures
            r@.map_values(|e: (String, u128)| (e.0@, e.1)) == self.entries(),
    {
        self.accounts
    }

    /// An empty ledger.
    pub fn new() -> (r: Ledger)
        ensures
            r.wf(),
            r.model().balances == Map::<Seq<char>, u128>::empty(),
            r.model().supply == 0,
    {
        let r = Ledger { accounts: Vec::new(), total_supply: 0 };
        assert(r.entries() =~= Seq::<Entry>::empty());
        r
    }

    /// The position of `id` in the ledger, if it is registered.
    fn find(&self, id: &String) -> (r: Option<usize>)
        requires
            self.wf(),
        ensures
            match r {
                Some(i) => i < self.entries().len() && self.entries()[i as int].0 == id@
                    && self.model().balances.dom().contains(id@)
                    && self.model().balances[id@] == self.entries()[i as int].1,
                None => !self.model().balances.dom().contains(id@),
            },
    {
        proof {
            lemma_balances_of_entries(self.entries());
        }
        let n = self.accounts.len();
        let mut i: usize = 0;
        while i < n
            invariant
                n == self.accounts@.len(),
                i <= n,
                self.wf(),
                forall|j: int| 0 <= j < i ==> self.entries()[j].0 != id@,
            decreases n - i,
        {
            if self.accounts[i].0 == *id {
                assert(self.entries()[i as int].0 == id@);
                proof {
                    lemma_balances_of_entries(self.entries());
                }
                assert(self.model().balances.dom().contains(self.entries()[i as int].0));
                return Some(i);
            }
            i = i + 1;
        }
        None
    }

    /// The balance of `id`, zero where it is not registered.
    pub fn balance_of(&self, id: &String) -> (r: u128)
        requires
            self.wf(),
        ensures
            r == balance_spec(self.model(), id@),
    {
        match self.find(id) {
            Some(i) => self.accounts[i].1,
            None => 0,
        }
    }

    /// Whether `id` is registered.
    pub fn is_registered(&self, id: &String) -> (r: bool)
        requires
            self.wf(),
        ensures
            r == self.model().balances.dom().contains(id@),
    {
        self.find(id).is_some()
    }

    /// The total supply.
    pub fn total_supply(&self) -> (r: u128)
        ensures
            r == self.model().supply,
    {
        self.total_supply
    }

    /// Registers `id` with a zero balance.
    pub fn register(&mut self, id: &String) -> (r: Result<(), LedgerError>)
        requires
            old(self).wf(),
        ensures
            final(self).wf(),
            match r {
                Ok(()) => register_spec(old(self).model(), id@) == Ok::<LedgerModel, LedgerError>(
                    final(self).model(),
                ),
                Err(e) => register_spec(old(self).model(), id@) == Err::<LedgerModel, LedgerError>(e)
                    && *final(self) == *old(self),
            },
    {
        if self.find(id).is_some() {
            return Err(LedgerError::AlreadyRegistered);
        }
        let ghost s = self.entries();
        proof {
            lemma_balances_of_entries(s);
        }
        self.accounts.push((id.clone(), 0));
        assert(self.entries() =~= s.push((id@, 0u128)));
        assert(self.entries().drop_last() =~= s);
        assert(keys_unique(self.entries())) by {
            assert forall|i: int, j: int|
                0 <= i < self.entries().len() && 0 <= j < self.entries().len() && i != j implies self.entries()[i].0
                != self.entries()[j].0 by {
                if i < s.len() && j < s.len() {
                } else if i < s.len() {
                    assert(balances_of(s).dom().contains(s[i].0));
                } else {
                    assert(balances_of(s).dom().contains(s[j].0));
                }
            }
        }
        Ok(())
    }

    /// Credits `amount` to `id`.
    pub fn deposit(&mut self, id: &String, amount: u128) -> (r: Result<(), LedgerError>)
        requires
            old(self).wf(),
        ensures
            final(self).wf(),
            match r {
                Ok(()) => deposit_spec(old(self).model(), id@, amount) == Ok::<LedgerModel, LedgerError>(
                    final(self).model(),
                ),
                Err(e) => deposit_spec(old(self).model(), id@, amount) == Err::<LedgerModel, LedgerError>(e)
                    && *final(self) == *old(self),
            },
    {
        match self.find(id) {
            None => Err(LedgerError::NotRegistered),
            Some(i) => {
                let bal = self.accounts[i].1;
                match bal.checked_add(amount) {
                    None => Err(LedgerError::BalanceOverflow),
                    Some(new_bal) => match self.total_supply.checked_add(amount) {
                        None => Err(LedgerError::TotalSupplyOverflow),
                        Some(new_total) => {
                            let ghost s = self.entries();
                            proof {
                                lemma_update_entry(s, i as int, new_bal);
                            }
                            let key = self.accounts[i].0.clone();
                            self.accounts.set(i, (key, new_bal));
                            self.total_supply = new_total;
                            assert(self.entries() =~= s.update(i as int, (s[i as int].0, new_bal)));
                            assert(self.model().balances =~= old(self).model().balances.insert(id@, new_bal));
                            Ok(())
                        },
                    },
                }
            },
        }
    }

    /// Debits `amount` from `id`.
    pub fn withdraw(&mut self, id: &String, amount: u128) -> (r: Result<(), LedgerError>)
        requires
            old(self).wf(),
        ensures
            final(self).wf(),
            r != Err::<(), LedgerError>(LedgerError::TotalSupplyOverflow),
            match r {
                Ok(()) => withdraw_spec(old(self).model(), id@, amount) == Ok::<LedgerModel, LedgerError>(
                    final(self).model(),
                ),
                Err(e) => withdraw_spec(old(self).model(), id@, amount) == Err::<LedgerModel, LedgerError>(e)
                    && *final(self) == *old(self),
            },
    {
        match self.find(id) {
            None => Err(LedgerError::NotRegistered),
            Some(i) => {
                let bal = self.accounts[i].1;
                if bal < amount {
                    return Err(LedgerError::NotEnoughBalance);
                }
                let ghost s = self.entries();
                proof {
                    lemma_entry_le_total(s, i as int);
                    lemma_update_entry(s, i as int, (bal - amount) as u128);
                }
                let new_total = self.total_supply - amount;
                let key = self.accounts[i].0.clone();
                self.accounts.set(i, (key, bal - amount));
                self.total_supply = new_total;
                assert(self.entries() =~= s.update(i as int, (s[i as int].0, (bal - amount) as u128)));
                assert(self.model().balances =~= old(self).model().balances.insert(id@, (bal - amount) as u128));
                Ok(())
            },
        }
    }

    /// Removes `id` from the ledger; its balance leaves the total supply and is returned.
    pub fn remove(&mut self, id: &String) -> (r: Result<u128, LedgerError>)
        requires
            old(self).wf(),
        ensures
            final(self).wf(),
            r != Err::<u128, LedgerError>(LedgerError::TotalSupplyOverflow),
            match r {
                Ok(b) => remove_spec(old(self).model(), id@) == Ok::<(LedgerModel, u128), LedgerError>(
                    (final(self).model(), b),
                ),
                Err(e) => remove_spec(old(self).model(), id@) == Err::<(LedgerModel, u128), LedgerError>(e)
                    && *final(self) == *old(self),
            },
    {
        match self.find(id) {
            None => Err(LedgerError::NotRegistered),
            Some(i) => {
                let ghost s = self.entries();
                proof {
                    lemma_entry_le_total(s, i as int);
                    lemma_remove_entry(s, i as int);
                }
                let bal = self.accounts[i].1;
                let new_total = self.total_supply - bal;
                let _removed = self.accounts.remove(i);
                self.total_supply = new_total;
                assert(self.entries() =~= s.remove(i as int));
                Ok(bal)
            },
        }
    }
}

} // verus!
