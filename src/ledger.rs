use vstd::prelude::*;

use crate::types::{asset_eq, hash_eq, AccountId, AssetId, BridgeError};

verus! {

/// The key of a ledger balance.
pub type BalanceKey = (AssetId, AccountId);

/// The abstract state of the ledger: the balance of each key that was ever credited.
pub type Balances = Map<BalanceKey, u128>;

/// One stored balance.
#[derive(Clone, Copy, Debug)]
pub struct LedgerEntry {
    pub asset: AssetId,
    pub account: AccountId,
    pub amount: u128,
}

impl LedgerEntry {
    pub open spec fn key(self) -> BalanceKey {
        (self.asset, self.account)
    }
}

/// The balance of `k` in `m`; a key never credited holds zero.
pub open spec fn balance_of(m: Balances, k: BalanceKey) -> u128 {
    if m.contains_key(k) {
        m[k]
    } else {
        0
    }
}

/// The outcome of crediting `amount` to `k`.
pub open spec fn spec_credit(m: Balances, k: BalanceKey, amount: u128) -> Result<Balances, BridgeError> {
    if balance_of(m, k) + amount > u128::MAX {
        Err(BridgeError::BalanceOverflow)
    } else {
        Ok(m.insert(k, (balance_of(m, k) + amount) as u128))
    }
}

/// The outcome of debiting `amount` from `k`; the entry stays, possibly at zero.
pub open spec fn spec_debit(m: Balances, k: BalanceKey, amount: u128) -> Result<Balances, BridgeError> {
    if amount > balance_of(m, k) {
        Err(BridgeError::InsufficientBalance)
    } else {
        Ok(m.insert(k, (balance_of(m, k) - amount) as u128))
    }
}

/// Crediting and then debiting the same amount on the same key brings every balance
/// back to its prior value, and a debit above the balance fails and changes nothing.
pub proof fn lemma_credit_debit_inverse(m: Balances, k: BalanceKey, amount: u128)
    ensures
        spec_credit(m, k, amount) is Ok ==> spec_debit(spec_credit(m, k, amount)->Ok_0, k, amount) is Ok && forall|k2: BalanceKey|
            #[trigger] balance_of(spec_debit(spec_credit(m, k, amount)->Ok_0, k, amount)->Ok_0, k2) == balance_of(m, k2),
        amount > balance_of(m, k) ==> spec_debit(m, k, amount) == Err::<Balances, BridgeError>(BridgeError::InsufficientBalance),
{
}

/// The outcome of crediting each seed `(asset, account, amount)` in turn to an empty ledger.
pub open spec fn spec_seed(seed: Seq<(AssetId, AccountId, u128)>) -> Result<Balances, BridgeError>
    decreases seed.len(),
{
    if seed.len() == 0 {
        Ok(Map::empty())
    } else {
        match spec_seed(seed.drop_last()) {
            Err(e) => Err(e),
            Ok(m) => spec_credit(m, (seed.last().0, seed.last().1), seed.last().2),
        }
    }
}

/// The balances held by a sequence of entries; a later entry overrides an earlier one.
pub open spec fn balances_of(s: Seq<LedgerEntry>) -> Balances
    decreases s.len(),
{
    if s.len() == 0 {
        Map::empty()
    } else {
        balances_of(s.drop_last()).insert(s.last().key(), s.last().amount)
    }
}

pub open spec fn keys_unique(s: Seq<LedgerEntry>) -> bool {
    forall|i: int, j: int| 0 <= i < s.len() && 0 <= j < s.len() && i != j ==> s[i].key() != s[j].key()
}

proof fn lemma_balances_lookup(s: Seq<LedgerEntry>, i: int)
    requires
        keys_unique(s),
        0 <= i < s.len(),
    ensures
        balances_of(s).contains_key(s[i].key()),
        balances_of(s)[s[i].key()] == s[i].amount,
    decreases s.len(),
{
    if i < s.len() - 1 {
        let t = s.drop_last();
        assert(keys_unique(t));
        assert(t[i] == s[i]);
        lemma_balances_lookup(t, i);
        assert(s[s.len() - 1].key() != s[i].key());
    }
}

proof fn lemma_balances_absent(s: Seq<LedgerEntry>, k: BalanceKey)
    requires
        forall|i: int| 0 <= i < s.len() ==> s[i].key() != k,
    ensures
        !balances_of(s).contains_key(k),
    decreases s.len(),
{
    if s.len() > 0 {
        let t = s.drop_last();
        assert forall|i: int| 0 <= i < t.len() implies t[i].key() != k by {
            assert(t[i] == s[i]);
        }
        lemma_balances_absent(t, k);
        assert(s[s.len() - 1].key() != k);
    }
}

proof fn lemma_balances_update(s: Seq<LedgerEntry>, i: int, amount: u128)
    requires
        keys_unique(s),
        0 <= i < s.len(),
    ensures
        balances_of(s.update(i, LedgerEntry { amount, ..s[i] })) == balances_of(s).insert(s[i].key(), amount),
    decreases s.len(),
{
    let e = LedgerEntry { amount, ..s[i] };
    let u = s.update(i, e);
    if i == s.len() - 1 {
        assert(u.drop_last() =~= s.drop_last());
        let t = s.drop_last();
        assert forall|j: int| 0 <= j < t.len() implies t[j].key() != s[i].key() by {
            assert(t[j] == s[j]);
        }
        lemma_balances_absent(t, s[i].key());
        assert(balances_of(u) =~= balances_of(s).insert(s[i].key(), amount));
    } else {
        let t = s.drop_last();
        assert(keys_unique(t));
        assert(u.drop_last() =~= t.update(i, e));
        assert(t[i] == s[i]);
        lemma_balances_update(t, i, amount);
        assert(s.last().key() != s[i].key());
        assert(balances_of(u) =~= balances_of(s).insert(s[i].key(), amount));
    }
}

proof fn lemma_seed_err_sticks(seed: Seq<(AssetId, AccountId, u128)>, n: int)
    requires
        0 <= n <= seed.len(),
        spec_seed(seed.take(n)) is Err,
    ensures
        spec_seed(seed) == spec_seed(seed.take(n)),
    decreases seed.len() - n,
{
    if n < seed.len() {
        assert(seed.take(n + 1).drop_last() =~= seed.take(n));
        lemma_seed_err_sticks(seed, n + 1);
    } else {
        assert(seed.take(n) =~= seed);
    }
}

/// Balances per asset and account, changed only by credits and debits that either
/// apply in full or leave every balance as it was.
pub struct AssetLedger {
    entries: Vec<LedgerEntry>,
}

impl View for AssetLedger {
    type V = Balances;

    closed spec fn view(&self) -> Balances {
        balances_of(self.entries@)
    }
}

impl AssetLedger {
    /// Each key is stored at most once.
    pub closed spec fn wf(&self) -> bool {
        keys_unique(self.entries@)
    }

    /// A ledger that holds no balance.
    pub fn new() -> (r: AssetLedger)
        ensures
            r.wf(),
            r@ == Map::<BalanceKey, u128>::empty(),
    {
        AssetLedger { entries: Vec::new() }
    }

    /// A ledger seeded with each `(asset, account, amount)` in turn, amounts for one key
    /// adding up; fails with `BalanceOverflow` where a sum does not fit.
    pub fn from_balances(seed: &Vec<(AssetId, AccountId, u128)>) -> (r: Result<AssetLedger, BridgeError>)
        ensures
            match spec_seed(seed@) {
                Ok(m) => r matches Ok(l) && l.wf() && l@ == m,
                Err(e) => r == Err::<AssetLedger, BridgeError>(e),
            },
    {
        let mut ledger = AssetLedger::new();
        let mut i: usize = 0;
        while i < seed.len()
            invariant
                i <= seed@.len(),
                ledger.wf(),
                spec_seed(seed@.take(i as int)) == Ok::<Balances, BridgeError>(ledger@),
            decreases seed@.len() - i,
        {
            let (asset, account, amount) = seed[i];
            proof {
                assert(seed@.take(i + 1).drop_last() =~= seed@.take(i as int));
            }
            match ledger.credit(&asset, &account, amount) {
                Ok(()) => {},
                Err(e) => {
                    proof {
                        lemma_seed_err_sticks(seed@, i + 1);
                    }
                    return Err(e);
                },
            }
            i = i + 1;
        }
        proof {
            assert(seed@.take(seed@.len() as int) =~= seed@);
        }
        Ok(ledger)
    }

    fn find(&self, asset: &AssetId, account: &AccountId) -> (r: Option<usize>)
        requires
            self.wf(),
        ensures
            match r {
                Some(i) => i < self.entries@.len() && self.entries@[i as int].key() == (*asset, *account),
                None => forall|j: int| 0 <= j < self.entries@.len() ==> self.entries@[j].key() != (*asset, *account),
            },
    {
        let mut i: usize = 0;
        while i < self.entries.len()
            invariant
                i <= self.entries@.len(),
                forall|j: int| 0 <= j < i ==> self.entries@[j].key() != (*asset, *account),
            decreases self.entries@.len() - i,
        {
            let e = &self.entries[i];
            if asset_eq(&e.asset, asset) && hash_eq(&e.account, account) {
                return Some(i);
            }
            i = i + 1;
        }
        None
    }

    /// The balance of `account` in `asset`; zero where nothing was ever credited.
    pub fn balance(&self, asset: &AssetId, account: &AccountId) -> (r: u128)
        requires
            self.wf(),
        ensures
            r == balance_of(self@, (*asset, *account)),
    {
        match self.find(asset, account) {
            Some(i) => {
                proof {
                    lemma_balances_lookup(self.entries@, i as int);
                }
                self.entries[i].amount
            },
            None => {
                proof {
                    lemma_balances_absent(self.entries@, (*asset, *account));
                }
                0
            },
        }
    }

    /// Adds `amount` to a balance, creating it on first credit; fails with
    /// `BalanceOverflow` and changes nothing where the sum does not fit.
    pub fn credit(&mut self, asset: &AssetId, account: &AccountId, amount: u128) -> (r: Result<(), BridgeError>)
        requires
            old(self).wf(),
        ensures
            final(self).wf(),
            match spec_credit(old(self)@, (*asset, *account), amount) {
                Ok(m) => r is Ok && final(self)@ == m,
                Err(e) => r == Err::<(), BridgeError>(e) && final(self)@ == old(self)@,
            },
    {
        let k: Ghost<BalanceKey> = Ghost((*asset, *account));
        match self.find(asset, account) {
            Some(i) => {
                proof {
                    lemma_balances_lookup(self.entries@, i as int);
                }
                let cur = self.entries[i].amount;
                match cur.checked_add(amount) {
                    Some(total) => {
                        let e = LedgerEntry { amount: total, ..self.entries[i] };
                        proof {
                            lemma_balances_update(self.entries@, i as int, total);
                        }
                        self.entries.set(i, e);
                        proof {
                            assert(keys_unique(self.entries@));
                        }
                        Ok(())
                    },
                    None => Err(BridgeError::BalanceOverflow),
                }
            },
            None => {
                proof {
                    lemma_balances_absent(self.entries@, k@);
                }
                let e = LedgerEntry { asset: *asset, account: *account, amount };
                let ghost before = self.entries@;
                self.entries.push(e);
                proof {
                    assert(self.entries@.drop_last() =~= before);
                    assert(keys_unique(self.entries@));
                }
                Ok(())
            },
        }
    }

    /// Takes `amount` from a balance; fails with `InsufficientBalance` and changes
    /// nothing where the balance is smaller.
    pub fn debit(&mut self, asset: &AssetId, account: &AccountId, amount: u128) -> (r: Result<(), BridgeError>)
        requires
            old(self).wf(),
        ensures
            final(self).wf(),
            match spec_debit(old(self)@, (*asset, *account), amount) {
                Ok(m) => r is Ok && final(self)@ == m,
                Err(e) => r == Err::<(), BridgeError>(e) && final(self)@ == old(self)@,
            },
    {
        match self.find(asset, account) {
            Some(i) => {
                proof {
                    lemma_balances_lookup(self.entries@, i as int);
                }
                let cur = self.entries[i].amount;
                if amount > cur {
                    return Err(BridgeError::InsufficientBalance);
                }
                let e = LedgerEntry { amount: cur - amount, ..self.entries[i] };
                proof {
                    lemma_balances_update(self.entries@, i as int, (cur - amount) as u128);
                }
                self.entries.set(i, e);
                proof {
                    assert(keys_unique(self.entries@));
                }
                Ok(())
            },
            None => {
                proof {
                    lemma_balances_absent(self.entries@, (*asset, *account));
                }
                if amount > 0 {
                    return Err(BridgeError::InsufficientBalance);
                }
                self.credit(asset, account, 0)
            },
        }
    }
}

} // verus!
