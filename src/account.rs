//! Accounts: a balance, a nonce and a key/value storage.
use vstd::prelude::*;
use crate::assoc::{
    has_key, keys_unique, lemma_map_of_dom, lemma_map_of_eq, lemma_map_of_index,
    lemma_map_of_len, lemma_map_of_push, lemma_map_of_update, map_of,
};
use crate::types::U256;

verus! {

/// The storage of an account: a finite map from 256-bit keys to 256-bit
/// values, held as pairs with distinct keys.
#[derive(Debug)]
pub struct Storage {
    entries: Vec<(U256, U256)>,
}

impl View for Storage {
    type V = Map<U256, U256>;

    closed spec fn view(&self) -> Map<U256, U256> {
        map_of(self.entries@)
    }
}

impl Storage {
    #[verifier::type_invariant]
    closed spec fn keys_distinct(self) -> bool {
        keys_unique(self.entries@)
    }

    /// An empty storage.
    pub fn new() -> (r: Storage)
        ensures
            r@ == Map::<U256, U256>::empty(),
    {
        Storage { entries: Vec::new() }
    }

    /// Where `k` stands among the pairs, if it does.
    fn position(&self, k: &U256) -> (r: Option<usize>)
        ensures
            match r {
                Some(i) => i < self.entries@.len() && self.entries@[i as int].0 == *k,
                None => !has_key(self.entries@, *k),
            },
    {
        let mut i: usize = 0;
        while i < self.entries.len()
            invariant
                i <= self.entries@.len(),
                forall|j: int| 0 <= j < i ==> self.entries@[j].0 != *k,
            decreases self.entries@.len() - i,
        {
            if self.entries[i].0 == *k {
                return Some(i);
            }
            i = i + 1;
        }
        None
    }

    /// The number of keys held.
    pub fn len(&self) -> (r: usize)
        ensures
            r == self@.len(),
    {
        proof {
            use_type_invariant(self);
            lemma_map_of_len(self.entries@);
        }
        self.entries.len()
    }

    /// Whether no key is held.
    pub fn is_empty(&self) -> (r: bool)
        ensures
            r == (self@.len() == 0),
    {
        self.len() == 0
    }

    /// The value stored under `k`, if any.
    pub fn get(&self, k: &U256) -> (r: Option<&U256>)
        ensures
            match r {
                Some(v) => self@.contains_key(*k) && *v == self@[*k],
                None => !self@.contains_key(*k),
            },
    {
        proof {
            use_type_invariant(self);
            lemma_map_of_dom(self.entries@, *k);
        }
        match self.position(k) {
            Some(i) => {
                proof {
                    lemma_map_of_index(self.entries@, i as int);
                }
                Some(&self.entries[i].1)
            },
            None => None,
        }
    }

    /// Stores `v` under `k`, replacing what was there; returns the value
    /// that was replaced.
    pub fn insert(&mut self, k: U256, v: U256) -> (r: Option<U256>)
        ensures
            final(self)@ == old(self)@.insert(k, v),
            r == (if old(self)@.contains_key(k) {
                Some(old(self)@[k])
            } else {
                None
            }),
    {
        proof {
            use_type_invariant(&*self);
            lemma_map_of_dom(self.entries@, k);
        }
        let found = self.position(&k);
        // The pairs are taken out while they change, so that the field is
        // only ever replaced whole.
        let mut entries: Vec<(U256, U256)> = Vec::new();
        core::mem::swap(&mut self.entries, &mut entries);
        match found {
            Some(i) => {
                let prev = entries[i].1;
                proof {
                    lemma_map_of_index(entries@, i as int);
                    lemma_map_of_update(entries@, i as int, v);
                }
                entries[i] = (k, v);
                self.entries = entries;
                Some(prev)
            },
            None => {
                proof {
                    lemma_map_of_push(entries@, k, v);
                }
                entries.push((k, v));
                self.entries = entries;
                None
            },
        }
    }

    /// Whether both hold the same keys with the same values.
    pub fn same_entries(&self, other: &Storage) -> (r: bool)
        ensures
            r == (self@ == other@),
    {
        proof {
            use_type_invariant(self);
            use_type_invariant(other);
            lemma_map_of_eq(self.entries@, other.entries@);
        }
        if self.entries.len() != other.entries.len() {
            return false;
        }
        let mut i: usize = 0;
        while i < self.entries.len()
            invariant
                i <= self.entries@.len(),
                keys_unique(self.entries@),
                keys_unique(other.entries@),
                self.entries@.len() == other.entries@.len(),
                forall|j: int|
                    0 <= j < i ==> #[trigger] map_of(other.entries@).contains_key(
                        self.entries@[j].0,
                    ) && map_of(other.entries@)[self.entries@[j].0] == self.entries@[j].1,
            decreases self.entries@.len() - i,
        {
            let (k, v) = self.entries[i];
            match other.get(&k) {
                Some(w) => {
                    if *w != v {
                        proof {
                            lemma_map_of_eq(self.entries@, other.entries@);
                        }
                        return false;
                    }
                },
                None => {
                    proof {
                        lemma_map_of_eq(self.entries@, other.entries@);
                    }
                    return false;
                },
            }
            i = i + 1;
        }
        proof {
            lemma_map_of_eq(self.entries@, other.entries@);
        }
        true
    }
}

impl Clone for Storage {
    fn clone(&self) -> (r: Storage)
        ensures
            r@ == self@,
    {
        proof {
            use_type_invariant(self);
        }
        let mut entries: Vec<(U256, U256)> = Vec::new();
        let mut i: usize = 0;
        while i < self.entries.len()
            invariant
                i <= self.entries@.len(),
                entries@ == self.entries@.subrange(0, i as int),
            decreases self.entries@.len() - i,
        {
            entries.push(self.entries[i]);
            i = i + 1;
            assert(entries@ =~= self.entries@.subrange(0, i as int));
        }
        assert(entries@ =~= self.entries@);
        Storage { entries }
    }
}

impl PartialEq for Storage {
    fn eq(&self, other: &Storage) -> (r: bool) {
        self.same_entries(other)
    }
}

impl vstd::std_specs::cmp::PartialEqSpecImpl for Storage {
    open spec fn obeys_eq_spec() -> bool {
        true
    }

    open spec fn eq_spec(&self, other: &Storage) -> bool {
        self@ == other@
    }
}

impl Eq for Storage {
}

/// What an account holds: its balance, its nonce and the map its storage
/// stands for.
pub type AccountView = (U256, u64, Map<U256, U256>);

/// The account made from a balance and a nonce, with nothing stored.
pub open spec fn new_account(balance: U256, nonce: u64) -> AccountView {
    (balance, nonce, Map::empty())
}

/// The account that a first reference to an address creates: zero balance,
/// zero nonce, nothing stored.
pub open spec fn default_account() -> AccountView {
    (U256 { hi: 0, lo: 0 }, 0, Map::empty())
}

/// An account: a balance in wei, the number of transactions sent from it,
/// and its contract storage.
#[derive(Clone, Debug)]
pub struct Account {
    pub balance: U256,
    pub nonce: u64,
    pub storage: Storage,
}

impl View for Account {
    type V = AccountView;

    open spec fn view(&self) -> AccountView {
        (self.balance, self.nonce, self.storage@)
    }
}

impl Account {
    /// An account with the given balance and nonce and nothing stored.
    pub fn new(balance: U256, nonce: u64) -> (r: Account)
        ensures
            r.balance == balance,
            r.nonce == nonce,
            r.storage@ == Map::<U256, U256>::empty(),
            r@ == new_account(balance, nonce),
    {
        Account { balance, nonce, storage: Storage::new() }
    }
}

impl Default for Account {
    fn default() -> (r: Account)
        ensures
            r@ == default_account(),
    {
        Account { balance: U256::zero(), nonce: 0, storage: Storage::new() }
    }
}

impl PartialEq for Account {
    fn eq(&self, other: &Account) -> (r: bool)
        ensures
            r == (self@ == other@),
    {
        self.balance == other.balance && self.nonce == other.nonce && self.storage.same_entries(
            &other.storage,
        )
    }
}

impl vstd::std_specs::cmp::PartialEqSpecImpl for Account {
    open spec fn obeys_eq_spec() -> bool {
        true
    }

    open spec fn eq_spec(&self, other: &Account) -> bool {
        self@ == other@
    }
}

impl Eq for Account {
}

/// The default account is the account made from a zero balance and a zero
/// nonce.
pub proof fn lemma_default_is_new_zero()
    ensures
        default_account() == new_account(U256 { hi: 0, lo: 0 }, 0),
{
}

/// Two accounts are equal exactly when their balances, their nonces and
/// their storages are: a difference in any one of them makes them unequal.
pub proof fn lemma_account_eq_fields(a: Account, b: Account)
    ensures
        a@ == b@ <==> (a.balance == b.balance && a.nonce == b.nonce && a.storage@ == b.storage@),
{
}

} // verus!
