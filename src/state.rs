//! The world state: a map from addresses to accounts. An account comes into
//! being the first time a writing operation names its address, and is never
//! removed.
use vstd::prelude::*;
use crate::account::{default_account, Account, AccountView};
use crate::assoc::{
    has_key, keys_unique, lemma_map_of_dom, lemma_map_of_index, lemma_map_of_len, lemma_map_of_push,
    lemma_map_of_update, map_of,
};
use crate::types::{H160, U256};

verus! {

/// What each pair of the state stands for: its address and what its account
/// holds.
pub open spec fn views_of(s: Seq<(H160, Account)>) -> Seq<(H160, AccountView)> {
    s.map_values(|e: (H160, Account)| (e.0, e.1@))
}

/// The account at `a`, or the one that a first write at `a` would create.
pub open spec fn account_or_default(m: Map<H160, AccountView>, a: H160) -> AccountView {
    if m.contains_key(a) {
        m[a]
    } else {
        default_account()
    }
}

/// The state after the balance at `a` is set to `b`.
pub open spec fn with_balance(m: Map<H160, AccountView>, a: H160, b: U256) -> Map<
    H160,
    AccountView,
> {
    let acc = account_or_default(m, a);
    m.insert(a, (b, acc.1, acc.2))
}

/// The nonce after `n`: one more, wrapping to zero past the largest value.
pub open spec fn next_nonce(n: u64) -> u64 {
    if n == u64::MAX {
        0
    } else {
        (n + 1) as u64
    }
}

/// The state after the nonce at `a` is incremented.
pub open spec fn with_nonce_incremented(m: Map<H160, AccountView>, a: H160) -> Map<
    H160,
    AccountView,
> {
    let acc = account_or_default(m, a);
    m.insert(a, (acc.0, next_nonce(acc.1), acc.2))
}

/// The state after the nonce at `a` is incremented `k` times.
pub open spec fn nonce_incremented_times(m: Map<H160, AccountView>, a: H160, k: nat) -> Map<
    H160,
    AccountView,
>
    decreases k,
{
    if k == 0 {
        m
    } else {
        with_nonce_incremented(nonce_incremented_times(m, a, (k - 1) as nat), a)
    }
}

/// Accounts by address, held as pairs with distinct addresses.
#[derive(Clone, Debug)]
pub struct State {
    accounts: Vec<(H160, Account)>,
}

impl View for State {
    type V = Map<H160, AccountView>;

    closed spec fn view(&self) -> Map<H160, AccountView> {
        map_of(views_of(self.accounts@))
    }
}

/// Writing a new account into the pair at `i` writes it into the map.
proof fn lemma_views_update(s: Seq<(H160, Account)>, i: int, acc: Account)
    requires
        keys_unique(views_of(s)),
        0 <= i < s.len(),
    ensures
        keys_unique(views_of(#[trigger] s.update(i, (s[i].0, acc)))),
        map_of(views_of(s.update(i, (s[i].0, acc)))) == map_of(views_of(s)).insert(s[i].0, acc@),
{
    assert(views_of(s.update(i, (s[i].0, acc))) =~= views_of(s).update(i, (s[i].0, acc@)));
    lemma_map_of_update(views_of(s), i, acc@);
}

/// Whatever account is later written into the pair at `i`, it is written
/// into the map.
proof fn lemma_views_update_any(s: Seq<(H160, Account)>, i: int)
    requires
        keys_unique(views_of(s)),
        0 <= i < s.len(),
    ensures
        forall|acc: Account|
            keys_unique(views_of(#[trigger] s.update(i, (s[i].0, acc)))) && map_of(
                views_of(s.update(i, (s[i].0, acc))),
            ) == map_of(views_of(s)).insert(s[i].0, acc@),
{
    assert forall|acc: Account|
        keys_unique(views_of(#[trigger] s.update(i, (s[i].0, acc)))) && map_of(
            views_of(s.update(i, (s[i].0, acc))),
        ) == map_of(views_of(s)).insert(s[i].0, acc@) by {
        lemma_views_update(s, i, acc);
    }
}

impl State {
    /// No address occurs twice.
    pub closed spec fn wf(&self) -> bool {
        keys_unique(views_of(self.accounts@))
    }

    /// A state with no account.
    pub fn new() -> (r: State)
        ensures
            r.wf(),
            r@ == Map::<H160, AccountView>::empty(),
    {
        let r = State { accounts: Vec::new() };
        assert(views_of(r.accounts@) =~= Seq::<(H160, AccountView)>::empty());
        r
    }

    /// The number of accounts.
    pub fn len(&self) -> (r: usize)
        requires
            self.wf(),
        ensures
            r == self@.len(),
    {
        proof {
            lemma_map_of_len(views_of(self.accounts@));
        }
        self.accounts.len()
    }

    /// Where `address` stands among the pairs, if it does.
    fn position(&self, address: &H160) -> (r: Option<usize>)
        ensures
            match r {
                Some(i) => i < self.accounts@.len() && self.accounts@[i as int].0 == *address,
                None => !has_key(views_of(self.accounts@), *address),
            },
    {
        let mut i: usize = 0;
        while i < self.accounts.len()
            invariant
                i <= self.accounts@.len(),
                forall|j: int| 0 <= j < i ==> self.accounts@[j].0 != *address,
            decreases self.accounts@.len() - i,
        {
            if self.accounts[i].0 == *address {
                return Some(i);
            }
            i = i + 1;
        }
        None
    }

    /// The account at `address`, if there is one.
    pub fn get_account(&self, address: &H160) -> (r: Option<&Account>)
        requires
            self.wf(),
        ensures
            match r {
                Some(acc) => self@.contains_key(*address) && acc@ == self@[*address],
                None => !self@.contains_key(*address),
            },
    {
        proof {
            lemma_map_of_dom(views_of(self.accounts@), *address);
        }
        match self.position(address) {
            Some(i) => {
                proof {
                    lemma_map_of_index(views_of(self.accounts@), i as int);
                }
                Some(&self.accounts[i].1)
            },
            None => None,
        }
    }

    /// The account at `address`, if there is one, to be changed in place.
    pub fn get_account_mut(&mut self, address: &H160) -> (r: Option<&mut Account>)
        requires
            old(self).wf(),
        ensures
            final(self).wf(),
            match r {
                Some(acc) => old(self)@.contains_key(*address) && (*acc)@ == old(self)@[*address]
                    && final(self)@ == old(self)@.insert(*address, (*final(acc))@),
                None => !old(self)@.contains_key(*address) && final(self)@ == old(self)@,
            },
    {
        proof {
            lemma_map_of_dom(views_of(self.accounts@), *address);
        }
        match self.position(address) {
            Some(i) => {
                proof {
                    lemma_map_of_index(views_of(self.accounts@), i as int);
                    lemma_views_update_any(self.accounts@, i as int);
                }
                Some(&mut self.accounts[i].1)
            },
            None => None,
        }
    }

    /// The account at `address`, created with zero balance, zero nonce and
    /// nothing stored if there was none, to be changed in place.
    pub fn get_or_create_account(&mut self, address: &H160) -> (r: &mut Account)
        requires
            old(self).wf(),
        ensures
            final(self).wf(),
            (*r)@ == account_or_default(old(self)@, *address),
            final(self)@ == old(self)@.insert(*address, (*final(r))@),
    {
        proof {
            lemma_map_of_dom(views_of(self.accounts@), *address);
        }
        let i = match self.position(address) {
            Some(i) => {
                proof {
                    lemma_map_of_index(views_of(self.accounts@), i as int);
                }
                i
            },
            None => {
                let fresh = Account::default();
                proof {
                    lemma_map_of_push(views_of(self.accounts@), *address, fresh@);
                    assert(views_of(self.accounts@.push((*address, fresh))) =~= views_of(
                        self.accounts@,
                    ).push((*address, fresh@)));
                }
                self.accounts.push((*address, fresh));
                proof {
                    lemma_map_of_index(views_of(self.accounts@), self.accounts@.len() - 1);
                }
                self.accounts.len() - 1
            },
        };
        proof {
            lemma_views_update_any(self.accounts@, i as int);
        }
        &mut self.accounts[i].1
    }

    /// Sets the balance at `address`, creating the account if there was none.
    pub fn set_balance(&mut self, address: &H160, balance: U256)
        requires
            old(self).wf(),
        ensures
            final(self).wf(),
            final(self)@ == with_balance(old(self)@, *address, balance),
    {
        let acc = self.get_or_create_account(address);
        acc.balance = balance;
    }

    /// Adds one to the nonce at `address`, wrapping to zero past the largest
    /// value, and creating the account if there was none.
    pub fn increment_nonce(&mut self, address: &H160)
        requires
            old(self).wf(),
        ensures
            final(self).wf(),
            final(self)@ == with_nonce_incremented(old(self)@, *address),
    {
        let acc = self.get_or_create_account(address);
        acc.nonce = acc.nonce.wrapping_add(1);
    }
}

impl Default for State {
    fn default() -> (r: State)
        ensures
            r.wf(),
            r@ == Map::<H160, AccountView>::empty(),
    {
        State::new()
    }
}

/// A new state holds no account at any address.
pub proof fn lemma_new_state_has_no_account(a: H160)
    ensures
        !Map::<H160, AccountView>::empty().contains_key(a),
{
}

/// Setting a balance on a new state creates an account there with that
/// balance, a zero nonce and nothing stored.
pub proof fn lemma_set_balance_on_new_state(a: H160, b: U256)
    ensures
        with_balance(Map::empty(), a, b).contains_key(a),
        with_balance(Map::empty(), a, b)[a] == (b, 0u64, Map::<U256, U256>::empty()),
{
}

/// Incrementing the nonce at an address of a new state `k` times, for `k`
/// from one up to the largest nonce, leaves there an account with nonce `k`,
/// a zero balance and nothing stored.
pub proof fn lemma_nonce_after_increments(a: H160, k: nat)
    requires
        1 <= k <= u64::MAX,
    ensures
        nonce_incremented_times(Map::empty(), a, k).contains_key(a),
        nonce_incremented_times(Map::empty(), a, k)[a] == (
            U256 { hi: 0, lo: 0 },
            k as u64,
            Map::<U256, U256>::empty(),
        ),
    decreases k,
{
    let before = nonce_incremented_times(Map::empty(), a, (k - 1) as nat);
    if k > 1 {
        lemma_nonce_after_increments(a, (k - 1) as nat);
        assert(account_or_default(before, a).1 == (k - 1) as u64);
    } else {
        assert(before == Map::<H160, AccountView>::empty());
    }
    assert(nonce_incremented_times(Map::empty(), a, k) == with_nonce_incremented(before, a));
}

} // verus!
