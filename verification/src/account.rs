//! Per-client account state and the `Ledger` that owns every account.

use vstd::prelude::*;

use crate::money::{in_money_range, Money};

verus! {

broadcast use vstd::std_specs::hash::group_hash_axioms;

/// One client's balances. `available` is spendable, `held` is frozen pending
/// dispute resolution, and a `locked` account rejects every further record.
#[derive(Clone, Copy, PartialEq, Eq, Structural, Debug)]
pub struct Account {
    pub locked: bool,
    pub available: Money,
    pub held: Money,
}

/// Mathematical image of an `Account`: balances as unbounded integers.
pub ghost struct AccountView {
    pub locked: bool,
    pub available: int,
    pub held: int,
}

impl View for Account {
    type V = AccountView;

    open spec fn view(&self) -> AccountView {
        AccountView { locked: self.locked, available: self.available@, held: self.held@ }
    }
}

/// The state a freshly referenced client starts in: empty and unlocked.
pub open spec fn new_account() -> AccountView {
    AccountView { locked: false, available: 0, held: 0 }
}

impl Default for Account {
    /// A fresh account: no funds, not locked.
    fn default() -> (a: Account)
        ensures
            a@ == new_account(),
    {
        Account { locked: false, available: Money::zero(), held: Money::zero() }
    }
}

impl Account {
    /// Total funds of the account, available and held together.
    pub fn total(&self) -> (t: Money)
        requires
            in_money_range(self@.available + self@.held),
        ensures
            t@ == self@.available + self@.held,
    {
        self.available.add(self.held)
    }

    /// Whether `total` can be computed without leaving the representable range.
    pub fn total_in_range(&self) -> (b: bool)
        ensures
            b == in_money_range(self@.available + self@.held),
    {
        let wide: i128 = (self.available.units as i128) + (self.held.units as i128);
        (i64::MIN as i128) <= wide && wide <= (i64::MAX as i128)
    }
}

/// Owns all per-client accounts; the unit of mutation and the source of the
/// final snapshot. Its view is a map from client id to account state.
pub struct Ledger {
    accounts: vstd::hash_map::HashMapWithView<u16, Account>,
}

impl View for Ledger {
    type V = Map<u16, AccountView>;

    closed spec fn view(&self) -> Map<u16, AccountView> {
        self.accounts@.map_values(|a: Account| a@)
    }
}

impl Ledger {
    /// An empty ledger: no client has been referenced yet.
    pub fn new() -> (l: Ledger)
        ensures
            l@ == Map::<u16, AccountView>::empty(),
    {
        let l = Ledger { accounts: vstd::hash_map::HashMapWithView::new() };
        proof {
            assert(l@ =~= Map::<u16, AccountView>::empty());
        }
        l
    }

    /// Looks the client's account up, creating it in the default state on
    /// first reference, and returns a copy of it.
    pub fn get_or_create(&mut self, client: u16) -> (a: Account)
        ensures
            a@ == if old(self)@.contains_key(client) {
                old(self)@[client]
            } else {
                new_account()
            },
            final(self)@ == old(self)@.insert(client, a@),
    {
        match self.accounts.get(&client) {
            Some(a) => {
                let a = *a;
                proof {
                    assert(self@ =~= old(self)@.insert(client, a@));
                }
                a
            },
            None => {
                let a = Account::default();
                self.accounts.insert(client, a);
                proof {
                    assert(self@ =~= old(self)@.insert(client, a@));
                }
                a
            },
        }
    }

    /// Stores the given state as the client's account.
    pub fn put(&mut self, client: u16, account: Account)
        ensures
            final(self)@ == old(self)@.insert(client, account@),
    {
        self.accounts.insert(client, account);
        proof {
            assert(self@ =~= old(self)@.insert(client, account@));
        }
    }

    /// Reads the client's account, if that client has ever been referenced.
    pub fn get(&self, client: u16) -> (r: Option<&Account>)
        ensures
            match r {
                Some(a) => self@.contains_key(client) && a@ == self@[client],
                None => !self@.contains_key(client),
            },
    {
        self.accounts.get(&client)
    }

    /// A dump of every account, sorted by client id for determinism: each
    /// pair is one client of the ledger with its exact state, and every
    /// client of the ledger appears.
    pub fn snapshot(&self) -> (out: Vec<(u16, Account)>)
        ensures
            forall|p: int, q: int|
                0 <= p < q < out@.len() ==> out@[p].0 < out@[q].0,
            forall|p: int|
                0 <= p < out@.len() ==> self@.contains_key(#[trigger] out@[p].0) && out@[p].1@
                    == self@[out@[p].0],
            forall|c: u16|
                self@.contains_key(c) ==> exists|p: int|
                    0 <= p < out@.len() && #[trigger] out@[p].0 == c,
    {
        let mut out: Vec<(u16, Account)> = Vec::new();
        let mut i: u32 = 0;
        while i < 65536
            invariant
                i <= 65536,
                forall|p: int, q: int|
                    0 <= p < q < out@.len() ==> out@[p].0 < out@[q].0,
                forall|p: int|
                    0 <= p < out@.len() ==> (#[trigger] out@[p].0 as u32) < i
                        && self@.contains_key(out@[p].0) && out@[p].1@ == self@[out@[p].0],
                forall|c: u16|
                    (c as u32) < i && self@.contains_key(c) ==> exists|p: int|
                        0 <= p < out@.len() && #[trigger] out@[p].0 == c,
            decreases 65536 - i,
        {
            let c = i as u16;
            let ghost out0 = out@;
            match self.get(c) {
                Some(a) => {
                    out.push((c, *a));
                },
                None => {},
            }
            proof {
                assert forall|c2: u16| (c2 as u32) < i + 1 && self@.contains_key(c2) implies exists|
                    p: int,
                |
                    0 <= p < out@.len() && #[trigger] out@[p].0 == c2 by {
                    if c2 == c {
                        assert(out@[out@.len() - 1].0 == c2);
                    } else {
                        let w = choose|p: int| 0 <= p < out0.len() && #[trigger] out0[p].0 == c2;
                        assert(out@[w].0 == c2);
                    }
                }
            }
            i = i + 1;
        }
        out
    }

    /// Number of accounts the ledger holds.
    pub fn len(&self) -> (n: usize)
        ensures
            n == self@.len(),
    {
        proof {
            assert(self.accounts@.dom() =~= self@.dom());
        }
        self.accounts.len()
    }
}

} // verus!
