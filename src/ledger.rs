//! Account balances under a fixed total supply.
use vstd::prelude::*;

use crate::account::{account_eq, AccountId};
use crate::entries::{
    keys_unique, lemma_lookup_absent, lemma_lookup_le_sum, lemma_sum_take_le, lemma_sum_take_next, lemma_lookup_at, lemma_push, lemma_two_le_sum,
    lemma_update, lookup, sum_amounts,
};
use crate::erc20::Error;

verus! {

/// Balances of all accounts; an account without an entry holds zero.
pub struct Ledger {
    total_supply: u128,
    entries: Vec<(AccountId, u128)>,
}

impl Ledger {
    /// What `a` holds.
    pub closed spec fn balance(&self, a: AccountId) -> nat {
        lookup(self.entries@, a)
    }

    /// The supply fixed at creation.
    pub closed spec fn supply(&self) -> nat {
        self.total_supply as nat
    }

    /// The sum of the balances of all accounts.
    pub closed spec fn held(&self) -> nat {
        sum_amounts(self.entries@)
    }

    /// Each account has at most one entry, and the balances add up to the supply.
    pub closed spec fn wf(&self) -> bool {
        keys_unique(self.entries@) && self.held() == self.supply()
    }

    /// In a well-formed ledger the balances add up to the supply.
    pub proof fn lemma_conserved(&self)
        requires
            self.wf(),
        ensures
            self.held() == self.supply(),
    {
    }

    /// In a well-formed ledger no balance exceeds the supply, and two distinct
    /// accounts together hold no more than the supply.
    pub proof fn lemma_bounded(&self, a: AccountId, b: AccountId)
        requires
            self.wf(),
        ensures
            self.balance(a) <= self.supply(),
            a != b ==> self.balance(a) + self.balance(b) <= self.supply(),
    {
        lemma_lookup_le_sum(self.entries@, a);
        if a != b {
            lemma_two_le_sum(self.entries@, a, b);
        }
    }

    /// A ledger rebuilt from stored entries, each an account and its balance.
    /// `None` where an account has two entries or the balances do not add up
    /// to `total_supply`.
    pub fn from_entries(total_supply: u128, entries: Vec<(AccountId, u128)>) -> (r: Option<Self>)
        ensures
            r is Some <==> keys_unique(entries@) && sum_amounts(entries@) == total_supply,
            r is Some ==> r->0.wf() && r->0.supply() == total_supply && forall|a: AccountId|
                r->0.balance(a) == lookup(entries@, a),
    {
        if !accounts_distinct(&entries) {
            return None;
        }
        let mut total: u128 = 0;
        let mut i: usize = 0;
        while i < entries.len()
            invariant
                i <= entries@.len(),
                total == sum_amounts(entries@.take(i as int)),
            decreases entries@.len() - i,
        {
            proof {
                lemma_sum_take_next(entries@, i as int);
            }
            if entries[i].1 > u128::MAX - total {
                proof {
                    lemma_sum_take_le(entries@, i + 1);
                }
                return None;
            }
            total = total + entries[i].1;
            i = i + 1;
        }
        assert(entries@.take(entries@.len() as int) =~= entries@);
        if total != total_supply {
            return None;
        }
        Some(Ledger { total_supply, entries })
    }

    /// The stored entries, each an account and its balance, every account at
    /// most once.
    pub fn entries(&self) -> (r: Vec<(AccountId, u128)>)
        requires
            self.wf(),
        ensures
            keys_unique(r@),
            sum_amounts(r@) == self.supply(),
            forall|a: AccountId| lookup(r@, a) == self.balance(a),
    {
        let mut r: Vec<(AccountId, u128)> = Vec::new();
        let mut i: usize = 0;
        while i < self.entries.len()
            invariant
                i <= self.entries@.len(),
                r@ == self.entries@.take(i as int),
            decreases self.entries@.len() - i,
        {
            r.push(self.entries[i]);
            i = i + 1;
            assert(r@ =~= self.entries@.take(i as int));
        }
        assert(r@ =~= self.entries@);
        r
    }

    /// A ledger in which `creator` holds the whole supply.
    pub fn new(creator: AccountId, total_supply: u128) -> (r: Self)
        ensures
            r.wf(),
            r.supply() == total_supply,
            forall|a: AccountId|
                r.balance(a) == if a == creator {
                    total_supply as nat
                } else {
                    0
                },
    {
        let mut entries: Vec<(AccountId, u128)> = Vec::new();
        entries.push((creator, total_supply));
        let r = Ledger { total_supply, entries };
        proof {
            lemma_push(Seq::<(AccountId, u128)>::empty(), creator, total_supply);
            assert(r.entries@ =~= Seq::<(AccountId, u128)>::empty().push((creator, total_supply)));
        }
        r
    }

    /// The index of the entry of `a`, if it has one.
    fn find(&self, a: &AccountId) -> (r: Option<usize>)
        ensures
            match r {
                Some(i) => i < self.entries@.len() && self.entries@[i as int].0 == *a,
                None => forall|i: int| 0 <= i < self.entries@.len() ==> self.entries@[i].0 != *a,
            },
    {
        let mut i: usize = 0;
        while i < self.entries.len()
            invariant
                i <= self.entries@.len(),
                forall|j: int| 0 <= j < i ==> self.entries@[j].0 != *a,
            decreases self.entries@.len() - i,
        {
            if account_eq(&self.entries[i].0, a) {
                return Some(i);
            }
            i = i + 1;
        }
        None
    }

    /// The balance of `a`, zero where it has none.
    pub fn balance_of(&self, a: &AccountId) -> (r: u128)
        requires
            self.wf(),
        ensures
            r == self.balance(*a),
    {
        self.balance_of_unchecked(a)
    }

    /// The supply fixed at creation.
    pub fn total_supply(&self) -> (r: u128)
        ensures
            r == self.supply(),
    {
        self.total_supply
    }

    /// Sets the balance of `a` to `x`, leaving every other account as it was.
    fn set(&mut self, a: &AccountId, x: u128)
        requires
            keys_unique(old(self).entries@),
        ensures
            keys_unique(final(self).entries@),
            final(self).total_supply == old(self).total_supply,
            forall|b: AccountId|
                final(self).balance(b) == if b == *a {
                    x as nat
                } else {
                    old(self).balance(b)
                },
            final(self).held() == old(self).held() - old(self).balance(*a) + x,
    {
        match self.find(a) {
            Some(i) => {
                proof {
                    lemma_lookup_at(self.entries@, i as int);
                    lemma_update(self.entries@, i as int, x);
                }
                self.entries.set(i, (*a, x));
            },
            None => {
                proof {
                    lemma_lookup_absent(self.entries@, *a);
                    lemma_push(self.entries@, *a, x);
                }
                self.entries.push((*a, x));
            },
        }
    }

    /// Takes `value` out of the balance of `a`.
    fn debit(&mut self, a: &AccountId, value: u128)
        requires
            keys_unique(old(self).entries@),
            old(self).balance(*a) >= value,
        ensures
            keys_unique(final(self).entries@),
            final(self).total_supply == old(self).total_supply,
            forall|b: AccountId|
                final(self).balance(b) == if b == *a {
                    old(self).balance(b) - value
                } else {
                    old(self).balance(b) as int
                },
            final(self).held() == old(self).held() - value,
    {
        let current = self.balance_of_unchecked(a);
        self.set(a, current - value);
    }

    /// Adds `value` to the balance of `a`; the sum must fit in a balance.
    fn credit(&mut self, a: &AccountId, value: u128)
        requires
            keys_unique(old(self).entries@),
            old(self).balance(*a) + value <= u128::MAX,
        ensures
            keys_unique(final(self).entries@),
            final(self).total_supply == old(self).total_supply,
            forall|b: AccountId|
                final(self).balance(b) == if b == *a {
                    old(self).balance(b) + value
                } else {
                    old(self).balance(b) as int
                },
            final(self).held() == old(self).held() + value,
    {
        let current = self.balance_of_unchecked(a);
        self.set(a, current + value);
    }

    /// The balance of `a`, for a ledger whose supply may be out of step.
    fn balance_of_unchecked(&self, a: &AccountId) -> (r: u128)
        requires
            keys_unique(self.entries@),
        ensures
            r == self.balance(*a),
    {
        match self.find(a) {
            Some(i) => {
                proof {
                    lemma_lookup_at(self.entries@, i as int);
                }
                self.entries[i].1
            },
            None => {
                proof {
                    lemma_lookup_absent(self.entries@, *a);
                }
                0
            },
        }
    }

    /// Moves `value` from `from` to `to` as one step: either both the debit and
    /// the credit happen, or the ledger is left exactly as it was.
    pub fn move_balance(&mut self, from: &AccountId, to: &AccountId, value: u128) -> (r: Result<
        (),
        Error,
    >)
        requires
            old(self).wf(),
        ensures
            final(self).wf(),
            final(self).supply() == old(self).supply(),
            r is Ok <==> old(self).balance(*from) >= value,
            r is Ok ==> forall|b: AccountId|
                final(self).balance(b) == old(self).balance(b) - (if b == *from {
                    value as int
                } else {
                    0
                }) + (if b == *to {
                    value as int
                } else {
                    0
                }),
            r is Err ==> r == Err::<(), Error>(Error::InsufficientBalance) && *final(self) == *old(
                self,
            ),
    {
        let available = self.balance_of(from);
        if available < value {
            return Err(Error::InsufficientBalance);
        }
        proof {
            self.lemma_bounded(*from, *to);
        }
        self.debit(from, value);
        self.credit(to, value);
        Ok(())
    }
}

/// Whether no account has two entries.
fn accounts_distinct(entries: &Vec<(AccountId, u128)>) -> (r: bool)
    ensures
        r == keys_unique(entries@),
{
    let mut i: usize = 0;
    while i < entries.len()
        invariant
            i <= entries@.len(),
            forall|p: int, q: int|
                0 <= p < i && 0 <= q < i && p != q ==> entries@[p].0 != entries@[q].0,
        decreases entries@.len() - i,
    {
        let mut j: usize = 0;
        while j < i
            invariant
                i < entries@.len(),
                j <= i,
                forall|p: int, q: int|
                    0 <= p < i && 0 <= q < i && p != q ==> entries@[p].0 != entries@[q].0,
                forall|q: int| 0 <= q < j ==> entries@[q].0 != entries@[i as int].0,
            decreases i - j,
        {
            if account_eq(&entries[j].0, &entries[i].0) {
                assert(entries@[j as int].0 == entries@[i as int].0);
                return false;
            }
            j = j + 1;
        }
        i = i + 1;
    }
    true
}

} // verus!
