//! What each spender may still move out of each owner's balance.
use vstd::prelude::*;

use crate::account::{account_eq, AccountId};
use crate::entries::{
    keys_unique, lemma_lookup_absent, lemma_lookup_at, lemma_push, lemma_update, lookup,
};
use crate::erc20::Error;

verus! {

/// Allowances keyed by `(owner, spender)`; a pair without an entry has zero.
pub struct AllowanceTable {
    entries: Vec<((AccountId, AccountId), u128)>,
}

impl AllowanceTable {
    /// What `spender` may still move out of the balance of `owner`.
    pub closed spec fn allowance(&self, owner: AccountId, spender: AccountId) -> nat {
        lookup(self.entries@, (owner, spender))
    }

    /// Each pair has at most one entry.
    pub closed spec fn wf(&self) -> bool {
        keys_unique(self.entries@)
    }

    /// A table rebuilt from stored entries, each an `(owner, spender)` pair
    /// and its allowance. `None` where a pair has two entries.
    pub fn from_entries(entries: Vec<((AccountId, AccountId), u128)>) -> (r: Option<Self>)
        ensures
            r is Some <==> keys_unique(entries@),
            r is Some ==> r->0.wf() && forall|o: AccountId, s: AccountId|
                r->0.allowance(o, s) == lookup(entries@, (o, s)),
    {
        if !pairs_distinct(&entries) {
            return None;
        }
        Some(AllowanceTable { entries })
    }

    /// The stored entries, each an `(owner, spender)` pair and its allowance,
    /// every pair at most once.
    pub fn entries(&self) -> (r: Vec<((AccountId, AccountId), u128)>)
        requires
            self.wf(),
        ensures
            keys_unique(r@),
            forall|o: AccountId, s: AccountId| lookup(r@, (o, s)) == self.allowance(o, s),
    {
        let mut r: Vec<((AccountId, AccountId), u128)> = Vec::new();
        let mut i: usize = 0;
        while i < self.entries.len()
            invariant
                i <= self.entries@.len(),
                r@ == self.entries@.take(i as int),
            decreases self.entries@.len() - i,
        {
            r.push(self.entries[i]);
            i = i + 1;
            assert(r@ =~= self.entries@.take(i as int));
        }
        assert(r@ =~= self.entries@);
        r
    }

    /// A table in which every allowance is zero.
    pub fn new() -> (r: Self)
        ensures
            r.wf(),
            forall|o: AccountId, s: AccountId| r.allowance(o, s) == 0,
    {
        AllowanceTable { entries: Vec::new() }
    }

    /// The index of the entry of `(owner, spender)`, if it has one.
    fn find(&self, owner: &AccountId, spender: &AccountId) -> (r: Option<usize>)
        ensures
            match r {
                Some(i) => i < self.entries@.len() && self.entries@[i as int].0 == (
                    *owner,
                    *spender,
                ),
                None => forall|i: int|
                    0 <= i < self.entries@.len() ==> self.entries@[i].0 != (*owner, *spender),
            },
    {
        let mut i: usize = 0;
        while i < self.entries.len()
            invariant
                i <= self.entries@.len(),
                forall|j: int| 0 <= j < i ==> self.entries@[j].0 != (*owner, *spender),
            decreases self.entries@.len() - i,
        {
            let key = &self.entries[i].0;
            if account_eq(&key.0, owner) && account_eq(&key.1, spender) {
                return Some(i);
            }
            i = i + 1;
        }
        None
    }

    /// What `spender` may still move out of the balance of `owner`, zero where
    /// nothing was granted.
    pub fn allowance_of(&self, owner: &AccountId, spender: &AccountId) -> (r: u128)
        requires
            self.wf(),
        ensures
            r == self.allowance(*owner, *spender),
    {
        match self.find(owner, spender) {
            Some(i) => {
                proof {
                    lemma_lookup_at(self.entries@, i as int);
                }
                self.entries[i].1
            },
            None => {
                proof {
                    lemma_lookup_absent(self.entries@, (*owner, *spender));
                }
                0
            },
        }
    }

    /// Replaces the allowance of `spender` over `owner` by `value`.
    pub fn set_allowance(&mut self, owner: &AccountId, spender: &AccountId, value: u128)
        requires
            old(self).wf(),
        ensures
            final(self).wf(),
            forall|o: AccountId, s: AccountId|
                final(self).allowance(o, s) == if o == *owner && s == *spender {
                    value as nat
                } else {
                    old(self).allowance(o, s)
                },
    {
        match self.find(owner, spender) {
            Some(i) => {
                proof {
                    lemma_update(self.entries@, i as int, value);
                }
                self.entries.set(i, ((*owner, *spender), value));
            },
            None => {
                proof {
                    lemma_push(self.entries@, (*owner, *spender), value);
                }
                self.entries.push(((*owner, *spender), value));
            },
        }
    }

    /// Lowers the allowance of `spender` over `owner` by `value`, or refuses
    /// and changes nothing where the allowance is smaller.
    pub fn consume(&mut self, owner: &AccountId, spender: &AccountId, value: u128) -> (r: Result<
        (),
        Error,
    >)
        requires
            old(self).wf(),
        ensures
            final(self).wf(),
            r is Ok <==> old(self).allowance(*owner, *spender) >= value,
            r is Ok ==> forall|o: AccountId, s: AccountId|
                final(self).allowance(o, s) == if o == *owner && s == *spender {
                    old(self).allowance(o, s) - value
                } else {
                    old(self).allowance(o, s) as int
                },
            r is Err ==> r == Err::<(), Error>(Error::InsufficientAllowance) && *final(self)
                == *old(self),
    {
        let current = self.allowance_of(owner, spender);
        if current < value {
            return Err(Error::InsufficientAllowance);
        }
        self.set_allowance(owner, spender, current - value);
        Ok(())
    }
}

/// Whether no `(owner, spender)` pair has two entries.
fn pairs_distinct(entries: &Vec<((AccountId, AccountId), u128)>) -> (r: bool)
    ensures
        r == keys_unique(entries@),
{
    let mut i: usize = 0;
    while i < entries.len()
        invariant
            i <= entries@.len(),
            forall|p: int, q: int|
                0 <= p < i && 0 <= q < i && p != q ==> entries@[p].0 != entries@[q].0,
        decreases entries@.len() - i,
    {
        let mut j: usize = 0;
        while j < i
            invariant
                i < entries@.len(),
                j <= i,
                forall|p: int, q: int|
                    0 <= p < i && 0 <= q < i && p != q ==> entries@[p].0 != entries@[q].0,
                forall|q: int| 0 <= q < j ==> entries@[q].0 != entries@[i as int].0,
            decreases i - j,
        {
            let a = &entries[j].0;
            let b = &entries[i].0;
            if account_eq(&a.0, &b.0) && account_eq(&a.1, &b.1) {
                assert(entries@[j as int].0 == entries@[i as int].0);
                return false;
            }
            j = j + 1;
        }
        i = i + 1;
    }
    true
}

} // verus!
