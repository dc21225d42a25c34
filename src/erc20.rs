//! The token: balances, allowances, and the operations over both.
//!
//! Each operation is one all-or-nothing step over the pair of ledger and
//! allowance table: on success every change applies, on failure the token is
//! left exactly as it was.
use vstd::prelude::*;

use crate::account::AccountId;
use crate::allowance::AllowanceTable;
use crate::entries::{keys_unique, lookup, sum_amounts};
use crate::ledger::Ledger;

verus! {

/// Why an operation was refused.
#[derive(Clone, Copy, Debug, PartialEq, Eq, Structural)]
pub enum Error {
    /// The account to be debited holds less than the amount.
    InsufficientBalance,
    /// The spender's remaining allowance is less than the amount.
    InsufficientAllowance,
}

/// Units moved between accounts; `from` is empty only for the initial mint.
#[derive(Clone, Copy, Debug, PartialEq, Eq)]
pub struct Transfer {
    pub from: Option<AccountId>,
    pub to: Option<AccountId>,
    pub value: u128,
}

/// An allowance set by `owner` for `spender`.
#[derive(Clone, Copy, Debug, PartialEq, Eq)]
pub struct Approval {
    pub owner: AccountId,
    pub spender: AccountId,
    pub max_spending: u128,
}

/// A token with a fixed supply, balances and allowances.
pub struct Erc20 {
    ledger: Ledger,
    allowances: AllowanceTable,
}

impl Erc20 {
    /// What `a` holds.
    pub closed spec fn balance(&self, a: AccountId) -> nat {
        self.ledger.balance(a)
    }

    /// What `spender` may still move out of the balance of `owner`.
    pub closed spec fn allowance(&self, owner: AccountId, spender: AccountId) -> nat {
        self.allowances.allowance(owner, spender)
    }

    /// The supply fixed at creation.
    pub closed spec fn supply(&self) -> nat {
        self.ledger.supply()
    }

    /// The sum of the balances of all accounts.
    pub closed spec fn held(&self) -> nat {
        self.ledger.held()
    }

    /// The invariant that every operation keeps.
    pub closed spec fn wf(&self) -> bool {
        self.ledger.wf() && self.allowances.wf()
    }

    /// Every balance is as before, but `value` has left `from` and reached `to`.
    pub open spec fn moved(
        pre: Erc20,
        post: Erc20,
        from: AccountId,
        to: AccountId,
        value: u128,
    ) -> bool {
        forall|a: AccountId|
            post.balance(a) == pre.balance(a) - (if a == from {
                value as int
            } else {
                0
            }) + (if a == to {
                value as int
            } else {
                0
            })
    }

    /// Every balance is as before.
    pub open spec fn balances_kept(pre: Erc20, post: Erc20) -> bool {
        forall|a: AccountId| post.balance(a) == pre.balance(a)
    }

    /// Every allowance is as before, but that of `spender` over `owner` is `value`.
    pub open spec fn allowance_set(
        pre: Erc20,
        post: Erc20,
        owner: AccountId,
        spender: AccountId,
        value: int,
    ) -> bool {
        forall|o: AccountId, s: AccountId|
            post.allowance(o, s) == if o == owner && s == spender {
                value
            } else {
                pre.allowance(o, s) as int
            }
    }

    /// Every allowance is as before.
    pub open spec fn allowances_kept(pre: Erc20, post: Erc20) -> bool {
        forall|o: AccountId, s: AccountId| post.allowance(o, s) == pre.allowance(o, s)
    }

    /// A token whose whole supply belongs to `creator`, with no allowances.
    pub fn new(creator: AccountId, total_supply: u128) -> (r: Self)
        ensures
            r.wf(),
            r.supply() == total_supply,
            forall|a: AccountId|
                r.balance(a) == if a == creator {
                    total_supply as nat
                } else {
                    0
                },
            forall|o: AccountId, s: AccountId| r.allowance(o, s) == 0,
    {
        Erc20 { ledger: Ledger::new(creator, total_supply), allowances: AllowanceTable::new() }
    }

    /// A token rebuilt from stored state: the supply, each account's balance
    /// and each `(owner, spender)` pair's allowance. `None` where an account or
    /// a pair has two entries, or the balances do not add up to `total_supply`.
    pub fn from_parts(
        total_supply: u128,
        balances: Vec<(AccountId, u128)>,
        allowances: Vec<((AccountId, AccountId), u128)>,
    ) -> (r: Option<Self>)
        ensures
            r is Some <==> keys_unique(balances@) && sum_amounts(balances@) == total_supply
                && keys_unique(allowances@),
            r is Some ==> r->0.wf() && r->0.supply() == total_supply && (forall|a: AccountId|
                r->0.balance(a) == lookup(balances@, a)) && (forall|o: AccountId, s: AccountId|
                r->0.allowance(o, s) == lookup(allowances@, (o, s))),
    {
        let ledger = match Ledger::from_entries(total_supply, balances) {
            Some(l) => l,
            None => return None,
        };
        let allowances = match AllowanceTable::from_entries(allowances) {
            Some(t) => t,
            None => return None,
        };
        Some(Erc20 { ledger, allowances })
    }

    /// The state to store: each account with a balance entry, and its balance.
    pub fn balances(&self) -> (r: Vec<(AccountId, u128)>)
        requires
            self.wf(),
        ensures
            keys_unique(r@),
            sum_amounts(r@) == self.supply(),
            forall|a: AccountId| lookup(r@, a) == self.balance(a),
    {
        self.ledger.entries()
    }

    /// The state to store: each `(owner, spender)` pair with an allowance
    /// entry, and its allowance.
    pub fn allowances(&self) -> (r: Vec<((AccountId, AccountId), u128)>)
        requires
            self.wf(),
        ensures
            keys_unique(r@),
            forall|o: AccountId, s: AccountId| lookup(r@, (o, s)) == self.allowance(o, s),
    {
        self.allowances.entries()
    }

    /// The supply fixed at creation.
    pub fn get_total_supply(&self) -> (r: u128)
        ensures
            r == self.supply(),
    {
        self.ledger.total_supply()
    }

    /// The balance of `owner`, zero where it never held anything.
    pub fn balance_of(&self, owner: AccountId) -> (r: u128)
        requires
            self.wf(),
        ensures
            r == self.balance(owner),
    {
        self.ledger.balance_of(&owner)
    }

    /// What `spender` may still move out of the balance of `owner`.
    pub fn allowance_of(&self, owner: AccountId, spender: AccountId) -> (r: u128)
        requires
            self.wf(),
        ensures
            r == self.allowance(owner, spender),
    {
        self.allowances.allowance_of(&owner, &spender)
    }

    /// Lets `spender` move up to `max_spending` out of the balance of `caller`,
    /// replacing any earlier allowance. Always succeeds, whatever `caller` holds.
    pub fn approve(&mut self, caller: AccountId, spender: AccountId, max_spending: u128) -> (r:
        Result<Approval, Error>)
        requires
            old(self).wf(),
        ensures
            final(self).wf(),
            final(self).supply() == old(self).supply(),
            r == Ok::<Approval, Error>(Approval { owner: caller, spender, max_spending }),
            Self::balances_kept(*old(self), *final(self)),
            Self::allowance_set(*old(self), *final(self), caller, spender, max_spending as int),
    {
        self.allowances.set_allowance(&caller, &spender, max_spending);
        Ok(Approval { owner: caller, spender, max_spending })
    }

    /// Moves `value` from `caller` to `to`. Refused with `InsufficientBalance`,
    /// changing nothing, where `caller` holds less than `value`.
    pub fn transfer(&mut self, caller: AccountId, to: AccountId, value: u128) -> (r: Result<
        Transfer,
        Error,
    >)
        requires
            old(self).wf(),
        ensures
            final(self).wf(),
            final(self).supply() == old(self).supply(),
            r is Ok <==> old(self).balance(caller) >= value,
            r is Ok ==> r == Ok::<Transfer, Error>(
                Transfer { from: Some(caller), to: Some(to), value },
            ) && Self::moved(*old(self), *final(self), caller, to, value)
                && Self::allowances_kept(*old(self), *final(self)),
            r is Err ==> r == Err::<Transfer, Error>(Error::InsufficientBalance) && *final(self)
                == *old(self),
    {
        match self.ledger.move_balance(&caller, &to, value) {
            Ok(()) => Ok(Transfer { from: Some(caller), to: Some(to), value }),
            Err(e) => Err(e),
        }
    }

    /// Moves `value` from `owner` to `to` on behalf of `caller`, spending as
    /// much of the allowance of `caller` over `owner`. Refused, changing
    /// nothing, with `InsufficientAllowance` where that allowance is below
    /// `value`, and otherwise with `InsufficientBalance` where `owner` holds
    /// less than `value`.
    pub fn transfer_with_allowance(
        &mut self,
        caller: AccountId,
        owner: AccountId,
        to: AccountId,
        value: u128,
    ) -> (r: Result<Transfer, Error>)
        requires
            old(self).wf(),
        ensures
            final(self).wf(),
            final(self).supply() == old(self).supply(),
            r is Ok <==> old(self).allowance(owner, caller) >= value && old(self).balance(owner)
                >= value,
            old(self).allowance(owner, caller) < value ==> r == Err::<Transfer, Error>(
                Error::InsufficientAllowance,
            ),
            old(self).allowance(owner, caller) >= value && old(self).balance(owner) < value ==> r
                == Err::<Transfer, Error>(Error::InsufficientBalance),
            r is Ok ==> r == Ok::<Transfer, Error>(
                Transfer { from: Some(owner), to: Some(to), value },
            ) && Self::moved(*old(self), *final(self), owner, to, value) && Self::allowance_set(
                *old(self),
                *final(self),
                owner,
                caller,
                old(self).allowance(owner, caller) - value,
            ),
            r is Err ==> *final(self) == *old(self),
    {
        let granted = self.allowances.allowance_of(&owner, &caller);
        if granted < value {
            return Err(Error::InsufficientAllowance);
        }
        let available = self.ledger.balance_of(&owner);
        if available < value {
            return Err(Error::InsufficientBalance);
        }
        let consumed = self.allowances.consume(&owner, &caller, value);
        assert(consumed is Ok);
        let moved = self.ledger.move_balance(&owner, &to, value);
        assert(moved is Ok);
        Ok(Transfer { from: Some(owner), to: Some(to), value })
    }

    /// The balances of all accounts add up to the supply, in every state that
    /// the operations can reach.
    pub proof fn lemma_supply_conserved(&self)
        requires
            self.wf(),
        ensures
            self.held() == self.supply(),
    {
        self.ledger.lemma_conserved();
    }

    /// No balance is negative, and none exceeds the supply.
    pub proof fn lemma_balance_in_range(&self, a: AccountId)
        requires
            self.wf(),
        ensures
            0 <= self.balance(a) <= self.supply(),
    {
        self.ledger.lemma_bounded(a, a);
    }

    /// After `approve(owner, spender, value)` the allowance of `spender` over
    /// `owner` reads exactly `value`, whatever it was before: an approval
    /// replaces, it does not add.
    pub proof fn lemma_approve_then_allowance(
        pre: Erc20,
        post: Erc20,
        owner: AccountId,
        spender: AccountId,
        value: u128,
    )
        requires
            Self::allowance_set(pre, post, owner, spender, value as int),
        ensures
            post.allowance(owner, spender) == value,
    {
    }
}

} // verus!
