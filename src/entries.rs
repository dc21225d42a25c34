//! Association lists of `(key, amount)` entries with default-zero lookup.
//!
//! A list read through [`lookup`] behaves as a total map from keys to amounts
//! in which every key that has no entry holds zero.
use vstd::prelude::*;

verus! {

/// No key has two entries.
pub open spec fn keys_unique<K>(s: Seq<(K, u128)>) -> bool {
    forall|i: int, j: int| 0 <= i < s.len() && 0 <= j < s.len() && i != j ==> s[i].0 != s[j].0
}

/// The amount held under `k`, zero where `k` has no entry.
pub open spec fn lookup<K>(s: Seq<(K, u128)>, k: K) -> nat
    decreases s.len(),
{
    if s.len() == 0 {
        0
    } else if s.last().0 == k {
        s.last().1 as nat
    } else {
        lookup(s.drop_last(), k)
    }
}

/// The sum of all amounts in the list.
pub open spec fn sum_amounts<K>(s: Seq<(K, u128)>) -> nat
    decreases s.len(),
{
    if s.len() == 0 {
        0
    } else {
        sum_amounts(s.drop_last()) + s.last().1 as nat
    }
}

pub proof fn lemma_unique_drop_last<K>(s: Seq<(K, u128)>)
    requires
        keys_unique(s),
        s.len() > 0,
    ensures
        keys_unique(s.drop_last()),
        forall|i: int| 0 <= i < s.len() - 1 ==> s[i].0 != s.last().0,
{
    assert forall|i: int| 0 <= i < s.len() - 1 implies s[i].0 != s.last().0 by {
        assert(s[i].0 != s[s.len() - 1].0);
    }
}

/// An entry's amount is what lookup reads for its key.
pub proof fn lemma_lookup_at<K>(s: Seq<(K, u128)>, i: int)
    requires
        keys_unique(s),
        0 <= i < s.len(),
    ensures
        lookup(s, s[i].0) == s[i].1 as nat,
    decreases s.len(),
{
    if i != s.len() - 1 {
        lemma_unique_drop_last(s);
        lemma_lookup_at(s.drop_last(), i);
    }
}

/// A key without an entry reads as zero.
pub proof fn lemma_lookup_absent<K>(s: Seq<(K, u128)>, k: K)
    requires
        forall|i: int| 0 <= i < s.len() ==> s[i].0 != k,
    ensures
        lookup(s, k) == 0,
    decreases s.len(),
{
    if s.len() > 0 {
        assert(s[s.len() - 1].0 != k);
        lemma_lookup_absent(s.drop_last(), k);
    }
}

/// Appending an entry for a new key sets that key and keeps the others.
pub proof fn lemma_push<K>(s: Seq<(K, u128)>, k: K, x: u128)
    requires
        keys_unique(s),
        forall|i: int| 0 <= i < s.len() ==> s[i].0 != k,
    ensures
        keys_unique(s.push((k, x))),
        forall|j: K| lookup(s.push((k, x)), j) == if j == k { x as nat } else { lookup(s, j) },
        sum_amounts(s.push((k, x))) == sum_amounts(s) + x as nat,
{
    assert(s.push((k, x)).drop_last() =~= s);
}

/// Overwriting an entry's amount sets its key and keeps the others.
pub proof fn lemma_update<K>(s: Seq<(K, u128)>, i: int, x: u128)
    requires
        keys_unique(s),
        0 <= i < s.len(),
    ensures
        keys_unique(s.update(i, (s[i].0, x))),
        forall|j: K|
            lookup(s.update(i, (s[i].0, x)), j) == if j == s[i].0 {
                x as nat
            } else {
                lookup(s, j)
            },
        sum_amounts(s.update(i, (s[i].0, x))) == sum_amounts(s) - s[i].1 as nat + x as nat,
    decreases s.len(),
{
    let t = s.update(i, (s[i].0, x));
    assert forall|a: int, b: int| 0 <= a < t.len() && 0 <= b < t.len() && a != b implies t[a].0
        != t[b].0 by {
        assert(s[a].0 != s[b].0);
    }
    lemma_unique_drop_last(s);
    if i == s.len() - 1 {
        assert(t.drop_last() =~= s.drop_last());
    } else {
        assert(s.drop_last()[i] == s[i]);
        assert(t.drop_last() =~= s.drop_last().update(i, (s[i].0, x)));
        lemma_update(s.drop_last(), i, x);
        assert(t.last() == s.last());
        assert(s[i].0 != s.last().0);
        assert forall|j: K|
            lookup(t, j) == if j == s[i].0 {
                x as nat
            } else {
                lookup(s, j)
            } by {
            if j != s.last().0 {
                assert(lookup(t, j) == lookup(t.drop_last(), j));
                assert(lookup(s, j) == lookup(s.drop_last(), j));
            }
        }
    }
}

/// One amount never exceeds the sum.
pub proof fn lemma_lookup_le_sum<K>(s: Seq<(K, u128)>, a: K)
    ensures
        lookup(s, a) <= sum_amounts(s),
    decreases s.len(),
{
    if s.len() > 0 {
        lemma_lookup_le_sum(s.drop_last(), a);
    }
}

/// The amounts of two distinct keys together never exceed the sum.
pub proof fn lemma_two_le_sum<K>(s: Seq<(K, u128)>, a: K, b: K)
    requires
        keys_unique(s),
        a != b,
    ensures
        lookup(s, a) + lookup(s, b) <= sum_amounts(s),
    decreases s.len(),
{
    if s.len() > 0 {
        lemma_unique_drop_last(s);
        lemma_lookup_le_sum(s.drop_last(), a);
        lemma_lookup_le_sum(s.drop_last(), b);
        lemma_two_le_sum(s.drop_last(), a, b);
    }
}

/// Extending a prefix by one entry adds that entry's amount.
pub proof fn lemma_sum_take_next<K>(s: Seq<(K, u128)>, i: int)
    requires
        0 <= i < s.len(),
    ensures
        sum_amounts(s.take(i + 1)) == sum_amounts(s.take(i)) + s[i].1 as nat,
{
    assert(s.take(i + 1).drop_last() =~= s.take(i));
}

/// No prefix sums to more than the whole list.
pub proof fn lemma_sum_take_le<K>(s: Seq<(K, u128)>, i: int)
    requires
        0 <= i <= s.len(),
    ensures
        sum_amounts(s.take(i)) <= sum_amounts(s),
    decreases s.len(),
{
    if i == s.len() {
        assert(s.take(i) =~= s);
    } else {
        assert(s.take(i) =~= s.drop_last().take(i));
        lemma_sum_take_le(s.drop_last(), i);
    }
}

} // verus!
