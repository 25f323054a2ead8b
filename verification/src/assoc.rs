//! Association lists with unique keys: the mathematical model behind the
//! ledger's balance, allowance and transaction tables, together with the
//! lemmas the executable table operations are proved against.

use vstd::prelude::*;

verus! {

/// Value bound to the first occurrence of key `k` in `s`, if any.
pub open spec fn assoc_find<K, V>(s: Seq<(K, V)>, k: K) -> Option<V>
    decreases s.len(),
{
    if s.len() == 0 {
        None
    } else if s[0].0 == k {
        Some(s[0].1)
    } else {
        assoc_find(s.drop_first(), k)
    }
}

/// No key occurs twice in `s`.
pub open spec fn distinct_keys<K, V>(s: Seq<(K, V)>) -> bool {
    forall|i: int, j: int| 0 <= i < j < s.len() ==> s[i].0 != s[j].0
}

/// Total of all values of a table, as an unbounded integer.
pub open spec fn amounts_sum<K>(s: Seq<(K, u128)>) -> int
    decreases s.len(),
{
    if s.len() == 0 {
        0
    } else {
        s[0].1 + amounts_sum(s.drop_first())
    }
}

/// Skipping past an entry whose key is not `k` does not change the lookup.
pub proof fn lemma_find_skip_step<K, V>(s: Seq<(K, V)>, k: K, i: int)
    requires
        0 <= i < s.len(),
        s[i].0 != k,
    ensures
        assoc_find(s.skip(i), k) == assoc_find(s.skip(i + 1), k),
{
    assert(s.skip(i)[0] == s[i]);
    assert(s.skip(i).drop_first() =~= s.skip(i + 1));
}

/// The lookup finds nothing exactly when no entry carries the key.
pub proof fn lemma_find_none<K, V>(s: Seq<(K, V)>, k: K)
    ensures
        assoc_find(s, k) is None <==> (forall|i: int| 0 <= i < s.len() ==> s[i].0 != k),
    decreases s.len(),
{
    if s.len() > 0 {
        lemma_find_none(s.drop_first(), k);
        assert(forall|i: int|
            0 <= i < s.drop_first().len() ==> s.drop_first()[i] == s[i + 1]);
        if s[0].0 != k {
            if forall|i: int| 0 <= i < s.drop_first().len() ==> s.drop_first()[i].0 != k {
                assert forall|i: int| 0 <= i < s.len() implies s[i].0 != k by {
                    if i > 0 {
                        assert(s.drop_first()[i - 1] == s[i]);
                    }
                }
            }
        }
    }
}

/// A found value stands at some entry with that key.
pub proof fn lemma_find_some_index<K, V>(s: Seq<(K, V)>, k: K)
    requires
        assoc_find(s, k) is Some,
    ensures
        exists|i: int| 0 <= i < s.len() && s[i] == (k, assoc_find(s, k)->Some_0),
    decreases s.len(),
{
    if s[0].0 == k {
        assert(s[0] == (k, assoc_find(s, k)->Some_0));
    } else {
        lemma_find_some_index(s.drop_first(), k);
        let j = choose|j: int|
            0 <= j < s.drop_first().len() && s.drop_first()[j] == (
            k,
            assoc_find(s.drop_first(), k)->Some_0,
            );
        assert(s[j + 1] == (k, assoc_find(s, k)->Some_0));
    }
}

/// With distinct keys, the entry at `i` is what the lookup of its key finds.
pub proof fn lemma_find_at<K, V>(s: Seq<(K, V)>, i: int)
    requires
        distinct_keys(s),
        0 <= i < s.len(),
    ensures
        assoc_find(s, s[i].0) == Some(s[i].1),
    decreases s.len(),
{
    if i == 0 {
    } else {
        assert(s[0].0 != s[i].0);
        assert(s.drop_first()[i - 1] == s[i]);
        assert(distinct_keys(s.drop_first())) by {
            assert(forall|m: int|
                0 <= m < s.drop_first().len() ==> s.drop_first()[m] == s[m + 1]);
        }
        lemma_find_at(s.drop_first(), i - 1);
    }
}

/// Overwriting the value at `i` rebinds that key alone.
pub proof fn lemma_find_update<K, V>(s: Seq<(K, V)>, i: int, nv: V, k: K)
    requires
        distinct_keys(s),
        0 <= i < s.len(),
    ensures
        assoc_find(s.update(i, (s[i].0, nv)), k) == if k == s[i].0 {
            Some(nv)
        } else {
            assoc_find(s, k)
        },
    decreases s.len(),
{
    let s2 = s.update(i, (s[i].0, nv));
    if i == 0 {
        assert(s2.drop_first() =~= s.drop_first());
    } else {
        assert(s2[0] == s[0]);
        assert(s[0].0 != s[i].0);
        assert(distinct_keys(s.drop_first())) by {
            assert(forall|m: int|
                0 <= m < s.drop_first().len() ==> s.drop_first()[m] == s[m + 1]);
        }
        assert(s.drop_first()[i - 1] == s[i]);
        assert(s2.drop_first() =~= s.drop_first().update(i - 1, (s[i].0, nv)));
        lemma_find_update(s.drop_first(), i - 1, nv, k);
    }
}

/// `lemma_find_update`, stated for every key at once.
pub proof fn lemma_find_update_all<K, V>(s: Seq<(K, V)>, i: int, nv: V)
    requires
        distinct_keys(s),
        0 <= i < s.len(),
    ensures
        distinct_keys(s.update(i, (s[i].0, nv))),
        forall|k: K| #[trigger]
            assoc_find(s.update(i, (s[i].0, nv)), k) == if k == s[i].0 {
                Some(nv)
            } else {
                assoc_find(s, k)
            },
{
    let s2 = s.update(i, (s[i].0, nv));
    assert(forall|m: int| 0 <= m < s2.len() ==> s2[m].0 == s[m].0);
    assert forall|k: K| #[trigger]
        assoc_find(s2, k) == if k == s[i].0 {
            Some(nv)
        } else {
            assoc_find(s, k)
        } by {
        lemma_find_update(s, i, nv, k);
    }
}

/// Appending an entry under a fresh key binds that key alone.
pub proof fn lemma_find_push<K, V>(s: Seq<(K, V)>, p: (K, V), k: K)
    requires
        assoc_find(s, p.0) is None,
    ensures
        assoc_find(s.push(p), k) == if k == p.0 {
            Some(p.1)
        } else {
            assoc_find(s, k)
        },
    decreases s.len(),
{
    if s.len() == 0 {
        assert(s.push(p)[0] == p);
        assert(s.push(p).drop_first() =~= Seq::<(K, V)>::empty());
        assert(assoc_find(s.push(p), k) == if p.0 == k {
            Some(p.1)
        } else {
            assoc_find(Seq::<(K, V)>::empty(), k)
        });
    } else {
        assert(s.push(p)[0] == s[0]);
        assert(s.push(p).drop_first() =~= s.drop_first().push(p));
        lemma_find_push(s.drop_first(), p, k);
        if s[0].0 == k {
            assert(assoc_find(s.push(p), k) == Some(s[0].1));
            assert(assoc_find(s, k) == Some(s[0].1));
        } else {
            assert(assoc_find(s.push(p), k) == assoc_find(s.drop_first().push(p), k));
            assert(assoc_find(s, k) == assoc_find(s.drop_first(), k));
        }
    }
}

/// `lemma_find_push`, stated for every key at once, with distinctness kept.
pub proof fn lemma_find_push_all<K, V>(s: Seq<(K, V)>, p: (K, V))
    requires
        distinct_keys(s),
        assoc_find(s, p.0) is None,
    ensures
        distinct_keys(s.push(p)),
        forall|k: K| #[trigger]
            assoc_find(s.push(p), k) == if k == p.0 {
                Some(p.1)
            } else {
                assoc_find(s, k)
            },
{
    lemma_find_none(s, p.0);
    let s2 = s.push(p);
    assert forall|i: int, j: int| 0 <= i < j < s2.len() implies s2[i].0 != s2[j].0 by {
        if j < s.len() {
            assert(s2[i] == s[i] && s2[j] == s[j]);
        } else {
            assert(s2[i] == s[i] && s2[j] == p);
        }
    }
    assert forall|k: K| #[trigger]
        assoc_find(s2, k) == if k == p.0 {
            Some(p.1)
        } else {
            assoc_find(s, k)
        } by {
        lemma_find_push(s, p, k);
    }
}

/// The sum of a table of unsigned amounts is never negative.
pub proof fn lemma_sum_nonneg<K>(s: Seq<(K, u128)>)
    ensures
        amounts_sum(s) >= 0,
    decreases s.len(),
{
    if s.len() > 0 {
        lemma_sum_nonneg(s.drop_first());
    }
}

/// Any single stored amount is bounded by the table's sum.
pub proof fn lemma_find_le_sum<K>(s: Seq<(K, u128)>, k: K)
    requires
        assoc_find(s, k) is Some,
    ensures
        assoc_find(s, k)->Some_0 <= amounts_sum(s),
    decreases s.len(),
{
    if s[0].0 == k {
        lemma_sum_nonneg(s.drop_first());
    } else {
        lemma_find_le_sum(s.drop_first(), k);
    }
}

/// Overwriting the amount at `i` moves the sum by the difference.
pub proof fn lemma_sum_update<K>(s: Seq<(K, u128)>, i: int, p: (K, u128))
    requires
        0 <= i < s.len(),
    ensures
        amounts_sum(s.update(i, p)) == amounts_sum(s) - s[i].1 + p.1,
    decreases s.len(),
{
    let s2 = s.update(i, p);
    if i == 0 {
        assert(s2.drop_first() =~= s.drop_first());
    } else {
        assert(s2[0] == s[0]);
        assert(s2.drop_first() =~= s.drop_first().update(i - 1, p));
        lemma_sum_update(s.drop_first(), i - 1, p);
    }
}

/// Appending an entry adds its amount to the sum.
pub proof fn lemma_sum_push<K>(s: Seq<(K, u128)>, p: (K, u128))
    ensures
        amounts_sum(s.push(p)) == amounts_sum(s) + p.1,
    decreases s.len(),
{
    if s.len() == 0 {
        assert(s.push(p)[0] == p);
        assert(s.push(p).drop_first() =~= Seq::<(K, u128)>::empty());
        assert(amounts_sum(s.push(p)) == p.1 + amounts_sum(Seq::<(K, u128)>::empty()));
    } else {
        assert(s.push(p)[0] == s[0]);
        assert(s.push(p).drop_first() =~= s.drop_first().push(p));
        lemma_sum_push(s.drop_first(), p);
        assert(amounts_sum(s.push(p)) == s[0].1 + amounts_sum(s.drop_first().push(p)));
        assert(amounts_sum(s) == s[0].1 + amounts_sum(s.drop_first()));
    }
}

} // verus!
