//! The balance table: account identifier to amount, entries created on first
//! credit and never removed. An account absent from the table holds zero.

use crate::assoc::{
    amounts_sum, assoc_find, distinct_keys, lemma_find_le_sum, lemma_find_push_all,
    lemma_find_skip_step, lemma_find_update_all, lemma_sum_nonneg, lemma_sum_push,
    lemma_sum_update,
};
use crate::io::ActorId;
use vstd::prelude::*;

verus! {

/// Balance held by `a`: the stored amount, or zero when `a` has no entry.
pub open spec fn bal_of(s: Seq<(ActorId, u128)>, a: ActorId) -> u128 {
    match assoc_find(s, a) {
        Some(v) => v,
        None => 0,
    }
}

/// Every stored balance is bounded by the table's sum.
pub proof fn lemma_bal_le_sum(s: Seq<(ActorId, u128)>, a: ActorId)
    ensures
        bal_of(s, a) <= amounts_sum(s),
{
    if assoc_find(s, a) is Some {
        lemma_find_le_sum(s, a);
    } else {
        lemma_sum_nonneg(s);
    }
}

/// Position of the entry of `a`, if one exists.
fn bal_idx(v: &Vec<(ActorId, u128)>, a: ActorId) -> (r: Option<usize>)
    ensures
        match r {
            Some(i) => i < v@.len() && v@[i as int].0 == a && assoc_find(v@, a) == Some(
                v@[i as int].1,
            ),
            None => assoc_find(v@, a) is None,
        },
{
    proof {
        assert(v@.skip(0) =~= v@);
    }
    let n = v.len();
    let mut i: usize = 0;
    while i < n
        invariant
            n == v@.len(),
            i <= n,
            assoc_find(v@, a) == assoc_find(v@.skip(i as int), a),
        decreases n - i,
    {
        if v[i].0 == a {
            proof {
                assert(v@.skip(i as int)[0] == v@[i as int]);
            }
            return Some(i);
        }
        proof {
            lemma_find_skip_step(v@, a, i as int);
        }
        i = i + 1;
    }
    proof {
        assert(v@.skip(n as int) =~= Seq::<(ActorId, u128)>::empty());
    }
    None
}

/// Balance of `a` as the table stores it.
pub fn balance_get(v: &Vec<(ActorId, u128)>, a: ActorId) -> (r: u128)
    ensures
        r == bal_of(v@, a),
{
    match bal_idx(v, a) {
        Some(i) => v[i].1,
        None => 0,
    }
}

/// Add `amount` to the balance of `a`, creating the entry if needed.
pub fn credit(v: &mut Vec<(ActorId, u128)>, a: ActorId, amount: u128)
    requires
        distinct_keys(old(v)@),
        bal_of(old(v)@, a) + amount <= u128::MAX,
    ensures
        distinct_keys(final(v)@),
        bal_of(final(v)@, a) == bal_of(old(v)@, a) + amount,
        forall|x: ActorId| x != a ==> bal_of(final(v)@, x) == bal_of(old(v)@, x),
        amounts_sum(final(v)@) == amounts_sum(old(v)@) + amount,
{
    match bal_idx(v, a) {
        Some(i) => {
            let cur = v[i].1;
            proof {
                lemma_find_update_all(v@, i as int, (cur + amount) as u128);
                lemma_sum_update(v@, i as int, (a, (cur + amount) as u128));
            }
            v[i] = (a, cur + amount);
        }
        None => {
            proof {
                lemma_find_push_all(v@, (a, amount));
                lemma_sum_push(v@, (a, amount));
            }
            v.push((a, amount));
        }
    }
}

/// Remove `amount` from the balance of `a`, which must cover it.
pub fn debit(v: &mut Vec<(ActorId, u128)>, a: ActorId, amount: u128)
    requires
        distinct_keys(old(v)@),
        bal_of(old(v)@, a) >= amount,
    ensures
        distinct_keys(final(v)@),
        bal_of(final(v)@, a) == bal_of(old(v)@, a) - amount,
        forall|x: ActorId| x != a ==> bal_of(final(v)@, x) == bal_of(old(v)@, x),
        amounts_sum(final(v)@) == amounts_sum(old(v)@) - amount,
{
    match bal_idx(v, a) {
        Some(i) => {
            let cur = v[i].1;
            proof {
                lemma_find_update_all(v@, i as int, (cur - amount) as u128);
                lemma_sum_update(v@, i as int, (a, (cur - amount) as u128));
            }
            v[i] = (a, cur - amount);
        }
        None => {
            // The balance of `a` is zero, so only `amount == 0` reaches here
            // and the table needs no change.
        }
    }
}

} // verus!
