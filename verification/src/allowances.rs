//! The allowance table: (owner, spender) pair to the amount the owner has
//! authorized that spender to move on the owner's behalf.

use crate::assoc::{
    assoc_find, distinct_keys, lemma_find_push_all, lemma_find_skip_step, lemma_find_update_all,
};
use crate::io::ActorId;
use vstd::prelude::*;

verus! {

/// Allowance granted by `owner` to `spender`: the stored amount, or zero
/// when no entry exists. Whether an entry exists at all is observable too:
/// a delegated transfer needs an entry, even one of amount zero.
pub open spec fn allowance_of(
    s: Seq<((ActorId, ActorId), u128)>,
    owner: ActorId,
    spender: ActorId,
) -> u128 {
    match assoc_find(s, (owner, spender)) {
        Some(v) => v,
        None => 0,
    }
}

/// Position of the entry of `(owner, spender)`, if one exists.
fn allowance_idx(v: &Vec<((ActorId, ActorId), u128)>, owner: ActorId, spender: ActorId) -> (r:
    Option<usize>)
    ensures
        match r {
            Some(i) => i < v@.len() && v@[i as int].0 == (owner, spender) && assoc_find(
                v@,
                (owner, spender),
            ) == Some(v@[i as int].1),
            None => assoc_find(v@, (owner, spender)) is None,
        },
{
    proof {
        assert(v@.skip(0) =~= v@);
    }
    let n = v.len();
    let mut i: usize = 0;
    while i < n
        invariant
            n == v@.len(),
            i <= n,
            assoc_find(v@, (owner, spender)) == assoc_find(v@.skip(i as int), (owner, spender)),
        decreases n - i,
    {
        if v[i].0.0 == owner && v[i].0.1 == spender {
            proof {
                assert(v@.skip(i as int)[0] == v@[i as int]);
            }
            return Some(i);
        }
        proof {
            assert(v@[i as int].0 != (owner, spender));
            lemma_find_skip_step(v@, (owner, spender), i as int);
        }
        i = i + 1;
    }
    proof {
        assert(v@.skip(n as int) =~= Seq::<((ActorId, ActorId), u128)>::empty());
    }
    None
}

/// The stored allowance entry of `(owner, spender)`, if one exists.
pub fn allowance_get(v: &Vec<((ActorId, ActorId), u128)>, owner: ActorId, spender: ActorId) -> (r:
    Option<u128>)
    ensures
        r == assoc_find(v@, (owner, spender)),
{
    match allowance_idx(v, owner, spender) {
        Some(i) => Some(v[i].1),
        None => None,
    }
}

/// Bind `(owner, spender)` to exactly `amount`, overwriting any earlier entry.
pub fn allowance_set(
    v: &mut Vec<((ActorId, ActorId), u128)>,
    owner: ActorId,
    spender: ActorId,
    amount: u128,
)
    requires
        distinct_keys(old(v)@),
    ensures
        distinct_keys(final(v)@),
        assoc_find(final(v)@, (owner, spender)) == Some(amount),
        forall|p: (ActorId, ActorId)| #[trigger]
            assoc_find(final(v)@, p) == if p == (owner, spender) {
                Some(amount)
            } else {
                assoc_find(old(v)@, p)
            },
{
    match allowance_idx(v, owner, spender) {
        Some(i) => {
            proof {
                lemma_find_update_all(v@, i as int, amount);
            }
            v[i] = ((owner, spender), amount);
        }
        None => {
            proof {
                lemma_find_push_all(v@, ((owner, spender), amount));
            }
            v.push(((owner, spender), amount));
        }
    }
}

/// Consume `amount` of the allowance of `(owner, spender)`, whose entry must
/// exist and cover it.
pub fn allowance_dec(
    v: &mut Vec<((ActorId, ActorId), u128)>,
    owner: ActorId,
    spender: ActorId,
    amount: u128,
)
    requires
        distinct_keys(old(v)@),
        assoc_find(old(v)@, (owner, spender)) is Some,
        assoc_find(old(v)@, (owner, spender))->Some_0 >= amount,
    ensures
        distinct_keys(final(v)@),
        assoc_find(final(v)@, (owner, spender)) == Some(
            (assoc_find(old(v)@, (owner, spender))->Some_0 - amount) as u128,
        ),
        forall|p: (ActorId, ActorId)| #[trigger]
            assoc_find(final(v)@, p) == if p == (owner, spender) {
                Some((assoc_find(old(v)@, (owner, spender))->Some_0 - amount) as u128)
            } else {
                assoc_find(old(v)@, p)
            },
{
    match allowance_idx(v, owner, spender) {
        Some(i) => {
            let cur = v[i].1;
            proof {
                lemma_find_update_all(v@, i as int, (cur - amount) as u128);
            }
            v[i] = ((owner, spender), cur - amount);
        }
        None => {
            proof {
                assert(false);
            }
        }
    }
}

} // verus!
