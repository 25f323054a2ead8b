//! The replay-protection index: for each account, the transaction ids it has
//! used lately, each with the timestamp until which it counts as a replay.
//! The ids of one account stand together, so that eviction scans only the
//! invoking account's own entries.

use crate::assoc::{
    assoc_find, distinct_keys, lemma_find_at, lemma_find_none, lemma_find_push_all,
    lemma_find_skip_step, lemma_find_some_index, lemma_find_update_all,
};
use crate::io::{ActorId, TxId, ValidUntil};
use vstd::prelude::*;

verus! {

/// The tracked transaction ids of `a`, with their expiry timestamps.
pub open spec fn acct_txs(s: Seq<(ActorId, Vec<(TxId, ValidUntil)>)>, a: ActorId) -> Seq<
    (TxId, ValidUntil),
> {
    match assoc_find(s, a) {
        Some(txs) => txs@,
        None => Seq::<(TxId, ValidUntil)>::empty(),
    }
}

/// Expiry timestamp recorded for `(a, t)`, if that pair is tracked.
pub open spec fn tx_status(
    s: Seq<(ActorId, Vec<(TxId, ValidUntil)>)>,
    a: ActorId,
    t: TxId,
) -> Option<ValidUntil> {
    assoc_find(acct_txs(s, a), t)
}

/// What `tx_status` becomes once the expired ids of `account` are evicted
/// at time `now`.
pub open spec fn evicted_status(
    s: Seq<(ActorId, Vec<(TxId, ValidUntil)>)>,
    account: ActorId,
    now: u64,
    x: ActorId,
    t: TxId,
) -> Option<ValidUntil> {
    match tx_status(s, x, t) {
        Some(vu) => if x == account && now > vu {
            None
        } else {
            Some(vu)
        },
        None => None,
    }
}

/// Each account stands once, and holds each of its ids once.
pub open spec fn tx_wf(s: Seq<(ActorId, Vec<(TxId, ValidUntil)>)>) -> bool {
    &&& distinct_keys(s)
    &&& forall|i: int| 0 <= i < s.len() ==> distinct_keys(#[trigger] s[i].1@)
}

/// Position of the entry block of `a`, if one exists.
fn acct_idx(v: &Vec<(ActorId, Vec<(TxId, ValidUntil)>)>, a: ActorId) -> (r: Option<usize>)
    ensures
        match r {
            Some(i) => i < v@.len() && v@[i as int].0 == a && assoc_find(v@, a) == Some(
                v@[i as int].1,
            ),
            None => assoc_find(v@, a) is None,
        },
{
    proof {
        assert(v@.skip(0) =~= v@);
    }
    let n = v.len();
    let mut i: usize = 0;
    while i < n
        invariant
            n == v@.len(),
            i <= n,
            assoc_find(v@, a) == assoc_find(v@.skip(i as int), a),
        decreases n - i,
    {
        if v[i].0 == a {
            proof {
                assert(v@.skip(i as int)[0] == v@[i as int]);
            }
            return Some(i);
        }
        proof {
            lemma_find_skip_step(v@, a, i as int);
        }
        i = i + 1;
    }
    proof {
        assert(v@.skip(n as int) =~= Seq::<(ActorId, Vec<(TxId, ValidUntil)>)>::empty());
    }
    None
}

/// Position of the record of id `t` in one account's block, if one exists.
fn txs_idx(txs: &Vec<(TxId, ValidUntil)>, t: TxId) -> (r: Option<usize>)
    ensures
        match r {
            Some(j) => j < txs@.len() && txs@[j as int].0 == t && assoc_find(txs@, t) == Some(
                txs@[j as int].1,
            ),
            None => assoc_find(txs@, t) is None,
        },
{
    proof {
        assert(txs@.skip(0) =~= txs@);
    }
    let n = txs.len();
    let mut j: usize = 0;
    while j < n
        invariant
            n == txs@.len(),
            j <= n,
            assoc_find(txs@, t) == assoc_find(txs@.skip(j as int), t),
        decreases n - j,
    {
        if txs[j].0 == t {
            proof {
                assert(txs@.skip(j as int)[0] == txs@[j as int]);
            }
            return Some(j);
        }
        proof {
            lemma_find_skip_step(txs@, t, j as int);
        }
        j = j + 1;
    }
    proof {
        assert(txs@.skip(n as int) =~= Seq::<(TxId, ValidUntil)>::empty());
    }
    None
}

/// Expiry timestamp recorded for `(a, t)`, if that pair is tracked.
pub fn tx_get(v: &Vec<(ActorId, Vec<(TxId, ValidUntil)>)>, a: ActorId, t: TxId) -> (r: Option<
    ValidUntil,
>)
    ensures
        r == tx_status(v@, a, t),
{
    match acct_idx(v, a) {
        Some(i) => match txs_idx(&v[i].1, t) {
            Some(j) => Some(v[i].1[j].1),
            None => None,
        },
        None => None,
    }
}

/// Drop every id of `account` whose expiry lies strictly before `now`,
/// leaving all other accounts untouched.
pub fn tx_evict(v: &mut Vec<(ActorId, Vec<(TxId, ValidUntil)>)>, account: ActorId, now: u64)
    requires
        tx_wf(old(v)@),
    ensures
        tx_wf(final(v)@),
        forall|x: ActorId, t: TxId| #[trigger]
            tx_status(final(v)@, x, t) == evicted_status(old(v)@, account, now, x, t),
{
    let ghost olds = v@;
    match acct_idx(v, account) {
        Some(i) => {
            let ghost inner = olds[i as int].1@;
            let n = v[i].1.len();
            let mut kept: Vec<(TxId, ValidUntil)> = Vec::new();
            let mut j: usize = 0;
            proof {
                assert(inner.take(0) =~= Seq::<(TxId, ValidUntil)>::empty());
            }
            while j < n
                invariant
                    v@ == olds,
                    tx_wf(olds),
                    i < olds.len(),
                    olds[i as int].0 == account,
                    inner == olds[i as int].1@,
                    n == inner.len(),
                    j <= n,
                    distinct_keys(kept@),
                    forall|t: TxId| #[trigger]
                        assoc_find(kept@, t) == match assoc_find(inner.take(j as int), t) {
                            Some(vu) => if now > vu {
                                None::<ValidUntil>
                            } else {
                                Some(vu)
                            },
                            None => None::<ValidUntil>,
                        },
                decreases n - j,
            {
                let p = v[i].1[j];
                proof {
                    assert(p == inner[j as int]);
                    assert(distinct_keys(inner));
                    lemma_find_none(inner.take(j as int), p.0);
                    assert(forall|m: int|
                        0 <= m < j ==> inner.take(j as int)[m] == inner[m]);
                    assert(assoc_find(inner.take(j as int), p.0) is None);
                    assert(inner.take(j + 1 as int) =~= inner.take(j as int).push(p));
                }
                if now > p.1 {
                    proof {
                        assert forall|t: TxId| #[trigger]
                            assoc_find(kept@, t) == match assoc_find(
                                inner.take(j + 1 as int),
                                t,
                            ) {
                                Some(vu) => if now > vu {
                                    None::<ValidUntil>
                                } else {
                                    Some(vu)
                                },
                                None => None::<ValidUntil>,
                            } by {
                            crate::assoc::lemma_find_push(inner.take(j as int), p, t);
                        }
                    }
                } else {
                    proof {
                        assert(assoc_find(kept@, p.0) is None);
                        lemma_find_push_all(kept@, p);
                        assert forall|t: TxId| #[trigger]
                            assoc_find(kept@.push(p), t) == match assoc_find(
                                inner.take(j + 1 as int),
                                t,
                            ) {
                                Some(vu) => if now > vu {
                                    None::<ValidUntil>
                                } else {
                                    Some(vu)
                                },
                                None => None::<ValidUntil>,
                            } by {
                            crate::assoc::lemma_find_push(inner.take(j as int), p, t);
                        }
                    }
                    kept.push(p);
                }
                j = j + 1;
            }
            proof {
                assert(inner.take(n as int) =~= inner);
                lemma_find_update_all(olds, i as int, kept);
            }
            v[i] = (account, kept);
            proof {
                assert(v@ == olds.update(i as int, (olds[i as int].0, kept)));
                assert forall|x: ActorId, t: TxId| #[trigger]
                    tx_status(v@, x, t) == evicted_status(olds, account, now, x, t) by {
                    if x == account {
                        assert(assoc_find(v@, x) == Some(kept));
                    }
                }
                assert(tx_wf(v@)) by {
                    assert(forall|m: int|
                        0 <= m < v@.len() && m != i ==> v@[m] == olds[m]);
                }
            }
        }
        None => {
            proof {
                assert forall|x: ActorId, t: TxId| #[trigger]
                    tx_status(v@, x, t) == evicted_status(olds, account, now, x, t) by {
                    if x == account {
                        assert(acct_txs(olds, x) == Seq::<(TxId, ValidUntil)>::empty());
                    }
                }
            }
        }
    }
}

/// Record that `account` used id `t`, valid against replays until `vu`.
pub fn tx_record(v: &mut Vec<(ActorId, Vec<(TxId, ValidUntil)>)>, account: ActorId, t: TxId, vu: ValidUntil)
    requires
        tx_wf(old(v)@),
    ensures
        tx_wf(final(v)@),
        forall|x: ActorId, tt: TxId| #[trigger]
            tx_status(final(v)@, x, tt) == if x == account && tt == t {
                Some(vu)
            } else {
                tx_status(old(v)@, x, tt)
            },
{
    let ghost olds = v@;
    match acct_idx(v, account) {
        Some(i) => {
            let ghost inner = olds[i as int].1@;
            let idx = txs_idx(&v[i].1, t);
            match idx {
                Some(j) => {
                    proof {
                        lemma_find_update_all(inner, j as int, vu);
                    }
                    let e = &mut v[i].1;
                    e[j] = (t, vu);
                }
                None => {
                    proof {
                        lemma_find_push_all(inner, (t, vu));
                    }
                    let e = &mut v[i].1;
                    e.push((t, vu));
                }
            }
            proof {
                let newinner = v@[i as int].1;
                assert(v@ =~= olds.update(i as int, (account, newinner)));
                lemma_find_update_all(olds, i as int, newinner);
                assert forall|x: ActorId, tt: TxId| #[trigger]
                    tx_status(v@, x, tt) == if x == account && tt == t {
                        Some(vu)
                    } else {
                        tx_status(olds, x, tt)
                    } by {
                    if x == account {
                        assert(assoc_find(v@, x) == Some(newinner));
                    }
                }
                assert(tx_wf(v@)) by {
                    assert(forall|m: int|
                        0 <= m < v@.len() && m != i ==> v@[m] == olds[m]);
                }
            }
        }
        None => {
            let mut inner_vec: Vec<(TxId, ValidUntil)> = Vec::new();
            inner_vec.push((t, vu));
            proof {
                lemma_find_push_all(olds, (account, inner_vec));
            }
            v.push((account, inner_vec));
            proof {
                assert forall|x: ActorId, tt: TxId| #[trigger]
                    tx_status(v@, x, tt) == if x == account && tt == t {
                        Some(vu)
                    } else {
                        tx_status(olds, x, tt)
                    } by {
                    if x == account {
                        assert(acct_txs(v@, x) == inner_vec@);
                        assert(inner_vec@.drop_first() =~= Seq::<(TxId, ValidUntil)>::empty());
                        assert(acct_txs(olds, x) == Seq::<(TxId, ValidUntil)>::empty());
                    }
                }
                assert(tx_wf(v@)) by {
                    assert(forall|m: int|
                        0 <= m < olds.len() ==> v@[m] == olds[m]);
                    assert(distinct_keys(inner_vec@));
                }
            }
        }
    }
}

/// The tracked ids of `account`, one for each live record.
pub fn tx_ids_for(v: &Vec<(ActorId, Vec<(TxId, ValidUntil)>)>, account: ActorId) -> (r: Vec<TxId>)
    requires
        tx_wf(v@),
    ensures
        r@.len() == acct_txs(v@, account).len(),
        forall|t: TxId| r@.contains(t) <==> tx_status(v@, account, t) is Some,
{
    match acct_idx(v, account) {
        Some(i) => {
            let n = v[i].1.len();
            let mut r: Vec<TxId> = Vec::new();
            let mut j: usize = 0;
            while j < n
                invariant
                    i < v@.len(),
                    v@[i as int].0 == account,
                    assoc_find(v@, account) == Some(v@[i as int].1),
                    n == v@[i as int].1@.len(),
                    j <= n,
                    r@.len() == j,
                    forall|m: int| 0 <= m < j ==> r@[m] == v@[i as int].1@[m].0,
                decreases n - j,
            {
                let id = v[i].1[j].0;
                r.push(id);
                j = j + 1;
            }
            proof {
                let inner = v@[i as int].1@;
                assert(distinct_keys(inner));
                assert forall|t: TxId| r@.contains(t) <==> assoc_find(inner, t) is Some by {
                    if r@.contains(t) {
                        let m = choose|m: int| 0 <= m < r@.len() && r@[m] == t;
                        lemma_find_at(inner, m);
                    }
                    if assoc_find(inner, t) is Some {
                        lemma_find_some_index(inner, t);
                        let m = choose|m: int|
                            0 <= m < inner.len() && inner[m] == (t, assoc_find(inner, t)->Some_0);
                        assert(r@[m] == t);
                    }
                }
            }
            r
        }
        None => {
            let r: Vec<TxId> = Vec::new();
            proof {
                assert(acct_txs(v@, account) == Seq::<(TxId, ValidUntil)>::empty());
            }
            r
        }
    }
}

} // verus!
