//! The ledger itself: token metadata, balances, allowances, the admin set
//! and the replay-protection index, with every operation specified as a
//! transition relation between the state before and after the call.

use crate::allowances::{allowance_dec, allowance_get, allowance_of, allowance_set};
use crate::assoc::{amounts_sum, assoc_find, distinct_keys};
use crate::balances::{bal_of, balance_get, credit, debit, lemma_bal_le_sum};
use crate::io::{
    ActorId, Config, ExternalLinks, FTAction, FTError, FTReply, InitConfig, Query, QueryReply,
    TxId, ValidUntil, ZERO_ID,
};
use crate::txstore::{
    evicted_status, tx_evict, tx_get, tx_ids_for, tx_record, tx_status, tx_wf,
};
use vstd::prelude::*;
use vstd::string::StrSliceExecFns;

verus! {

/// How often `x` occurs among the recipients `s`.
pub open spec fn occurrences(s: Seq<ActorId>, x: ActorId) -> int
    decreases s.len(),
{
    if s.len() == 0 {
        0
    } else {
        occurrences(s.drop_last(), x) + if s.last() == x {
            1int
        } else {
            0int
        }
    }
}

pub proof fn lemma_occurrences_nonneg(s: Seq<ActorId>, x: ActorId)
    ensures
        occurrences(s, x) >= 0,
    decreases s.len(),
{
    if s.len() > 0 {
        lemma_occurrences_nonneg(s.drop_last(), x);
    }
}

/// The single-token ledger.
#[derive(Debug)]
pub struct FungibleToken {
    pub name: String,
    pub symbol: String,
    pub decimals: u8,
    pub description: String,
    pub external_links: ExternalLinks,
    pub current_supply: u128,
    pub total_supply: u128,
    pub balances: Vec<(ActorId, u128)>,
    pub allowances: Vec<((ActorId, ActorId), u128)>,
    pub tx_ids: Vec<(ActorId, Vec<(TxId, ValidUntil)>)>,
    pub config: Config,
    pub admins: Vec<ActorId>,
}

impl FungibleToken {
    /// Balance held by `a`; zero when `a` has no entry.
    pub open spec fn balance_of(self, a: ActorId) -> u128 {
        bal_of(self.balances@, a)
    }

    /// Allowance granted by `owner` to `spender`; zero when none is stored.
    pub open spec fn allowance_of(self, owner: ActorId, spender: ActorId) -> u128 {
        allowance_of(self.allowances@, owner, spender)
    }

    /// The stored allowance entry of `(owner, spender)`, if any.
    pub open spec fn allowance_entry(self, owner: ActorId, spender: ActorId) -> Option<u128> {
        assoc_find(self.allowances@, (owner, spender))
    }

    pub open spec fn is_admin(self, a: ActorId) -> bool {
        self.admins@.contains(a)
    }

    /// Expiry recorded for `(a, t)` in the replay-protection index, if any.
    pub open spec fn tx_status_of(self, a: ActorId, t: TxId) -> Option<ValidUntil> {
        tx_status(self.tx_ids@, a, t)
    }

    /// Well-formedness: unique table keys, at least one admin, and the two
    /// supply invariants — the balances sum to the current supply, which
    /// never exceeds the total supply.
    pub open spec fn wf(self) -> bool {
        &&& distinct_keys(self.balances@)
        &&& distinct_keys(self.allowances@)
        &&& tx_wf(self.tx_ids@)
        &&& amounts_sum(self.balances@) == self.current_supply
        &&& self.current_supply <= self.total_supply
        &&& self.admins@.len() >= 1
        &&& (forall|i: int, j: int|
            0 <= i < j < self.admins@.len() ==> self.admins@[i] != self.admins@[j])
        &&& self.decimals <= 100
        &&& self.description@.len() <= 500
    }

    /// The token metadata and configuration of `pre` carry over to `post`.
    pub open spec fn same_token_info(pre: Self, post: Self) -> bool {
        &&& post.name == pre.name
        &&& post.symbol == pre.symbol
        &&& post.decimals == pre.decimals
        &&& post.description == pre.description
        &&& post.external_links == pre.external_links
        &&& post.config == pre.config
    }

    /// The protected request would be a replay: `tx_id` is given, tracked
    /// for `caller`, and not yet expired at `now`.
    pub open spec fn dup_tx(pre: Self, caller: ActorId, now: u64, tx_id: Option<TxId>) -> bool {
        match tx_id {
            Some(t) => match tx_status(pre.tx_ids@, caller, t) {
                Some(vu) => now <= vu,
                None => false,
            },
            None => false,
        }
    }

    /// `caller` may move `amount` out of `owner`'s account: a stored
    /// allowance entry exists and covers the amount.
    pub open spec fn allowance_covers(
        pre: Self,
        owner: ActorId,
        spender: ActorId,
        amount: u128,
    ) -> bool {
        match assoc_find(pre.allowances@, (owner, spender)) {
            Some(al) => al >= amount,
            None => false,
        }
    }

    /// Transition relation of `mint`.
    pub open spec fn mint_post(
        pre: Self,
        post: Self,
        caller: ActorId,
        amount: u128,
        to: ActorId,
        r: Result<FTReply, FTError>,
    ) -> bool {
        if !pre.is_admin(caller) {
            r == Err::<FTReply, FTError>(FTError::NotAdmin) && post == pre
        } else if pre.current_supply + amount > pre.total_supply {
            r == Err::<FTReply, FTError>(FTError::MaxSupplyReached) && post == pre
        } else {
            &&& r == Ok::<FTReply, FTError>(FTReply::Transferred { from: ZERO_ID, to, amount })
            &&& post.current_supply == pre.current_supply + amount
            &&& post.total_supply == pre.total_supply
            &&& post.balance_of(to) == pre.balance_of(to) + amount
            &&& (forall|x: ActorId| x != to ==> post.balance_of(x) == pre.balance_of(x))
            &&& post.allowances == pre.allowances
            &&& post.tx_ids == pre.tx_ids
            &&& post.admins == pre.admins
            &&& Self::same_token_info(pre, post)
        }
    }

    /// Transition relation of `burn`.
    pub open spec fn burn_post(
        pre: Self,
        post: Self,
        caller: ActorId,
        amount: u128,
        r: Result<FTReply, FTError>,
    ) -> bool {
        if pre.balance_of(caller) < amount {
            r == Err::<FTReply, FTError>(FTError::NotEnoughBalance) && post == pre
        } else {
            &&& r == Ok::<FTReply, FTError>(
                FTReply::Transferred { from: caller, to: ZERO_ID, amount },
            )
            &&& post.current_supply == pre.current_supply - amount
            &&& post.total_supply == pre.total_supply - amount
            &&& post.balance_of(caller) == pre.balance_of(caller) - amount
            &&& (forall|x: ActorId| x != caller ==> post.balance_of(x) == pre.balance_of(x))
            &&& post.allowances == pre.allowances
            &&& post.tx_ids == pre.tx_ids
            &&& post.admins == pre.admins
            &&& Self::same_token_info(pre, post)
        }
    }

    /// Transition relation of `transfer`. Failures leave balances and
    /// allowances untouched; the replay index is still brought up to date
    /// whenever a transaction id was supplied, since eviction runs before
    /// the duplicate check.
    pub open spec fn transfer_post(
        pre: Self,
        post: Self,
        caller: ActorId,
        now: u64,
        tx_id: Option<TxId>,
        from: ActorId,
        to: ActorId,
        amount: u128,
        r: Result<FTReply, FTError>,
    ) -> bool {
        let dup = Self::dup_tx(pre, caller, now, tx_id);
        let zero = from == ZERO_ID || to == ZERO_ID;
        let nobal = pre.balance_of(from) < amount;
        let noallow = caller != from && !Self::allowance_covers(pre, from, caller, amount);
        let ok = !dup && !zero && !nobal && !noallow;
        &&& (r == Err::<FTReply, FTError>(FTError::TxAlreadyExists) <==> dup)
        &&& (r == Err::<FTReply, FTError>(FTError::ZeroAddress) <==> !dup && zero)
        &&& (r == Err::<FTReply, FTError>(FTError::NotEnoughBalance) <==> !dup && !zero && nobal)
        &&& (r == Err::<FTReply, FTError>(FTError::NotAllowedToTransfer) <==> !dup && !zero
            && !nobal && noallow)
        &&& (r is Ok <==> ok)
        &&& (ok ==> r == Ok::<FTReply, FTError>(FTReply::Transferred { from, to, amount }))
        &&& post.current_supply == pre.current_supply
        &&& post.total_supply == pre.total_supply
        &&& post.admins == pre.admins
        &&& Self::same_token_info(pre, post)
        &&& (ok ==> {
            &&& (forall|x: ActorId| #[trigger] post.balance_of(x) as int == pre.balance_of(x)
                as int - (if x == from {
                amount as int
            } else {
                0int
            }) + (if x == to {
                amount as int
            } else {
                0int
            }))
            &&& (caller != from ==> (forall|p: (ActorId, ActorId)| #[trigger]
                assoc_find(post.allowances@, p) == if p == (from, caller) {
                    Some((pre.allowance_of(from, caller) - amount) as u128)
                } else {
                    assoc_find(pre.allowances@, p)
                }))
            &&& (caller == from ==> post.allowances == pre.allowances)
        })
        &&& (!ok ==> post.balances == pre.balances && post.allowances == pre.allowances)
        &&& match tx_id {
            None => post.tx_ids == pre.tx_ids,
            Some(t) => forall|x: ActorId, tt: TxId| #[trigger]
                tx_status(post.tx_ids@, x, tt) == if ok && x == caller && tt == t {
                    Some((now + pre.config.tx_storage_period) as u64)
                } else {
                    evicted_status(pre.tx_ids@, caller, now, x, tt)
                },
        }
    }

    /// Transition relation of `approve`.
    pub open spec fn approve_post(
        pre: Self,
        post: Self,
        caller: ActorId,
        now: u64,
        tx_id: Option<TxId>,
        to: ActorId,
        amount: u128,
        r: Result<FTReply, FTError>,
    ) -> bool {
        let zero = to == ZERO_ID;
        let dup = Self::dup_tx(pre, caller, now, tx_id);
        let ok = !zero && !dup;
        &&& (r == Err::<FTReply, FTError>(FTError::ZeroAddress) <==> zero)
        &&& (r == Err::<FTReply, FTError>(FTError::TxAlreadyExists) <==> !zero && dup)
        &&& (r is Ok <==> ok)
        &&& (ok ==> r == Ok::<FTReply, FTError>(FTReply::Approved { from: caller, to, amount }))
        &&& post.balances == pre.balances
        &&& post.current_supply == pre.current_supply
        &&& post.total_supply == pre.total_supply
        &&& post.admins == pre.admins
        &&& Self::same_token_info(pre, post)
        &&& (ok ==> (forall|p: (ActorId, ActorId)| #[trigger]
            assoc_find(post.allowances@, p) == if p == (caller, to) {
                Some(amount)
            } else {
                assoc_find(pre.allowances@, p)
            }))
        &&& (!ok ==> post.allowances == pre.allowances)
        &&& (zero ==> post == pre)
        &&& (!zero ==> match tx_id {
            None => post.tx_ids == pre.tx_ids,
            Some(t) => forall|x: ActorId, tt: TxId| #[trigger]
                tx_status(post.tx_ids@, x, tt) == if ok && x == caller && tt == t {
                    Some((now + pre.config.tx_storage_period) as u64)
                } else {
                    evicted_status(pre.tx_ids@, caller, now, x, tt)
                },
        })
    }

    /// Transition relation of `transfer_to_users`: each recipient, duplicates
    /// included, receives a separate credit of `amount`.
    pub open spec fn transfer_to_users_post(
        pre: Self,
        post: Self,
        caller: ActorId,
        amount: u128,
        to_users: Vec<ActorId>,
        r: Result<FTReply, FTError>,
    ) -> bool {
        let total = amount as int * to_users@.len() as int;
        if !pre.is_admin(caller) {
            r == Err::<FTReply, FTError>(FTError::NotAdmin) && post == pre
        } else if (pre.balance_of(caller) as int) < total {
            r == Err::<FTReply, FTError>(FTError::NotEnoughBalance) && post == pre
        } else {
            &&& r == Ok::<FTReply, FTError>(
                FTReply::TransferredToUsers { from: caller, to_users, amount },
            )
            &&& (forall|x: ActorId| #[trigger] post.balance_of(x) as int == pre.balance_of(x)
                as int - (if x == caller {
                total
            } else {
                0int
            }) + amount as int * occurrences(to_users@, x))
            &&& post.current_supply == pre.current_supply
            &&& post.total_supply == pre.total_supply
            &&& post.allowances == pre.allowances
            &&& post.tx_ids == pre.tx_ids
            &&& post.admins == pre.admins
            &&& Self::same_token_info(pre, post)
        }
    }

    /// Transition relation of `add_admin`.
    pub open spec fn add_admin_post(
        pre: Self,
        post: Self,
        caller: ActorId,
        admin_id: ActorId,
        r: Result<FTReply, FTError>,
    ) -> bool {
        if !pre.is_admin(caller) {
            r == Err::<FTReply, FTError>(FTError::NotAdmin) && post == pre
        } else if pre.is_admin(admin_id) {
            r == Err::<FTReply, FTError>(FTError::AdminAlreadyExists) && post == pre
        } else {
            &&& r == Ok::<FTReply, FTError>(FTReply::AdminAdded { admin_id })
            &&& post.admins@ == pre.admins@.push(admin_id)
            &&& post.balances == pre.balances
            &&& post.allowances == pre.allowances
            &&& post.tx_ids == pre.tx_ids
            &&& post.current_supply == pre.current_supply
            &&& post.total_supply == pre.total_supply
            &&& Self::same_token_info(pre, post)
        }
    }

    /// Transition relation of `delete_admin`: self-removal is refused, which
    /// is the sole safeguard keeping the admin set non-empty.
    pub open spec fn delete_admin_post(
        pre: Self,
        post: Self,
        caller: ActorId,
        admin_id: ActorId,
        r: Result<FTReply, FTError>,
    ) -> bool {
        if !pre.is_admin(caller) {
            r == Err::<FTReply, FTError>(FTError::NotAdmin) && post == pre
        } else if admin_id == caller {
            r == Err::<FTReply, FTError>(FTError::CantDeleteYourself) && post == pre
        } else {
            &&& r == Ok::<FTReply, FTError>(FTReply::AdminRemoved { admin_id })
            &&& (forall|x: ActorId| #[trigger]
                post.is_admin(x) <==> pre.is_admin(x) && x != admin_id)
            &&& post.balances == pre.balances
            &&& post.allowances == pre.allowances
            &&& post.tx_ids == pre.tx_ids
            &&& post.current_supply == pre.current_supply
            &&& post.total_supply == pre.total_supply
            &&& Self::same_token_info(pre, post)
        }
    }
}

/// Whether `a` stands in the list `v`.
fn contains_actor(v: &Vec<ActorId>, a: ActorId) -> (r: bool)
    ensures
        r == v@.contains(a),
{
    let n = v.len();
    let mut i: usize = 0;
    while i < n
        invariant
            n == v@.len(),
            i <= n,
            forall|m: int| 0 <= m < i ==> v@[m] != a,
        decreases n - i,
    {
        if v[i] == a {
            proof {
                assert(v@[i as int] == a);
            }
            return true;
        }
        i = i + 1;
    }
    false
}

impl FungibleToken {
    /// Build a ledger from the caller-supplied configuration, crediting the
    /// whole initial supply to the initial admin. The supply, description
    /// and decimals checks are hard rejections.
    pub fn init(cfg: InitConfig) -> (r: Result<FungibleToken, FTError>)
        ensures
            r is Ok <==> (cfg.initial_supply <= cfg.total_supply && cfg.description@.len() <= 500
                && cfg.decimals <= 100),
            r is Err ==> r == Err::<FungibleToken, FTError>(
                if cfg.initial_supply > cfg.total_supply {
                    FTError::SupplyError
                } else if cfg.description@.len() > 500 {
                    FTError::DescriptionError
                } else {
                    FTError::DecimalsError
                },
            ),
            r is Ok ==> {
                let ft = r->Ok_0;
                &&& ft.wf()
                &&& ft.name == cfg.name
                &&& ft.symbol == cfg.symbol
                &&& ft.decimals == cfg.decimals
                &&& ft.description == cfg.description
                &&& ft.external_links == cfg.external_links
                &&& ft.config == cfg.config
                &&& ft.current_supply == cfg.initial_supply
                &&& ft.total_supply == cfg.total_supply
                &&& ft.balance_of(cfg.admin) == cfg.initial_supply
                &&& (forall|x: ActorId| x != cfg.admin ==> ft.balance_of(x) == 0)
                &&& ft.admins@ == seq![cfg.admin]
                &&& ft.allowances@ == Seq::<((ActorId, ActorId), u128)>::empty()
                &&& ft.tx_ids@ == Seq::<(ActorId, Vec<(TxId, ValidUntil)>)>::empty()
            },
    {
        if cfg.initial_supply > cfg.total_supply {
            return Err(FTError::SupplyError);
        }
        if cfg.description.as_str().unicode_len() > 500 {
            return Err(FTError::DescriptionError);
        }
        if cfg.decimals > 100 {
            return Err(FTError::DecimalsError);
        }
        let mut balances: Vec<(ActorId, u128)> = Vec::new();
        balances.push((cfg.admin, cfg.initial_supply));
        let mut admins: Vec<ActorId> = Vec::new();
        admins.push(cfg.admin);
        proof {
            assert(balances@ =~= seq![(cfg.admin, cfg.initial_supply)]);
            assert(balances@.drop_first() =~= Seq::<(ActorId, u128)>::empty());
            assert(balances@[0] == (cfg.admin, cfg.initial_supply));
            assert(amounts_sum(balances@.drop_first()) == 0);
            assert(amounts_sum(balances@) == cfg.initial_supply);
            assert forall|x: ActorId| x != cfg.admin implies bal_of(balances@, x) == 0 by {
                assert(assoc_find(balances@, x) == assoc_find(balances@.drop_first(), x));
            }
            assert(admins@ =~= seq![cfg.admin]);
        }
        Ok(
            FungibleToken {
                name: cfg.name,
                symbol: cfg.symbol,
                decimals: cfg.decimals,
                description: cfg.description,
                external_links: cfg.external_links,
                current_supply: cfg.initial_supply,
                total_supply: cfg.total_supply,
                balances,
                allowances: Vec::new(),
                tx_ids: Vec::new(),
                config: cfg.config,
                admins,
            },
        )
    }

    /// Create `amount` new tokens for `to`, within the supply cap.
    pub fn mint(&mut self, caller: ActorId, amount: u128, to: ActorId) -> (r: Result<
        FTReply,
        FTError,
    >)
        requires
            old(self).wf(),
        ensures
            final(self).wf(),
            Self::mint_post(*old(self), *final(self), caller, amount, to, r),
    {
        if !contains_actor(&self.admins, caller) {
            return Err(FTError::NotAdmin);
        }
        if amount > self.total_supply - self.current_supply {
            return Err(FTError::MaxSupplyReached);
        }
        proof {
            lemma_bal_le_sum(self.balances@, to);
        }
        credit(&mut self.balances, to, amount);
        self.current_supply = self.current_supply + amount;
        Ok(FTReply::Transferred { from: ZERO_ID, to, amount })
    }

    /// Destroy `amount` of the caller's tokens, permanently lowering both
    /// the current and the total supply.
    pub fn burn(&mut self, caller: ActorId, amount: u128) -> (r: Result<FTReply, FTError>)
        requires
            old(self).wf(),
        ensures
            final(self).wf(),
            Self::burn_post(*old(self), *final(self), caller, amount, r),
    {
        let bal = balance_get(&self.balances, caller);
        if bal < amount {
            return Err(FTError::NotEnoughBalance);
        }
        proof {
            lemma_bal_le_sum(self.balances@, caller);
        }
        debit(&mut self.balances, caller, amount);
        self.current_supply = self.current_supply - amount;
        self.total_supply = self.total_supply - amount;
        Ok(FTReply::Transferred { from: caller, to: ZERO_ID, amount })
    }

    /// Admit `admin_id` to the admin set.
    pub fn add_admin(&mut self, caller: ActorId, admin_id: ActorId) -> (r: Result<
        FTReply,
        FTError,
    >)
        requires
            old(self).wf(),
        ensures
            final(self).wf(),
            Self::add_admin_post(*old(self), *final(self), caller, admin_id, r),
    {
        if !contains_actor(&self.admins, caller) {
            return Err(FTError::NotAdmin);
        }
        if contains_actor(&self.admins, admin_id) {
            return Err(FTError::AdminAlreadyExists);
        }
        proof {
            let olda = self.admins@;
            assert forall|i: int, j: int| 0 <= i < j < olda.push(admin_id).len() implies olda.push(
                admin_id,
            )[i] != olda.push(admin_id)[j] by {
                if j < olda.len() {
                    assert(olda.push(admin_id)[i] == olda[i]);
                    assert(olda.push(admin_id)[j] == olda[j]);
                } else {
                    assert(olda.push(admin_id)[i] == olda[i]);
                    assert(olda.push(admin_id)[j] == admin_id);
                }
            }
        }
        self.admins.push(admin_id);
        proof {
            assert(self.admins@.contains(caller)) by {
                let k = choose|k: int| 0 <= k < old(self).admins@.len() && old(self).admins@[k]
                    == caller;
                assert(self.admins@[k] == caller);
            }
        }
        Ok(FTReply::AdminAdded { admin_id })
    }

    /// Remove `admin_id` from the admin set; removing oneself is refused.
    pub fn delete_admin(&mut self, caller: ActorId, admin_id: ActorId) -> (r: Result<
        FTReply,
        FTError,
    >)
        requires
            old(self).wf(),
        ensures
            final(self).wf(),
            Self::delete_admin_post(*old(self), *final(self), caller, admin_id, r),
    {
        if !contains_actor(&self.admins, caller) {
            return Err(FTError::NotAdmin);
        }
        if admin_id == caller {
            return Err(FTError::CantDeleteYourself);
        }
        let ghost olda = self.admins@;
        let n = self.admins.len();
        let mut kept: Vec<ActorId> = Vec::new();
        let mut i: usize = 0;
        proof {
            assert(olda.take(0) =~= Seq::<ActorId>::empty());
        }
        while i < n
            invariant
                n == olda.len(),
                self.admins@ == olda,
                i <= n,
                forall|p: int, q: int| 0 <= p < q < olda.len() ==> olda[p] != olda[q],
                forall|x: ActorId| #[trigger]
                    kept@.contains(x) <==> (olda.take(i as int).contains(x) && x != admin_id),
                forall|p: int, q: int| 0 <= p < q < kept@.len() ==> kept@[p] != kept@[q],
            decreases n - i,
        {
            let x = self.admins[i];
            proof {
                assert(olda.take(i + 1 as int) =~= olda.take(i as int).push(olda[i as int]));
                assert forall|y: ActorId|
                    olda.take(i + 1 as int).contains(y) <==> (olda.take(i as int).contains(y) || y
                        == olda[i as int]) by {
                    if olda.take(i + 1 as int).contains(y) {
                        let m = choose|m: int|
                            0 <= m < olda.take(i + 1 as int).len() && (#[trigger] olda.take(
                                i + 1 as int,
                            )[m]) == y;
                        if m < i {
                            assert(olda.take(i as int)[m] == y);
                        }
                    }
                    if olda.take(i as int).contains(y) {
                        let m = choose|m: int|
                            0 <= m < olda.take(i as int).len() && (#[trigger] olda.take(
                                i as int,
                            )[m]) == y;
                        assert(olda.take(i + 1 as int)[m] == y);
                    }
                    if y == olda[i as int] {
                        assert(olda.take(i + 1 as int)[i as int] == y);
                    }
                }
            }
            if x != admin_id {
                proof {
                    assert(!kept@.contains(x)) by {
                        if kept@.contains(x) {
                            assert(olda.take(i as int).contains(x));
                            let m = choose|m: int|
                                0 <= m < i && (#[trigger] olda.take(i as int)[m]) == x;
                            assert(olda[m] == olda[i as int]);
                        }
                    }
                    assert forall|y: ActorId|
                        kept@.push(x).contains(y) <==> (kept@.contains(y) || y == x) by {
                        if kept@.push(x).contains(y) {
                            let m = choose|m: int|
                                0 <= m < kept@.push(x).len() && (#[trigger] kept@.push(x)[m]) == y;
                            if m < kept@.len() {
                                assert(kept@[m] == y);
                            }
                        }
                        if kept@.contains(y) {
                            let m = choose|m: int| 0 <= m < kept@.len() && kept@[m] == y;
                            assert(kept@.push(x)[m] == y);
                        }
                        if y == x {
                            assert(kept@.push(x)[kept@.len() as int] == y);
                        }
                    }
                    assert forall|p: int, q: int|
                        0 <= p < q < kept@.push(x).len() implies kept@.push(x)[p] != kept@.push(
                        x,
                    )[q] by {
                        if q < kept@.len() {
                            assert(kept@.push(x)[p] == kept@[p]);
                            assert(kept@.push(x)[q] == kept@[q]);
                        } else {
                            assert(kept@.push(x)[p] == kept@[p]);
                            assert(kept@.contains(kept@[p]));
                        }
                    }
                }
                let ghost oldkept = kept@;
                kept.push(x);
                proof {
                    assert forall|y: ActorId| #[trigger]
                        kept@.contains(y) <==> (olda.take(i + 1 as int).contains(y) && y
                            != admin_id) by {
                        assert(kept@.contains(y) <==> (oldkept.contains(y) || y == x));
                        assert(olda.take(i + 1 as int).contains(y) <==> (olda.take(
                            i as int,
                        ).contains(y) || y == olda[i as int]));
                    }
                }
            } else {
                proof {
                    assert forall|y: ActorId| #[trigger]
                        kept@.contains(y) <==> (olda.take(i + 1 as int).contains(y) && y
                            != admin_id) by {
                        assert(olda.take(i + 1 as int).contains(y) <==> (olda.take(
                            i as int,
                        ).contains(y) || y == olda[i as int]));
                    }
                }
            }
            i = i + 1;
        }
        proof {
            assert(olda.take(n as int) =~= olda);
        }
        self.admins = kept;
        proof {
            assert(self.admins@.contains(caller));
            assert(self.admins@.len() >= 1) by {
                let m = choose|m: int| 0 <= m < self.admins@.len() && self.admins@[m] == caller;
            }
        }
        Ok(FTReply::AdminRemoved { admin_id })
    }

    /// Move `amount` from `from` to `to`, on the owner's own authority or
    /// against a stored allowance, with optional replay protection.
    pub fn transfer(
        &mut self,
        caller: ActorId,
        now: u64,
        tx_id: Option<TxId>,
        from: ActorId,
        to: ActorId,
        amount: u128,
    ) -> (r: Result<FTReply, FTError>)
        requires
            old(self).wf(),
            tx_id is Some ==> now + old(self).config.tx_storage_period <= u64::MAX,
        ensures
            final(self).wf(),
            Self::transfer_post(
                *old(self),
                *final(self),
                caller,
                now,
                tx_id,
                from,
                to,
                amount,
                r,
            ),
    {
        if let Some(t) = tx_id {
            tx_evict(&mut self.tx_ids, caller, now);
            let hit = tx_get(&self.tx_ids, caller, t);
            if hit.is_some() {
                return Err(FTError::TxAlreadyExists);
            }
        }
        if from == ZERO_ID || to == ZERO_ID {
            return Err(FTError::ZeroAddress);
        }
        let bal = balance_get(&self.balances, from);
        if bal < amount {
            return Err(FTError::NotEnoughBalance);
        }
        if caller != from {
            match allowance_get(&self.allowances, from, caller) {
                Some(al) => {
                    if al < amount {
                        return Err(FTError::NotAllowedToTransfer);
                    }
                    allowance_dec(&mut self.allowances, from, caller, amount);
                }
                None => {
                    return Err(FTError::NotAllowedToTransfer);
                }
            }
        }
        debit(&mut self.balances, from, amount);
        proof {
            lemma_bal_le_sum(self.balances@, to);
        }
        credit(&mut self.balances, to, amount);
        if let Some(t) = tx_id {
            tx_record(&mut self.tx_ids, caller, t, now + self.config.tx_storage_period);
        }
        Ok(FTReply::Transferred { from, to, amount })
    }

    /// Bind the caller's allowance for `to` to exactly `amount`, with
    /// optional replay protection.
    pub fn approve(
        &mut self,
        caller: ActorId,
        now: u64,
        tx_id: Option<TxId>,
        to: ActorId,
        amount: u128,
    ) -> (r: Result<FTReply, FTError>)
        requires
            old(self).wf(),
            tx_id is Some ==> now + old(self).config.tx_storage_period <= u64::MAX,
        ensures
            final(self).wf(),
            Self::approve_post(*old(self), *final(self), caller, now, tx_id, to, amount, r),
    {
        if to == ZERO_ID {
            return Err(FTError::ZeroAddress);
        }
        if let Some(t) = tx_id {
            tx_evict(&mut self.tx_ids, caller, now);
            let hit = tx_get(&self.tx_ids, caller, t);
            if hit.is_some() {
                return Err(FTError::TxAlreadyExists);
            }
        }
        allowance_set(&mut self.allowances, caller, to, amount);
        if let Some(t) = tx_id {
            tx_record(&mut self.tx_ids, caller, t, now + self.config.tx_storage_period);
        }
        Ok(FTReply::Approved { from: caller, to, amount })
    }

    /// Credit `amount` to every listed recipient, duplicates included,
    /// debiting the admin caller once per recipient.
    pub fn transfer_to_users(&mut self, caller: ActorId, amount: u128, to_users: Vec<ActorId>) -> (r:
        Result<FTReply, FTError>)
        requires
            old(self).wf(),
        ensures
            final(self).wf(),
            Self::transfer_to_users_post(*old(self), *final(self), caller, amount, to_users, r),
    {
        let ghost pre = *old(self);
        if !contains_actor(&self.admins, caller) {
            return Err(FTError::NotAdmin);
        }
        let n = to_users.len();
        let bal = balance_get(&self.balances, caller);
        let enough: bool = match amount.checked_mul(n as u128) {
            Some(total) => bal >= total,
            None => false,
        };
        if !enough {
            return Err(FTError::NotEnoughBalance);
        }
        let ghost users = to_users@;
        let mut k: usize = 0;
        proof {
            assert(users.take(0) =~= Seq::<ActorId>::empty());
        }
        while k < n
            invariant
                pre.wf(),
                n == users.len(),
                to_users@ == users,
                k <= n,
                pre.balance_of(caller) as int >= amount as int * n as int,
                distinct_keys(self.balances@),
                amounts_sum(self.balances@) == self.current_supply,
                self.current_supply == pre.current_supply,
                self.total_supply == pre.total_supply,
                self.allowances == pre.allowances,
                self.tx_ids == pre.tx_ids,
                self.admins == pre.admins,
                self.name == pre.name,
                self.symbol == pre.symbol,
                self.decimals == pre.decimals,
                self.description == pre.description,
                self.external_links == pre.external_links,
                self.config == pre.config,
                self.current_supply <= self.total_supply,
                forall|x: ActorId| #[trigger] bal_of(self.balances@, x) as int == pre.balance_of(
                    x,
                ) as int - (if x == caller {
                    amount as int * k as int
                } else {
                    0int
                }) + amount as int * occurrences(users.take(k as int), x),
            decreases n - k,
        {
            let to = to_users[k];
            proof {
                lemma_occurrences_nonneg(users.take(k as int), caller);
                assert(amount as int * n as int - amount as int * k as int == amount as int * (
                n as int - k as int)) by (nonlinear_arith);
                assert(amount as int * (n as int - k as int) >= amount as int) by (nonlinear_arith)
                    requires
                        n as int - k as int >= 1,
                ;
                assert(bal_of(self.balances@, caller) >= amount);
            }
            debit(&mut self.balances, caller, amount);
            proof {
                lemma_bal_le_sum(self.balances@, to);
            }
            credit(&mut self.balances, to, amount);
            proof {
                assert(users.take(k + 1 as int).drop_last() =~= users.take(k as int));
                assert(users.take(k + 1 as int).last() == users[k as int]);
                assert forall|x: ActorId| #[trigger] bal_of(self.balances@, x) as int
                    == pre.balance_of(x) as int - (if x == caller {
                    amount as int * (k + 1) as int
                } else {
                    0int
                }) + amount as int * occurrences(users.take(k + 1 as int), x) by {
                    assert(occurrences(users.take(k + 1 as int), x) == occurrences(
                        users.take(k as int),
                        x,
                    ) + if users[k as int] == x {
                        1int
                    } else {
                        0int
                    });
                    assert(amount as int * (occurrences(users.take(k as int), x) + 1) == amount
                        as int * occurrences(users.take(k as int), x) + amount as int)
                        by (nonlinear_arith);
                    assert(amount as int * (k + 1) as int == amount as int * k as int + amount
                        as int) by (nonlinear_arith);
                }
            }
            k = k + 1;
        }
        proof {
            assert(users.take(n as int) =~= users);
        }
        Ok(FTReply::TransferredToUsers { from: caller, to_users, amount })
    }

    /// The timestamp bound a protected action needs so that recording its
    /// expiry cannot overflow.
    pub open spec fn action_now_ok(pre: Self, now: u64, action: FTAction) -> bool {
        match action {
            FTAction::Transfer { tx_id, .. } => tx_id is Some ==> now
                + pre.config.tx_storage_period <= u64::MAX,
            FTAction::Approve { tx_id, .. } => tx_id is Some ==> now
                + pre.config.tx_storage_period <= u64::MAX,
            _ => true,
        }
    }

    /// Transition relation of `handle`: each action behaves as its
    /// operation's own relation says.
    pub open spec fn handle_post(
        pre: Self,
        post: Self,
        caller: ActorId,
        now: u64,
        action: FTAction,
        r: Result<FTReply, FTError>,
    ) -> bool {
        match action {
            FTAction::Mint { amount, to } => Self::mint_post(pre, post, caller, amount, to, r),
            FTAction::Burn { amount } => Self::burn_post(pre, post, caller, amount, r),
            FTAction::Transfer { tx_id, from, to, amount } => Self::transfer_post(
                pre,
                post,
                caller,
                now,
                tx_id,
                from,
                to,
                amount,
                r,
            ),
            FTAction::Approve { tx_id, to, amount } => Self::approve_post(
                pre,
                post,
                caller,
                now,
                tx_id,
                to,
                amount,
                r,
            ),
            FTAction::TransferToUsers { amount, to_users } => Self::transfer_to_users_post(
                pre,
                post,
                caller,
                amount,
                to_users,
                r,
            ),
            FTAction::AddAdmin { admin_id } => Self::add_admin_post(pre, post, caller, admin_id, r),
            FTAction::DeleteAdmin { admin_id } => Self::delete_admin_post(
                pre,
                post,
                caller,
                admin_id,
                r,
            ),
            FTAction::BalanceOf(account) => r == Ok::<FTReply, FTError>(
                FTReply::Balance(pre.balance_of(account)),
            ) && post == pre,
        }
    }

    /// Route one state-changing request, taken at time `now` on behalf of
    /// the authenticated `caller`, to its operation.
    pub fn handle(&mut self, caller: ActorId, now: u64, action: FTAction) -> (r: Result<
        FTReply,
        FTError,
    >)
        requires
            old(self).wf(),
            Self::action_now_ok(*old(self), now, action),
        ensures
            final(self).wf(),
            Self::handle_post(*old(self), *final(self), caller, now, action, r),
    {
        match action {
            FTAction::Mint { amount, to } => self.mint(caller, amount, to),
            FTAction::Burn { amount } => self.burn(caller, amount),
            FTAction::Transfer { tx_id, from, to, amount } => self.transfer(
                caller,
                now,
                tx_id,
                from,
                to,
                amount,
            ),
            FTAction::Approve { tx_id, to, amount } => self.approve(caller, now, tx_id, to, amount),
            FTAction::TransferToUsers { amount, to_users } => self.transfer_to_users(
                caller,
                amount,
                to_users,
            ),
            FTAction::AddAdmin { admin_id } => self.add_admin(caller, admin_id),
            FTAction::DeleteAdmin { admin_id } => self.delete_admin(caller, admin_id),
            FTAction::BalanceOf(account) => Ok(
                FTReply::Balance(balance_get(&self.balances, account)),
            ),
        }
    }

    /// Answer one read-only query.
    pub fn state_query(&self, q: Query) -> (r: QueryReply)
        requires
            self.wf(),
        ensures
            match q {
                Query::Name => r == QueryReply::Name(self.name),
                Query::Symbol => r == QueryReply::Symbol(self.symbol),
                Query::Decimals => r == QueryReply::Decimals(self.decimals),
                Query::Description => r == QueryReply::Description(self.description),
                Query::ExternalLinks => r matches QueryReply::ExternalLinks(e) && e.links@
                    == self.external_links.links@,
                Query::CurrentSupply => r == QueryReply::CurrentSupply(self.current_supply),
                Query::TotalSupply => r == QueryReply::TotalSupply(self.total_supply),
                Query::BalanceOf(account) => r == QueryReply::Balance(self.balance_of(account)),
                Query::AllowanceOfAccount { account, approved_account } => r
                    == QueryReply::AllowanceOfAccount(
                    self.allowance_of(account, approved_account),
                ),
                Query::Admins => r matches QueryReply::Admins(v) && v@ == self.admins@,
                Query::GetTxValidityTime { account, tx_id } => r == QueryReply::TxValidityTime(
                    match self.tx_status_of(account, tx_id) {
                        Some(vu) => vu,
                        None => 0,
                    },
                ),
                Query::GetTxIdsForAccount { account } => r matches QueryReply::TxIdsForAccount {
                    tx_ids,
                } && (forall|t: TxId| #[trigger]
                    tx_ids@.contains(t) <==> self.tx_status_of(account, t) is Some),
            },
    {
        match q {
            Query::Name => QueryReply::Name(self.name.clone()),
            Query::Symbol => QueryReply::Symbol(self.symbol.clone()),
            Query::Decimals => QueryReply::Decimals(self.decimals),
            Query::Description => QueryReply::Description(self.description.clone()),
            Query::ExternalLinks => QueryReply::ExternalLinks(
                ExternalLinks { links: clone_strings(&self.external_links.links) },
            ),
            Query::CurrentSupply => QueryReply::CurrentSupply(self.current_supply),
            Query::TotalSupply => QueryReply::TotalSupply(self.total_supply),
            Query::BalanceOf(account) => QueryReply::Balance(balance_get(&self.balances, account)),
            Query::AllowanceOfAccount { account, approved_account } => {
                match allowance_get(&self.allowances, account, approved_account) {
                    Some(al) => QueryReply::AllowanceOfAccount(al),
                    None => QueryReply::AllowanceOfAccount(0),
                }
            }
            Query::Admins => QueryReply::Admins(copy_actors(&self.admins)),
            Query::GetTxValidityTime { account, tx_id } => {
                match tx_get(&self.tx_ids, account, tx_id) {
                    Some(vu) => QueryReply::TxValidityTime(vu),
                    None => QueryReply::TxValidityTime(0),
                }
            }
            Query::GetTxIdsForAccount { account } => QueryReply::TxIdsForAccount {
                tx_ids: tx_ids_for(&self.tx_ids, account),
            },
        }
    }
}

/// An element-for-element copy of a list of account identifiers.
fn copy_actors(v: &Vec<ActorId>) -> (r: Vec<ActorId>)
    ensures
        r@ == v@,
{
    let n = v.len();
    let mut r: Vec<ActorId> = Vec::new();
    let mut i: usize = 0;
    while i < n
        invariant
            n == v@.len(),
            i <= n,
            r@.len() == i,
            forall|m: int| 0 <= m < i ==> r@[m] == v@[m],
        decreases n - i,
    {
        r.push(v[i]);
        i = i + 1;
    }
    proof {
        assert(r@ =~= v@);
    }
    r
}

/// An element-for-element copy of a list of strings.
fn clone_strings(v: &Vec<String>) -> (r: Vec<String>)
    ensures
        r@ == v@,
{
    let n = v.len();
    let mut r: Vec<String> = Vec::new();
    let mut i: usize = 0;
    while i < n
        invariant
            n == v@.len(),
            i <= n,
            r@.len() == i,
            forall|m: int| 0 <= m < i ==> r@[m] == v@[m],
        decreases n - i,
    {
        r.push(v[i].clone());
        i = i + 1;
    }
    proof {
        assert(r@ =~= v@);
    }
    r
}

} // verus!
