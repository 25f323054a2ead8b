//! The ledger's governing laws, each proved from the operations' transition
//! relations alone.

use crate::assoc::amounts_sum;
use crate::io::{ActorId, FTError, FTReply, TxId, ZERO_ID};
use crate::token::FungibleToken;
use vstd::prelude::*;

verus! {

/// Conservation of value: in every well-formed ledger the balances sum to
/// the current supply, which never exceeds the total supply. Every
/// operation both requires and re-establishes well-formedness, so this
/// holds after every step of every sequence of operations.
pub proof fn law_conservation(ft: FungibleToken)
    requires
        ft.wf(),
    ensures
        amounts_sum(ft.balances@) == ft.current_supply,
        ft.current_supply <= ft.total_supply,
{
}

/// Supply ceiling: a mint never lifts the current supply above the total
/// supply, and succeeds only when the headroom covers the minted amount.
pub proof fn law_mint_ceiling(
    pre: FungibleToken,
    post: FungibleToken,
    caller: ActorId,
    amount: u128,
    to: ActorId,
    r: Result<FTReply, FTError>,
)
    requires
        pre.wf(),
        FungibleToken::mint_post(pre, post, caller, amount, to, r),
    ensures
        post.current_supply <= post.total_supply,
        r is Ok ==> pre.current_supply + amount <= pre.total_supply,
        r is Err ==> post.current_supply == pre.current_supply,
{
}

/// A burn reduces the current and the total supply by the same amount.
pub proof fn law_burn_reduces_both(
    pre: FungibleToken,
    post: FungibleToken,
    caller: ActorId,
    amount: u128,
    r: Result<FTReply, FTError>,
)
    requires
        FungibleToken::burn_post(pre, post, caller, amount, r),
        r is Ok,
    ensures
        post.current_supply == pre.current_supply - amount,
        post.total_supply == pre.total_supply - amount,
{
}

/// Allowance consumption: a delegated transfer of `amount` against an
/// allowance of exactly `amount` succeeds and leaves the allowance at zero.
pub proof fn law_allowance_consumed(
    pre: FungibleToken,
    post: FungibleToken,
    caller: ActorId,
    now: u64,
    from: ActorId,
    to: ActorId,
    amount: u128,
    r: Result<FTReply, FTError>,
)
    requires
        pre.wf(),
        FungibleToken::transfer_post(pre, post, caller, now, None, from, to, amount, r),
        caller != from,
        from != ZERO_ID,
        to != ZERO_ID,
        pre.allowance_entry(from, caller) == Some(amount),
        pre.balance_of(from) >= amount,
    ensures
        r is Ok,
        post.allowance_of(from, caller) == 0,
{
}

/// Allowance shortfall: a delegated transfer of `amount` against an
/// allowance of `amount - 1` fails with no change to balances, allowances
/// or the replay index.
pub proof fn law_allowance_short(
    pre: FungibleToken,
    post: FungibleToken,
    caller: ActorId,
    now: u64,
    from: ActorId,
    to: ActorId,
    amount: u128,
    r: Result<FTReply, FTError>,
)
    requires
        pre.wf(),
        FungibleToken::transfer_post(pre, post, caller, now, None, from, to, amount, r),
        caller != from,
        from != ZERO_ID,
        to != ZERO_ID,
        amount >= 1,
        pre.allowance_entry(from, caller) == Some((amount - 1) as u128),
        pre.balance_of(from) >= amount,
    ensures
        r == Err::<FTReply, FTError>(FTError::NotAllowedToTransfer),
        post.balances == pre.balances,
        post.allowances == pre.allowances,
        post.tx_ids == pre.tx_ids,
        post.current_supply == pre.current_supply,
        post.total_supply == pre.total_supply,
{
}

/// Replay rejection: a protected transfer records its transaction id, and
/// any second protected request by the same caller under the same id,
/// within the retention period, fails with a duplicate error and moves no
/// balance or allowance.
pub proof fn law_replay_rejected(
    s0: FungibleToken,
    s1: FungibleToken,
    s2: FungibleToken,
    caller: ActorId,
    now1: u64,
    now2: u64,
    tid: TxId,
    from1: ActorId,
    to1: ActorId,
    amount1: u128,
    from2: ActorId,
    to2: ActorId,
    amount2: u128,
    r1: Result<FTReply, FTError>,
    r2: Result<FTReply, FTError>,
)
    requires
        s0.wf(),
        FungibleToken::transfer_post(s0, s1, caller, now1, Some(tid), from1, to1, amount1, r1),
        r1 is Ok,
        FungibleToken::transfer_post(s1, s2, caller, now2, Some(tid), from2, to2, amount2, r2),
        now2 <= now1 + s0.config.tx_storage_period,
        now1 + s0.config.tx_storage_period <= u64::MAX,
    ensures
        r2 == Err::<FTReply, FTError>(FTError::TxAlreadyExists),
        s2.balances == s1.balances,
        s2.allowances == s1.allowances,
{
    assert(crate::txstore::tx_status(s1.tx_ids@, caller, tid) == Some(
        (now1 + s0.config.tx_storage_period) as u64,
    ));
}

/// Replay expiry: once the retention period has elapsed, the same id is
/// accepted again as a fresh transaction (shown here for an owner moving
/// their own covered balance to a real account).
pub proof fn law_replay_fresh_after_expiry(
    s0: FungibleToken,
    s1: FungibleToken,
    s2: FungibleToken,
    caller: ActorId,
    now1: u64,
    now2: u64,
    tid: TxId,
    from1: ActorId,
    to1: ActorId,
    amount1: u128,
    to2: ActorId,
    amount2: u128,
    r1: Result<FTReply, FTError>,
    r2: Result<FTReply, FTError>,
)
    requires
        s0.wf(),
        FungibleToken::transfer_post(s0, s1, caller, now1, Some(tid), from1, to1, amount1, r1),
        r1 is Ok,
        now1 + s0.config.tx_storage_period <= u64::MAX,
        now2 > now1 + s0.config.tx_storage_period,
        FungibleToken::transfer_post(s1, s2, caller, now2, Some(tid), caller, to2, amount2, r2),
        caller != ZERO_ID,
        to2 != ZERO_ID,
        s1.balance_of(caller) >= amount2,
    ensures
        r2 is Ok,
{
    assert(crate::txstore::tx_status(s1.tx_ids@, caller, tid) == Some(
        (now1 + s0.config.tx_storage_period) as u64,
    ));
}

/// Self-removal guard: an admin deleting themselves always fails, whatever
/// the size of the admin set, and the ledger is left untouched.
pub proof fn law_self_removal_guard(
    pre: FungibleToken,
    post: FungibleToken,
    caller: ActorId,
    r: Result<FTReply, FTError>,
)
    requires
        pre.is_admin(caller),
        FungibleToken::delete_admin_post(pre, post, caller, caller, r),
    ensures
        r == Err::<FTReply, FTError>(FTError::CantDeleteYourself),
        post == pre,
{
}

} // verus!
