use grc20_ledger::io::{Config, ExternalLinks, FTError, FTReply, InitConfig, Query, QueryReply};
use grc20_ledger::token::FungibleToken;

fn replay_config(admin: u64, period: u64) -> InitConfig {
    InitConfig {
        name: String::from("Gold"),
        symbol: String::from("GLD"),
        decimals: 9,
        description: String::from("A token for the replay bench"),
        external_links: ExternalLinks { links: Vec::new() },
        initial_supply: 100,
        total_supply: 1000,
        admin,
        config: Config { tx_storage_period: period },
    }
}

fn held_by(ft: &FungibleToken, who: u64) -> u128 {
    match ft.state_query(Query::BalanceOf(who)) {
        QueryReply::Balance(b) => b,
        _ => panic!("unexpected reply"),
    }
}

fn validity(ft: &FungibleToken, who: u64, tx: u64) -> u64 {
    match ft.state_query(Query::GetTxValidityTime { account: who, tx_id: tx }) {
        QueryReply::TxValidityTime(t) => t,
        _ => panic!("unexpected reply"),
    }
}

fn tracked_ids(ft: &FungibleToken, who: u64) -> Vec<u64> {
    match ft.state_query(Query::GetTxIdsForAccount { account: who }) {
        QueryReply::TxIdsForAccount { tx_ids } => tx_ids,
        _ => panic!("unexpected reply"),
    }
}

const A: u64 = 1;
const B: u64 = 2;

#[test]
fn duplicate_tx_id_is_rejected_within_retention() {
    let mut ft = FungibleToken::init(replay_config(A, 100)).unwrap();
    let r = ft.transfer(A, 10, Some(7), A, B, 5);
    assert_eq!(r.unwrap(), FTReply::Transferred { from: A, to: B, amount: 5 });
    assert_eq!(held_by(&ft, B), 5);
    assert_eq!(validity(&ft, A, 7), 110);
    assert_eq!(tracked_ids(&ft, A), vec![7]);
    // The same id within the window: rejected, and no double debit.
    let r2 = ft.transfer(A, 50, Some(7), A, B, 5);
    assert_eq!(r2.unwrap_err(), FTError::TxAlreadyExists);
    assert_eq!(held_by(&ft, A), 95);
    assert_eq!(held_by(&ft, B), 5);
    // At the expiry timestamp itself the id still counts as a replay.
    assert_eq!(ft.transfer(A, 110, Some(7), A, B, 5).unwrap_err(), FTError::TxAlreadyExists);
}

#[test]
fn expired_tx_id_is_accepted_as_fresh() {
    let mut ft = FungibleToken::init(replay_config(A, 100)).unwrap();
    assert!(ft.transfer(A, 10, Some(7), A, B, 5).is_ok());
    // Past expiry the id is evicted and accepted again as fresh.
    let r = ft.transfer(A, 111, Some(7), A, B, 5);
    assert_eq!(r.unwrap(), FTReply::Transferred { from: A, to: B, amount: 5 });
    assert_eq!(held_by(&ft, B), 10);
    assert_eq!(validity(&ft, A, 7), 211);
}

#[test]
fn failed_transfer_does_not_record_its_tx_id() {
    let mut ft = FungibleToken::init(replay_config(A, 100)).unwrap();
    assert_eq!(ft.transfer(A, 10, Some(9), A, B, 1000).unwrap_err(), FTError::NotEnoughBalance);
    assert_eq!(validity(&ft, A, 9), 0);
    assert_eq!(tracked_ids(&ft, A), Vec::<u64>::new());
    // The id is still free for a later, valid transfer.
    assert!(ft.transfer(A, 11, Some(9), A, B, 1).is_ok());
}

#[test]
fn replay_protection_is_per_account() {
    let mut ft = FungibleToken::init(replay_config(A, 100)).unwrap();
    assert!(ft.transfer(A, 10, Some(7), A, B, 5).is_ok());
    // B uses the same id for its own protected operation: no clash.
    assert!(ft.transfer(B, 20, Some(7), B, A, 2).is_ok());
    assert_eq!(validity(&ft, A, 7), 110);
    assert_eq!(validity(&ft, B, 7), 120);
}

#[test]
fn eviction_clears_only_expired_ids_of_the_caller() {
    let mut ft = FungibleToken::init(replay_config(A, 100)).unwrap();
    assert!(ft.transfer(A, 10, Some(1), A, B, 1).is_ok());
    assert!(ft.transfer(A, 60, Some(2), A, B, 1).is_ok());
    // At 115, id 1 (valid until 110) is expired, id 2 (until 160) is not.
    assert!(ft.transfer(A, 115, Some(3), A, B, 1).is_ok());
    let ids = tracked_ids(&ft, A);
    assert!(!ids.contains(&1));
    assert!(ids.contains(&2));
    assert!(ids.contains(&3));
    assert_eq!(validity(&ft, A, 1), 0);
}

#[test]
fn approve_honours_replay_protection() {
    let mut ft = FungibleToken::init(replay_config(A, 100)).unwrap();
    let b_spender: u64 = B;
    assert!(ft.approve(A, 10, Some(4), b_spender, 30).is_ok());
    assert_eq!(ft.approve(A, 20, Some(4), b_spender, 50).unwrap_err(), FTError::TxAlreadyExists);
    // The failed second approve must not overwrite the allowance.
    match ft.state_query(Query::AllowanceOfAccount { account: A, approved_account: b_spender }) {
        QueryReply::AllowanceOfAccount(v) => assert_eq!(v, 30),
        _ => panic!("unexpected reply"),
    }
    // After the retention period the id serves again.
    assert!(ft.approve(A, 111, Some(4), b_spender, 50).is_ok());
}

#[test]
fn zero_address_approve_skips_replay_recording() {
    let mut ft = FungibleToken::init(replay_config(A, 100)).unwrap();
    assert_eq!(ft.approve(A, 10, Some(5), 0, 1).unwrap_err(), FTError::ZeroAddress);
    assert_eq!(validity(&ft, A, 5), 0);
}
