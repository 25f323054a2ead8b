use grc20_ledger::io::{
    Config, ExternalLinks, FTAction, FTError, FTReply, InitConfig, Query, QueryReply,
};
use grc20_ledger::token::FungibleToken;

fn ledger_config(admin: u64, initial: u128, total: u128, period: u64) -> InitConfig {
    InitConfig {
        name: String::from("Gold"),
        symbol: String::from("GLD"),
        decimals: 9,
        description: String::from("A token for the test bench"),
        external_links: ExternalLinks { links: vec![String::from("https://example.com/gold")] },
        initial_supply: initial,
        total_supply: total,
        admin,
        config: Config { tx_storage_period: period },
    }
}

fn balance(ft: &FungibleToken, who: u64) -> u128 {
    match ft.state_query(Query::BalanceOf(who)) {
        QueryReply::Balance(b) => b,
        _ => panic!("unexpected reply"),
    }
}

fn current_supply(ft: &FungibleToken) -> u128 {
    match ft.state_query(Query::CurrentSupply) {
        QueryReply::CurrentSupply(s) => s,
        _ => panic!("unexpected reply"),
    }
}

fn total_supply(ft: &FungibleToken) -> u128 {
    match ft.state_query(Query::TotalSupply) {
        QueryReply::TotalSupply(s) => s,
        _ => panic!("unexpected reply"),
    }
}

fn allowance(ft: &FungibleToken, owner: u64, spender: u64) -> u128 {
    match ft.state_query(Query::AllowanceOfAccount { account: owner, approved_account: spender }) {
        QueryReply::AllowanceOfAccount(a) => a,
        _ => panic!("unexpected reply"),
    }
}

const A: u64 = 1;
const B: u64 = 2;
const C: u64 = 3;
const D: u64 = 4;

#[test]
fn init_rejects_supply_above_cap() {
    let r = FungibleToken::init(ledger_config(A, 200, 100, 10));
    assert_eq!(r.unwrap_err(), FTError::SupplyError);
}

#[test]
fn init_rejects_long_description() {
    let mut cfg = ledger_config(A, 10, 100, 10);
    cfg.description = "x".repeat(501);
    assert_eq!(FungibleToken::init(cfg).unwrap_err(), FTError::DescriptionError);
}

#[test]
fn init_rejects_decimals_above_100() {
    let mut cfg = ledger_config(A, 10, 100, 10);
    cfg.decimals = 101;
    assert_eq!(FungibleToken::init(cfg).unwrap_err(), FTError::DecimalsError);
}

#[test]
fn init_credits_admin_with_initial_supply() {
    let ft = FungibleToken::init(ledger_config(A, 100, 1000, 10)).unwrap();
    assert_eq!(balance(&ft, A), 100);
    assert_eq!(balance(&ft, B), 0);
    assert_eq!(current_supply(&ft), 100);
    assert_eq!(total_supply(&ft), 1000);
}

#[test]
fn mint_respects_supply_cap() {
    // init(total_supply=1000, initial_supply=100, admin=A); Mint(50, to=B)
    // succeeds; Mint(900, to=B) hits the cap and changes nothing.
    let mut ft = FungibleToken::init(ledger_config(A, 100, 1000, 10)).unwrap();
    let r = ft.mint(A, 50, B);
    assert_eq!(r.unwrap(), FTReply::Transferred { from: 0, to: B, amount: 50 });
    assert_eq!(current_supply(&ft), 150);
    assert_eq!(balance(&ft, B), 50);
    let r2 = ft.mint(A, 900, B);
    assert_eq!(r2.unwrap_err(), FTError::MaxSupplyReached);
    assert_eq!(current_supply(&ft), 150);
    assert_eq!(balance(&ft, B), 50);
}

#[test]
fn mint_requires_admin() {
    let mut ft = FungibleToken::init(ledger_config(A, 100, 1000, 10)).unwrap();
    assert_eq!(ft.mint(B, 1, B).unwrap_err(), FTError::NotAdmin);
    assert_eq!(current_supply(&ft), 100);
}

#[test]
fn burn_reduces_current_and_total_supply() {
    let mut ft = FungibleToken::init(ledger_config(A, 100, 1000, 10)).unwrap();
    let r = ft.burn(A, 30);
    assert_eq!(r.unwrap(), FTReply::Transferred { from: A, to: 0, amount: 30 });
    assert_eq!(balance(&ft, A), 70);
    assert_eq!(current_supply(&ft), 70);
    assert_eq!(total_supply(&ft), 970);
}

#[test]
fn burn_needs_enough_balance() {
    let mut ft = FungibleToken::init(ledger_config(A, 100, 1000, 10)).unwrap();
    assert_eq!(ft.burn(A, 101).unwrap_err(), FTError::NotEnoughBalance);
    assert_eq!(ft.burn(B, 1).unwrap_err(), FTError::NotEnoughBalance);
    assert_eq!(current_supply(&ft), 100);
    assert_eq!(total_supply(&ft), 1000);
}

#[test]
fn transfer_moves_balance() {
    let mut ft = FungibleToken::init(ledger_config(A, 100, 1000, 10)).unwrap();
    let r = ft.transfer(A, 0, None, A, B, 40);
    assert_eq!(r.unwrap(), FTReply::Transferred { from: A, to: B, amount: 40 });
    assert_eq!(balance(&ft, A), 60);
    assert_eq!(balance(&ft, B), 40);
    assert_eq!(current_supply(&ft), 100);
}

#[test]
fn transfer_rejects_zero_address() {
    let mut ft = FungibleToken::init(ledger_config(A, 100, 1000, 10)).unwrap();
    assert_eq!(ft.transfer(A, 0, None, 0, B, 1).unwrap_err(), FTError::ZeroAddress);
    assert_eq!(ft.transfer(A, 0, None, A, 0, 1).unwrap_err(), FTError::ZeroAddress);
    assert_eq!(balance(&ft, A), 100);
}

#[test]
fn transfer_needs_balance() {
    let mut ft = FungibleToken::init(ledger_config(A, 100, 1000, 10)).unwrap();
    assert_eq!(ft.transfer(A, 0, None, A, B, 101).unwrap_err(), FTError::NotEnoughBalance);
    assert_eq!(balance(&ft, A), 100);
    assert_eq!(balance(&ft, B), 0);
}

#[test]
fn transfer_to_self_changes_nothing() {
    let mut ft = FungibleToken::init(ledger_config(A, 100, 1000, 10)).unwrap();
    assert!(ft.transfer(A, 0, None, A, A, 25).is_ok());
    assert_eq!(balance(&ft, A), 100);
    assert_eq!(current_supply(&ft), 100);
}

#[test]
fn delegated_transfer_consumes_allowance() {
    // Approve(to=C, amount=40) by owner A, then Transfer(from=A, to=D, 40)
    // by C succeeds, leaving the allowance at 0; the identical second
    // transfer fails for want of allowance.
    let mut ft = FungibleToken::init(ledger_config(A, 100, 1000, 10)).unwrap();
    let r = ft.approve(A, 0, None, C, 40);
    assert_eq!(r.unwrap(), FTReply::Approved { from: A, to: C, amount: 40 });
    assert_eq!(allowance(&ft, A, C), 40);
    let t = ft.transfer(C, 0, None, A, D, 40);
    assert_eq!(t.unwrap(), FTReply::Transferred { from: A, to: D, amount: 40 });
    assert_eq!(allowance(&ft, A, C), 0);
    assert_eq!(balance(&ft, A), 60);
    assert_eq!(balance(&ft, D), 40);
    let t2 = ft.transfer(C, 0, None, A, D, 40);
    assert_eq!(t2.unwrap_err(), FTError::NotAllowedToTransfer);
    assert_eq!(balance(&ft, A), 60);
    assert_eq!(balance(&ft, D), 40);
}

#[test]
fn delegated_transfer_without_allowance_fails() {
    let mut ft = FungibleToken::init(ledger_config(A, 100, 1000, 10)).unwrap();
    assert_eq!(ft.transfer(C, 0, None, A, D, 1).unwrap_err(), FTError::NotAllowedToTransfer);
    // Even a zero-amount delegated transfer needs a stored allowance entry.
    assert_eq!(ft.transfer(C, 0, None, A, D, 0).unwrap_err(), FTError::NotAllowedToTransfer);
    assert!(ft.approve(A, 0, None, C, 0).is_ok());
    assert!(ft.transfer(C, 0, None, A, D, 0).is_ok());
}

#[test]
fn approve_overwrites_allowance() {
    let mut ft = FungibleToken::init(ledger_config(A, 100, 1000, 10)).unwrap();
    assert!(ft.approve(A, 0, None, C, 40).is_ok());
    assert!(ft.approve(A, 0, None, C, 7).is_ok());
    assert_eq!(allowance(&ft, A, C), 7);
    assert_eq!(ft.approve(A, 0, None, 0, 1).unwrap_err(), FTError::ZeroAddress);
}

#[test]
fn transfer_to_users_credits_each_listed_recipient() {
    let mut ft = FungibleToken::init(ledger_config(A, 100, 1000, 10)).unwrap();
    let r = ft.transfer_to_users(A, 10, vec![B, C, B]);
    assert_eq!(
        r.unwrap(),
        FTReply::TransferredToUsers { from: A, to_users: vec![B, C, B], amount: 10 }
    );
    assert_eq!(balance(&ft, A), 70);
    assert_eq!(balance(&ft, B), 20);
    assert_eq!(balance(&ft, C), 10);
    assert_eq!(current_supply(&ft), 100);
}

#[test]
fn transfer_to_users_checks_aggregate_balance() {
    let mut ft = FungibleToken::init(ledger_config(A, 100, 1000, 10)).unwrap();
    assert_eq!(ft.transfer_to_users(A, 50, vec![B, C, D]).unwrap_err(), FTError::NotEnoughBalance);
    assert_eq!(balance(&ft, A), 100);
    assert_eq!(ft.transfer_to_users(B, 1, vec![C]).unwrap_err(), FTError::NotAdmin);
}

#[test]
fn admin_set_changes() {
    let mut ft = FungibleToken::init(ledger_config(A, 100, 1000, 10)).unwrap();
    assert_eq!(ft.add_admin(B, B).unwrap_err(), FTError::NotAdmin);
    assert_eq!(ft.add_admin(A, B).unwrap(), FTReply::AdminAdded { admin_id: B });
    assert_eq!(ft.add_admin(A, B).unwrap_err(), FTError::AdminAlreadyExists);
    match ft.state_query(Query::Admins) {
        QueryReply::Admins(v) => assert_eq!(v, vec![A, B]),
        _ => panic!("unexpected reply"),
    }
    assert_eq!(ft.delete_admin(A, B).unwrap(), FTReply::AdminRemoved { admin_id: B });
    assert_eq!(ft.mint(B, 1, B).unwrap_err(), FTError::NotAdmin);
}

#[test]
fn delete_admin_refuses_self_removal() {
    let mut ft = FungibleToken::init(ledger_config(A, 100, 1000, 10)).unwrap();
    assert_eq!(ft.delete_admin(A, A).unwrap_err(), FTError::CantDeleteYourself);
    // Still refused with more admins around.
    assert!(ft.add_admin(A, B).is_ok());
    assert_eq!(ft.delete_admin(A, A).unwrap_err(), FTError::CantDeleteYourself);
    assert_eq!(ft.delete_admin(B, B).unwrap_err(), FTError::CantDeleteYourself);
    assert_eq!(ft.delete_admin(C, C).unwrap_err(), FTError::NotAdmin);
}

#[test]
fn conservation_over_a_sequence_of_operations() {
    let mut ft = FungibleToken::init(ledger_config(A, 100, 1000, 10)).unwrap();
    assert!(ft.mint(A, 200, B).is_ok());
    assert!(ft.transfer(A, 0, None, A, C, 30).is_ok());
    assert!(ft.burn(B, 50).is_ok());
    assert!(ft.transfer_to_users(A, 5, vec![B, C, D]).is_ok());
    let held = balance(&ft, A) + balance(&ft, B) + balance(&ft, C) + balance(&ft, D);
    assert_eq!(held, current_supply(&ft));
    assert_eq!(current_supply(&ft), 250);
}

#[test]
fn handle_routes_actions() {
    let mut ft = FungibleToken::init(ledger_config(A, 100, 1000, 10)).unwrap();
    let r = ft.handle(A, 0, FTAction::Mint { amount: 50, to: B });
    assert_eq!(r.unwrap(), FTReply::Transferred { from: 0, to: B, amount: 50 });
    let r = ft.handle(B, 0, FTAction::Transfer { tx_id: None, from: B, to: C, amount: 20 });
    assert_eq!(r.unwrap(), FTReply::Transferred { from: B, to: C, amount: 20 });
    let r = ft.handle(B, 0, FTAction::BalanceOf(B));
    assert_eq!(r.unwrap(), FTReply::Balance(30));
    let r = ft.handle(C, 0, FTAction::Burn { amount: 5 });
    assert_eq!(r.unwrap(), FTReply::Transferred { from: C, to: 0, amount: 5 });
    let r = ft.handle(A, 0, FTAction::AddAdmin { admin_id: B });
    assert_eq!(r.unwrap(), FTReply::AdminAdded { admin_id: B });
    let r = ft.handle(A, 0, FTAction::DeleteAdmin { admin_id: B });
    assert_eq!(r.unwrap(), FTReply::AdminRemoved { admin_id: B });
}
