//! Message-level types of the ledger: requests, replies, errors, queries,
//! and the configuration handed to initialization.

use vstd::prelude::*;

verus! {

/// Account identifier. The reserved value `ZERO_ID` stands for "no real
/// account": the implicit source of a mint and the destination of a burn.
pub type ActorId = u64;

/// Caller-supplied identifier used to detect replayed protected requests.
pub type TxId = u64;

/// Timestamp until which a recorded transaction id is held against replays.
pub type ValidUntil = u64;

/// The reserved zero/burn address.
pub const ZERO_ID: ActorId = 0;

/// Free-form set of links describing the token.
#[derive(Debug, PartialEq, Eq)]
pub struct ExternalLinks {
    pub links: Vec<String>,
}

/// Runtime parameters of the ledger.
#[derive(Clone, Copy, Debug, PartialEq, Eq)]
pub struct Config {
    /// How long a recorded transaction id stays valid for duplicate detection.
    pub tx_storage_period: u64,
}

/// Everything initialization needs to build a ledger.
#[derive(Debug, PartialEq, Eq)]
pub struct InitConfig {
    pub name: String,
    pub symbol: String,
    pub decimals: u8,
    pub description: String,
    pub external_links: ExternalLinks,
    pub initial_supply: u128,
    pub total_supply: u128,
    pub admin: ActorId,
    pub config: Config,
}

/// A state-changing request to the ledger.
#[derive(Debug, PartialEq, Eq)]
pub enum FTAction {
    Mint { amount: u128, to: ActorId },
    Burn { amount: u128 },
    Transfer { tx_id: Option<TxId>, from: ActorId, to: ActorId, amount: u128 },
    Approve { tx_id: Option<TxId>, to: ActorId, amount: u128 },
    TransferToUsers { amount: u128, to_users: Vec<ActorId> },
    AddAdmin { admin_id: ActorId },
    DeleteAdmin { admin_id: ActorId },
    BalanceOf(ActorId),
}

/// A successful reply of the ledger.
#[derive(Debug, PartialEq, Eq)]
pub enum FTReply {
    Initialized,
    Transferred { from: ActorId, to: ActorId, amount: u128 },
    Approved { from: ActorId, to: ActorId, amount: u128 },
    TransferredToUsers { from: ActorId, to_users: Vec<ActorId>, amount: u128 },
    AdminAdded { admin_id: ActorId },
    AdminRemoved { admin_id: ActorId },
    Balance(u128),
}

/// A typed, enumerated failure of the ledger.
#[derive(Clone, Copy, Debug, PartialEq, Eq)]
pub enum FTError {
    NotAdmin,
    MaxSupplyReached,
    NotEnoughBalance,
    NotAllowedToTransfer,
    ZeroAddress,
    TxAlreadyExists,
    AdminAlreadyExists,
    CantDeleteYourself,
    SupplyError,
    DescriptionError,
    DecimalsError,
}

/// A read-only query against the ledger state.
#[derive(Debug, PartialEq, Eq)]
pub enum Query {
    Name,
    Symbol,
    Decimals,
    Description,
    ExternalLinks,
    CurrentSupply,
    TotalSupply,
    BalanceOf(ActorId),
    AllowanceOfAccount { account: ActorId, approved_account: ActorId },
    Admins,
    GetTxValidityTime { account: ActorId, tx_id: TxId },
    GetTxIdsForAccount { account: ActorId },
}

/// The answer to a read-only query.
#[derive(Debug, PartialEq, Eq)]
pub enum QueryReply {
    Name(String),
    Symbol(String),
    Decimals(u8),
    Description(String),
    ExternalLinks(ExternalLinks),
    CurrentSupply(u128),
    TotalSupply(u128),
    Balance(u128),
    AllowanceOfAccount(u128),
    Admins(Vec<ActorId>),
    TxValidityTime(ValidUntil),
    TxIdsForAccount { tx_ids: Vec<TxId> },
}

} // verus!
