//! A verified actor-style token ledger: balances, delegated allowances,
//! mint and burn under a supply cap, admin-gated operations, and a
//! replay-protection window for idempotent requests — every operation
//! specified and proved as a transition relation — together with the
//! companion registry that binds signless session identities.

pub mod allowances;
pub mod assoc;
pub mod balances;
pub mod io;
pub mod laws;
pub mod signless;
pub mod token;
pub mod txstore;
