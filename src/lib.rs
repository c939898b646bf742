//! A reputation ledger: a bounded integrity score per identity, mutated only by
//! updaters that a single administrator authorizes, beside the lending
//! contracts of the same release.

pub mod access;
pub mod error;
pub mod identity;
pub mod ledger;
pub mod lending;
pub mod reputation;

pub use access::{AccessControl, UpdaterChanged};
pub use error::ReputationError;
pub use identity::Identity;
pub use ledger::ScoreLedger;
pub use lending::{CreditLineContract, EscrowContract, PoolContract};
pub use reputation::{ReputationContract, ReputationState};
