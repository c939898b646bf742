use vstd::prelude::*;

verus! {

/// Why a call on the reputation ledger was rejected. A rejected call changes
/// nothing.
#[derive(Debug, Clone, Copy, PartialEq, Eq, Structural)]
pub enum ReputationError {
    /// The caller of an administrative call is not the authenticated administrator.
    NotAdmin,
    /// The caller of a score mutation is not an authenticated updater.
    NotUpdater,
    /// A score to store lies outside `0..=100`.
    OutOfBounds,
    /// An increase would take a score above 100.
    Overflow,
    /// A decrease would take a score below 0.
    Underflow,
    /// The administrator was asked for before one was set.
    Uninitialized,
}

} // verus!
