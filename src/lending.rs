use vstd::prelude::*;

verus! {

/// The credit-line contract; so far it only reports its release.
pub struct CreditLineContract;

/// The escrow contract; so far it only reports its release.
pub struct EscrowContract;

/// The liquidity-pool contract; so far it only reports its release.
pub struct PoolContract;

impl CreditLineContract {
    /// The release this contract belongs to.
    pub fn version() -> (r: &'static str)
        ensures
            r@ == "trustup-v1.0"@,
    {
        "trustup-v1.0"
    }
}

impl EscrowContract {
    /// The release this contract belongs to.
    pub fn version() -> (r: &'static str)
        ensures
            r@ == "trustup-v1.0"@,
    {
        "trustup-v1.0"
    }
}

impl PoolContract {
    /// The release this contract belongs to.
    pub fn version() -> (r: &'static str)
        ensures
            r@ == "trustup-v1.0"@,
    {
        "trustup-v1.0"
    }
}

} // verus!
