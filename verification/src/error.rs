use vstd::prelude::*;

verus! {

/// Why the contract rejects a call.
#[derive(Clone, Copy, Debug, PartialEq, Eq, Structural, PartialOrd, Ord)]
pub enum InsuranceError {
    /// The caller is not the contract owner.
    Unauthorized,
    /// `init` was already called.
    AlreadyInitialized,
    /// `init` was never called.
    NotInitialized,
    /// No policy has the given id.
    PolicyNotFound,
    /// The policy has been deactivated.
    PolicyInactive,
    /// The policy name is empty or longer than the limit.
    InvalidName,
    /// The premium is not positive, out of range for the coverage type, or a
    /// payment does not equal it.
    InvalidPremium,
    /// The coverage amount is not positive or out of range for the coverage type.
    InvalidCoverageAmount,
    /// The coverage amount is too high relative to the premium.
    UnsupportedCombination,
    /// The external reference is empty or longer than the limit.
    InvalidExternalRef,
    /// No further policy can be created.
    MaxPoliciesReached,
}

} // verus!
