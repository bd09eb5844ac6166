//! Insurance policy registry: a verified model of a policy contract's state
//! and of every operation on it.
//!
//! The contract keeps an owner, the policies created so far (identified by
//! consecutive ids starting at 1) and the list of ids of the policies that
//! are still active.  Every operation takes the inputs that the host hands
//! the contract (caller identity, ledger time, arguments) as plain values and
//! returns the outcome, or the error that rejects the call, leaving the state
//! unchanged on every error.
//!
//! - `account`: identities of callers and owners.
//! - `policy`: coverage types and their bounds, the creation rules, policy
//!   records and the events the contract publishes.
//! - `state`: the state of the contract by value, its invariant, and what
//!   each operation answers and does, as spec functions.
//! - `contract`: the executable contract, proved against `state`.
//! - `laws`: properties of the contract that span operations.

pub mod account;
pub mod error;
pub mod policy;
pub mod state;
pub mod laws;
pub mod contract;

pub use account::AccountId;
pub use error::InsuranceError;
pub use policy::{
    CoverageType, CoverageConstraints, Policy, PolicyView, PolicyCreatedEvent, PremiumPaidEvent,
    PolicyDeactivatedEvent,
};
pub use state::{ContractView, DataKey, MAX_POLICIES};
pub use contract::InsuranceContract;
