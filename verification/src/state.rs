use vstd::prelude::*;
use crate::error::InsuranceError;
use crate::policy::{PolicyView, CoverageType, terms_error, due_after};

verus! {

/// Most policies that can be active at once.
pub const MAX_POLICIES: usize = 1_000;

/// The keys under which the contract keeps its state in ledger storage.
#[derive(Clone, Copy, Debug, PartialEq, Eq, Structural)]
pub enum DataKey {
    /// The contract owner, set by `init`.
    Owner,
    /// How many policies have been created; the id of the last one.
    PolicyCount,
    /// The policy with the given id.
    Policy(u32),
    /// The ids of the active policies, in creation order.
    ActivePolicies,
}

/// The whole state of the contract, by value.
pub struct ContractView {
    /// The owner, once the contract is initialized.
    pub owner: Option<Seq<u8>>,
    /// Every policy created so far; the policy with id `i` is at index `i - 1`.
    pub policies: Seq<PolicyView>,
    /// The ids of the active policies.
    pub active: Seq<u32>,
}

/// The policy that `create_policy` stores.
pub open spec fn new_policy(
    id: u32,
    owner: Seq<u8>,
    name: Seq<u8>,
    coverage_type: CoverageType,
    monthly_premium: i128,
    coverage_amount: i128,
    external_ref: Option<Seq<u8>>,
    now: u64,
) -> PolicyView {
    PolicyView {
        id,
        owner,
        name,
        coverage_type,
        monthly_premium,
        coverage_amount,
        active: true,
        next_payment_due: due_after(now),
        last_payment_at: 0,
        created_at: now,
        external_ref,
    }
}

/// Holds of every id but `id`.
pub open spec fn other_than(id: u32) -> spec_fn(u32) -> bool {
    |x: u32| x != id
}

/// `p` after a premium payment at time `now`.
pub open spec fn paid(p: PolicyView, now: u64) -> PolicyView {
    PolicyView { last_payment_at: now, next_payment_due: due_after(now), ..p }
}

/// `p` after deactivation.
pub open spec fn deactivated(p: PolicyView) -> PolicyView {
    PolicyView { active: false, ..p }
}

/// `p` with its external reference replaced.
pub open spec fn with_external_ref(p: PolicyView, external_ref: Option<Seq<u8>>) -> PolicyView {
    PolicyView { external_ref, ..p }
}

impl ContractView {
    /// The state before `init`.
    pub open spec fn empty() -> ContractView {
        ContractView { owner: None, policies: Seq::empty(), active: Seq::empty() }
    }

    pub open spec fn initialized(self) -> bool {
        self.owner is Some
    }

    /// Whether a policy with id `id` exists.
    pub open spec fn has_policy(self, id: u32) -> bool {
        1 <= id && id <= self.policies.len()
    }

    /// The policy with id `id`.
    pub open spec fn policy(self, id: u32) -> PolicyView {
        self.policies[id - 1]
    }

    /// Whether a policy with id `id` exists and is active.
    pub open spec fn is_active(self, id: u32) -> bool {
        self.has_policy(id) && self.policy(id).active
    }

    /// The id that the next created policy receives.
    pub open spec fn next_policy_id(self) -> u32 {
        (self.policies.len() + 1) as u32
    }

    /// The invariant of the contract state.
    pub open spec fn valid(self) -> bool {
        &&& !self.initialized() ==> self.policies.len() == 0 && self.active.len() == 0
        &&& self.policies.len() <= u32::MAX
        &&& forall|i: int|
            0 <= i < self.policies.len() ==> (#[trigger] self.policies[i]).id == i + 1
                && self.policies[i].terms_valid()
        &&& self.active.len() <= MAX_POLICIES
        &&& forall|i: int, j: int|
            0 <= i < j < self.active.len() ==> self.active[i] < self.active[j]
        &&& forall|i: int| 0 <= i < self.active.len() ==> self.is_active(#[trigger] self.active[i])
        &&& forall|id: u32| #[trigger] self.is_active(id) ==> self.active.contains(id)
    }

    /// The sum of the monthly premiums of the policies whose ids are in `ids`.
    pub open spec fn premium_sum(self, ids: Seq<u32>) -> int
        decreases ids.len(),
    {
        if ids.len() == 0 {
            0
        } else {
            self.premium_sum(ids.drop_last()) + self.policy(ids.last()).monthly_premium
        }
    }

    /// The sum of the monthly premiums of the active policies.
    pub open spec fn total_monthly_premium(self) -> int {
        self.premium_sum(self.active)
    }

    /// The error `init` answers with, if any.
    pub open spec fn init_error(self) -> Option<InsuranceError> {
        if self.initialized() {
            Some(InsuranceError::AlreadyInitialized)
        } else {
            None
        }
    }

    /// The state after a successful `init` by `owner`.
    pub open spec fn after_init(self, owner: Seq<u8>) -> ContractView {
        ContractView { owner: Some(owner), policies: Seq::empty(), active: Seq::empty() }
    }

    /// The error `create_policy` answers with, if any.
    pub open spec fn create_error(
        self,
        name: Seq<u8>,
        coverage_type: CoverageType,
        monthly_premium: i128,
        coverage_amount: i128,
        external_ref: Option<Seq<u8>>,
    ) -> Option<InsuranceError> {
        if !self.initialized() {
            Some(InsuranceError::NotInitialized)
        } else if terms_error(name, coverage_type, monthly_premium, coverage_amount, external_ref) is Some {
            terms_error(name, coverage_type, monthly_premium, coverage_amount, external_ref)
        } else if self.active.len() >= MAX_POLICIES {
            Some(InsuranceError::MaxPoliciesReached)
        } else if self.policies.len() >= u32::MAX {
            Some(InsuranceError::MaxPoliciesReached)
        } else {
            None
        }
    }

    /// The state after `p` was created.
    pub open spec fn after_create(self, p: PolicyView) -> ContractView {
        ContractView {
            owner: self.owner,
            policies: self.policies.push(p),
            active: self.active.push(p.id),
        }
    }

    /// The error a lookup of the policy `id` answers with, if any.
    pub open spec fn lookup_error(self, id: u32) -> Option<InsuranceError> {
        if !self.initialized() {
            Some(InsuranceError::NotInitialized)
        } else if !self.has_policy(id) {
            Some(InsuranceError::PolicyNotFound)
        } else {
            None
        }
    }

    /// The error `pay_premium` answers with, if any.
    pub open spec fn pay_error(self, id: u32, amount: i128) -> Option<InsuranceError> {
        if !self.initialized() {
            Some(InsuranceError::NotInitialized)
        } else if !self.has_policy(id) {
            Some(InsuranceError::PolicyNotFound)
        } else if !self.policy(id).active {
            Some(InsuranceError::PolicyInactive)
        } else if amount != self.policy(id).monthly_premium {
            Some(InsuranceError::InvalidPremium)
        } else {
            None
        }
    }

    /// The state with the policy of id `id` replaced by `p`.
    pub open spec fn with_policy(self, id: u32, p: PolicyView) -> ContractView {
        ContractView { owner: self.owner, policies: self.policies.update(id - 1, p), active: self.active }
    }

    /// The error that an owner-only call by `caller` answers with before the
    /// policy is looked up, if any.
    pub open spec fn owner_error(self, caller: Seq<u8>) -> Option<InsuranceError> {
        if !self.initialized() {
            Some(InsuranceError::NotInitialized)
        } else if self.owner != Some(caller) {
            Some(InsuranceError::Unauthorized)
        } else {
            None
        }
    }

    /// The error `deactivate_policy` answers with, if any.
    pub open spec fn deactivate_error(self, caller: Seq<u8>, id: u32) -> Option<InsuranceError> {
        if self.owner_error(caller) is Some {
            self.owner_error(caller)
        } else if !self.has_policy(id) {
            Some(InsuranceError::PolicyNotFound)
        } else if !self.policy(id).active {
            Some(InsuranceError::PolicyInactive)
        } else {
            None
        }
    }

    /// The state after the policy of id `id` was deactivated.
    pub open spec fn after_deactivate(self, id: u32) -> ContractView {
        ContractView {
            owner: self.owner,
            policies: self.policies.update(id - 1, deactivated(self.policy(id))),
            active: self.active.filter(other_than(id)),
        }
    }

    /// The error `set_external_ref` answers with, if any.
    pub open spec fn set_external_ref_error(
        self,
        caller: Seq<u8>,
        id: u32,
        external_ref: Option<Seq<u8>>,
    ) -> Option<InsuranceError> {
        if self.owner_error(caller) is Some {
            self.owner_error(caller)
        } else if !self.has_policy(id) {
            Some(InsuranceError::PolicyNotFound)
        } else if !crate::policy::external_ref_valid(external_ref) {
            Some(InsuranceError::InvalidExternalRef)
        } else {
            None
        }
    }
}

/// A call that changes the contract state, with its arguments and the
/// ledger time at which it is made.
pub enum Op {
    Init { owner: Seq<u8> },
    Create {
        caller: Seq<u8>,
        name: Seq<u8>,
        coverage_type: CoverageType,
        monthly_premium: i128,
        coverage_amount: i128,
        external_ref: Option<Seq<u8>>,
        now: u64,
    },
    Pay { id: u32, amount: i128, now: u64 },
    Deactivate { caller: Seq<u8>, id: u32, now: u64 },
    SetExternalRef { caller: Seq<u8>, id: u32, external_ref: Option<Seq<u8>> },
}

/// The ledger time at which `op` is made, for the calls that read it.
pub open spec fn op_time(op: Op) -> Option<u64> {
    match op {
        Op::Create { now, .. } => Some(now),
        Op::Pay { now, .. } => Some(now),
        Op::Deactivate { now, .. } => Some(now),
        _ => None,
    }
}

/// The calls in `ops` are made at ledger times that never decrease and
/// never lie before `t0`.
pub open spec fn times_from(ops: Seq<Op>, t0: u64) -> bool {
    &&& forall|i: int| 0 <= i < ops.len() && op_time(ops[i]) is Some ==> t0 <= op_time(
        #[trigger] ops[i],
    ).unwrap()
    &&& forall|i: int, j: int|
        0 <= i < j < ops.len() && op_time(ops[i]) is Some && op_time(ops[j]) is Some ==> op_time(
            #[trigger] ops[i],
        ).unwrap() <= op_time(#[trigger] ops[j]).unwrap()
}

/// The latest of `t0` and the times of the calls in `ops`.
pub open spec fn latest(t0: u64, ops: Seq<Op>) -> u64
    decreases ops.len(),
{
    if ops.len() == 0 {
        t0
    } else {
        let l = latest(t0, ops.drop_last());
        match op_time(ops.last()) {
            Some(x) => if x > l {
                x
            } else {
                l
            },
            None => l,
        }
    }
}

/// `p` and `q` agree on everything that a policy fixes at creation: id,
/// owner, name, coverage type, premium, coverage amount and creation time.
pub open spec fn same_terms(p: PolicyView, q: PolicyView) -> bool {
    &&& p.id == q.id
    &&& p.owner == q.owner
    &&& p.name == q.name
    &&& p.coverage_type == q.coverage_type
    &&& p.monthly_premium == q.monthly_premium
    &&& p.coverage_amount == q.coverage_amount
    &&& p.created_at == q.created_at
}

/// The later of two times.
pub open spec fn later_of(a: u64, b: u64) -> u64 {
    if a >= b {
        a
    } else {
        b
    }
}

impl ContractView {
    /// The state after the call `op`: the call's new state where it
    /// succeeds, the same state where it is rejected.
    pub open spec fn step(self, op: Op) -> ContractView {
        match op {
            Op::Init { owner } => if self.init_error() is None {
                self.after_init(owner)
            } else {
                self
            },
            Op::Create {
                caller,
                name,
                coverage_type,
                monthly_premium,
                coverage_amount,
                external_ref,
                now,
            } => if self.create_error(
                name,
                coverage_type,
                monthly_premium,
                coverage_amount,
                external_ref,
            ) is None {
                self.after_create(
                    new_policy(
                        self.next_policy_id(),
                        caller,
                        name,
                        coverage_type,
                        monthly_premium,
                        coverage_amount,
                        external_ref,
                        now,
                    ),
                )
            } else {
                self
            },
            Op::Pay { id, amount, now } => if self.pay_error(id, amount) is None {
                self.with_policy(id, paid(self.policy(id), now))
            } else {
                self
            },
            Op::Deactivate { caller, id, now } => if self.deactivate_error(caller, id) is None {
                self.after_deactivate(id)
            } else {
                self
            },
            Op::SetExternalRef { caller, id, external_ref } => if self.set_external_ref_error(
                caller,
                id,
                external_ref,
            ) is None {
                self.with_policy(id, with_external_ref(self.policy(id), external_ref))
            } else {
                self
            },
        }
    }

    /// The id that the call `op` returns, where it creates a policy.
    pub open spec fn step_created(self, op: Op) -> Option<u32> {
        match op {
            Op::Create {
                caller,
                name,
                coverage_type,
                monthly_premium,
                coverage_amount,
                external_ref,
                now,
            } => if self.create_error(
                name,
                coverage_type,
                monthly_premium,
                coverage_amount,
                external_ref,
            ) is None {
                Some(self.next_policy_id())
            } else {
                None
            },
            _ => None,
        }
    }

    /// The state after the calls `ops`, made in order.
    pub open spec fn run(self, ops: Seq<Op>) -> ContractView
        decreases ops.len(),
    {
        if ops.len() == 0 {
            self
        } else {
            self.run(ops.drop_last()).step(ops.last())
        }
    }

    /// The ids returned by the calls in `ops` that create a policy, in order.
    pub open spec fn created_ids(self, ops: Seq<Op>) -> Seq<u32>
        decreases ops.len(),
    {
        if ops.len() == 0 {
            Seq::empty()
        } else {
            let earlier = self.created_ids(ops.drop_last());
            match self.run(ops.drop_last()).step_created(ops.last()) {
                Some(id) => earlier.push(id),
                None => earlier,
            }
        }
    }

    /// Each policy's next due date lies thirty days after its creation or
    /// its last payment, whichever is later, and no payment predates the
    /// policy.
    pub open spec fn dates_consistent(self) -> bool {
        forall|i: int|
            0 <= i < self.policies.len() ==> {
                let p = #[trigger] self.policies[i];
                &&& p.next_payment_due == due_after(later_of(p.created_at, p.last_payment_at))
                &&& (p.last_payment_at == 0 || p.last_payment_at >= p.created_at)
            }
    }

    /// No policy was created or paid after time `t`.
    pub open spec fn times_at_most(self, t: u64) -> bool {
        forall|i: int|
            0 <= i < self.policies.len() ==> (#[trigger] self.policies[i]).created_at <= t
                && self.policies[i].last_payment_at <= t
    }
}

} // verus!
