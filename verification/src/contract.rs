use vstd::prelude::*;
use crate::account::{AccountId, copy_bytes};
use crate::error::InsuranceError;
use crate::policy::{
    CoverageType, Policy, PolicyView, PolicyCreatedEvent, PremiumPaidEvent, PolicyDeactivatedEvent,
    THIRTY_DAYS, check_terms, check_external_ref, opt_bytes_view, due_after,
};
use crate::state::{
    ContractView, MAX_POLICIES, Op, new_policy, paid, deactivated, with_external_ref, other_than,
};
use crate::laws::{
    lemma_premium_sum_bounds,
    lemma_init_keeps_valid, lemma_create_keeps_valid, lemma_pay_keeps_valid,
    lemma_deactivate_keeps_valid, lemma_set_external_ref_keeps_valid,
};

verus! {

/// The view of an optional identity.
pub open spec fn opt_account_view(o: Option<AccountId>) -> Option<Seq<u8>> {
    match o {
        Some(a) => Some(a@),
        None => None,
    }
}

/// The state that the parts `owner`, `policies` and `active` make up.
pub open spec fn parts_view(
    owner: Option<AccountId>,
    policies: Seq<Policy>,
    active: Seq<u32>,
) -> ContractView {
    ContractView {
        owner: opt_account_view(owner),
        policies: policies.map_values(|p: Policy| p@),
        active,
    }
}

/// `a + b`, held at the bounds of `i128` where it would exceed them.
fn saturating_add_i128(a: i128, b: i128) -> (r: i128)
    ensures
        r == (if a + b > i128::MAX {
            i128::MAX as int
        } else if a + b < i128::MIN {
            i128::MIN as int
        } else {
            a + b
        }),
{
    match a.checked_add(b) {
        Some(sum) => sum,
        None => if b > 0 {
            i128::MAX
        } else {
            i128::MIN
        },
    }
}

/// Copies a list of ids.
fn copy_ids(v: &Vec<u32>) -> (r: Vec<u32>)
    ensures
        r@ == v@,
{
    let mut r: Vec<u32> = Vec::new();
    let n: usize = v.len();
    for i in 0..n
        invariant
            n == v@.len(),
            r@ == v@.take(i as int),
    {
        r.push(v[i]);
        assert(v@.take(i + 1) =~= v@.take(i as int).push(v@[i as int]));
    }
    assert(v@.take(n as int) =~= v@);
    r
}

/// Whether `x` occurs in `v`.
fn contains_id(v: &Vec<u32>, x: u32) -> (r: bool)
    ensures
        r == v@.contains(x),
{
    let n: usize = v.len();
    for i in 0..n
        invariant
            n == v@.len(),
            forall|j: int| 0 <= j < i ==> v@[j] != x,
    {
        if v[i] == x {
            return true;
        }
    }
    false
}

/// The insurance contract: its owner, its policies and the list of active
/// policy ids.
pub struct InsuranceContract {
    owner: Option<AccountId>,
    policies: Vec<Policy>,
    active_policies: Vec<u32>,
}

impl View for InsuranceContract {
    type V = ContractView;

    closed spec fn view(&self) -> ContractView {
        parts_view(self.owner, self.policies@, self.active_policies@)
    }
}

impl InsuranceContract {
    /// The contract state satisfies its invariant.
    pub open spec fn wf(&self) -> bool {
        self@.valid()
    }

    /// A contract that was never initialized.
    pub fn new() -> (c: InsuranceContract)
        ensures
            c@ == ContractView::empty(),
            c.wf(),
    {
        let c = InsuranceContract { owner: None, policies: Vec::new(), active_policies: Vec::new() };
        assert(c@.policies =~= Seq::<PolicyView>::empty());
        c
    }

    /// Reassembles a contract from its stored parts: the owner, the policies
    /// in id order, and the list of active policy ids.  Gives `None` exactly
    /// when the parts break the invariant of the contract state.
    pub fn from_parts(
        owner: Option<AccountId>,
        policies: Vec<Policy>,
        active_policies: Vec<u32>,
    ) -> (r: Option<InsuranceContract>)
        ensures
            r is Some <==> parts_view(owner, policies@, active_policies@).valid(),
            r matches Some(c) ==> c@ == parts_view(owner, policies@, active_policies@),
    {
        let ghost v = parts_view(owner, policies@, active_policies@);
        if owner.is_none() && (policies.len() != 0 || active_policies.len() != 0) {
            return None;
        }
        if policies.len() > 0xffff_ffff {
            return None;
        }
        let n: usize = policies.len();
        for i in 0..n
            invariant
                n == policies@.len(),
                v == parts_view(owner, policies@, active_policies@),
                forall|k: int| 0 <= k < i ==> (#[trigger] v.policies[k]).id == k + 1
                    && v.policies[k].terms_valid(),
        {
            let p = &policies[i];
            assert(v.policies[i as int] == p@);
            if p.id as usize != i + 1 {
                return None;
            }
            if check_terms(&p.name, p.coverage_type, p.monthly_premium, p.coverage_amount, &p.external_ref).is_some() {
                return None;
            }
        }
        if active_policies.len() > MAX_POLICIES {
            return None;
        }
        let m: usize = active_policies.len();
        let mut i: usize = 1;
        while i < m
            invariant
                1 <= i,
                m == active_policies@.len(),
                v == parts_view(owner, policies@, active_policies@),
                forall|a: int, b: int| 0 <= a < b < i && b < m ==> active_policies@[a] < active_policies@[b],
            decreases m - i,
        {
            if active_policies[i - 1] >= active_policies[i] {
                return None;
            }
            i = i + 1;
        }
        assert(forall|a: int, b: int| 0 <= a < b < v.active.len() ==> v.active[a] < v.active[b]);
        for i in 0..m
            invariant
                m == active_policies@.len(),
                n == policies@.len(),
                v == parts_view(owner, policies@, active_policies@),
                forall|k: int| 0 <= k < i ==> v.is_active(#[trigger] v.active[k]),
        {
            let id: u32 = active_policies[i];
            if id == 0 || id as usize > n {
                return None;
            }
            assert(v.policies[id - 1] == policies@[id - 1]@);
            if !policies[(id - 1) as usize].active {
                return None;
            }
        }
        for i in 0..n
            invariant
                m == active_policies@.len(),
                n == policies@.len(),
                v == parts_view(owner, policies@, active_policies@),
                forall|k: int| 0 <= k < n ==> (#[trigger] v.policies[k]).id == k + 1,
                forall|id: u32| 1 <= id <= i && #[trigger] v.is_active(id) ==> v.active.contains(id),
        {
            assert(v.policies[i as int] == policies@[i as int]@);
            if policies[i].active && !contains_id(&active_policies, policies[i].id) {
                assert(v.is_active(policies@[i as int].id));
                return None;
            }
        }
        Some(InsuranceContract { owner, policies, active_policies })
    }

    /// Takes the contract apart into the parts that `from_parts` accepts.
    pub fn into_parts(self) -> (r: (Option<AccountId>, Vec<Policy>, Vec<u32>))
        ensures
            parts_view(r.0, r.1@, r.2@) == self@,
    {
        (self.owner, self.policies, self.active_policies)
    }

    /// Fails with `NotInitialized` unless `init` was called.
    fn require_initialized(&self) -> (r: Result<(), InsuranceError>)
        ensures
            r is Ok <==> self@.initialized(),
            r is Err ==> r == Err::<(), InsuranceError>(InsuranceError::NotInitialized),
    {
        match &self.owner {
            Some(_) => Ok(()),
            None => Err(InsuranceError::NotInitialized),
        }
    }

    /// Fails unless `caller` is the contract owner.
    fn require_owner(&self, caller: &AccountId) -> (r: Result<(), InsuranceError>)
        ensures
            match r {
                Ok(()) => self@.owner_error(caller@) is None,
                Err(e) => self@.owner_error(caller@) == Some(e),
            },
    {
        match &self.owner {
            None => Err(InsuranceError::NotInitialized),
            Some(owner) => {
                if caller.same_as(owner) {
                    Ok(())
                } else {
                    Err(InsuranceError::Unauthorized)
                }
            },
        }
    }

    /// Initializes the contract with `owner`.  Fails with
    /// `AlreadyInitialized` if it was initialized before.
    pub fn init(&mut self, owner: AccountId) -> (r: Result<(), InsuranceError>)
        requires
            old(self).wf(),
        ensures
            final(self).wf(),
            final(self)@ == old(self)@.step(Op::Init { owner: owner@ }),
            match r {
                Ok(()) => old(self)@.init_error() is None && final(self)@ == old(self)@.after_init(owner@),
                Err(e) => old(self)@.init_error() == Some(e) && final(self)@ == old(self)@,
            },
    {
        if self.owner.is_some() {
            return Err(InsuranceError::AlreadyInitialized);
        }
        proof {
            lemma_init_keeps_valid(self@, owner@);
        }
        self.owner = Some(owner);
        self.policies = Vec::new();
        self.active_policies = Vec::new();
        assert(self@.policies =~= Seq::<PolicyView>::empty());
        Ok(())
    }

    /// Creates a policy owned by `caller` with the given terms, created at
    /// ledger time `now`; the event to publish carries its id.
    ///
    /// Any caller may create a policy.  The call is rejected with the first
    /// error that `ContractView::create_error` names: the contract is not
    /// initialized, the terms break a creation rule, `MAX_POLICIES` policies
    /// are already active, or every policy id has been used.
    pub fn create_policy(
        &mut self,
        caller: AccountId,
        name: Vec<u8>,
        coverage_type: CoverageType,
        monthly_premium: i128,
        coverage_amount: i128,
        external_ref: Option<Vec<u8>>,
        now: u64,
    ) -> (r: Result<PolicyCreatedEvent, InsuranceError>)
        requires
            old(self).wf(),
        ensures
            final(self).wf(),
            final(self)@ == old(self)@.step(
                Op::Create {
                    caller: caller@,
                    name: name@,
                    coverage_type,
                    monthly_premium,
                    coverage_amount,
                    external_ref: opt_bytes_view(external_ref),
                    now,
                },
            ),
            old(self)@.step_created(
                Op::Create {
                    caller: caller@,
                    name: name@,
                    coverage_type,
                    monthly_premium,
                    coverage_amount,
                    external_ref: opt_bytes_view(external_ref),
                    now,
                },
            ) == (match r {
                Ok(ev) => Some(ev.policy_id),
                Err(_) => None,
            }),
            match r {
                Ok(ev) => {
                    &&& old(self)@.create_error(
                        name@,
                        coverage_type,
                        monthly_premium,
                        coverage_amount,
                        opt_bytes_view(external_ref),
                    ) is None
                    &&& final(self)@ == old(self)@.after_create(
                        new_policy(
                            old(self)@.next_policy_id(),
                            caller@,
                            name@,
                            coverage_type,
                            monthly_premium,
                            coverage_amount,
                            opt_bytes_view(external_ref),
                            now,
                        ),
                    )
                    &&& ev.policy_id == old(self)@.next_policy_id()
                    &&& ev.name@ == name@
                    &&& ev.coverage_type == coverage_type
                    &&& ev.monthly_premium == monthly_premium
                    &&& ev.coverage_amount == coverage_amount
                    &&& ev.timestamp == now
                },
                Err(e) => {
                    &&& old(self)@.create_error(
                        name@,
                        coverage_type,
                        monthly_premium,
                        coverage_amount,
                        opt_bytes_view(external_ref),
                    ) == Some(e)
                    &&& final(self)@ == old(self)@
                },
            },
    {
        match self.require_initialized() {
            Err(e) => return Err(e),
            Ok(()) => {},
        }
        match check_terms(&name, coverage_type, monthly_premium, coverage_amount, &external_ref) {
            Some(e) => return Err(e),
            None => {},
        }
        if self.active_policies.len() >= MAX_POLICIES {
            return Err(InsuranceError::MaxPoliciesReached);
        }
        let count: u32 = self.policies.len() as u32;
        let policy_id: u32 = match count.checked_add(1) {
            Some(id) => id,
            None => return Err(InsuranceError::MaxPoliciesReached),
        };
        let next_payment_due: u64 = now.saturating_add(THIRTY_DAYS);
        let ghost before = self@;
        proof {
            lemma_create_keeps_valid(
                before,
                caller@,
                name@,
                coverage_type,
                monthly_premium,
                coverage_amount,
                opt_bytes_view(external_ref),
                now,
            );
        }
        let event = PolicyCreatedEvent {
            policy_id,
            name: copy_bytes(&name),
            coverage_type,
            monthly_premium,
            coverage_amount,
            timestamp: now,
        };
        let policy = Policy {
            id: policy_id,
            owner: caller,
            name,
            coverage_type,
            monthly_premium,
            coverage_amount,
            active: true,
            next_payment_due,
            last_payment_at: 0,
            created_at: now,
            external_ref,
        };
        let ghost pv = policy@;
        self.policies.push(policy);
        self.active_policies.push(policy_id);
        assert(self@.policies =~= before.policies.push(pv));
        Ok(event)
    }

    /// Records a premium payment of `amount` on the policy `policy_id` at
    /// ledger time `now`: the payment is dated `now` and the next one falls
    /// due thirty days later.
    ///
    /// Any caller may pay.  The call is rejected with the first error that
    /// `ContractView::pay_error` names: the contract is not initialized, no
    /// such policy exists, it is inactive, or `amount` differs from its
    /// monthly premium.
    pub fn pay_premium(&mut self, policy_id: u32, amount: i128, now: u64) -> (r: Result<
        PremiumPaidEvent,
        InsuranceError,
    >)
        requires
            old(self).wf(),
        ensures
            final(self).wf(),
            final(self)@ == old(self)@.step(Op::Pay { id: policy_id, amount, now }),
            match r {
                Ok(ev) => {
                    &&& old(self)@.pay_error(policy_id, amount) is None
                    &&& final(self)@ == old(self)@.with_policy(
                        policy_id,
                        paid(old(self)@.policy(policy_id), now),
                    )
                    &&& ev.policy_id == policy_id
                    &&& ev.name@ == old(self)@.policy(policy_id).name
                    &&& ev.amount == amount
                    &&& ev.next_payment_date == due_after(now)
                    &&& ev.timestamp == now
                },
                Err(e) => old(self)@.pay_error(policy_id, amount) == Some(e) && final(self)@ == old(
                    self,
                )@,
            },
    {
        match self.require_initialized() {
            Err(e) => return Err(e),
            Ok(()) => {},
        }
        if policy_id == 0 || policy_id as usize > self.policies.len() {
            return Err(InsuranceError::PolicyNotFound);
        }
        let idx: usize = (policy_id - 1) as usize;
        if !self.policies[idx].active {
            return Err(InsuranceError::PolicyInactive);
        }
        if amount != self.policies[idx].monthly_premium {
            return Err(InsuranceError::InvalidPremium);
        }
        let ghost before = self@;
        proof {
            lemma_pay_keeps_valid(before, policy_id, amount, now);
        }
        let next_payment_due: u64 = now.saturating_add(THIRTY_DAYS);
        self.policies[idx].last_payment_at = now;
        self.policies[idx].next_payment_due = next_payment_due;
        let name = copy_bytes(&self.policies[idx].name);
        assert(self@.policies =~= before.policies.update(
            idx as int,
            paid(before.policy(policy_id), now),
        ));
        Ok(PremiumPaidEvent { policy_id, name, amount, next_payment_date: next_payment_due, timestamp: now })
    }

    /// Deactivates the policy `policy_id` at ledger time `now` and removes
    /// it from the list of active policies.  Only the owner may do so.
    ///
    /// The call is rejected with the first error that
    /// `ContractView::deactivate_error` names: the contract is not
    /// initialized, `caller` is not the owner, no such policy exists, or it
    /// is already inactive.
    pub fn deactivate_policy(&mut self, caller: &AccountId, policy_id: u32, now: u64) -> (r: Result<
        PolicyDeactivatedEvent,
        InsuranceError,
    >)
        requires
            old(self).wf(),
        ensures
            final(self).wf(),
            final(self)@ == old(self)@.step(Op::Deactivate { caller: caller@, id: policy_id, now }),
            match r {
                Ok(ev) => {
                    &&& old(self)@.deactivate_error(caller@, policy_id) is None
                    &&& final(self)@ == old(self)@.after_deactivate(policy_id)
                    &&& ev.policy_id == policy_id
                    &&& ev.name@ == old(self)@.policy(policy_id).name
                    &&& ev.timestamp == now
                },
                Err(e) => old(self)@.deactivate_error(caller@, policy_id) == Some(e) && final(self)@
                    == old(self)@,
            },
    {
        match self.require_initialized() {
            Err(e) => return Err(e),
            Ok(()) => {},
        }
        match self.require_owner(caller) {
            Err(e) => return Err(e),
            Ok(()) => {},
        }
        if policy_id == 0 || policy_id as usize > self.policies.len() {
            return Err(InsuranceError::PolicyNotFound);
        }
        let idx: usize = (policy_id - 1) as usize;
        if !self.policies[idx].active {
            return Err(InsuranceError::PolicyInactive);
        }
        let ghost before = self@;
        proof {
            lemma_deactivate_keeps_valid(before, caller@, policy_id);
        }
        self.policies[idx].active = false;
        let name = copy_bytes(&self.policies[idx].name);
        let mut remaining: Vec<u32> = Vec::new();
        let n: usize = self.active_policies.len();
        for i in 0..n
            invariant
                n == self.active_policies@.len(),
                self.active_policies@ == before.active,
                remaining@ == before.active.take(i as int).filter(other_than(policy_id)),
        {
            let id: u32 = self.active_policies[i];
            if id != policy_id {
                remaining.push(id);
            }
            proof {
                reveal(Seq::filter);
                assert(before.active.take(i + 1).drop_last() =~= before.active.take(i as int));
            }
        }
        assert(before.active.take(n as int) =~= before.active);
        self.active_policies = remaining;
        assert(self@.policies =~= before.policies.update(
            idx as int,
            deactivated(before.policy(policy_id)),
        ));
        Ok(PolicyDeactivatedEvent { policy_id, name, timestamp: now })
    }

    /// Replaces, or clears, the external reference of the policy
    /// `policy_id`.  Only the owner may do so.
    ///
    /// The call is rejected with the first error that
    /// `ContractView::set_external_ref_error` names: the contract is not
    /// initialized, `caller` is not the owner, no such policy exists, or the
    /// new reference is empty or too long.
    pub fn set_external_ref(
        &mut self,
        caller: &AccountId,
        policy_id: u32,
        external_ref: Option<Vec<u8>>,
    ) -> (r: Result<(), InsuranceError>)
        requires
            old(self).wf(),
        ensures
            final(self).wf(),
            final(self)@ == old(self)@.step(
                Op::SetExternalRef {
                    caller: caller@,
                    id: policy_id,
                    external_ref: opt_bytes_view(external_ref),
                },
            ),
            match r {
                Ok(()) => {
                    &&& old(self)@.set_external_ref_error(
                        caller@,
                        policy_id,
                        opt_bytes_view(external_ref),
                    ) is None
                    &&& final(self)@ == old(self)@.with_policy(
                        policy_id,
                        with_external_ref(old(self)@.policy(policy_id), opt_bytes_view(external_ref)),
                    )
                },
                Err(e) => old(self)@.set_external_ref_error(
                    caller@,
                    policy_id,
                    opt_bytes_view(external_ref),
                ) == Some(e) && final(self)@ == old(self)@,
            },
    {
        match self.require_initialized() {
            Err(e) => return Err(e),
            Ok(()) => {},
        }
        match self.require_owner(caller) {
            Err(e) => return Err(e),
            Ok(()) => {},
        }
        if policy_id == 0 || policy_id as usize > self.policies.len() {
            return Err(InsuranceError::PolicyNotFound);
        }
        let idx: usize = (policy_id - 1) as usize;
        if !check_external_ref(&external_ref) {
            return Err(InsuranceError::InvalidExternalRef);
        }
        let ghost before = self@;
        let ghost new_ref = opt_bytes_view(external_ref);
        proof {
            lemma_set_external_ref_keeps_valid(before, caller@, policy_id, new_ref);
        }
        self.policies[idx].external_ref = external_ref;
        assert(self@.policies =~= before.policies.update(
            idx as int,
            with_external_ref(before.policy(policy_id), new_ref),
        ));
        Ok(())
    }

    /// The ids of all active policies, in creation order.  Fails with
    /// `NotInitialized` before `init`.
    pub fn get_active_policies(&self) -> (r: Result<Vec<u32>, InsuranceError>)
        ensures
            match r {
                Ok(ids) => self@.initialized() && ids@ == self@.active,
                Err(e) => !self@.initialized() && e == InsuranceError::NotInitialized,
            },
    {
        match self.require_initialized() {
            Err(e) => return Err(e),
            Ok(()) => {},
        }
        Ok(copy_ids(&self.active_policies))
    }

    /// The policy `policy_id`.  Fails with `NotInitialized` before `init`,
    /// and with `PolicyNotFound` where no policy has that id.
    pub fn get_policy(&self, policy_id: u32) -> (r: Result<Policy, InsuranceError>)
        ensures
            match r {
                Ok(p) => self@.lookup_error(policy_id) is None && p@ == self@.policy(policy_id),
                Err(e) => self@.lookup_error(policy_id) == Some(e),
            },
    {
        match self.require_initialized() {
            Err(e) => return Err(e),
            Ok(()) => {},
        }
        if policy_id == 0 || policy_id as usize > self.policies.len() {
            return Err(InsuranceError::PolicyNotFound);
        }
        let idx: usize = (policy_id - 1) as usize;
        Ok(self.policies[idx].duplicate())
    }

    /// The sum of the monthly premiums of all active policies.  Fails with
    /// `NotInitialized` before `init`.
    pub fn get_total_monthly_premium(&self) -> (r: Result<i128, InsuranceError>)
        requires
            self.wf(),
        ensures
            match r {
                Ok(total) => self@.initialized() && total == self@.total_monthly_premium(),
                Err(e) => !self@.initialized() && e == InsuranceError::NotInitialized,
            },
    {
        match self.require_initialized() {
            Err(e) => return Err(e),
            Ok(()) => {},
        }
        let mut total: i128 = 0;
        let n: usize = self.active_policies.len();
        for i in 0..n
            invariant
                n == self@.active.len(),
                self.wf(),
                total == self@.premium_sum(self@.active.take(i as int)),
        {
            let ghost ids = self@.active.take(i + 1);
            assert(ids.drop_last() =~= self@.active.take(i as int));
            proof {
                assert forall|k: int| 0 <= k < ids.len() implies self@.has_policy(#[trigger] ids[k]) by {
                    assert(ids[k] == self@.active[k]);
                    assert(self@.is_active(self@.active[k]));
                }
                lemma_premium_sum_bounds(self@, ids);
            }
            let id: u32 = self.active_policies[i];
            assert(self@.is_active(self@.active[i as int]));
            if id >= 1 && id as usize <= self.policies.len() {
                let idx: usize = (id - 1) as usize;
                if self.policies[idx].active {
                    total = saturating_add_i128(total, self.policies[idx].monthly_premium);
                }
            }
        }
        assert(self@.active.take(n as int) =~= self@.active);
        Ok(total)
    }
}

} // verus!
