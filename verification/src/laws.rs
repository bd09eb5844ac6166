use vstd::prelude::*;
use crate::error::InsuranceError;
use crate::policy::{
    CoverageType, CoverageConstraints, PolicyView, due_after, terms_error, spec_constraints, MAX_NAME_LEN,
    MAX_EXT_REF_LEN, RATIO_MULTIPLIER,
};
use crate::state::{
    ContractView, MAX_POLICIES, Op, new_policy, paid, deactivated, with_external_ref, other_than,
    op_time, times_from, latest, later_of, same_terms,
};

verus! {

/// Filtering one id out of a strictly increasing sequence leaves a strictly
/// increasing sequence of exactly the other elements.
pub proof fn lemma_filter_out_sorted(s: Seq<u32>, id: u32)
    requires
        forall|i: int, j: int| 0 <= i < j < s.len() ==> s[i] < s[j],
    ensures
        s.filter(other_than(id)).len() <= s.len(),
        forall|i: int, j: int|
            0 <= i < j < s.filter(other_than(id)).len() ==> s.filter(other_than(id))[i]
                < s.filter(other_than(id))[j],
        forall|x: u32| #[trigger] s.filter(other_than(id)).contains(x) <==> (s.contains(x) && x != id),
    decreases s.len(),
{
    reveal(Seq::filter);
    let f = s.filter(other_than(id));
    if s.len() == 0 {
        assert(f.len() == 0);
    } else {
        let r = s.drop_last();
        let last: u32 = s.last();
        lemma_filter_out_sorted(r, id);
        let g = r.filter(other_than(id));
        assert forall|x: u32| r.contains(x) implies x < last by {
            let k: int = choose|k: int| 0 <= k < r.len() && r[k] == x;
            assert(s[k] == x);
        }
        assert forall|x: u32| s.contains(x) <==> (r.contains(x) || x == last) by {
            if s.contains(x) {
                let k: int = choose|k: int| 0 <= k < s.len() && s[k] == x;
                if k < s.len() - 1 {
                    assert(r[k] == x);
                }
            }
            if r.contains(x) {
                let k: int = choose|k: int| 0 <= k < r.len() && r[k] == x;
                assert(s[k] == x);
            }
            if x == last {
                assert(s[s.len() - 1] == x);
            }
        }
        if last != id {
            assert(f == g.push(last));
            assert forall|x: u32| f.contains(x) <==> (g.contains(x) || x == last) by {
                if f.contains(x) {
                    let k: int = choose|k: int| 0 <= k < f.len() && f[k] == x;
                    if k < g.len() {
                        assert(g[k] == x);
                    }
                }
                if g.contains(x) {
                    let k: int = choose|k: int| 0 <= k < g.len() && g[k] == x;
                    assert(f[k] == x);
                }
                if x == last {
                    assert(f[f.len() - 1] == x);
                }
            }
            assert forall|i: int, j: int| 0 <= i < j < f.len() implies f[i] < f[j] by {
                if j == f.len() - 1 {
                    assert(g.contains(f[i]));
                }
            }
        } else {
            assert(f == g);
        }
    }
}

/// In a valid state, the premiums of any list of existing policies add up
/// to no less than zero and no more than the largest premium times the
/// length of the list.
pub proof fn lemma_premium_sum_bounds(s: ContractView, ids: Seq<u32>)
    requires
        s.valid(),
        forall|i: int| 0 <= i < ids.len() ==> s.has_policy(#[trigger] ids[i]),
    ensures
        0 <= s.premium_sum(ids) <= 2_000_000_000 * ids.len(),
    decreases ids.len(),
{
    if ids.len() > 0 {
        let r = ids.drop_last();
        assert forall|i: int| 0 <= i < r.len() implies s.has_policy(#[trigger] r[i]) by {
            assert(r[i] == ids[i]);
        }
        lemma_premium_sum_bounds(s, r);
        let id: u32 = ids.last();
        assert(s.has_policy(ids[ids.len() - 1]));
        assert(s.policies[id - 1].terms_valid());
    }
}

/// `init` leaves a valid state.
pub proof fn lemma_init_keeps_valid(s: ContractView, owner: Seq<u8>)
    requires
        s.valid(),
        s.init_error() is None,
    ensures
        s.after_init(owner).valid(),
{
}

/// Creating a policy leaves a valid state.
pub proof fn lemma_create_keeps_valid(
    s: ContractView,
    owner: Seq<u8>,
    name: Seq<u8>,
    coverage_type: CoverageType,
    monthly_premium: i128,
    coverage_amount: i128,
    external_ref: Option<Seq<u8>>,
    now: u64,
)
    requires
        s.valid(),
        s.create_error(name, coverage_type, monthly_premium, coverage_amount, external_ref) is None,
    ensures
        s.after_create(
            new_policy(
                s.next_policy_id(),
                owner,
                name,
                coverage_type,
                monthly_premium,
                coverage_amount,
                external_ref,
                now,
            ),
        ).valid(),
{
    let p = new_policy(
        s.next_policy_id(),
        owner,
        name,
        coverage_type,
        monthly_premium,
        coverage_amount,
        external_ref,
        now,
    );
    let t = s.after_create(p);
    assert forall|i: int| 0 <= i < t.policies.len() implies (#[trigger] t.policies[i]).id == i + 1
        && t.policies[i].terms_valid() by {
        if i < s.policies.len() {
            assert(t.policies[i] == s.policies[i]);
        }
    }
    assert forall|i: int, j: int| 0 <= i < j < t.active.len() implies t.active[i] < t.active[j] by {
        if j == s.active.len() {
            assert(s.is_active(s.active[i]));
        }
    }
    assert forall|i: int| 0 <= i < t.active.len() implies t.is_active(#[trigger] t.active[i]) by {
        if i < s.active.len() {
            let id: u32 = s.active[i];
            assert(s.is_active(id));
            assert(t.policies[id - 1] == s.policies[id - 1]);
        }
    }
    assert forall|id: u32| #[trigger] t.is_active(id) implies t.active.contains(id) by {
        if id == p.id {
            assert(t.active[t.active.len() - 1] == id);
        } else {
            assert(t.policies[id - 1] == s.policies[id - 1]);
            assert(s.is_active(id));
            let k: int = choose|k: int| 0 <= k < s.active.len() && s.active[k] == id;
            assert(t.active[k] == id);
        }
    }
}

/// Paying a premium leaves a valid state.
pub proof fn lemma_pay_keeps_valid(s: ContractView, id: u32, amount: i128, now: u64)
    requires
        s.valid(),
        s.pay_error(id, amount) is None,
    ensures
        s.with_policy(id, paid(s.policy(id), now)).valid(),
{
    let t = s.with_policy(id, paid(s.policy(id), now));
    assert forall|i: int| 0 <= i < t.policies.len() implies (#[trigger] t.policies[i]).id == i + 1
        && t.policies[i].terms_valid() by {
        if i != id - 1 {
            assert(t.policies[i] == s.policies[i]);
        } else {
            assert(s.policies[i].terms_valid());
        }
    }
    assert forall|x: u32| t.is_active(x) == s.is_active(x) by {
        if x != id && t.has_policy(x) {
            assert(t.policies[x - 1] == s.policies[x - 1]);
        }
    }
    assert forall|i: int| 0 <= i < t.active.len() implies t.is_active(#[trigger] t.active[i]) by {
        assert(s.is_active(s.active[i]));
        assert(t.is_active(s.active[i]) == s.is_active(s.active[i]));
    }
    assert forall|x: u32| #[trigger] t.is_active(x) implies t.active.contains(x) by {
        assert(t.is_active(x) == s.is_active(x));
    }
}

/// Deactivating a policy leaves a valid state.
pub proof fn lemma_deactivate_keeps_valid(s: ContractView, caller: Seq<u8>, id: u32)
    requires
        s.valid(),
        s.deactivate_error(caller, id) is None,
    ensures
        s.after_deactivate(id).valid(),
{
    let t = s.after_deactivate(id);
    lemma_filter_out_sorted(s.active, id);
    assert forall|i: int| 0 <= i < t.policies.len() implies (#[trigger] t.policies[i]).id == i + 1
        && t.policies[i].terms_valid() by {
        if i != id - 1 {
            assert(t.policies[i] == s.policies[i]);
        } else {
            assert(s.policies[i].terms_valid());
        }
    }
    assert forall|x: u32| t.is_active(x) == (s.is_active(x) && x != id) by {
        if x != id && t.has_policy(x) {
            assert(t.policies[x - 1] == s.policies[x - 1]);
        }
    }
    assert forall|i: int| 0 <= i < t.active.len() implies t.is_active(#[trigger] t.active[i]) by {
        let x: u32 = t.active[i];
        assert(t.active.contains(x));
        let k: int = choose|k: int| 0 <= k < s.active.len() && s.active[k] == x;
        assert(s.is_active(s.active[k]));
        assert(t.is_active(x) == (s.is_active(x) && x != id));
    }
    assert forall|x: u32| #[trigger] t.is_active(x) implies t.active.contains(x) by {
        assert(t.is_active(x) == (s.is_active(x) && x != id));
        assert(s.active.contains(x));
    }
}

/// Replacing an external reference leaves a valid state.
pub proof fn lemma_set_external_ref_keeps_valid(
    s: ContractView,
    caller: Seq<u8>,
    id: u32,
    external_ref: Option<Seq<u8>>,
)
    requires
        s.valid(),
        s.set_external_ref_error(caller, id, external_ref) is None,
    ensures
        s.with_policy(id, with_external_ref(s.policy(id), external_ref)).valid(),
{
    let t = s.with_policy(id, with_external_ref(s.policy(id), external_ref));
    assert forall|i: int| 0 <= i < t.policies.len() implies (#[trigger] t.policies[i]).id == i + 1
        && t.policies[i].terms_valid() by {
        if i != id - 1 {
            assert(t.policies[i] == s.policies[i]);
        } else {
            assert(s.policies[i].terms_valid());
        }
    }
    assert forall|x: u32| t.is_active(x) == s.is_active(x) by {
        if x != id && t.has_policy(x) {
            assert(t.policies[x - 1] == s.policies[x - 1]);
        }
    }
    assert forall|i: int| 0 <= i < t.active.len() implies t.is_active(#[trigger] t.active[i]) by {
        assert(s.is_active(s.active[i]));
        assert(t.is_active(s.active[i]) == s.is_active(s.active[i]));
    }
    assert forall|x: u32| #[trigger] t.is_active(x) implies t.active.contains(x) by {
        assert(t.is_active(x) == s.is_active(x));
    }
}


/// Two states whose policies listed in `ids` carry the same premiums give
/// the same premium sum over `ids`.
pub proof fn lemma_premium_sum_same(s: ContractView, t: ContractView, ids: Seq<u32>)
    requires
        forall|i: int|
            0 <= i < ids.len() ==> t.policy(#[trigger] ids[i]).monthly_premium == s.policy(
                ids[i],
            ).monthly_premium,
    ensures
        t.premium_sum(ids) == s.premium_sum(ids),
    decreases ids.len(),
{
    if ids.len() > 0 {
        let r = ids.drop_last();
        assert forall|i: int| 0 <= i < r.len() implies t.policy(#[trigger] r[i]).monthly_premium
            == s.policy(r[i]).monthly_premium by {
            assert(r[i] == ids[i]);
        }
        lemma_premium_sum_same(s, t, r);
        assert(ids.last() == ids[ids.len() - 1]);
    }
}

/// Filtering `id` out of a list without repeats removes the premium of `id`
/// from the sum, once if it was listed, and keeps every other term.
pub proof fn lemma_premium_sum_filter(s: ContractView, t: ContractView, ids: Seq<u32>, id: u32)
    requires
        ids.no_duplicates(),
        forall|i: int|
            0 <= i < ids.len() && ids[i] != id ==> t.policy(#[trigger] ids[i]).monthly_premium
                == s.policy(ids[i]).monthly_premium,
    ensures
        t.premium_sum(ids.filter(other_than(id))) == s.premium_sum(ids) - (if ids.contains(id) {
            s.policy(id).monthly_premium as int
        } else {
            0
        }),
    decreases ids.len(),
{
    reveal(Seq::filter);
    if ids.len() > 0 {
        let r = ids.drop_last();
        let last: u32 = ids.last();
        assert(r.no_duplicates());
        assert forall|i: int| 0 <= i < r.len() && r[i] != id implies t.policy(
            #[trigger] r[i],
        ).monthly_premium == s.policy(r[i]).monthly_premium by {
            assert(r[i] == ids[i]);
        }
        lemma_premium_sum_filter(s, t, r, id);
        let fr = r.filter(other_than(id));
        assert(ids.filter(other_than(id)) == if last != id {
            fr.push(last)
        } else {
            fr
        });
        if last == id {
            assert(!r.contains(id)) by {
                if r.contains(id) {
                    let k: int = choose|k: int| 0 <= k < r.len() && r[k] == id;
                    assert(ids[k] == ids[ids.len() - 1]);
                }
            }
            assert(ids.contains(id)) by {
                assert(ids[ids.len() - 1] == id);
            }
        } else {
            assert(fr.push(last).drop_last() =~= fr);
            assert(t.policy(ids[ids.len() - 1]).monthly_premium == s.policy(
                ids[ids.len() - 1],
            ).monthly_premium);
            assert(ids.contains(id) == r.contains(id)) by {
                if ids.contains(id) {
                    let k: int = choose|k: int| 0 <= k < ids.len() && ids[k] == id;
                    assert(r[k] == id);
                }
                if r.contains(id) {
                    let k: int = choose|k: int| 0 <= k < r.len() && r[k] == id;
                    assert(ids[k] == id);
                }
            }
        }
    }
}

/// In a valid state the list of active ids holds each active policy exactly
/// once and nothing else, and never more than `MAX_POLICIES` ids: what
/// `get_active_policies` returns is exactly the set of active policies.
pub proof fn lemma_active_list_is_exact(s: ContractView)
    requires
        s.valid(),
    ensures
        forall|id: u32| #[trigger] s.active.contains(id) <==> s.is_active(id),
        s.active.no_duplicates(),
        s.active.len() <= MAX_POLICIES,
{
    assert forall|id: u32| #[trigger] s.active.contains(id) implies s.is_active(id) by {
        let k: int = choose|k: int| 0 <= k < s.active.len() && s.active[k] == id;
        assert(s.is_active(s.active[k]));
    }
}

/// In a valid state policy `i` has id `i` for every `i` from 1 up to the
/// number of policies: ids are handed out consecutively from 1, and the
/// next one is one more than the number of policies.
pub proof fn lemma_ids_are_consecutive(s: ContractView)
    requires
        s.valid(),
    ensures
        forall|id: u32| #[trigger] s.has_policy(id) ==> s.policy(id).id == id,
        !s.has_policy(s.next_policy_id()) || s.policies.len() == u32::MAX,
{
    assert forall|id: u32| #[trigger] s.has_policy(id) implies s.policy(id).id == id by {
        assert(s.policies[id - 1].id == id - 1 + 1);
    }
}

/// In a valid state the total monthly premium of the active policies lies
/// between zero and `MAX_POLICIES` times the largest premium any coverage
/// type admits, so adding it up never reaches the bounds of `i128`.
pub proof fn lemma_total_premium_bounded(s: ContractView)
    requires
        s.valid(),
    ensures
        0 <= s.total_monthly_premium() <= 2_000_000_000 * MAX_POLICIES,
{
    assert forall|i: int| 0 <= i < s.active.len() implies s.has_policy(#[trigger] s.active[i]) by {
        assert(s.is_active(s.active[i]));
    }
    lemma_premium_sum_bounds(s, s.active);
}

/// `init` succeeds once: afterwards the contract has the given owner, no
/// policies, and every further `init` is answered with `AlreadyInitialized`.
pub proof fn lemma_init_only_once(s: ContractView, owner: Seq<u8>)
    requires
        s.valid(),
        s.init_error() is None,
    ensures
        s.after_init(owner).valid(),
        s.after_init(owner).owner == Some(owner),
        s.after_init(owner).policies.len() == 0,
        s.after_init(owner).active.len() == 0,
        s.after_init(owner).init_error() == Some(InsuranceError::AlreadyInitialized),
{
}

/// Only the owner manages policies: where the caller is not the owner of an
/// initialized contract, deactivating a policy and setting its external
/// reference are answered with `Unauthorized`, whatever the policy.
pub proof fn lemma_only_owner_manages(
    s: ContractView,
    caller: Seq<u8>,
    id: u32,
    external_ref: Option<Seq<u8>>,
)
    requires
        s.initialized(),
        s.owner != Some(caller),
    ensures
        s.deactivate_error(caller, id) == Some(InsuranceError::Unauthorized),
        s.set_external_ref_error(caller, id, external_ref) == Some(InsuranceError::Unauthorized),
{
}

/// A created policy can be read back: it has the next id, holds the given
/// terms, is active and listed, the policies before it are unchanged, and
/// its premium is added to the total.
pub proof fn lemma_created_policy_reads_back(
    s: ContractView,
    owner: Seq<u8>,
    name: Seq<u8>,
    coverage_type: CoverageType,
    monthly_premium: i128,
    coverage_amount: i128,
    external_ref: Option<Seq<u8>>,
    now: u64,
)
    requires
        s.valid(),
        s.create_error(name, coverage_type, monthly_premium, coverage_amount, external_ref) is None,
    ensures
        ({
            let id: u32 = s.next_policy_id();
            let p = new_policy(
                id,
                owner,
                name,
                coverage_type,
                monthly_premium,
                coverage_amount,
                external_ref,
                now,
            );
            let t = s.after_create(p);
            &&& id == s.policies.len() + 1
            &&& t.lookup_error(id) is None
            &&& t.policy(id) == p
            &&& t.policy(id).id == id
            &&& t.policy(id).owner == owner
            &&& t.policy(id).name == name
            &&& t.policy(id).coverage_type == coverage_type
            &&& t.policy(id).monthly_premium == monthly_premium
            &&& t.policy(id).coverage_amount == coverage_amount
            &&& t.policy(id).external_ref == external_ref
            &&& t.policy(id).active
            &&& t.policy(id).last_payment_at == 0
            &&& t.policy(id).created_at == now
            &&& t.policy(id).next_payment_due == due_after(now)
            &&& t.active == s.active.push(id)
            &&& t.owner == s.owner
            &&& t.is_active(id)
            &&& t.active.contains(id)
            &&& t.next_policy_id() == id + 1 || t.policies.len() == u32::MAX
            &&& forall|j: u32| #[trigger] s.has_policy(j) ==> t.has_policy(j) && t.policy(j) == s.policy(j)
            &&& t.total_monthly_premium() == s.total_monthly_premium() + monthly_premium
        }),
{
    let id: u32 = s.next_policy_id();
    let p = new_policy(
        id,
        owner,
        name,
        coverage_type,
        monthly_premium,
        coverage_amount,
        external_ref,
        now,
    );
    let t = s.after_create(p);
    assert(t.active[t.active.len() - 1] == id);
    assert forall|j: u32| #[trigger] s.has_policy(j) implies t.has_policy(j) && t.policy(j) == s.policy(j) by {
        assert(t.policies[j - 1] == s.policies[j - 1]);
    }
    assert forall|i: int| 0 <= i < s.active.len() implies t.policy(#[trigger] s.active[i]).monthly_premium
        == s.policy(s.active[i]).monthly_premium by {
        assert(s.is_active(s.active[i]));
        assert(t.policies[s.active[i] - 1] == s.policies[s.active[i] - 1]);
    }
    lemma_premium_sum_same(s, t, s.active);
    assert(t.active.drop_last() =~= s.active);
}

/// Paying a premium moves only that policy's payment dates: the payment is
/// dated `now`, the next one is due thirty days later, every other field and
/// every other policy is unchanged, the same payment may be made again, and
/// the active list and total premium stay as they were.
pub proof fn lemma_payment_moves_only_dates(s: ContractView, id: u32, amount: i128, now: u64)
    requires
        s.valid(),
        s.pay_error(id, amount) is None,
    ensures
        ({
            let t = s.with_policy(id, paid(s.policy(id), now));
            &&& t.policy(id).last_payment_at == now
            &&& t.policy(id).next_payment_due == due_after(now)
            &&& t.policy(id) == PolicyView {
                last_payment_at: now,
                next_payment_due: due_after(now),
                ..s.policy(id)
            }
            &&& forall|j: u32| #[trigger] s.has_policy(j) && j != id ==> t.policy(j) == s.policy(j)
            &&& t.policies.len() == s.policies.len()
            &&& t.active == s.active
            &&& t.pay_error(id, amount) is None
            &&& t.total_monthly_premium() == s.total_monthly_premium()
        }),
{
    let t = s.with_policy(id, paid(s.policy(id), now));
    assert forall|j: u32| #[trigger] s.has_policy(j) && j != id implies t.policy(j) == s.policy(j) by {
        assert(t.policies[j - 1] == s.policies[j - 1]);
    }
    assert forall|i: int| 0 <= i < s.active.len() implies t.policy(#[trigger] s.active[i]).monthly_premium
        == s.policy(s.active[i]).monthly_premium by {
        assert(s.is_active(s.active[i]));
    }
    lemma_premium_sum_same(s, t, s.active);
}

/// A deactivated policy is closed: it leaves the active list, every later
/// payment on it is answered with `PolicyInactive`, and so is a second
/// deactivation; its premium leaves the total, and no other policy changes.
pub proof fn lemma_deactivated_policy_is_closed(s: ContractView, caller: Seq<u8>, id: u32)
    requires
        s.valid(),
        s.deactivate_error(caller, id) is None,
    ensures
        ({
            let t = s.after_deactivate(id);
            &&& !t.active.contains(id)
            &&& !t.is_active(id)
            &&& t.policy(id) == deactivated(s.policy(id))
            &&& t.policy(id) == PolicyView { active: false, ..s.policy(id) }
            &&& t.owner == s.owner
            &&& t.policies.len() == s.policies.len()
            &&& forall|amount: i128| #[trigger] t.pay_error(id, amount) == Some(
                InsuranceError::PolicyInactive,
            )
            &&& t.deactivate_error(caller, id) == Some(InsuranceError::PolicyInactive)
            &&& forall|j: u32| #[trigger] s.has_policy(j) && j != id ==> t.policy(j) == s.policy(j)
            &&& forall|j: u32| j != id ==> (#[trigger] t.is_active(j) <==> s.is_active(j))
            &&& t.total_monthly_premium() == s.total_monthly_premium() - s.policy(id).monthly_premium
        }),
{
    let t = s.after_deactivate(id);
    lemma_deactivate_keeps_valid(s, caller, id);
    lemma_filter_out_sorted(s.active, id);
    assert forall|j: u32| #[trigger] s.has_policy(j) && j != id implies t.policy(j) == s.policy(j) by {
        assert(t.policies[j - 1] == s.policies[j - 1]);
    }
    assert forall|j: u32| j != id implies (#[trigger] t.is_active(j) <==> s.is_active(j)) by {
        if s.has_policy(j) {
            assert(t.policies[j - 1] == s.policies[j - 1]);
        }
    }
    assert(s.active.no_duplicates());
    assert forall|i: int| 0 <= i < s.active.len() && s.active[i] != id implies t.policy(
        #[trigger] s.active[i],
    ).monthly_premium == s.policy(s.active[i]).monthly_premium by {
        assert(s.is_active(s.active[i]));
        assert(t.policies[s.active[i] - 1] == s.policies[s.active[i] - 1]);
    }
    lemma_premium_sum_filter(s, t, s.active, id);
    assert(s.is_active(id));
    assert(s.active.contains(id));
}

/// Setting an external reference changes nothing but that reference.
pub proof fn lemma_external_ref_changes_only_ref(
    s: ContractView,
    caller: Seq<u8>,
    id: u32,
    external_ref: Option<Seq<u8>>,
)
    requires
        s.valid(),
        s.set_external_ref_error(caller, id, external_ref) is None,
    ensures
        ({
            let t = s.with_policy(id, with_external_ref(s.policy(id), external_ref));
            &&& t.policy(id) == PolicyView { external_ref, ..s.policy(id) }
            &&& forall|j: u32| #[trigger] s.has_policy(j) && j != id ==> t.policy(j) == s.policy(j)
            &&& t.active == s.active
            &&& t.owner == s.owner
        }),
{
    let t = s.with_policy(id, with_external_ref(s.policy(id), external_ref));
    assert forall|j: u32| #[trigger] s.has_policy(j) && j != id implies t.policy(j) == s.policy(j) by {
        assert(t.policies[j - 1] == s.policies[j - 1]);
    }
}

/// Every call leaves a valid state valid, and only a call that creates a
/// policy changes the number of policies, by one.
pub proof fn lemma_step_keeps_valid(s: ContractView, op: Op)
    requires
        s.valid(),
    ensures
        s.step(op).valid(),
        s.step(op).policies.len() == s.policies.len() + (if s.step_created(op) is Some {
            1int
        } else {
            0int
        }),
{
    match op {
        Op::Init { owner } => {
            if s.init_error() is None {
                lemma_init_keeps_valid(s, owner);
            }
        },
        Op::Create {
            caller,
            name,
            coverage_type,
            monthly_premium,
            coverage_amount,
            external_ref,
            now,
        } => {
            if s.create_error(name, coverage_type, monthly_premium, coverage_amount, external_ref)
                is None {
                lemma_create_keeps_valid(
                    s,
                    caller,
                    name,
                    coverage_type,
                    monthly_premium,
                    coverage_amount,
                    external_ref,
                    now,
                );
            }
        },
        Op::Pay { id, amount, now } => {
            if s.pay_error(id, amount) is None {
                lemma_pay_keeps_valid(s, id, amount, now);
            }
        },
        Op::Deactivate { caller, id, now } => {
            if s.deactivate_error(caller, id) is None {
                lemma_deactivate_keeps_valid(s, caller, id);
            }
        },
        Op::SetExternalRef { caller, id, external_ref } => {
            if s.set_external_ref_error(caller, id, external_ref) is None {
                lemma_set_external_ref_keeps_valid(s, caller, id, external_ref);
            }
        },
    }
}

/// Any sequence of calls leaves a valid state valid.
pub proof fn lemma_run_keeps_valid(s: ContractView, ops: Seq<Op>)
    requires
        s.valid(),
    ensures
        s.run(ops).valid(),
    decreases ops.len(),
{
    if ops.len() > 0 {
        lemma_run_keeps_valid(s, ops.drop_last());
        lemma_step_keeps_valid(s.run(ops.drop_last()), ops.last());
    }
}

/// Policy ids are handed out consecutively and never reused: over any
/// sequence of calls, the ids that the successful creations return are the
/// numbers following the number of policies at the start, one by one,
/// whatever other calls (deactivations included) come in between; and the
/// number of policies grows by exactly the number of creations.
pub proof fn lemma_created_ids_are_consecutive(s: ContractView, ops: Seq<Op>)
    requires
        s.valid(),
    ensures
        s.run(ops).valid(),
        s.run(ops).policies.len() == s.policies.len() + s.created_ids(ops).len(),
        forall|k: int|
            0 <= k < s.created_ids(ops).len() ==> #[trigger] s.created_ids(ops)[k]
                == s.policies.len() + 1 + k,
        forall|j: int, k: int|
            0 <= j < k < s.created_ids(ops).len() ==> s.created_ids(ops)[j] < s.created_ids(
                ops,
            )[k],
        forall|k: int|
            0 <= k < s.created_ids(ops).len() ==> !s.has_policy(#[trigger] s.created_ids(ops)[k]),
    decreases ops.len(),
{
    if ops.len() > 0 {
        let r = ops.drop_last();
        lemma_created_ids_are_consecutive(s, r);
        let before = s.run(r);
        lemma_step_keeps_valid(before, ops.last());
        let earlier = s.created_ids(r);
        let ids = s.created_ids(ops);
        match before.step_created(ops.last()) {
            Some(id) => {
                assert(ids == earlier.push(id));
                assert(before.policies.len() < u32::MAX);
                assert(id == before.policies.len() + 1);
                assert forall|k: int| 0 <= k < ids.len() implies #[trigger] ids[k] == s.policies.len()
                    + 1 + k by {
                    if k < earlier.len() {
                        assert(ids[k] == earlier[k]);
                    }
                }
            },
            None => {
                assert(ids == earlier);
            },
        }
    }
}

/// Once the contract is initialized its owner never changes: after any
/// sequence of calls, `init` is answered with `AlreadyInitialized`, and
/// deactivating a policy or setting its external reference can succeed
/// only for the original owner.
pub proof fn lemma_owner_is_fixed(s: ContractView, ops: Seq<Op>)
    requires
        s.valid(),
        s.initialized(),
    ensures
        s.run(ops).owner == s.owner,
        s.run(ops).init_error() == Some(InsuranceError::AlreadyInitialized),
        forall|caller: Seq<u8>, id: u32|
            #[trigger] s.run(ops).deactivate_error(caller, id) is None ==> s.owner == Some(caller),
        forall|caller: Seq<u8>, id: u32, external_ref: Option<Seq<u8>>|
            #[trigger] s.run(ops).set_external_ref_error(caller, id, external_ref) is None
                ==> s.owner == Some(caller),
    decreases ops.len(),
{
    if ops.len() > 0 {
        lemma_owner_is_fixed(s, ops.drop_last());
    }
}

/// One call on a state with the policy `id` keeps that policy, keeps its
/// terms, never makes it active again, and changes its last payment time
/// only where the call is a payment on it, to the payment's time.
pub proof fn lemma_step_keeps_policy(s: ContractView, op: Op, id: u32)
    requires
        s.valid(),
        s.has_policy(id),
    ensures
        s.step(op).has_policy(id),
        same_terms(s.step(op).policy(id), s.policy(id)),
        !s.policy(id).active ==> !s.step(op).policy(id).active,
        s.step(op).policy(id).last_payment_at == s.policy(id).last_payment_at || (op matches Op::Pay {
            id: paid_id,
            amount,
            now,
        } && paid_id == id && s.step(op).policy(id).last_payment_at == now),
{
    lemma_step_keeps_valid(s, op);
    let t = s.step(op);
    match op {
        Op::Init { owner } => {},
        Op::Create { .. } => {
            assert(t.policies.len() >= s.policies.len());
            if t != s {
                assert(t.policies[id - 1] == s.policies[id - 1]);
            }
        },
        Op::Pay { id: paid_id, amount, now } => {
            if t != s && paid_id != id {
                assert(t.policies[id - 1] == s.policies[id - 1]);
            }
        },
        Op::Deactivate { caller, id: gone, now } => {
            if t != s && gone != id {
                assert(t.policies[id - 1] == s.policies[id - 1]);
            }
        },
        Op::SetExternalRef { caller, id: changed, external_ref } => {
            if t != s && changed != id {
                assert(t.policies[id - 1] == s.policies[id - 1]);
            }
        },
    }
}

/// A policy, once created, keeps its id, owner, name, coverage type,
/// premium, coverage amount and creation time through any sequence of calls,
/// and once inactive it never becomes active again.
pub proof fn lemma_policy_terms_are_fixed(s: ContractView, ops: Seq<Op>, id: u32)
    requires
        s.valid(),
        s.has_policy(id),
    ensures
        s.run(ops).has_policy(id),
        same_terms(s.run(ops).policy(id), s.policy(id)),
        !s.policy(id).active ==> !s.run(ops).policy(id).active,
    decreases ops.len(),
{
    if ops.len() > 0 {
        let r = ops.drop_last();
        lemma_policy_terms_are_fixed(s, r, id);
        lemma_run_keeps_valid(s, r);
        lemma_step_keeps_policy(s.run(r), ops.last(), id);
    }
}

/// Deactivation is permanent: whatever calls follow it, the policy stays
/// inactive and off the active list, every payment on it is answered with
/// `PolicyInactive` and changes nothing, and so is every further
/// deactivation of it by the owner.
pub proof fn lemma_deactivation_is_permanent(
    s: ContractView,
    caller: Seq<u8>,
    id: u32,
    ops: Seq<Op>,
)
    requires
        s.valid(),
        s.deactivate_error(caller, id) is None,
    ensures
        ({
            let t = s.after_deactivate(id).run(ops);
            &&& t.has_policy(id)
            &&& !t.policy(id).active
            &&& !t.active.contains(id)
            &&& forall|amount: i128| #[trigger] t.pay_error(id, amount) == Some(
                InsuranceError::PolicyInactive,
            )
            &&& forall|amount: i128, now: u64| #[trigger] t.step(Op::Pay { id, amount, now }) == t
            &&& t.deactivate_error(caller, id) == Some(InsuranceError::PolicyInactive)
            &&& forall|now: u64| #[trigger] t.step(Op::Deactivate { caller, id, now }) == t
        }),
{
    let d = s.after_deactivate(id);
    lemma_deactivate_keeps_valid(s, caller, id);
    lemma_deactivated_policy_is_closed(s, caller, id);
    assert(d.has_policy(id));
    lemma_policy_terms_are_fixed(d, ops, id);
    lemma_owner_is_fixed(d, ops);
    let t = d.run(ops);
    lemma_run_keeps_valid(d, ops);
    lemma_active_list_is_exact(t);
}

/// The latest time of a sequence of calls lies at or before any time `x`
/// that no call of it, nor `t0`, exceeds.
pub proof fn lemma_latest_at_most(t0: u64, ops: Seq<Op>, x: u64)
    requires
        t0 <= x,
        forall|i: int| 0 <= i < ops.len() && op_time(ops[i]) is Some ==> op_time(#[trigger] ops[i]).unwrap() <= x,
    ensures
        latest(t0, ops) <= x,
    decreases ops.len(),
{
    if ops.len() > 0 {
        let r = ops.drop_last();
        assert forall|i: int| 0 <= i < r.len() && op_time(r[i]) is Some implies op_time(#[trigger] r[i]).unwrap() <= x by {
            assert(r[i] == ops[i]);
        }
        lemma_latest_at_most(t0, r, x);
        assert(ops.last() == ops[ops.len() - 1]);
    }
}

/// The calls of a prefix of a sequence made at non-decreasing times are
/// made at non-decreasing times.
pub proof fn lemma_times_from_prefix(ops: Seq<Op>, t0: u64)
    requires
        ops.len() > 0,
        times_from(ops, t0),
    ensures
        times_from(ops.drop_last(), t0),
        op_time(ops.last()) matches Some(x) ==> latest(t0, ops.drop_last()) <= x,
{
    let r = ops.drop_last();
    assert forall|i: int| 0 <= i < r.len() && op_time(r[i]) is Some implies t0 <= op_time(#[trigger] r[i]).unwrap() by {
        assert(r[i] == ops[i]);
    }
    assert forall|i: int, j: int|
        0 <= i < j < r.len() && op_time(r[i]) is Some && op_time(r[j]) is Some implies op_time(
        #[trigger] r[i],
    ).unwrap() <= op_time(#[trigger] r[j]).unwrap() by {
        assert(r[i] == ops[i]);
        assert(r[j] == ops[j]);
    }
    if op_time(ops.last()) is Some {
        let x = op_time(ops.last()).unwrap();
        assert(ops.last() == ops[ops.len() - 1]);
        assert forall|i: int| 0 <= i < r.len() && op_time(r[i]) is Some implies op_time(#[trigger] r[i]).unwrap() <= x by {
            assert(r[i] == ops[i]);
        }
        lemma_latest_at_most(t0, r, x);
    }
}

/// A call made no earlier than every creation and payment so far keeps
/// the policies' dates consistent and dated no later than the call.
pub proof fn lemma_step_times(s: ContractView, op: Op, l: u64)
    requires
        s.valid(),
        s.times_at_most(l),
        s.dates_consistent(),
        op_time(op) matches Some(x) ==> l <= x,
    ensures
        s.step(op).times_at_most(
            match op_time(op) {
                Some(x) => x,
                None => l,
            },
        ),
        s.step(op).dates_consistent(),
{
    let t = s.step(op);
    match op {
        Op::Init { owner } => {},
        Op::Create { .. } => {
            if t != s {
                assert forall|i: int| 0 <= i < s.policies.len() implies t.policies[i] == s.policies[i] by {}
            }
        },
        Op::Pay { id, amount, now } => {
            if t != s {
                assert forall|i: int| 0 <= i < s.policies.len() && i != id - 1 implies t.policies[i] == s.policies[i] by {}
                assert(s.policies[id - 1].created_at <= l);
            }
        },
        Op::Deactivate { caller, id, now } => {
            if t != s {
                assert forall|i: int| 0 <= i < s.policies.len() && i != id - 1 implies t.policies[i] == s.policies[i] by {}
            }
        },
        Op::SetExternalRef { caller, id, external_ref } => {
            if t != s {
                assert forall|i: int| 0 <= i < s.policies.len() && i != id - 1 implies t.policies[i] == s.policies[i] by {}
            }
        },
    }
}

/// Calls made at non-decreasing times, none before `t0`, on a state whose
/// policies were created and paid no later than `t0` and whose dates are
/// consistent, leave the dates consistent and no later than the latest
/// call.
pub proof fn lemma_run_times(s: ContractView, ops: Seq<Op>, t0: u64)
    requires
        s.valid(),
        s.times_at_most(t0),
        s.dates_consistent(),
        times_from(ops, t0),
    ensures
        s.run(ops).times_at_most(latest(t0, ops)),
        s.run(ops).dates_consistent(),
    decreases ops.len(),
{
    if ops.len() > 0 {
        let r = ops.drop_last();
        lemma_times_from_prefix(ops, t0);
        lemma_run_times(s, r, t0);
        lemma_run_keeps_valid(s, r);
        lemma_step_times(s.run(r), ops.last(), latest(t0, r));
    }
}

/// Where the calls are made at non-decreasing ledger times, every policy's
/// next payment falls due thirty days after its creation or its last
/// payment, whichever is later (held at `u64::MAX`), and no recorded
/// payment predates the policy.
pub proof fn lemma_payment_dates_follow_history(ops: Seq<Op>)
    requires
        times_from(ops, 0),
    ensures
        ({
            let t = ContractView::empty().run(ops);
            &&& t.valid()
            &&& forall|id: u32| #[trigger] t.has_policy(id) ==> {
                &&& t.policy(id).next_payment_due == due_after(
                    later_of(t.policy(id).created_at, t.policy(id).last_payment_at),
                )
                &&& (t.policy(id).last_payment_at == 0 || t.policy(id).last_payment_at
                    >= t.policy(id).created_at)
            }
        }),
{
    let e = ContractView::empty();
    lemma_run_keeps_valid(e, ops);
    lemma_run_times(e, ops, 0);
    let t = e.run(ops);
    assert forall|id: u32| #[trigger] t.has_policy(id) implies {
        &&& t.policy(id).next_payment_due == due_after(
            later_of(t.policy(id).created_at, t.policy(id).last_payment_at),
        )
        &&& (t.policy(id).last_payment_at == 0 || t.policy(id).last_payment_at >= t.policy(id).created_at)
    } by {
        assert(t.policies[id - 1] == t.policy(id));
    }
}

/// Where the calls are made at non-decreasing ledger times, none before any
/// creation or payment already recorded, a policy's last payment time never
/// decreases.
pub proof fn lemma_last_payment_never_decreases(s: ContractView, ops: Seq<Op>, t0: u64, id: u32)
    requires
        s.valid(),
        s.has_policy(id),
        s.times_at_most(t0),
        times_from(ops, t0),
    ensures
        s.run(ops).has_policy(id),
        s.run(ops).policy(id).last_payment_at >= s.policy(id).last_payment_at,
    decreases ops.len(),
{
    if ops.len() > 0 {
        let r = ops.drop_last();
        lemma_times_from_prefix(ops, t0);
        lemma_last_payment_never_decreases(s, r, t0, id);
        lemma_run_keeps_valid(s, r);
        lemma_run_times_only(s, r, t0);
        let before = s.run(r);
        assert(before.policies[id - 1].last_payment_at <= latest(t0, r));
        lemma_step_keeps_policy(before, ops.last(), id);
    }
}

/// Calls made at non-decreasing times, none before `t0`, on a state whose
/// policies were created and paid no later than `t0`, leave every creation
/// and payment dated no later than the latest call.
pub proof fn lemma_run_times_only(s: ContractView, ops: Seq<Op>, t0: u64)
    requires
        s.valid(),
        s.times_at_most(t0),
        times_from(ops, t0),
    ensures
        s.run(ops).times_at_most(latest(t0, ops)),
    decreases ops.len(),
{
    if ops.len() > 0 {
        let r = ops.drop_last();
        lemma_times_from_prefix(ops, t0);
        lemma_run_times_only(s, r, t0);
        lemma_run_keeps_valid(s, r);
        let before = s.run(r);
        let l = latest(t0, r);
        let t = before.step(ops.last());
        let bound = match op_time(ops.last()) {
            Some(x) => x,
            None => l,
        };
        assert forall|i: int| 0 <= i < t.policies.len() implies (#[trigger] t.policies[i]).created_at <= bound
            && t.policies[i].last_payment_at <= bound by {
            lemma_step_keeps_valid(before, ops.last());
            if i < before.policies.len() {
                let id: u32 = (i + 1) as u32;
                assert(before.has_policy(id));
                lemma_step_keeps_policy(before, ops.last(), id);
                assert(before.policies[i] == before.policy(id));
                assert(t.policies[i] == t.policy(id));
            } else {
                assert(t != before);
            }
        }
    }
}

/// `init` succeeds exactly on a contract that has no owner yet.
pub proof fn lemma_init_accepted_iff(s: ContractView)
    ensures
        s.init_error() is None <==> s.owner is None,
{
}

/// The terms of a new policy are accepted exactly when the name is 1 to 64
/// bytes long, the premium and the coverage are positive and within the
/// bounds of the coverage type, the coverage is at most twelve months of
/// premium times 500, whatever the coverage type, and the external reference
/// is absent or 1 to 128 bytes long.
pub proof fn lemma_terms_accepted_iff(
    name: Seq<u8>,
    coverage_type: CoverageType,
    monthly_premium: i128,
    coverage_amount: i128,
    external_ref: Option<Seq<u8>>,
)
    ensures
        terms_error(name, coverage_type, monthly_premium, coverage_amount, external_ref) is None
            <==> {
            &&& 1 <= name.len() <= 64
            &&& 0 < monthly_premium
            &&& 0 < coverage_amount
            &&& spec_constraints(coverage_type).min_premium <= monthly_premium
                <= spec_constraints(coverage_type).max_premium
            &&& spec_constraints(coverage_type).min_coverage <= coverage_amount
                <= spec_constraints(coverage_type).max_coverage
            &&& coverage_amount <= monthly_premium * 12 * 500
            &&& match external_ref {
                Some(r) => 1 <= r.len() <= 128,
                None => true,
            }
        },
{
    assert(MAX_NAME_LEN == 64 && MAX_EXT_REF_LEN == 128 && RATIO_MULTIPLIER == 500);
}

/// Creation succeeds exactly on an initialized contract with fewer than
/// `MAX_POLICIES` active policies and an unused id left, for terms that
/// break no creation rule; in particular every accepted policy, of any
/// coverage type, covers at most twelve months of premium times 500.
pub proof fn lemma_creation_accepted_iff(
    s: ContractView,
    name: Seq<u8>,
    coverage_type: CoverageType,
    monthly_premium: i128,
    coverage_amount: i128,
    external_ref: Option<Seq<u8>>,
)
    ensures
        s.create_error(name, coverage_type, monthly_premium, coverage_amount, external_ref) is None
            <==> {
            &&& s.owner is Some
            &&& terms_error(name, coverage_type, monthly_premium, coverage_amount, external_ref) is None
            &&& s.active.len() < 1000
            &&& s.policies.len() < u32::MAX
        },
        s.create_error(name, coverage_type, monthly_premium, coverage_amount, external_ref) is None
            ==> coverage_amount <= monthly_premium * 12 * 500 && 0 < monthly_premium,
        s.owner is None ==> s.create_error(
            name,
            coverage_type,
            monthly_premium,
            coverage_amount,
            external_ref,
        ) == Some(InsuranceError::NotInitialized),
        s.owner is Some && terms_error(
            name,
            coverage_type,
            monthly_premium,
            coverage_amount,
            external_ref,
        ) is None && s.active.len() >= 1000 ==> s.create_error(
            name,
            coverage_type,
            monthly_premium,
            coverage_amount,
            external_ref,
        ) == Some(InsuranceError::MaxPoliciesReached),
{
    lemma_terms_accepted_iff(name, coverage_type, monthly_premium, coverage_amount, external_ref);
}

/// A payment is accepted exactly on an initialized contract, for an
/// existing active policy, when the amount equals the policy's monthly
/// premium; an amount that differs is answered with `InvalidPremium`.
pub proof fn lemma_payment_accepted_iff(s: ContractView, id: u32, amount: i128)
    ensures
        s.pay_error(id, amount) is None <==> {
            &&& s.owner is Some
            &&& 1 <= id <= s.policies.len()
            &&& s.policies[id - 1].active
            &&& amount == s.policies[id - 1].monthly_premium
        },
        s.owner is Some && 1 <= id <= s.policies.len() && s.policies[id - 1].active && amount
            != s.policies[id - 1].monthly_premium ==> s.pay_error(id, amount) == Some(
            InsuranceError::InvalidPremium,
        ),
        s.owner is None ==> s.pay_error(id, amount) == Some(InsuranceError::NotInitialized),
        s.owner is Some && !(1 <= id <= s.policies.len()) ==> s.pay_error(id, amount) == Some(
            InsuranceError::PolicyNotFound,
        ),
        s.owner is Some && 1 <= id <= s.policies.len() && !s.policies[id - 1].active
            ==> s.pay_error(id, amount) == Some(InsuranceError::PolicyInactive),
{
}

/// Deactivation is accepted exactly when the caller is the owner of an
/// initialized contract and the policy exists and is active, whatever its
/// payment history or external reference.
pub proof fn lemma_deactivation_accepted_iff(s: ContractView, caller: Seq<u8>, id: u32)
    ensures
        s.deactivate_error(caller, id) is None <==> {
            &&& s.owner == Some(caller)
            &&& 1 <= id <= s.policies.len()
            &&& s.policies[id - 1].active
        },
        s.owner is None ==> s.deactivate_error(caller, id) == Some(InsuranceError::NotInitialized),
        s.owner is Some && s.owner != Some(caller) ==> s.deactivate_error(caller, id) == Some(
            InsuranceError::Unauthorized,
        ),
        s.owner == Some(caller) && !(1 <= id <= s.policies.len()) ==> s.deactivate_error(caller, id)
            == Some(InsuranceError::PolicyNotFound),
        s.owner == Some(caller) && 1 <= id <= s.policies.len() && !s.policies[id - 1].active
            ==> s.deactivate_error(caller, id) == Some(InsuranceError::PolicyInactive),
{
}

/// Setting an external reference is accepted exactly when the caller is the
/// owner of an initialized contract, the policy exists (active or not), and
/// the new reference is absent or 1 to 128 bytes long, whatever the current
/// reference.
pub proof fn lemma_external_ref_accepted_iff(
    s: ContractView,
    caller: Seq<u8>,
    id: u32,
    external_ref: Option<Seq<u8>>,
)
    ensures
        s.set_external_ref_error(caller, id, external_ref) is None <==> {
            &&& s.owner == Some(caller)
            &&& 1 <= id <= s.policies.len()
            &&& match external_ref {
                Some(r) => 1 <= r.len() <= 128,
                None => true,
            }
        },
        s.owner is None ==> s.set_external_ref_error(caller, id, external_ref) == Some(
            InsuranceError::NotInitialized,
        ),
        s.owner is Some && s.owner != Some(caller) ==> s.set_external_ref_error(
            caller,
            id,
            external_ref,
        ) == Some(InsuranceError::Unauthorized),
        s.owner == Some(caller) && !(1 <= id <= s.policies.len()) ==> s.set_external_ref_error(
            caller,
            id,
            external_ref,
        ) == Some(InsuranceError::PolicyNotFound),
{
}

/// Every existing policy of an initialized contract can be looked up,
/// active or not, and only those.
pub proof fn lemma_lookup_accepted_iff(s: ContractView, id: u32)
    ensures
        s.lookup_error(id) is None <==> s.owner is Some && 1 <= id <= s.policies.len(),
        s.owner is None ==> s.lookup_error(id) == Some(InsuranceError::NotInitialized),
        s.owner is Some && !(1 <= id <= s.policies.len()) ==> s.lookup_error(id) == Some(
            InsuranceError::PolicyNotFound,
        ),
{
}

/// The next payment falls due thirty days (2,592,000 seconds) after `now`,
/// held at `u64::MAX` where that would lie beyond it.
pub proof fn lemma_due_after_is_thirty_days_later(now: u64)
    ensures
        now as int + 2_592_000 <= u64::MAX ==> due_after(now) == now as int + 2_592_000,
        now as int + 2_592_000 > u64::MAX ==> due_after(now) == u64::MAX,
{
}

/// The premium and coverage bounds of each coverage type.
pub proof fn lemma_coverage_bounds(ct: CoverageType)
    ensures
        ct == CoverageType::Health ==> spec_constraints(ct) == (CoverageConstraints {
            min_premium: 1_000_000,
            max_premium: 500_000_000,
            min_coverage: 10_000_000,
            max_coverage: 100_000_000_000,
        }),
        ct == CoverageType::Life ==> spec_constraints(ct) == (CoverageConstraints {
            min_premium: 500_000,
            max_premium: 1_000_000_000,
            min_coverage: 50_000_000,
            max_coverage: 500_000_000_000,
        }),
        ct == CoverageType::Property ==> spec_constraints(ct) == (CoverageConstraints {
            min_premium: 2_000_000,
            max_premium: 2_000_000_000,
            min_coverage: 100_000_000,
            max_coverage: 1_000_000_000_000,
        }),
        ct == CoverageType::Auto ==> spec_constraints(ct) == (CoverageConstraints {
            min_premium: 1_500_000,
            max_premium: 750_000_000,
            min_coverage: 20_000_000,
            max_coverage: 200_000_000_000,
        }),
        ct == CoverageType::Liability ==> spec_constraints(ct) == (CoverageConstraints {
            min_premium: 800_000,
            max_premium: 400_000_000,
            min_coverage: 5_000_000,
            max_coverage: 50_000_000_000,
        }),
{
}

} // verus!
