use vstd::prelude::*;
use crate::account::{AccountId, copy_bytes};
use crate::error::InsuranceError;

verus! {

/// Seconds in thirty days: the interval between premium payments.
pub const THIRTY_DAYS: u64 = 30 * 24 * 60 * 60;

/// Longest policy name, in bytes.
pub const MAX_NAME_LEN: usize = 64;

/// Longest external reference, in bytes.
pub const MAX_EXT_REF_LEN: usize = 128;

/// The coverage of a policy may be at most this many times its annual premium.
pub const RATIO_MULTIPLIER: i128 = 500;

/// The kind of risk a policy covers.
#[derive(Clone, Copy, Debug, PartialEq, Eq, Structural)]
pub enum CoverageType {
    Health,
    Life,
    Property,
    Auto,
    Liability,
}

/// The premium and coverage bounds that apply to one coverage type.
#[derive(Clone, Copy, Debug, PartialEq, Eq, Structural)]
pub struct CoverageConstraints {
    pub min_premium: i128,
    pub max_premium: i128,
    pub min_coverage: i128,
    pub max_coverage: i128,
}

/// The bounds of each coverage type.
pub open spec fn spec_constraints(ct: CoverageType) -> CoverageConstraints {
    match ct {
        CoverageType::Health => CoverageConstraints {
            min_premium: 1_000_000,
            max_premium: 500_000_000,
            min_coverage: 10_000_000,
            max_coverage: 100_000_000_000,
        },
        CoverageType::Life => CoverageConstraints {
            min_premium: 500_000,
            max_premium: 1_000_000_000,
            min_coverage: 50_000_000,
            max_coverage: 500_000_000_000,
        },
        CoverageType::Property => CoverageConstraints {
            min_premium: 2_000_000,
            max_premium: 2_000_000_000,
            min_coverage: 100_000_000,
            max_coverage: 1_000_000_000_000,
        },
        CoverageType::Auto => CoverageConstraints {
            min_premium: 1_500_000,
            max_premium: 750_000_000,
            min_coverage: 20_000_000,
            max_coverage: 200_000_000_000,
        },
        CoverageType::Liability => CoverageConstraints {
            min_premium: 800_000,
            max_premium: 400_000_000,
            min_coverage: 5_000_000,
            max_coverage: 50_000_000_000,
        },
    }
}

/// The bounds that apply to policies of coverage type `ct`.
pub fn constraints_for(ct: CoverageType) -> (c: CoverageConstraints)
    ensures
        c == spec_constraints(ct),
{
    match ct {
        CoverageType::Health => CoverageConstraints {
            min_premium: 1_000_000,
            max_premium: 500_000_000,
            min_coverage: 10_000_000,
            max_coverage: 100_000_000_000,
        },
        CoverageType::Life => CoverageConstraints {
            min_premium: 500_000,
            max_premium: 1_000_000_000,
            min_coverage: 50_000_000,
            max_coverage: 500_000_000_000,
        },
        CoverageType::Property => CoverageConstraints {
            min_premium: 2_000_000,
            max_premium: 2_000_000_000,
            min_coverage: 100_000_000,
            max_coverage: 1_000_000_000_000,
        },
        CoverageType::Auto => CoverageConstraints {
            min_premium: 1_500_000,
            max_premium: 750_000_000,
            min_coverage: 20_000_000,
            max_coverage: 200_000_000_000,
        },
        CoverageType::Liability => CoverageConstraints {
            min_premium: 800_000,
            max_premium: 400_000_000,
            min_coverage: 5_000_000,
            max_coverage: 50_000_000_000,
        },
    }
}

/// The view of an optional byte string.
pub open spec fn opt_bytes_view(o: Option<Vec<u8>>) -> Option<Seq<u8>> {
    match o {
        Some(v) => Some(v@),
        None => None,
    }
}

/// Copies an optional byte string.
pub fn copy_opt_bytes(o: &Option<Vec<u8>>) -> (r: Option<Vec<u8>>)
    ensures
        opt_bytes_view(r) == opt_bytes_view(*o),
{
    match o {
        Some(v) => Some(copy_bytes(v)),
        None => None,
    }
}

/// An external reference is either absent, or between 1 and
/// `MAX_EXT_REF_LEN` bytes long.
pub open spec fn external_ref_valid(r: Option<Seq<u8>>) -> bool {
    match r {
        Some(s) => 1 <= s.len() <= MAX_EXT_REF_LEN,
        None => true,
    }
}

/// Checks an external reference.
pub fn check_external_ref(r: &Option<Vec<u8>>) -> (ok: bool)
    ensures
        ok == external_ref_valid(opt_bytes_view(*r)),
{
    match r {
        Some(v) => v.len() != 0 && v.len() <= MAX_EXT_REF_LEN,
        None => true,
    }
}

/// The first rule, in the order in which they are checked, that the terms
/// of a new policy break, or `None` when they break none.
pub open spec fn terms_error(
    name: Seq<u8>,
    ct: CoverageType,
    monthly_premium: i128,
    coverage_amount: i128,
    external_ref: Option<Seq<u8>>,
) -> Option<InsuranceError> {
    let c = spec_constraints(ct);
    if name.len() == 0 {
        Some(InsuranceError::InvalidName)
    } else if name.len() > MAX_NAME_LEN {
        Some(InsuranceError::InvalidName)
    } else if monthly_premium <= 0 {
        Some(InsuranceError::InvalidPremium)
    } else if coverage_amount <= 0 {
        Some(InsuranceError::InvalidCoverageAmount)
    } else if monthly_premium < c.min_premium || monthly_premium > c.max_premium {
        Some(InsuranceError::InvalidPremium)
    } else if coverage_amount < c.min_coverage || coverage_amount > c.max_coverage {
        Some(InsuranceError::InvalidCoverageAmount)
    } else if coverage_amount > monthly_premium * 12 * RATIO_MULTIPLIER {
        Some(InsuranceError::UnsupportedCombination)
    } else if !external_ref_valid(external_ref) {
        Some(InsuranceError::InvalidExternalRef)
    } else {
        None
    }
}

/// Checks the terms of a new policy against every creation rule.
pub fn check_terms(
    name: &Vec<u8>,
    ct: CoverageType,
    monthly_premium: i128,
    coverage_amount: i128,
    external_ref: &Option<Vec<u8>>,
) -> (r: Option<InsuranceError>)
    ensures
        r == terms_error(name@, ct, monthly_premium, coverage_amount, opt_bytes_view(*external_ref)),
{
    if name.len() == 0 {
        return Some(InsuranceError::InvalidName);
    }
    if name.len() > MAX_NAME_LEN {
        return Some(InsuranceError::InvalidName);
    }
    if monthly_premium <= 0 {
        return Some(InsuranceError::InvalidPremium);
    }
    if coverage_amount <= 0 {
        return Some(InsuranceError::InvalidCoverageAmount);
    }
    let c = constraints_for(ct);
    if monthly_premium < c.min_premium || monthly_premium > c.max_premium {
        return Some(InsuranceError::InvalidPremium);
    }
    if coverage_amount < c.min_coverage || coverage_amount > c.max_coverage {
        return Some(InsuranceError::InvalidCoverageAmount);
    }
    let annual: i128 = monthly_premium * 12;
    let max_coverage: i128 = annual * RATIO_MULTIPLIER;
    if coverage_amount > max_coverage {
        return Some(InsuranceError::UnsupportedCombination);
    }
    if !check_external_ref(external_ref) {
        return Some(InsuranceError::InvalidExternalRef);
    }
    None
}

/// `now` plus thirty days, held at `u64::MAX` where the sum would exceed it.
pub open spec fn due_after(now: u64) -> u64 {
    if now + THIRTY_DAYS > u64::MAX {
        u64::MAX
    } else {
        (now + THIRTY_DAYS) as u64
    }
}

/// A policy as the contract stores it, by value.
pub struct PolicyView {
    pub id: u32,
    pub owner: Seq<u8>,
    pub name: Seq<u8>,
    pub coverage_type: CoverageType,
    pub monthly_premium: i128,
    pub coverage_amount: i128,
    pub active: bool,
    pub next_payment_due: u64,
    pub last_payment_at: u64,
    pub created_at: u64,
    pub external_ref: Option<Seq<u8>>,
}

impl PolicyView {
    /// The terms of this policy break none of the creation rules.
    pub open spec fn terms_valid(self) -> bool {
        terms_error(
            self.name,
            self.coverage_type,
            self.monthly_premium,
            self.coverage_amount,
            self.external_ref,
        ) is None
    }
}

/// A single insurance policy record.
pub struct Policy {
    pub id: u32,
    pub owner: AccountId,
    pub name: Vec<u8>,
    pub coverage_type: CoverageType,
    pub monthly_premium: i128,
    pub coverage_amount: i128,
    pub active: bool,
    pub next_payment_due: u64,
    pub last_payment_at: u64,
    pub created_at: u64,
    pub external_ref: Option<Vec<u8>>,
}

impl View for Policy {
    type V = PolicyView;

    open spec fn view(&self) -> PolicyView {
        PolicyView {
            id: self.id,
            owner: self.owner@,
            name: self.name@,
            coverage_type: self.coverage_type,
            monthly_premium: self.monthly_premium,
            coverage_amount: self.coverage_amount,
            active: self.active,
            next_payment_due: self.next_payment_due,
            last_payment_at: self.last_payment_at,
            created_at: self.created_at,
            external_ref: opt_bytes_view(self.external_ref),
        }
    }
}

impl Policy {
    /// A copy of this policy.
    pub fn duplicate(&self) -> (r: Policy)
        ensures
            r@ == self@,
    {
        Policy {
            id: self.id,
            owner: self.owner.duplicate(),
            name: copy_bytes(&self.name),
            coverage_type: self.coverage_type,
            monthly_premium: self.monthly_premium,
            coverage_amount: self.coverage_amount,
            active: self.active,
            next_payment_due: self.next_payment_due,
            last_payment_at: self.last_payment_at,
            created_at: self.created_at,
            external_ref: copy_opt_bytes(&self.external_ref),
        }
    }
}

/// Published when a policy is created.
pub struct PolicyCreatedEvent {
    pub policy_id: u32,
    pub name: Vec<u8>,
    pub coverage_type: CoverageType,
    pub monthly_premium: i128,
    pub coverage_amount: i128,
    pub timestamp: u64,
}

/// Published when a premium is paid.
pub struct PremiumPaidEvent {
    pub policy_id: u32,
    pub name: Vec<u8>,
    pub amount: i128,
    pub next_payment_date: u64,
    pub timestamp: u64,
}

/// Published when a policy is deactivated.
pub struct PolicyDeactivatedEvent {
    pub policy_id: u32,
    pub name: Vec<u8>,
    pub timestamp: u64,
}

} // verus!
