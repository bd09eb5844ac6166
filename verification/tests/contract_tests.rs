use insurance::{AccountId, CoverageType, InsuranceContract, InsuranceError, Policy, MAX_POLICIES};

fn acct(tag: &str) -> AccountId {
    AccountId::new(tag.as_bytes().to_vec())
}

fn initialized() -> InsuranceContract {
    let mut c = InsuranceContract::new();
    c.init(acct("OWNER")).unwrap();
    c
}

fn create_health(c: &mut InsuranceContract, caller: &str, now: u64) -> Result<u32, InsuranceError> {
    c.create_policy(
        acct(caller),
        b"Family health".to_vec(),
        CoverageType::Health,
        5_000_000,
        50_000_000,
        None,
        now,
    )
    .map(|ev| ev.policy_id)
}

#[test]
fn init_only_once() {
    let mut c = InsuranceContract::new();
    assert_eq!(c.init(acct("OWNER")), Ok(()));
    assert_eq!(c.init(acct("OTHER")), Err(InsuranceError::AlreadyInitialized));
}

#[test]
fn calls_before_init_are_rejected() {
    let mut c = InsuranceContract::new();
    assert_eq!(create_health(&mut c, "USER", 0), Err(InsuranceError::NotInitialized));
    assert_eq!(c.pay_premium(1, 5_000_000, 0).err(), Some(InsuranceError::NotInitialized));
    assert_eq!(
        c.deactivate_policy(&acct("OWNER"), 1, 0).err(),
        Some(InsuranceError::NotInitialized)
    );
    assert_eq!(c.set_external_ref(&acct("OWNER"), 1, None), Err(InsuranceError::NotInitialized));
    assert_eq!(c.get_active_policies(), Err(InsuranceError::NotInitialized));
    assert_eq!(c.get_policy(1).err(), Some(InsuranceError::NotInitialized));
    assert_eq!(c.get_total_monthly_premium(), Err(InsuranceError::NotInitialized));
}

#[test]
fn create_policy_assigns_consecutive_ids_and_stores_terms() {
    let mut c = initialized();
    let ev = c
        .create_policy(
            acct("ALICE"),
            b"Car".to_vec(),
            CoverageType::Auto,
            2_000_000,
            30_000_000,
            Some(b"REF-1".to_vec()),
            1_000,
        )
        .unwrap();
    assert_eq!(ev.policy_id, 1);
    assert_eq!(ev.name, b"Car".to_vec());
    assert_eq!(ev.coverage_type, CoverageType::Auto);
    assert_eq!(ev.monthly_premium, 2_000_000);
    assert_eq!(ev.coverage_amount, 30_000_000);
    assert_eq!(ev.timestamp, 1_000);
    assert_eq!(create_health(&mut c, "BOB", 2_000), Ok(2));
    assert_eq!(create_health(&mut c, "CAROL", 3_000), Ok(3));

    let p: Policy = c.get_policy(1).unwrap();
    assert_eq!(p.id, 1);
    assert!(p.owner.same_as(&acct("ALICE")));
    assert_eq!(p.name, b"Car".to_vec());
    assert_eq!(p.coverage_type, CoverageType::Auto);
    assert_eq!(p.monthly_premium, 2_000_000);
    assert_eq!(p.coverage_amount, 30_000_000);
    assert!(p.active);
    assert_eq!(p.next_payment_due, 1_000 + 30 * 24 * 60 * 60);
    assert_eq!(p.last_payment_at, 0);
    assert_eq!(p.created_at, 1_000);
    assert_eq!(p.external_ref, Some(b"REF-1".to_vec()));
    assert_eq!(c.get_active_policies(), Ok(vec![1, 2, 3]));
    assert_eq!(c.get_policy(4).err(), Some(InsuranceError::PolicyNotFound));
    assert_eq!(c.get_policy(0).err(), Some(InsuranceError::PolicyNotFound));
}

#[test]
fn creation_rules_each_error() {
    let mut c = initialized();
    let mut try_create = |name: Vec<u8>, ct: CoverageType, prem: i128, cov: i128, r: Option<Vec<u8>>| {
        c.create_policy(acct("U"), name, ct, prem, cov, r, 0).map(|ev| ev.policy_id)
    };
    let ok_name = b"Plan".to_vec();
    assert_eq!(try_create(vec![], CoverageType::Health, 5_000_000, 50_000_000, None), Err(InsuranceError::InvalidName));
    assert_eq!(try_create(vec![b'a'; 65], CoverageType::Health, 5_000_000, 50_000_000, None), Err(InsuranceError::InvalidName));
    assert_eq!(try_create(vec![b'a'; 64], CoverageType::Health, 5_000_000, 50_000_000, None), Ok(1));
    assert_eq!(try_create(ok_name.clone(), CoverageType::Health, 0, 50_000_000, None), Err(InsuranceError::InvalidPremium));
    assert_eq!(try_create(ok_name.clone(), CoverageType::Health, -1, -1, None), Err(InsuranceError::InvalidPremium));
    assert_eq!(try_create(ok_name.clone(), CoverageType::Health, 5_000_000, 0, None), Err(InsuranceError::InvalidCoverageAmount));
    // premium below the type's minimum is reported after the coverage sign check
    assert_eq!(try_create(ok_name.clone(), CoverageType::Health, 10, -5, None), Err(InsuranceError::InvalidCoverageAmount));
    assert_eq!(try_create(ok_name.clone(), CoverageType::Health, 999_999, 50_000_000, None), Err(InsuranceError::InvalidPremium));
    assert_eq!(try_create(ok_name.clone(), CoverageType::Health, 500_000_001, 50_000_000, None), Err(InsuranceError::InvalidPremium));
    assert_eq!(try_create(ok_name.clone(), CoverageType::Health, 5_000_000, 9_999_999, None), Err(InsuranceError::InvalidCoverageAmount));
    assert_eq!(try_create(ok_name.clone(), CoverageType::Health, 500_000_000, 100_000_000_001, None), Err(InsuranceError::InvalidCoverageAmount));
    // coverage above 12 * 500 times the premium
    assert_eq!(try_create(ok_name.clone(), CoverageType::Health, 1_000_000, 6_000_000_001, None), Err(InsuranceError::UnsupportedCombination));
    assert_eq!(try_create(ok_name.clone(), CoverageType::Health, 1_000_000, 6_000_000_000, None), Ok(2));
    assert_eq!(try_create(ok_name.clone(), CoverageType::Health, 5_000_000, 50_000_000, Some(vec![])), Err(InsuranceError::InvalidExternalRef));
    assert_eq!(try_create(ok_name.clone(), CoverageType::Health, 5_000_000, 50_000_000, Some(vec![b'r'; 129])), Err(InsuranceError::InvalidExternalRef));
    assert_eq!(try_create(ok_name.clone(), CoverageType::Health, 5_000_000, 50_000_000, Some(vec![b'r'; 128])), Ok(3));
}

#[test]
fn coverage_type_bounds() {
    let mut c = initialized();
    let cases: Vec<(CoverageType, i128, i128, i128, i128)> = vec![
        (CoverageType::Health, 1_000_000, 500_000_000, 10_000_000, 100_000_000_000),
        (CoverageType::Life, 500_000, 1_000_000_000, 50_000_000, 500_000_000_000),
        (CoverageType::Property, 2_000_000, 2_000_000_000, 100_000_000, 1_000_000_000_000),
        (CoverageType::Auto, 1_500_000, 750_000_000, 20_000_000, 200_000_000_000),
        (CoverageType::Liability, 800_000, 400_000_000, 5_000_000, 50_000_000_000),
    ];
    for (ct, min_p, max_p, min_c, max_c) in cases {
        let mut go = |p: i128, cv: i128| c.create_policy(acct("U"), b"P".to_vec(), ct, p, cv, None, 0).map(|e| e.policy_id);
        assert!(go(min_p, min_c).is_ok());
        assert!(go(max_p, max_c).is_ok());
        assert_eq!(go(min_p - 1, min_c), Err(InsuranceError::InvalidPremium));
        assert_eq!(go(max_p + 1, min_c), Err(InsuranceError::InvalidPremium));
        assert_eq!(go(max_p, min_c - 1), Err(InsuranceError::InvalidCoverageAmount));
        assert_eq!(go(max_p, max_c + 1), Err(InsuranceError::InvalidCoverageAmount));
    }
    assert_eq!(c.get_active_policies().unwrap().len(), 10);
}

#[test]
fn pay_premium_moves_due_date() {
    let mut c = initialized();
    let id = create_health(&mut c, "ALICE", 100).unwrap();
    let ev = c.pay_premium(id, 5_000_000, 5_000).unwrap();
    assert_eq!(ev.policy_id, id);
    assert_eq!(ev.name, b"Family health".to_vec());
    assert_eq!(ev.amount, 5_000_000);
    assert_eq!(ev.next_payment_date, 5_000 + 2_592_000);
    assert_eq!(ev.timestamp, 5_000);
    let p = c.get_policy(id).unwrap();
    assert_eq!(p.last_payment_at, 5_000);
    assert_eq!(p.next_payment_due, 5_000 + 2_592_000);
    assert_eq!(p.created_at, 100);
    // any caller may pay; the same payment may be made again
    assert!(c.pay_premium(id, 5_000_000, 6_000).is_ok());
    assert_eq!(c.pay_premium(id, 4_999_999, 7_000).err(), Some(InsuranceError::InvalidPremium));
    assert_eq!(c.pay_premium(2, 5_000_000, 7_000).err(), Some(InsuranceError::PolicyNotFound));
}

#[test]
fn due_date_saturates_at_the_end_of_time() {
    let mut c = initialized();
    let id = create_health(&mut c, "ALICE", u64::MAX - 10).unwrap();
    assert_eq!(c.get_policy(id).unwrap().next_payment_due, u64::MAX);
    let ev = c.pay_premium(id, 5_000_000, u64::MAX).unwrap();
    assert_eq!(ev.next_payment_date, u64::MAX);
}

#[test]
fn deactivation_is_owner_only_and_closes_the_policy() {
    let mut c = initialized();
    let a = create_health(&mut c, "ALICE", 0).unwrap();
    let b = create_health(&mut c, "BOB", 0).unwrap();
    let d = create_health(&mut c, "DAN", 0).unwrap();
    assert_eq!(c.deactivate_policy(&acct("ALICE"), a, 10).err(), Some(InsuranceError::Unauthorized));
    assert_eq!(c.deactivate_policy(&acct("OWNER"), 9, 10).err(), Some(InsuranceError::PolicyNotFound));
    let ev = c.deactivate_policy(&acct("OWNER"), b, 10).unwrap();
    assert_eq!(ev.policy_id, b);
    assert_eq!(ev.name, b"Family health".to_vec());
    assert_eq!(ev.timestamp, 10);
    assert!(!c.get_policy(b).unwrap().active);
    assert_eq!(c.get_active_policies(), Ok(vec![a, d]));
    assert_eq!(c.deactivate_policy(&acct("OWNER"), b, 11).err(), Some(InsuranceError::PolicyInactive));
    assert_eq!(c.pay_premium(b, 5_000_000, 12).err(), Some(InsuranceError::PolicyInactive));
    // the next id continues after the deactivated one
    assert_eq!(create_health(&mut c, "EVE", 0), Ok(4));
}

#[test]
fn total_monthly_premium_counts_active_policies() {
    let mut c = initialized();
    assert_eq!(c.get_total_monthly_premium(), Ok(0));
    let a = create_health(&mut c, "A", 0).unwrap();
    c.create_policy(acct("B"), b"Home".to_vec(), CoverageType::Property, 3_000_000, 200_000_000, None, 0)
        .unwrap();
    assert_eq!(c.get_total_monthly_premium(), Ok(8_000_000));
    c.deactivate_policy(&acct("OWNER"), a, 1).unwrap();
    assert_eq!(c.get_total_monthly_premium(), Ok(3_000_000));
}

#[test]
fn external_reference_updates() {
    let mut c = initialized();
    let id = create_health(&mut c, "ALICE", 0).unwrap();
    assert_eq!(c.set_external_ref(&acct("ALICE"), id, Some(b"X".to_vec())), Err(InsuranceError::Unauthorized));
    assert_eq!(c.set_external_ref(&acct("OWNER"), 7, Some(b"X".to_vec())), Err(InsuranceError::PolicyNotFound));
    assert_eq!(c.set_external_ref(&acct("OWNER"), id, Some(vec![])), Err(InsuranceError::InvalidExternalRef));
    assert_eq!(c.set_external_ref(&acct("OWNER"), id, Some(b"CLAIM-7".to_vec())), Ok(()));
    assert_eq!(c.get_policy(id).unwrap().external_ref, Some(b"CLAIM-7".to_vec()));
    assert_eq!(c.set_external_ref(&acct("OWNER"), id, None), Ok(()));
    assert_eq!(c.get_policy(id).unwrap().external_ref, None);
    // an inactive policy's reference may still be changed
    c.deactivate_policy(&acct("OWNER"), id, 1).unwrap();
    assert_eq!(c.set_external_ref(&acct("OWNER"), id, Some(b"Z".to_vec())), Ok(()));
}

#[test]
fn at_most_max_policies_active() {
    let mut c = initialized();
    for i in 0..MAX_POLICIES {
        assert_eq!(create_health(&mut c, "U", 0), Ok(i as u32 + 1));
    }
    assert_eq!(create_health(&mut c, "U", 0), Err(InsuranceError::MaxPoliciesReached));
    c.deactivate_policy(&acct("OWNER"), 500, 0).unwrap();
    assert_eq!(create_health(&mut c, "U", 0), Ok(MAX_POLICIES as u32 + 1));
    assert_eq!(c.get_active_policies().unwrap().len(), MAX_POLICIES);
    assert_eq!(c.get_total_monthly_premium(), Ok(5_000_000 * MAX_POLICIES as i128));
}

#[test]
fn parts_round_trip_and_rejection() {
    let mut c = initialized();
    create_health(&mut c, "A", 0).unwrap();
    create_health(&mut c, "B", 0).unwrap();
    c.deactivate_policy(&acct("OWNER"), 1, 0).unwrap();
    let (owner, policies, active) = c.into_parts();
    assert_eq!(active, vec![2]);
    assert_eq!(policies.len(), 2);
    let copy: Vec<Policy> = policies.iter().map(|p| p.duplicate()).collect();
    let owner2 = owner.as_ref().map(|o| o.duplicate());
    let back = InsuranceContract::from_parts(owner, policies, active).unwrap();
    assert_eq!(back.get_active_policies(), Ok(vec![2]));
    // an active policy missing from the list is refused
    let copy2: Vec<Policy> = copy.iter().map(|p| p.duplicate()).collect();
    assert!(InsuranceContract::from_parts(owner2.as_ref().map(|o| o.duplicate()), copy2, vec![]).is_none());
    // an inactive policy in the list is refused
    let copy3: Vec<Policy> = copy.iter().map(|p| p.duplicate()).collect();
    assert!(InsuranceContract::from_parts(owner2.as_ref().map(|o| o.duplicate()), copy3, vec![1, 2]).is_none());
    // ids must be consecutive from 1
    let mut copy4: Vec<Policy> = copy.iter().map(|p| p.duplicate()).collect();
    copy4[0].id = 5;
    assert!(InsuranceContract::from_parts(owner2.as_ref().map(|o| o.duplicate()), copy4, vec![2]).is_none());
    // policies without an owner are refused
    assert!(InsuranceContract::from_parts(None, copy, vec![2]).is_none());
    assert!(InsuranceContract::from_parts(None, vec![], vec![]).is_some());
}

#[test]
fn account_identity_comparison() {
    assert!(acct("GABC").same_as(&acct("GABC")));
    assert!(!acct("GABC").same_as(&acct("GABD")));
    assert!(!acct("GABC").same_as(&acct("GAB")));
    assert_eq!(acct("GXYZ").as_bytes(), &b"GXYZ".to_vec());
}

#[test]
fn history_over_a_sequence_of_calls() {
    let mut c = initialized();
    let a = create_health(&mut c, "ALICE", 100).unwrap();
    let b = create_health(&mut c, "BOB", 200).unwrap();
    c.deactivate_policy(&acct("OWNER"), a, 300).unwrap();
    let d = create_health(&mut c, "DAN", 400).unwrap();
    assert_eq!((a, b, d), (1, 2, 3));
    c.pay_premium(b, 5_000_000, 500).unwrap();
    c.set_external_ref(&acct("OWNER"), a, Some(b"R".to_vec())).unwrap();
    c.pay_premium(d, 5_000_000, 600).unwrap();
    // deactivation stays in force across the calls in between
    assert_eq!(c.pay_premium(a, 5_000_000, 700).err(), Some(InsuranceError::PolicyInactive));
    assert_eq!(c.deactivate_policy(&acct("OWNER"), a, 700).err(), Some(InsuranceError::PolicyInactive));
    assert!(!c.get_policy(a).unwrap().active);
    // the owner never changes
    assert_eq!(c.init(acct("BOB")), Err(InsuranceError::AlreadyInitialized));
    assert_eq!(c.deactivate_policy(&acct("BOB"), b, 800).err(), Some(InsuranceError::Unauthorized));
    // dates follow the history; terms stay as created
    for id in [a, b, d] {
        let p = c.get_policy(id).unwrap();
        let base = p.created_at.max(p.last_payment_at);
        assert_eq!(p.next_payment_due, base + 2_592_000);
        assert!(p.last_payment_at == 0 || p.last_payment_at >= p.created_at);
        assert_eq!(p.monthly_premium, 5_000_000);
        assert_eq!(p.name, b"Family health".to_vec());
    }
    assert_eq!(c.get_policy(b).unwrap().last_payment_at, 500);
    assert_eq!(c.get_policy(b).unwrap().created_at, 200);
}
