use insurance::{Insurance, InsuranceError, PREMIUM_PERIOD};

fn setup() -> (Insurance, String) {
    (Insurance::new(), String::from("GOWNER"))
}

fn s(t: &str) -> String {
    String::from(t)
}

fn b(t: &str) -> Vec<u8> {
    t.as_bytes().to_vec()
}

#[test]
fn create_policy_and_get_policy() {
    let (mut ins, owner) = setup();
    let pid = ins
        .create_policy(owner.clone(), b("Health"), b("health"), 100, 10_000, 0)
        .unwrap();
    assert_eq!(pid, 1);
    let p = ins.get_policy(pid).unwrap();
    assert_eq!(p.owner, owner);
    assert_eq!(p.monthly_premium, 100);
    assert!(p.active);
}

#[test]
fn create_policy_rejects_invalid_amounts() {
    let (mut ins, owner) = setup();
    let r1 = ins.create_policy(owner.clone(), b("Bad"), b("life"), 0, 10, 0);
    assert_eq!(r1, Err(InsuranceError::InvalidAmount));
    let r2 = ins.create_policy(owner.clone(), b("Bad2"), b("life"), 10, 0, 0);
    assert_eq!(r2, Err(InsuranceError::InvalidAmount));
}

#[test]
fn pay_premium_updates_next_payment_date() {
    let (mut ins, owner) = setup();
    let pid = ins
        .create_policy(owner.clone(), b("Policy"), b("auto"), 100, 10_000, 0)
        .unwrap();
    let before = ins.get_policy(pid).unwrap().next_payment_date;
    let now = 0 + 500;
    ins.pay_premium(&owner, pid, now).unwrap();
    let after = ins.get_policy(pid).unwrap().next_payment_date;
    assert!(after > before);
}

#[test]
fn deactivate_policy_blocks_premium_payment() {
    let (mut ins, owner) = setup();
    let pid = ins
        .create_policy(owner.clone(), b("Policy"), b("property"), 100, 10_000, 0)
        .unwrap();
    let ok = ins.deactivate_policy(&owner, pid).unwrap();
    assert!(ok);
    let result = ins.pay_premium(&owner, pid, 0);
    assert_eq!(result, Err(InsuranceError::PolicyInactive));
    let p = ins.get_policy(pid).unwrap();
    assert!(!p.active);
}

#[test]
fn active_policies_are_paginated_and_filtered() {
    let (mut ins, owner) = setup();
    let id1 = ins
        .create_policy(owner.clone(), b("P1"), b("health"), 100, 10_000, 0)
        .unwrap();
    let id2 = ins
        .create_policy(owner.clone(), b("P2"), b("life"), 200, 20_000, 0)
        .unwrap();
    let _id3 = ins
        .create_policy(owner.clone(), b("P3"), b("auto"), 300, 30_000, 0)
        .unwrap();
    ins.deactivate_policy(&owner, id2).unwrap();

    let page = ins.get_active_policies(&owner, 0, 10);
    assert_eq!(page.count, 2);
    for p in page.items.iter() {
        assert!(p.active);
        assert_eq!(p.owner, owner);
    }
    let all_page = ins.get_all_policies_for_owner(&owner, 0, 10);
    assert_eq!(all_page.count, 3);
    assert_eq!(id1, 1);
}

#[test]
fn monthly_premium_total_counts_only_active() {
    let (mut ins, owner) = setup();
    let p1 = ins
        .create_policy(owner.clone(), b("P1"), b("health"), 100, 10_000, 0)
        .unwrap();
    ins.create_policy(owner.clone(), b("P2"), b("life"), 200, 20_000, 0)
        .unwrap();
    assert_eq!(ins.get_total_monthly_premium(&owner), 300);
    ins.deactivate_policy(&owner, p1).unwrap();
    assert_eq!(ins.get_total_monthly_premium(&owner), 200);
}

#[test]
fn schedule_lifecycle_and_execution() {
    let (mut ins, owner) = setup();
    let pid = ins
        .create_policy(owner.clone(), b("Sched"), b("health"), 100, 10_000, 0)
        .unwrap();
    let now = 0u64;
    let sid = ins
        .create_premium_schedule(owner.clone(), pid, now + 1000, 2592000, now)
        .unwrap();
    let sched = ins.get_premium_schedule(sid).unwrap();
    assert!(sched.active);

    let modified = ins
        .modify_premium_schedule(&owner, sid, now + 1500, 2_678_400, now)
        .unwrap();
    assert!(modified);

    let later = now + 2000;
    assert!(ins.due_execution_fits(later));
    let executed = ins.execute_due_premium_schedules(later);
    assert_eq!(executed.len(), 1);
    assert_eq!(executed[0], sid);

    let cancelled = ins.cancel_premium_schedule(&owner, sid).unwrap();
    assert!(cancelled);
    let sched2 = ins.get_premium_schedule(sid).unwrap();
    assert!(!sched2.active);
}

// Further cases.

#[test]
fn created_policy_has_first_payment_one_period_ahead() {
    let (mut ins, owner) = setup();
    let pid = ins
        .create_policy(owner.clone(), b("Home"), b("property"), 40, 5_000, 1_000)
        .unwrap();
    let p = ins.get_policy(pid).unwrap();
    assert_eq!(p.next_payment_date, 1_000 + PREMIUM_PERIOD);
    assert_eq!(p.next_payment_date, 2_593_000);
    assert_eq!(p.external_ref, None);
    assert_eq!(p.schedule_id, None);
    assert!(p.tags.is_empty());
    assert_eq!(p.name, b"Home");
    assert_eq!(p.coverage_type, b"property");
    assert_eq!(p.coverage_amount, 5_000);
}

#[test]
fn policy_ids_are_consecutive() {
    let (mut ins, owner) = setup();
    for expected in 1..=4u32 {
        let id = ins
            .create_policy(owner.clone(), b("P"), b("life"), 1, 1, 0)
            .unwrap();
        assert_eq!(id, expected);
    }
    assert_eq!(ins.last_policy_id(), 4);
    assert!(ins.get_policy(0).is_none());
    assert!(ins.get_policy(5).is_none());
}

#[test]
fn negative_amounts_are_rejected() {
    let (mut ins, owner) = setup();
    assert_eq!(
        ins.create_policy(owner.clone(), b("N"), b("life"), -5, 10, 0),
        Err(InsuranceError::InvalidAmount)
    );
    assert_eq!(
        ins.create_policy(owner.clone(), b("N"), b("life"), 5, -10, 0),
        Err(InsuranceError::InvalidAmount)
    );
    assert_eq!(ins.last_policy_id(), 0);
}

#[test]
fn pay_premium_sets_exact_next_date() {
    let (mut ins, owner) = setup();
    let pid = ins
        .create_policy(owner.clone(), b("P"), b("auto"), 100, 1_000, 0)
        .unwrap();
    assert_eq!(ins.pay_premium(&owner, pid, 7_000), Ok(true));
    assert_eq!(
        ins.get_policy(pid).unwrap().next_payment_date,
        7_000 + 2_592_000
    );
}

#[test]
fn pay_premium_errors() {
    let (mut ins, owner) = setup();
    let pid = ins
        .create_policy(owner.clone(), b("P"), b("auto"), 100, 1_000, 0)
        .unwrap();
    assert_eq!(
        ins.pay_premium(&owner, 9, 0),
        Err(InsuranceError::PolicyNotFound)
    );
    assert_eq!(
        ins.pay_premium(&s("GSTRANGER"), pid, 0),
        Err(InsuranceError::Unauthorized)
    );
}

#[test]
fn deactivate_and_external_ref_require_owner() {
    let (mut ins, owner) = setup();
    let pid = ins
        .create_policy(owner.clone(), b("P"), b("auto"), 100, 1_000, 0)
        .unwrap();
    let stranger = s("GSTRANGER");
    assert_eq!(
        ins.deactivate_policy(&stranger, pid),
        Err(InsuranceError::Unauthorized)
    );
    assert_eq!(
        ins.deactivate_policy(&owner, 2),
        Err(InsuranceError::PolicyNotFound)
    );
    assert_eq!(
        ins.set_external_ref(&stranger, pid, Some(b("X-1"))),
        Err(InsuranceError::Unauthorized)
    );
    assert_eq!(
        ins.set_external_ref(&owner, 3, Some(b("X-1"))),
        Err(InsuranceError::PolicyNotFound)
    );
    assert_eq!(ins.set_external_ref(&owner, pid, Some(b("X-1"))), Ok(true));
    assert_eq!(ins.get_policy(pid).unwrap().external_ref, Some(b("X-1")));
    assert_eq!(ins.set_external_ref(&owner, pid, None), Ok(true));
    assert_eq!(ins.get_policy(pid).unwrap().external_ref, None);
}

#[test]
fn total_for_owner_without_policies_is_zero() {
    let (mut ins, owner) = setup();
    ins.create_policy(owner.clone(), b("P"), b("auto"), 100, 1_000, 0)
        .unwrap();
    assert_eq!(ins.get_total_monthly_premium(&s("GOTHER")), 0);
    assert_eq!(ins.total_monthly_premium_checked(&owner), Some(100));
}

#[test]
fn total_overflow_is_reported() {
    let (mut ins, owner) = setup();
    ins.create_policy(owner.clone(), b("A"), b("x"), i128::MAX, 1, 0)
        .unwrap();
    ins.create_policy(owner.clone(), b("B"), b("x"), 1, 1, 0).unwrap();
    assert_eq!(ins.total_monthly_premium_checked(&owner), None);
}

#[test]
fn deactivation_lowers_total_by_its_premium() {
    let (mut ins, owner) = setup();
    let other = s("GOTHER");
    let a = ins
        .create_policy(owner.clone(), b("A"), b("x"), 120, 1, 0)
        .unwrap();
    ins.create_policy(owner.clone(), b("B"), b("x"), 30, 1, 0).unwrap();
    ins.create_policy(other.clone(), b("C"), b("x"), 7, 1, 0).unwrap();
    assert_eq!(ins.get_total_monthly_premium(&owner), 150);
    assert_eq!(ins.get_total_monthly_premium(&other), 7);
    ins.deactivate_policy(&owner, a).unwrap();
    assert_eq!(ins.get_total_monthly_premium(&owner), 30);
    assert_eq!(ins.get_total_monthly_premium(&other), 7);
}
