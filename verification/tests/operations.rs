use insurance::{
    Insurance, InsuranceError, InsurancePolicy, PausableFunction, PremiumSchedule, DEFAULT_PAGE_LIMIT,
    MAX_PAGE_LIMIT,
};

fn s(t: &str) -> String {
    String::from(t)
}

fn b(t: &str) -> Vec<u8> {
    t.as_bytes().to_vec()
}

fn with_policies(owner: &str, n: u32) -> Insurance {
    let mut ins = Insurance::new();
    for i in 0..n {
        ins.create_policy(s(owner), format!("P{}", i + 1).into_bytes(), b("life"), 10 + i as i128, 1_000, 0)
            .unwrap();
    }
    ins
}

#[test]
fn clamp_limit_defaults_and_caps() {
    assert_eq!(Insurance::clamp_limit(0), DEFAULT_PAGE_LIMIT);
    assert_eq!(Insurance::clamp_limit(0), 20);
    assert_eq!(Insurance::clamp_limit(7), 7);
    assert_eq!(Insurance::clamp_limit(50), 50);
    assert_eq!(Insurance::clamp_limit(51), MAX_PAGE_LIMIT);
    assert_eq!(Insurance::clamp_limit(u32::MAX), 50);
}

#[test]
fn pages_follow_cursor_through_all_policies() {
    let mut ins = with_policies("GA", 5);
    ins.create_policy(s("GB"), b("other"), b("life"), 1, 1, 0).unwrap();
    ins.create_policy(s("GA"), b("P7"), b("life"), 1, 1, 0).unwrap();
    let owner = s("GA");
    let p1 = ins.get_all_policies_for_owner(&owner, 0, 2);
    assert_eq!(p1.count, 2);
    assert_eq!(p1.items.iter().map(|p| p.id).collect::<Vec<_>>(), vec![1, 2]);
    assert_eq!(p1.next_cursor, 2);
    let p2 = ins.get_all_policies_for_owner(&owner, p1.next_cursor, 2);
    assert_eq!(p2.items.iter().map(|p| p.id).collect::<Vec<_>>(), vec![3, 4]);
    assert_eq!(p2.next_cursor, 4);
    let p3 = ins.get_all_policies_for_owner(&owner, p2.next_cursor, 2);
    assert_eq!(p3.items.iter().map(|p| p.id).collect::<Vec<_>>(), vec![5, 7]);
    assert_eq!(p3.next_cursor, 0);
    let exact = ins.get_all_policies_for_owner(&owner, 4, 2);
    assert_eq!(exact.count, 2);
    assert_eq!(exact.next_cursor, 0);
}

#[test]
fn active_page_skips_inactive_and_other_owners() {
    let mut ins = with_policies("GA", 4);
    ins.deactivate_policy(&s("GA"), 1).unwrap();
    ins.deactivate_policy(&s("GA"), 3).unwrap();
    let page = ins.get_active_policies(&s("GA"), 0, 1);
    assert_eq!(page.items.iter().map(|p| p.id).collect::<Vec<_>>(), vec![2]);
    assert_eq!(page.next_cursor, 2);
    let page2 = ins.get_active_policies(&s("GA"), 2, 1);
    assert_eq!(page2.items.iter().map(|p| p.id).collect::<Vec<_>>(), vec![4]);
    assert_eq!(page2.next_cursor, 0);
    let none = ins.get_active_policies(&s("GZ"), 0, 0);
    assert_eq!(none.count, 0);
    assert!(none.items.is_empty());
    assert_eq!(none.next_cursor, 0);
}

#[test]
fn page_limit_zero_uses_default_and_large_is_capped() {
    let ins = with_policies("GA", 60);
    let owner = s("GA");
    let d = ins.get_all_policies_for_owner(&owner, 0, 0);
    assert_eq!(d.count, 20);
    assert_eq!(d.next_cursor, 20);
    let c = ins.get_all_policies_for_owner(&owner, 0, 1000);
    assert_eq!(c.count, 50);
    assert_eq!(c.next_cursor, 50);
    let rest = ins.get_all_policies_for_owner(&owner, 50, 1000);
    assert_eq!(rest.count, 10);
    assert_eq!(rest.next_cursor, 0);
}

#[test]
fn batch_pays_every_listed_policy() {
    let mut ins = with_policies("GA", 3);
    let owner = s("GA");
    assert_eq!(ins.batch_pay_premiums(&owner, &vec![1, 3, 3], 100), Ok(3));
    assert_eq!(ins.get_policy(1).unwrap().next_payment_date, 100 + 2_592_000);
    assert_eq!(ins.get_policy(2).unwrap().next_payment_date, 2_592_000);
    assert_eq!(ins.get_policy(3).unwrap().next_payment_date, 100 + 2_592_000);
    assert_eq!(ins.batch_pay_premiums(&owner, &vec![], 100), Ok(0));
}

#[test]
fn refused_batch_changes_nothing() {
    let mut ins = with_policies("GA", 3);
    let owner = s("GA");
    ins.deactivate_policy(&owner, 3).unwrap();
    assert_eq!(
        ins.batch_pay_premiums(&owner, &vec![1, 3, 9], 100),
        Err(InsuranceError::PolicyInactive)
    );
    assert_eq!(
        ins.batch_pay_premiums(&owner, &vec![1, 9, 3], 100),
        Err(InsuranceError::PolicyNotFound)
    );
    assert_eq!(
        ins.batch_pay_premiums(&s("GB"), &vec![1], 100),
        Err(InsuranceError::Unauthorized)
    );
    assert_eq!(ins.get_policy(1).unwrap().next_payment_date, 2_592_000);
    let too_many: Vec<u32> = (0..51).map(|_| 1).collect();
    assert_eq!(
        ins.batch_pay_premiums(&owner, &too_many, 100),
        Err(InsuranceError::BatchTooLarge)
    );
    let fifty: Vec<u32> = (0..50).map(|_| 1).collect();
    assert_eq!(ins.batch_pay_premiums(&owner, &fifty, 100), Ok(50));
}

#[test]
fn pause_admin_claims_and_hands_over() {
    let mut ins = Insurance::new();
    let a = s("GADMIN");
    let b = s("GNEXT");
    assert_eq!(ins.pause(&a), Err(InsuranceError::Unauthorized));
    assert_eq!(ins.set_pause_admin(&a, b.clone()), Err(InsuranceError::Unauthorized));
    assert_eq!(ins.set_pause_admin(&a, a.clone()), Ok(()));
    assert_eq!(ins.pause_admin(), &Some(a.clone()));
    assert_eq!(ins.set_pause_admin(&b, b.clone()), Err(InsuranceError::Unauthorized));
    assert_eq!(ins.set_pause_admin(&a, b.clone()), Ok(()));
    assert_eq!(ins.pause(&a), Err(InsuranceError::Unauthorized));
    assert_eq!(ins.pause(&b), Ok(()));
    assert!(ins.is_paused());
    assert_eq!(ins.unpause(&a), Err(InsuranceError::Unauthorized));
    assert_eq!(ins.unpause(&b), Ok(()));
    assert!(!ins.is_paused());
}

#[test]
fn pause_refuses_guarded_operations() {
    let mut ins = with_policies("GA", 1);
    let owner = s("GA");
    let sid = ins.create_premium_schedule(owner.clone(), 1, 10, 0, 0).unwrap();
    let admin = s("GADMIN");
    ins.set_pause_admin(&admin, admin.clone()).unwrap();
    ins.pause(&admin).unwrap();
    let paused = Err(InsuranceError::ContractPaused);
    assert_eq!(ins.create_policy(owner.clone(), b("X"), b("x"), 1, 1, 0), paused.map(|_: ()| 0u32));
    assert_eq!(ins.pay_premium(&owner, 1, 0), paused.map(|_: ()| true));
    assert_eq!(ins.batch_pay_premiums(&owner, &vec![1], 0), paused.map(|_: ()| 0u32));
    assert_eq!(ins.deactivate_policy(&owner, 1), paused.map(|_: ()| true));
    assert_eq!(ins.create_premium_schedule(owner.clone(), 1, 10, 0, 0), paused.map(|_: ()| 0u32));
    assert_eq!(ins.modify_premium_schedule(&owner, sid, 10, 0, 0), paused.map(|_: ()| true));
    assert_eq!(ins.cancel_premium_schedule(&owner, sid), paused.map(|_: ()| true));
    assert_eq!(ins.set_external_ref(&owner, 1, Some(b("R"))), Ok(true));
    assert_eq!(ins.execute_due_premium_schedules(10), vec![sid]);
    ins.unpause(&admin).unwrap();
    assert_eq!(ins.pay_premium(&owner, 1, 0), Ok(true));
}

#[test]
fn paused_function_is_refused_alone() {
    let mut policy = InsurancePolicy {
        id: 1,
        owner: s("GA"),
        name: b("P"),
        external_ref: None,
        coverage_type: b("life"),
        monthly_premium: 5,
        coverage_amount: 50,
        active: true,
        next_payment_date: 0,
        schedule_id: None,
        tags: vec![],
    };
    let mut ins = Insurance::from_parts(
        None,
        false,
        vec![PausableFunction::PayPremium],
        vec![policy.clone()],
        1,
        vec![],
        0,
    )
    .unwrap();
    assert_eq!(ins.pay_premium(&s("GA"), 1, 0), Err(InsuranceError::FunctionPaused));
    assert_eq!(ins.batch_pay_premiums(&s("GA"), &vec![1], 0), Err(InsuranceError::FunctionPaused));
    assert_eq!(ins.deactivate_policy(&s("GA"), 1), Ok(true));
    policy.id = 2;
    assert!(Insurance::from_parts(None, false, vec![], vec![policy], 1, vec![], 0).is_none());
}

#[test]
fn from_parts_checks_ids_counts_and_amounts() {
    let base = with_policies("GA", 2);
    let policies = base.policies().clone();
    assert!(Insurance::from_parts(None, false, vec![], policies.clone(), 2, vec![], 0).is_some());
    assert!(Insurance::from_parts(None, false, vec![], policies.clone(), 3, vec![], 0).is_none());
    let mut zero = policies.clone();
    zero[1].monthly_premium = 0;
    assert!(Insurance::from_parts(None, false, vec![], zero, 2, vec![], 0).is_none());
    let sched = PremiumSchedule {
        id: 2,
        owner: s("GA"),
        policy_id: 1,
        next_due: 5,
        interval: 0,
        recurring: false,
        active: true,
        created_at: 0,
        last_executed: None,
        missed_count: 0,
    };
    assert!(Insurance::from_parts(None, false, vec![], policies, 2, vec![sched], 1).is_none());
}

#[test]
fn schedule_errors() {
    let mut ins = with_policies("GA", 1);
    let owner = s("GA");
    assert_eq!(
        ins.create_premium_schedule(owner.clone(), 4, 10, 0, 0),
        Err(InsuranceError::PolicyNotFound)
    );
    assert_eq!(
        ins.create_premium_schedule(s("GB"), 1, 10, 0, 0),
        Err(InsuranceError::Unauthorized)
    );
    assert_eq!(
        ins.create_premium_schedule(owner.clone(), 1, 5, 0, 5),
        Err(InsuranceError::InvalidTimestamp)
    );
    let sid = ins.create_premium_schedule(owner.clone(), 1, 6, 0, 5).unwrap();
    assert_eq!(sid, 1);
    assert_eq!(ins.get_policy(1).unwrap().schedule_id, Some(sid));
    assert_eq!(
        ins.modify_premium_schedule(&owner, 9, 4, 0, 5),
        Err(InsuranceError::InvalidTimestamp)
    );
    assert_eq!(
        ins.modify_premium_schedule(&owner, 9, 6, 0, 5),
        Err(InsuranceError::ScheduleNotFound)
    );
    assert_eq!(
        ins.modify_premium_schedule(&s("GB"), sid, 6, 0, 5),
        Err(InsuranceError::Unauthorized)
    );
    assert_eq!(
        ins.cancel_premium_schedule(&owner, 2),
        Err(InsuranceError::ScheduleNotFound)
    );
    assert_eq!(
        ins.cancel_premium_schedule(&s("GB"), sid),
        Err(InsuranceError::Unauthorized)
    );
    let s1 = ins.get_premium_schedule(sid).unwrap();
    assert_eq!(s1.created_at, 5);
    assert!(!s1.recurring);
    assert_eq!(s1.missed_count, 0);
    assert_eq!(s1.last_executed, None);
    assert!(ins.get_premium_schedule(0).is_none());
}

#[test]
fn recurring_schedule_counts_missed_periods() {
    let mut ins = with_policies("GA", 1);
    let owner = s("GA");
    let sid = ins.create_premium_schedule(owner.clone(), 1, 100, 10, 0).unwrap();
    assert!(ins.get_premium_schedule(sid).unwrap().recurring);
    assert!(ins.execute_due_premium_schedules(99).is_empty());
    let ran = ins.execute_due_premium_schedules(135);
    assert_eq!(ran, vec![sid]);
    let sch = ins.get_premium_schedule(sid).unwrap();
    assert_eq!(sch.next_due, 140);
    assert_eq!(sch.missed_count, 3);
    assert_eq!(sch.last_executed, Some(135));
    assert!(sch.active);
    assert_eq!(ins.get_policy(1).unwrap().next_payment_date, 135 + 2_592_000);
    assert!(ins.execute_due_premium_schedules(135).is_empty());
    let ran2 = ins.execute_due_premium_schedules(140);
    assert_eq!(ran2, vec![sid]);
    let sch2 = ins.get_premium_schedule(sid).unwrap();
    assert_eq!(sch2.next_due, 150);
    assert_eq!(sch2.missed_count, 3);
}

#[test]
fn one_off_schedule_runs_once_and_skips_inactive_policy() {
    let mut ins = with_policies("GA", 2);
    let owner = s("GA");
    let a = ins.create_premium_schedule(owner.clone(), 1, 10, 0, 0).unwrap();
    let b = ins.create_premium_schedule(owner.clone(), 2, 20, 0, 0).unwrap();
    ins.deactivate_policy(&owner, 2).unwrap();
    assert_eq!(ins.execute_due_premium_schedules(25), vec![a, b]);
    assert!(!ins.get_premium_schedule(a).unwrap().active);
    assert!(!ins.get_premium_schedule(b).unwrap().active);
    assert_eq!(ins.get_policy(1).unwrap().next_payment_date, 25 + 2_592_000);
    assert_eq!(ins.get_policy(2).unwrap().next_payment_date, 2_592_000);
    assert!(ins.execute_due_premium_schedules(1_000).is_empty());
}

#[test]
fn cancelled_schedule_never_runs() {
    let mut ins = with_policies("GA", 1);
    let owner = s("GA");
    let sid = ins.create_premium_schedule(owner.clone(), 1, 10, 5, 0).unwrap();
    ins.cancel_premium_schedule(&owner, sid).unwrap();
    assert!(ins.execute_due_premium_schedules(1_000_000).is_empty());
}

#[test]
fn schedules_listed_per_owner() {
    let mut ins = with_policies("GA", 1);
    ins.create_policy(s("GB"), b("B"), b("life"), 1, 1, 0).unwrap();
    ins.create_premium_schedule(s("GA"), 1, 10, 0, 0).unwrap();
    ins.create_premium_schedule(s("GB"), 2, 10, 0, 0).unwrap();
    ins.create_premium_schedule(s("GA"), 1, 20, 0, 0).unwrap();
    let mine = ins.get_premium_schedules(&s("GA"));
    assert_eq!(mine.iter().map(|x| x.id).collect::<Vec<_>>(), vec![1, 3]);
    assert_eq!(ins.get_premium_schedules(&s("GC")).len(), 0);
    assert_eq!(ins.last_schedule_id(), 3);
}

#[test]
fn execution_overflow_is_detected() {
    let mut ins = with_policies("GA", 1);
    ins.create_premium_schedule(s("GA"), 1, 10, u64::MAX - 5, 0).unwrap();
    assert!(!ins.due_execution_fits(20));
    assert!(ins.due_execution_fits(5));
    assert!(!ins.due_execution_fits(u64::MAX - 10));
}

#[test]
fn error_codes() {
    assert_eq!(InsuranceError::PolicyNotFound.code(), 1);
    assert_eq!(InsuranceError::Unauthorized.code(), 2);
    assert_eq!(InsuranceError::InvalidAmount.code(), 3);
    assert_eq!(InsuranceError::PolicyInactive.code(), 4);
    assert_eq!(InsuranceError::ContractPaused.code(), 5);
    assert_eq!(InsuranceError::FunctionPaused.code(), 6);
    assert_eq!(InsuranceError::InvalidTimestamp.code(), 7);
    assert_eq!(InsuranceError::BatchTooLarge.code(), 8);
    assert_eq!(InsuranceError::ScheduleNotFound.code(), 9);
}

#[test]
fn batch_equals_paying_one_by_one() {
    let owner = s("GA");
    let mut batched = with_policies("GA", 3);
    let mut single = with_policies("GA", 3);
    batched.batch_pay_premiums(&owner, &vec![3, 1, 3], 900).unwrap();
    for id in [3u32, 1, 3] {
        single.pay_premium(&owner, id, 900).unwrap();
    }
    for id in 1..=3u32 {
        assert_eq!(
            batched.get_policy(id).unwrap().next_payment_date,
            single.get_policy(id).unwrap().next_payment_date
        );
    }
}

#[test]
fn from_parts_checks_schedule_table() {
    let base = with_policies("GA", 1);
    let policies = base.policies().clone();
    let good = PremiumSchedule {
        id: 1,
        owner: s("GA"),
        policy_id: 1,
        next_due: 5,
        interval: 10,
        recurring: true,
        active: true,
        created_at: 0,
        last_executed: None,
        missed_count: 0,
    };
    assert!(Insurance::from_parts(None, false, vec![], policies.clone(), 1, vec![good.clone()], 1).is_some());
    let mut not_recurring = good.clone();
    not_recurring.recurring = false;
    assert!(Insurance::from_parts(None, false, vec![], policies.clone(), 1, vec![not_recurring], 1).is_none());
    let mut missing_policy = good.clone();
    missing_policy.policy_id = 2;
    assert!(Insurance::from_parts(None, false, vec![], policies.clone(), 1, vec![missing_policy], 1).is_none());
    let mut other_owner = good.clone();
    other_owner.owner = s("GB");
    assert!(Insurance::from_parts(None, false, vec![], policies, 1, vec![other_owner], 1).is_none());
}

#[test]
fn cancelled_schedule_stays_cancelled_after_modify() {
    let mut ins = with_policies("GA", 1);
    let owner = s("GA");
    let sid = ins.create_premium_schedule(owner.clone(), 1, 10, 5, 0).unwrap();
    ins.cancel_premium_schedule(&owner, sid).unwrap();
    assert_eq!(ins.modify_premium_schedule(&owner, sid, 20, 7, 0), Ok(true));
    let sch = ins.get_premium_schedule(sid).unwrap();
    assert!(!sch.active);
    assert!(sch.recurring);
    assert_eq!(sch.owner, owner);
    assert!(ins.execute_due_premium_schedules(1_000).is_empty());
}

#[test]
fn single_batch_matches_single_payment() {
    let owner = s("GA");
    let mut a = with_policies("GA", 2);
    let mut b = with_policies("GA", 2);
    assert_eq!(a.batch_pay_premiums(&owner, &vec![2], 40), Ok(1));
    assert_eq!(b.pay_premium(&owner, 2, 40), Ok(true));
    assert_eq!(
        a.get_policy(2).unwrap().next_payment_date,
        b.get_policy(2).unwrap().next_payment_date
    );
    assert_eq!(
        a.batch_pay_premiums(&s("GB"), &vec![2], 40),
        b.pay_premium(&s("GB"), 2, 40).map(|_| 1)
    );
    assert_eq!(
        a.batch_pay_premiums(&owner, &vec![7], 40),
        b.pay_premium(&owner, 7, 40).map(|_| 1)
    );
}
