//! Fixed-answer stand-ins for the sibling contracts that a financial report
//! reads from: the remittance split, savings goals, bill payments and
//! insurance. Each answers the same data whatever it is asked.
use vstd::prelude::*;

use crate::types::{InsurancePolicy, PolicyModel, PolicyPage, policy_models};
use vstd::string::StringSliceAdditionalSpecFns;

verus! {

/// The percentages in which a remittance is split.
pub open spec fn split_percentages() -> Seq<u32> {
    seq![50u32, 30u32, 15u32, 5u32]
}

/// `amount * percent / 100`, rounded toward zero.
pub open spec fn share(amount: int, percent: int) -> int {
    let p = amount * percent;
    if p >= 0 {
        p / 100
    } else {
        -((-p) / 100)
    }
}

/// A remittance split that always splits 50 / 30 / 15 / 5 percent.
pub struct RemittanceSplitMock;

impl RemittanceSplitMock {
    /// The split percentages: 50, 30, 15 and 5.
    pub fn get_split() -> (r: Vec<u32>)
        ensures
            r@ == split_percentages(),
    {
        let mut out: Vec<u32> = Vec::new();
        out.push(50);
        out.push(30);
        out.push(15);
        out.push(5);
        assert(out@ =~= split_percentages());
        out
    }

    /// The four shares of `total_amount`, each rounded toward zero.
    pub fn calculate_split(total_amount: i128) -> (r: Vec<i128>)
        requires
            i128::MIN <= total_amount * 50 <= i128::MAX,
        ensures
            r@ == seq![
                share(total_amount as int, 50) as i128,
                share(total_amount as int, 30) as i128,
                share(total_amount as int, 15) as i128,
                share(total_amount as int, 5) as i128,
            ],
    {
        let mut out: Vec<i128> = Vec::new();
        out.push(Self::percent_of(total_amount, 50));
        out.push(Self::percent_of(total_amount, 30));
        out.push(Self::percent_of(total_amount, 15));
        out.push(Self::percent_of(total_amount, 5));
        assert(out@ =~= seq![
            share(total_amount as int, 50) as i128,
            share(total_amount as int, 30) as i128,
            share(total_amount as int, 15) as i128,
            share(total_amount as int, 5) as i128,
        ]);
        out
    }

    fn percent_of(amount: i128, percent: i128) -> (r: i128)
        requires
            i128::MIN <= amount * 50 <= i128::MAX,
            0 <= percent <= 50,
        ensures
            r == share(amount as int, percent as int),
    {
        assert(i128::MIN <= amount * percent <= i128::MAX) by (nonlinear_arith)
            requires
                i128::MIN <= amount * 50 <= i128::MAX,
                0 <= percent <= 50,
        ;
        let p = amount * percent;
        p / 100
    }
}

/// A savings goal.
pub struct SavingsGoal {
    pub id: u32,
    pub owner: String,
    pub name: String,
    pub target_amount: i128,
    pub current_amount: i128,
    pub target_date: u64,
    pub locked: bool,
    pub unlock_date: Option<u64>,
}

/// A savings-goal register that holds one locked emergency goal for anyone.
pub struct SavingsGoalsMock;

impl SavingsGoalsMock {
    /// One goal of `owner`: "Emergency", 500 saved of 1000 by 2000000000,
    /// locked, with no unlock date.
    pub fn get_all_goals(owner: String) -> (r: Vec<SavingsGoal>)
        ensures
            r.len() == 1,
            r[0].id == 1,
            r[0].owner@ == owner@,
            r[0].name@ == "Emergency"@,
            r[0].target_amount == 1000,
            r[0].current_amount == 500,
            r[0].target_date == 2000000000,
            r[0].locked,
            r[0].unlock_date is None,
    {
        let mut goals: Vec<SavingsGoal> = Vec::new();
        goals.push(
            SavingsGoal {
                id: 1,
                owner,
                name: String::from_str("Emergency"),
                target_amount: 1000,
                current_amount: 500,
                target_date: 2000000000,
                locked: true,
                unlock_date: None,
            },
        );
        goals
    }

    /// No goal is ever completed.
    pub fn is_goal_completed(goal_id: u32) -> (r: bool)
        ensures
            !r,
    {
        false
    }
}

/// A bill to pay.
pub struct Bill {
    pub id: u32,
    pub owner: String,
    pub name: String,
    pub amount: i128,
    pub due_date: u64,
    pub recurring: bool,
    pub frequency_days: u32,
    pub paid: bool,
    pub created_at: u64,
    pub paid_at: Option<u64>,
    pub schedule_id: Option<u32>,
    pub currency: String,
}

/// One page of bills.
pub struct BillPage {
    pub items: Vec<Bill>,
    pub next_cursor: u32,
    pub count: u32,
}

/// A bill register that holds one unpaid power bill for anyone.
pub struct BillPaymentsMock;

impl BillPaymentsMock {
    /// One unpaid bill of `owner`, whatever the cursor and limit: "Power",
    /// 100 XLM due at 2000000000, created at 1700000000, not recurring.
    pub fn get_unpaid_bills(owner: String, cursor: u32, limit: u32) -> (page: BillPage)
        ensures
            page.items.len() == 1,
            page.count == 1,
            page.next_cursor == 0,
            page.items[0].id == 1,
            page.items[0].owner@ == owner@,
            page.items[0].name@ == "Power"@,
            page.items[0].amount == 100,
            page.items[0].due_date == 2000000000,
            !page.items[0].recurring,
            page.items[0].frequency_days == 0,
            !page.items[0].paid,
            page.items[0].created_at == 1700000000,
            page.items[0].paid_at is None,
            page.items[0].schedule_id is None,
            page.items[0].currency@ == "XLM"@,
    {
        let mut items: Vec<Bill> = Vec::new();
        items.push(
            Bill {
                id: 1,
                owner,
                name: String::from_str("Power"),
                amount: 100,
                due_date: 2000000000,
                recurring: false,
                frequency_days: 0,
                paid: false,
                created_at: 1700000000,
                paid_at: None,
                schedule_id: None,
                currency: String::from_str("XLM"),
            },
        );
        let count = items.len() as u32;
        BillPage { items, next_cursor: 0, count }
    }

    /// The unpaid total: always 100.
    pub fn get_total_unpaid(owner: &String) -> (r: i128)
        ensures
            r == 100,
    {
        100
    }

    /// All bills of `owner`: the same single unpaid bill.
    pub fn get_all_bills_for_owner(owner: String, cursor: u32, limit: u32) -> (page: BillPage)
        ensures
            page.items.len() == 1,
            page.count == 1,
            page.next_cursor == 0,
            page.items[0].id == 1,
            page.items[0].owner@ == owner@,
            page.items[0].name@ == "Power"@,
            page.items[0].amount == 100,
            page.items[0].due_date == 2000000000,
            !page.items[0].recurring,
            page.items[0].frequency_days == 0,
            !page.items[0].paid,
            page.items[0].created_at == 1700000000,
            page.items[0].paid_at is None,
            page.items[0].schedule_id is None,
            page.items[0].currency@ == "XLM"@,
    {
        Self::get_unpaid_bills(owner, 0, 50)
    }
}

/// An insurance register that holds one active health policy for anyone.
pub struct InsuranceMock;

impl InsuranceMock {
    /// One active policy of `owner`, whatever the cursor and limit: "Health",
    /// coverage "health", premium 50, coverage 10000, next payment at
    /// 2000000000.
    pub fn get_active_policies(owner: String, cursor: u32, limit: u32) -> (page: PolicyPage)
        ensures
            page.items.len() == 1,
            page.count == 1,
            page.next_cursor == 0,
            policy_models(page.items@)[0] == (PolicyModel {
                id: 1,
                owner: owner@,
                name: "Health".spec_bytes(),
                external_ref: None,
                coverage_type: "health".spec_bytes(),
                monthly_premium: 50,
                coverage_amount: 10000,
                active: true,
                next_payment_date: 2000000000,
                schedule_id: None,
                tags: Seq::empty(),
            }),
    {
        let mut items: Vec<InsurancePolicy> = Vec::new();
        let p = InsurancePolicy {
            id: 1,
            owner,
            name: vstd::slice::slice_to_vec("Health".as_bytes()),
            external_ref: None,
            coverage_type: vstd::slice::slice_to_vec("health".as_bytes()),
            monthly_premium: 50,
            coverage_amount: 10000,
            active: true,
            next_payment_date: 2000000000,
            schedule_id: None,
            tags: Vec::new(),
        };
        assert(p@.tags =~= Seq::<Seq<u8>>::empty());
        items.push(p);
        let count = items.len() as u32;
        PolicyPage { items, next_cursor: 0, count }
    }

    /// The monthly premium total: always 50.
    pub fn get_total_monthly_premium(owner: &String) -> (r: i128)
        ensures
            r == 50,
    {
        50
    }
}

} // verus!
