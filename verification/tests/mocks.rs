use insurance::{BillPaymentsMock, InsuranceMock, RemittanceSplitMock, SavingsGoalsMock};

#[test]
fn remittance_split_mock_answers() {
    assert_eq!(RemittanceSplitMock::get_split(), vec![50, 30, 15, 5]);
    assert_eq!(RemittanceSplitMock::calculate_split(1_000), vec![500, 300, 150, 50]);
    assert_eq!(RemittanceSplitMock::calculate_split(7), vec![3, 2, 1, 0]);
    assert_eq!(RemittanceSplitMock::calculate_split(-7), vec![-3, -2, -1, 0]);
}

#[test]
fn savings_goals_mock_answers() {
    let goals = SavingsGoalsMock::get_all_goals(String::from("GU"));
    assert_eq!(goals.len(), 1);
    assert_eq!(goals[0].name, "Emergency");
    assert_eq!(goals[0].owner, "GU");
    assert_eq!(goals[0].target_amount, 1000);
    assert_eq!(goals[0].current_amount, 500);
    assert!(goals[0].locked);
    assert!(!SavingsGoalsMock::is_goal_completed(1));
}

#[test]
fn bill_payments_mock_answers() {
    let page = BillPaymentsMock::get_unpaid_bills(String::from("GU"), 3, 9);
    assert_eq!(page.count, 1);
    assert_eq!(page.items[0].name, "Power");
    assert_eq!(page.items[0].currency, "XLM");
    assert_eq!(page.items[0].amount, 100);
    assert_eq!(BillPaymentsMock::get_total_unpaid(&String::from("GU")), 100);
    let all = BillPaymentsMock::get_all_bills_for_owner(String::from("GU"), 0, 1);
    assert_eq!(all.count, 1);
    assert_eq!(all.items[0].owner, "GU");
}

#[test]
fn insurance_mock_answers() {
    let page = InsuranceMock::get_active_policies(String::from("GU"), 0, 5);
    assert_eq!(page.count, 1);
    assert_eq!(page.next_cursor, 0);
    assert_eq!(page.items[0].monthly_premium, 50);
    assert_eq!(page.items[0].name, b"Health");
    assert!(page.items[0].active);
    assert_eq!(InsuranceMock::get_total_monthly_premium(&String::from("GU")), 50);
}

#[test]
fn bill_payments_mock_all_bills_match_unpaid() {
    let all = BillPaymentsMock::get_all_bills_for_owner(String::from("GU"), 4, 2);
    let b = &all.items[0];
    assert_eq!(b.id, 1);
    assert_eq!(b.due_date, 2_000_000_000);
    assert!(!b.recurring);
    assert_eq!(b.frequency_days, 0);
    assert_eq!(b.created_at, 1_700_000_000);
    assert_eq!(b.paid_at, None);
    assert_eq!(b.schedule_id, None);
    assert_eq!(b.currency, "XLM");
    assert_eq!(all.next_cursor, 0);
}
