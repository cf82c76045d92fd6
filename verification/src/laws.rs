//! What holds of the register across its operations.
use vstd::prelude::*;

use crate::insurance::{lemma_contains_push, lemma_periods};
use crate::model::{
    due_ids, is_due, matching, new_policy, new_schedule, page_items, page_next_cursor, paid, paid_all,
    pays_policy, premium_total, repeats, run_fits, selected,
    spec_clamp_limit, schedules_of, InsuranceModel, DEFAULT_PAGE_LIMIT, MAX_PAGE_LIMIT, PREMIUM_PERIOD,
};
use crate::types::{InsuranceError, PausableFunction, PolicyModel, ScheduleModel};

verus! {

/// Ids are positions plus one.
pub open spec fn dense(s: Seq<PolicyModel>) -> bool {
    forall|i: int| 0 <= i < s.len() ==> (#[trigger] s[i]).id == i + 1
}

/// Every policy a selection lists is selected, and has an id of the list.
proof fn lemma_matching_bounds(s: Seq<PolicyModel>, owner: Seq<char>, cursor: u32, active_only: bool)
    requires
        dense(s),
    ensures
        forall|k: int|
            0 <= k < matching(s, owner, cursor, active_only).len() ==> {
                &&& selected(#[trigger] matching(s, owner, cursor, active_only)[k], owner, cursor, active_only)
                &&& matching(s, owner, cursor, active_only)[k].id <= s.len()
            },
    decreases s.len(),
{
    if s.len() > 0 {
        lemma_matching_bounds(s.drop_last(), owner, cursor, active_only);
    }
}

/// Nothing is selected after a cursor at or beyond the last id.
proof fn lemma_matching_empty(s: Seq<PolicyModel>, owner: Seq<char>, cursor: u32, active_only: bool)
    requires
        dense(s),
        cursor >= s.len(),
    ensures
        matching(s, owner, cursor, active_only).len() == 0,
    decreases s.len(),
{
    if s.len() > 0 {
        lemma_matching_empty(s.drop_last(), owner, cursor, active_only);
    }
}

/// Selecting after the id of the `t`-th selected policy gives the selected
/// policies that follow it.
proof fn lemma_matching_after(s: Seq<PolicyModel>, owner: Seq<char>, cursor: u32, active_only: bool, t: int)
    requires
        dense(s),
        0 <= t < matching(s, owner, cursor, active_only).len(),
    ensures
        matching(s, owner, matching(s, owner, cursor, active_only)[t].id, active_only) == matching(
            s,
            owner,
            cursor,
            active_only,
        ).skip(t + 1),
    decreases s.len(),
{
    let all = matching(s, owner, cursor, active_only);
    let s0 = s.drop_last();
    let x = s.last();
    let all0 = matching(s0, owner, cursor, active_only);
    lemma_matching_bounds(s0, owner, cursor, active_only);
    assert(x.id == s.len());
    if t < all0.len() {
        let id_t = all0[t].id;
        assert(all[t] == all0[t]);
        lemma_matching_after(s0, owner, cursor, active_only, t);
        assert(selected(x, owner, id_t, active_only) == selected(x, owner, cursor, active_only));
        if selected(x, owner, cursor, active_only) {
            assert(all0.skip(t + 1).push(x) =~= all.skip(t + 1));
        } else {
            assert(all0.skip(t + 1) =~= all.skip(t + 1));
        }
    } else {
        assert(all[t] == x);
        lemma_matching_empty(s0, owner, x.id, active_only);
        assert(matching(s, owner, x.id, active_only) =~= all.skip(t + 1));
    }
}

/// Paging: a page lists at most the page size of the matching policies, in
/// id order, and each of them is the owner's (and active, when only active
/// ones are asked for) with an id after the cursor. A next cursor of 0 means
/// the page holds every remaining match; otherwise the page is full and the
/// page after the next cursor starts with exactly the matches that follow,
/// so following the cursors lists every match once.
pub proof fn law_pages_cover_matches(m: InsuranceModel, owner: Seq<char>, cursor: u32, limit: u32, active_only: bool)
    requires
        m.wf(),
    ensures
        ({
            let all = matching(m.policies, owner, cursor, active_only);
            let items = page_items(m.policies, owner, cursor, limit, active_only);
            let next = page_next_cursor(m.policies, owner, cursor, limit, active_only);
            &&& items.len() <= spec_clamp_limit(limit)
            &&& forall|k: int|
                0 <= k < items.len() ==> selected(#[trigger] items[k], owner, cursor, active_only)
            &&& next == 0 ==> items == all
            &&& next != 0 ==> {
                &&& items.len() == spec_clamp_limit(limit)
                &&& items + matching(m.policies, owner, next, active_only) == all
            }
        }),
{
    let s = m.policies;
    let all = matching(s, owner, cursor, active_only);
    let n = spec_clamp_limit(limit) as int;
    lemma_matching_bounds(s, owner, cursor, active_only);
    if all.len() > n {
        lemma_matching_after(s, owner, cursor, active_only, n - 1);
        assert(all.take(n) + all.skip(n) =~= all);
        assert(all[n - 1].id > cursor);
    }
}

/// Reading after writing: the policy that `create_policy` adds is what
/// `get_policy` answers for its id, every other id answers as before, and
/// the state stays one the operations can reach.
pub proof fn law_created_policy_is_read_back(
    m: InsuranceModel,
    owner: Seq<char>,
    name: Seq<u8>,
    coverage_type: Seq<u8>,
    monthly_premium: i128,
    coverage_amount: i128,
    now: u64,
)
    requires
        m.wf(),
        m.create_policy_error(monthly_premium, coverage_amount) is None,
        m.policies.len() < u32::MAX,
    ensures
        ({
            let id = (m.policies.len() + 1) as u32;
            let after = m.after_create_policy(owner, name, coverage_type, monthly_premium, coverage_amount, now);
            &&& after.wf()
            &&& after.policy(id) == Some(
                new_policy(id, owner, name, coverage_type, monthly_premium, coverage_amount, now),
            )
            &&& forall|q: u32| q != id ==> after.policy(q) == m.policy(q)
        }),
{
}

/// Reading after writing: the schedule that `create_premium_schedule` adds
/// is what `get_premium_schedule` answers for its id, and the policy now
/// names it.
pub proof fn law_created_schedule_is_read_back(
    m: InsuranceModel,
    owner: Seq<char>,
    policy_id: u32,
    next_due: u64,
    interval: u64,
    now: u64,
)
    requires
        m.wf(),
        m.create_schedule_error(owner, policy_id, next_due, now) is None,
        m.schedules.len() < u32::MAX,
    ensures
        ({
            let sid = (m.schedules.len() + 1) as u32;
            let after = m.after_create_schedule(owner, policy_id, next_due, interval, now);
            &&& after.wf()
            &&& after.schedule(sid) == Some(new_schedule(sid, owner, policy_id, next_due, interval, now))
            &&& after.schedule(sid).unwrap().active
            &&& after.policy(policy_id).unwrap().schedule_id == Some(sid)
        }),
{
}

/// A contribution of one policy to the premium total of `owner`.
pub open spec fn contribution(p: PolicyModel, owner: Seq<char>) -> int {
    if p.owner == owner && p.active {
        p.monthly_premium as int
    } else {
        0
    }
}

/// Replacing one policy changes the total by the difference of their
/// contributions.
proof fn lemma_total_update(s: Seq<PolicyModel>, i: int, x: PolicyModel, owner: Seq<char>)
    requires
        0 <= i < s.len(),
    ensures
        premium_total(s.update(i, x), owner) == premium_total(s, owner) - contribution(s[i], owner)
            + contribution(x, owner),
    decreases s.len(),
{
    let t = s.update(i, x);
    if i == s.len() - 1 {
        assert(t.drop_last() =~= s.drop_last());
    } else {
        assert(t.drop_last() =~= s.drop_last().update(i, x));
        lemma_total_update(s.drop_last(), i, x, owner);
    }
}

/// Deactivating an active policy lowers its owner's monthly premium total by
/// that policy's premium, and leaves every other owner's total unchanged.
pub proof fn law_deactivation_lowers_total(m: InsuranceModel, caller: Seq<char>, id: u32, other: Seq<char>)
    requires
        m.wf(),
        m.deactivate_error(caller, id) is None,
        m.policies[id - 1].active,
        other != caller,
    ensures
        premium_total(m.after_deactivate(id).policies, caller) == premium_total(m.policies, caller)
            - m.policies[id - 1].monthly_premium,
        premium_total(m.after_deactivate(id).policies, other) == premium_total(m.policies, other),
{
    let x = PolicyModel { active: false, ..m.policies[id - 1] };
    lemma_total_update(m.policies, id - 1, x, caller);
    lemma_total_update(m.policies, id - 1, x, other);
}

/// A deactivated policy's premium can no longer be paid.
pub proof fn law_deactivated_policy_cannot_be_paid(m: InsuranceModel, caller: Seq<char>, id: u32)
    requires
        m.wf(),
        m.deactivate_error(caller, id) is None,
    ensures
        m.after_deactivate(id).payment_error(caller, id) == Some(InsuranceError::PolicyInactive),
        m.after_deactivate(id).pay_premium_error(caller, id) is Some,
{
}

/// While the register is paused, every pausable operation is refused with
/// `ContractPaused`, whatever its arguments.
pub proof fn law_pause_refuses_everything(
    m: InsuranceModel,
    caller: Seq<char>,
    id: u32,
    ids: Seq<u32>,
    monthly_premium: i128,
    coverage_amount: i128,
    next_due: u64,
    now: u64,
)
    requires
        m.paused,
    ensures
        m.create_policy_error(monthly_premium, coverage_amount) == Some(InsuranceError::ContractPaused),
        m.pay_premium_error(caller, id) == Some(InsuranceError::ContractPaused),
        m.batch_pay_error(caller, ids) == Some(InsuranceError::ContractPaused),
        m.deactivate_error(caller, id) == Some(InsuranceError::ContractPaused),
        m.create_schedule_error(caller, id, next_due, now) == Some(InsuranceError::ContractPaused),
        m.modify_schedule_error(caller, id, next_due, now) == Some(InsuranceError::ContractPaused),
        m.cancel_schedule_error(caller, id) == Some(InsuranceError::ContractPaused),
{
}

/// Pausing and lifting the pause are the administrator's alone, and lifting
/// the pause restores the state that pausing left.
pub proof fn law_pause_round_trip(m: InsuranceModel, caller: Seq<char>)
    requires
        m.is_admin(caller),
        !m.paused,
    ensures
        m.after_set_paused(true).is_admin(caller),
        m.after_set_paused(true).after_set_paused(false) == m,
{
}

/// Paying the premiums of `ids`, each one after the other.
pub open spec fn pay_each(m: InsuranceModel, ids: Seq<u32>, now: u64) -> InsuranceModel
    decreases ids.len(),
{
    if ids.len() == 0 {
        m
    } else {
        pay_each(m, ids.drop_last(), now).after_pay_premium(ids.last(), now)
    }
}

/// An accepted batch payment is the same as paying the premiums one by one
/// in the order given.
pub proof fn law_batch_is_one_payment_each(m: InsuranceModel, caller: Seq<char>, ids: Seq<u32>, now: u64)
    requires
        m.wf(),
        m.batch_error(caller, ids) is None,
    ensures
        m.after_batch_pay(ids, now) == pay_each(m, ids, now),
    decreases ids.len(),
{
    if ids.len() > 0 {
        let init = ids.drop_last();
        let last = ids.last();
        law_batch_is_one_payment_each(m, caller, init, now);
        assert(ids =~= init.push(last));
        let before = paid_all(m.policies, init, now);
        let after = paid_all(m.policies, ids, now);
        let stepped = pay_each(m, init, now).after_pay_premium(last, now);
        assert(1 <= last <= m.policies.len());
        assert forall|j: int| 0 <= j < after.len() implies stepped.policies[j] == after[j] by {
            lemma_contains_push(init, last, (j + 1) as u32);
        }
        assert(stepped.policies =~= after);
    } else {
        assert(paid_all(m.policies, ids, now) =~= m.policies);
    }
}

/// No schedule of `s` is due: nothing runs.
proof fn lemma_due_ids_none(s: Seq<ScheduleModel>, now: u64)
    requires
        forall|j: int| 0 <= j < s.len() ==> !is_due(#[trigger] s[j], now),
    ensures
        due_ids(s, now).len() == 0,
    decreases s.len(),
{
    if s.len() > 0 {
        lemma_due_ids_none(s.drop_last(), now);
    }
}

/// Executing the due schedules twice at the same time runs nothing the
/// second time and changes nothing: after a run, a repeating schedule is
/// due only after `now`, and any other schedule has ended.
pub proof fn law_execution_is_idempotent(m: InsuranceModel, now: u64)
    requires
        m.wf(),
        m.execution_fits(now),
    ensures
        due_ids(m.after_execution(now).schedules, now).len() == 0,
        m.after_execution(now).after_execution(now) == m.after_execution(now),
{
    let m2 = m.after_execution(now);
    assert forall|j: int| 0 <= j < m2.schedules.len() implies !is_due(#[trigger] m2.schedules[j], now) by {
        let s = m.schedules[j];
        if is_due(s, now) {
            assert(run_fits(s, now));
            if repeats(s) {
                lemma_periods(s, now);
            }
        }
    }
    lemma_due_ids_none(m2.schedules, now);
    assert forall|i: int| 0 <= i < m2.policies.len() implies !#[trigger] pays_policy(m2.schedules, now, (i + 1) as u32) by {
        if pays_policy(m2.schedules, now, (i + 1) as u32) {
            let w = choose|w: int|
                0 <= w < m2.schedules.len() && is_due(#[trigger] m2.schedules[w], now) && m2.schedules[w].policy_id
                    == (i + 1) as u32;
            assert(!is_due(m2.schedules[w], now));
        }
    }
    assert(m2.after_execution(now).policies =~= m2.policies);
    assert(m2.after_execution(now).schedules =~= m2.schedules);
}

/// Every id that an execution answers is that of a schedule that was due.
proof fn lemma_due_ids_members(s: Seq<ScheduleModel>, now: u64, x: u32)
    requires
        due_ids(s, now).contains(x),
    ensures
        exists|j: int| 0 <= j < s.len() && is_due(#[trigger] s[j], now) && s[j].id == x,
    decreases s.len(),
{
    let s0 = s.drop_last();
    if is_due(s.last(), now) {
        lemma_contains_push(due_ids(s0, now), s.last().id, x);
    }
    if due_ids(s0, now).contains(x) {
        lemma_due_ids_members(s0, now, x);
        let j = choose|j: int| 0 <= j < s0.len() && is_due(#[trigger] s0[j], now) && s0[j].id == x;
        assert(s[j] == s0[j]);
    } else {
        assert(s[s.len() - 1] == s.last());
    }
}

/// A call that can change the register, with its arguments.
pub enum Operation {
    SetPauseAdmin { caller: Seq<char>, new_admin: Seq<char> },
    Pause { caller: Seq<char> },
    Unpause { caller: Seq<char> },
    CreatePolicy {
        owner: Seq<char>,
        name: Seq<u8>,
        coverage_type: Seq<u8>,
        monthly_premium: i128,
        coverage_amount: i128,
        now: u64,
    },
    PayPremium { caller: Seq<char>, policy_id: u32, now: u64 },
    BatchPayPremiums { caller: Seq<char>, policy_ids: Seq<u32>, now: u64 },
    DeactivatePolicy { caller: Seq<char>, policy_id: u32 },
    SetExternalRef { caller: Seq<char>, policy_id: u32, external_ref: Option<Seq<u8>> },
    CreatePremiumSchedule { owner: Seq<char>, policy_id: u32, next_due: u64, interval: u64, now: u64 },
    ModifyPremiumSchedule { caller: Seq<char>, schedule_id: u32, next_due: u64, interval: u64, now: u64 },
    CancelPremiumSchedule { caller: Seq<char>, schedule_id: u32 },
    ExecuteDueSchedules { now: u64 },
}

/// The state after `op` on `m`: what the operation's contract gives when it
/// succeeds, and `m` itself when it is refused or when its arithmetic would
/// overflow (the call then traps, and a trapped call changes nothing).
pub open spec fn apply(m: InsuranceModel, op: Operation) -> InsuranceModel {
    match op {
        Operation::SetPauseAdmin { caller, new_admin } => if m.admin_change_allowed(caller, new_admin) {
            m.after_set_pause_admin(new_admin)
        } else {
            m
        },
        Operation::Pause { caller } => if m.is_admin(caller) {
            m.after_set_paused(true)
        } else {
            m
        },
        Operation::Unpause { caller } => if m.is_admin(caller) {
            m.after_set_paused(false)
        } else {
            m
        },
        Operation::CreatePolicy { owner, name, coverage_type, monthly_premium, coverage_amount, now } => {
            if m.create_policy_error(monthly_premium, coverage_amount) is None && now + PREMIUM_PERIOD
                <= u64::MAX && m.policies.len() < u32::MAX {
                m.after_create_policy(owner, name, coverage_type, monthly_premium, coverage_amount, now)
            } else {
                m
            }
        },
        Operation::PayPremium { caller, policy_id, now } => if m.pay_premium_error(caller, policy_id) is None
            && now + PREMIUM_PERIOD <= u64::MAX {
            m.after_pay_premium(policy_id, now)
        } else {
            m
        },
        Operation::BatchPayPremiums { caller, policy_ids, now } => if m.batch_pay_error(caller, policy_ids)
            is None && now + PREMIUM_PERIOD <= u64::MAX {
            m.after_batch_pay(policy_ids, now)
        } else {
            m
        },
        Operation::DeactivatePolicy { caller, policy_id } => if m.deactivate_error(caller, policy_id) is None {
            m.after_deactivate(policy_id)
        } else {
            m
        },
        Operation::SetExternalRef { caller, policy_id, external_ref } => if m.owner_error(caller, policy_id)
            is None {
            m.after_set_external_ref(policy_id, external_ref)
        } else {
            m
        },
        Operation::CreatePremiumSchedule { owner, policy_id, next_due, interval, now } => {
            if m.create_schedule_error(owner, policy_id, next_due, now) is None && m.schedules.len() < u32::MAX {
                m.after_create_schedule(owner, policy_id, next_due, interval, now)
            } else {
                m
            }
        },
        Operation::ModifyPremiumSchedule { caller, schedule_id, next_due, interval, now } => {
            if m.modify_schedule_error(caller, schedule_id, next_due, now) is None {
                m.after_modify_schedule(schedule_id, next_due, interval)
            } else {
                m
            }
        },
        Operation::CancelPremiumSchedule { caller, schedule_id } => if m.cancel_schedule_error(caller, schedule_id)
            is None {
            m.after_cancel_schedule(schedule_id)
        } else {
            m
        },
        Operation::ExecuteDueSchedules { now } => if m.execution_fits(now) {
            m.after_execution(now)
        } else {
            m
        },
    }
}

/// The state after the operations `ops`, in order, on `m`.
pub open spec fn run(m: InsuranceModel, ops: Seq<Operation>) -> InsuranceModel
    decreases ops.len(),
{
    if ops.len() == 0 {
        m
    } else {
        apply(run(m, ops.drop_last()), ops.last())
    }
}

/// What `b` keeps of `a`: every policy and schedule of `a` is still there
/// with its id and owner, every schedule still for its policy, and a
/// schedule that had ended is still ended.
pub open spec fn keeps(a: InsuranceModel, b: InsuranceModel) -> bool {
    &&& a.policies.len() <= b.policies.len()
    &&& a.schedules.len() <= b.schedules.len()
    &&& forall|i: int|
        0 <= i < a.policies.len() ==> {
            &&& (#[trigger] b.policies[i]).id == a.policies[i].id
            &&& b.policies[i].owner == a.policies[i].owner
        }
    &&& forall|j: int|
        0 <= j < a.schedules.len() ==> {
            &&& (#[trigger] b.schedules[j]).id == a.schedules[j].id
            &&& b.schedules[j].owner == a.schedules[j].owner
            &&& b.schedules[j].policy_id == a.schedules[j].policy_id
            &&& (!a.schedules[j].active ==> !b.schedules[j].active)
        }
}

/// Every operation keeps the register's invariant: ids are positions plus
/// one, policies have positive amounts, and every schedule repeats exactly
/// when its interval is positive and is for an existing policy of its owner.
pub proof fn law_operation_keeps_invariant(m: InsuranceModel, op: Operation)
    requires
        m.wf(),
    ensures
        apply(m, op).wf(),
{
    let m2 = apply(m, op);
    match op {
        Operation::CreatePolicy { .. } => {
            assert forall|j: int| 0 <= j < m2.schedules.len() implies m2.schedule_wf(
                #[trigger] m2.schedules[j],
                j,
            ) by {
                assert(m.schedule_wf(m.schedules[j], j));
            }
        },
        Operation::PayPremium { policy_id, .. } => {
            lemma_policy_change_keeps_invariant(m, m2);
        },
        Operation::BatchPayPremiums { .. } => {
            lemma_policy_change_keeps_invariant(m, m2);
        },
        Operation::DeactivatePolicy { .. } => {
            lemma_policy_change_keeps_invariant(m, m2);
        },
        Operation::SetExternalRef { .. } => {
            lemma_policy_change_keeps_invariant(m, m2);
        },
        Operation::CreatePremiumSchedule { owner, policy_id, next_due, interval, now } => {
            if m2 != m {
                assert forall|j: int| 0 <= j < m2.schedules.len() implies m2.schedule_wf(
                    #[trigger] m2.schedules[j],
                    j,
                ) by {
                    if j < m.schedules.len() {
                        assert(m.schedule_wf(m.schedules[j], j));
                    }
                }
            }
        },
        Operation::ModifyPremiumSchedule { .. } => {
            lemma_schedule_change_keeps_invariant(m, m2);
        },
        Operation::CancelPremiumSchedule { .. } => {
            lemma_schedule_change_keeps_invariant(m, m2);
        },
        Operation::ExecuteDueSchedules { now } => {
            if m2 != m {
                lemma_policy_change_keeps_invariant(m, InsuranceModel { schedules: m.schedules, ..m2 });
                lemma_schedule_change_keeps_invariant(InsuranceModel { schedules: m.schedules, ..m2 }, m2);
            }
        },
        _ => {},
    }
}

/// A change of policies that keeps their number, ids, owners and positive
/// amounts keeps the invariant.
proof fn lemma_policy_change_keeps_invariant(m: InsuranceModel, m2: InsuranceModel)
    requires
        m.wf(),
        m2.schedules == m.schedules,
        m2.policies.len() == m.policies.len(),
        forall|i: int|
            0 <= i < m.policies.len() ==> {
                &&& (#[trigger] m2.policies[i]).id == m.policies[i].id
                &&& m2.policies[i].owner == m.policies[i].owner
                &&& m2.policies[i].monthly_premium == m.policies[i].monthly_premium
                &&& m2.policies[i].coverage_amount == m.policies[i].coverage_amount
            },
    ensures
        m2.wf(),
{
    assert forall|j: int| 0 <= j < m2.schedules.len() implies m2.schedule_wf(#[trigger] m2.schedules[j], j) by {
        assert(m.schedule_wf(m.schedules[j], j));
        assert(m2.policies[m.schedules[j].policy_id - 1].owner == m.policies[m.schedules[j].policy_id - 1].owner);
    }
    assert forall|i: int| 0 <= i < m2.policies.len() implies (#[trigger] m2.policies[i]).id == i + 1 by {
        assert(m.policies[i].id == i + 1);
    }
}

/// A change of schedules that keeps their number, ids, owners and policies,
/// and keeps each repeating exactly when its interval is positive, keeps
/// the invariant.
proof fn lemma_schedule_change_keeps_invariant(m: InsuranceModel, m2: InsuranceModel)
    requires
        m.wf(),
        m2.policies == m.policies,
        m2.schedules.len() == m.schedules.len(),
        forall|j: int|
            0 <= j < m.schedules.len() ==> {
                &&& (#[trigger] m2.schedules[j]).id == m.schedules[j].id
                &&& m2.schedules[j].owner == m.schedules[j].owner
                &&& m2.schedules[j].policy_id == m.schedules[j].policy_id
                &&& m2.schedules[j].recurring == (m2.schedules[j].interval > 0)
            },
    ensures
        m2.wf(),
{
    assert forall|j: int| 0 <= j < m2.schedules.len() implies m2.schedule_wf(#[trigger] m2.schedules[j], j) by {
        assert(m.schedule_wf(m.schedules[j], j));
    }
}

/// Every operation keeps every policy and schedule with its id and owner,
/// removes none, and never reactivates a schedule that has ended.
pub proof fn law_operation_keeps_records(m: InsuranceModel, op: Operation)
    requires
        m.wf(),
    ensures
        keeps(m, apply(m, op)),
{
    let m2 = apply(m, op);
    match op {
        Operation::ExecuteDueSchedules { now } => {
            if m2 != m {
                assert forall|j: int| 0 <= j < m.schedules.len() implies {
                    &&& (#[trigger] m2.schedules[j]).id == m.schedules[j].id
                    &&& m2.schedules[j].owner == m.schedules[j].owner
                    &&& m2.schedules[j].policy_id == m.schedules[j].policy_id
                    &&& (!m.schedules[j].active ==> !m2.schedules[j].active)
                } by {}
            }
        },
        _ => {},
    }
}

/// Over any sequence of operations from a state that satisfies the
/// invariant, every state satisfies it, and keeps every policy and schedule
/// of the first state with its id and owner, and every ended schedule ended.
pub proof fn law_runs_keep_records(m: InsuranceModel, ops: Seq<Operation>)
    requires
        m.wf(),
    ensures
        run(m, ops).wf(),
        keeps(m, run(m, ops)),
    decreases ops.len(),
{
    if ops.len() > 0 {
        law_runs_keep_records(m, ops.drop_last());
        let mid = run(m, ops.drop_last());
        law_operation_keeps_invariant(mid, ops.last());
        law_operation_keeps_records(mid, ops.last());
    }
}

/// Every state reachable from an empty register satisfies the invariant:
/// policy ids are 1, 2, 3, ... in order of creation, amounts are positive,
/// and every schedule is for an existing policy of its owner.
pub proof fn law_reachable_states_are_well_formed(ops: Seq<Operation>)
    ensures
        run(InsuranceModel::empty(), ops).wf(),
{
    law_runs_keep_records(InsuranceModel::empty(), ops);
}

/// A cancelled schedule stays cancelled under any later operations, and no
/// later execution, at any time, runs it.
pub proof fn law_cancelled_schedule_stays_cancelled(
    m: InsuranceModel,
    caller: Seq<char>,
    id: u32,
    ops: Seq<Operation>,
    now: u64,
)
    requires
        m.wf(),
        m.cancel_schedule_error(caller, id) is None,
    ensures
        !run(m.after_cancel_schedule(id), ops).schedules[id - 1].active,
        !due_ids(run(m.after_cancel_schedule(id), ops).schedules, now).contains(id),
{
    let c = m.after_cancel_schedule(id);
    law_operation_keeps_invariant(m, Operation::CancelPremiumSchedule { caller, schedule_id: id });
    law_runs_keep_records(c, ops);
    let r = run(c, ops);
    assert(!c.schedules[id - 1].active);
    assert(!r.schedules[id - 1].active);
    if due_ids(r.schedules, now).contains(id) {
        lemma_due_ids_members(r.schedules, now, id);
        let j = choose|j: int| 0 <= j < r.schedules.len() && is_due(#[trigger] r.schedules[j], now) && r.schedules[j].id == id;
        assert(r.schedule_wf(r.schedules[j], j));
    }
}

/// A batch of one id is refused exactly as a single payment of that id is,
/// and otherwise leaves the same state.
pub proof fn law_single_batch_is_single_payment(m: InsuranceModel, caller: Seq<char>, id: u32, now: u64)
    requires
        m.wf(),
    ensures
        m.batch_pay_error(caller, seq![id]) == m.pay_premium_error(caller, id),
        m.pay_premium_error(caller, id) is None ==> m.after_batch_pay(seq![id], now) == m.after_pay_premium(id, now),
{
    let ids = seq![id];
    assert(ids.drop_last() =~= Seq::<u32>::empty());
    assert(ids.last() == id);
    assert(ids.len() == 1);
    assert(m.batch_error(caller, ids.drop_last()) is None);
    assert(m.batch_error(caller, ids) == m.payment_error(caller, id));
    if m.pay_premium_error(caller, id) is None {
        assert forall|q: u32| ids.contains(q) <==> q == id by {
            if q == id {
                assert(ids[0] == id);
            }
        }
        assert(m.after_batch_pay(ids, now).policies =~= m.after_pay_premium(id, now).policies);
    }
}

/// A requested page size between 1 and `MAX_PAGE_LIMIT` is served exactly,
/// 0 asks for `DEFAULT_PAGE_LIMIT`, and anything larger is cut to
/// `MAX_PAGE_LIMIT`; a page then lists that many matches, or all of them
/// when fewer remain.
pub proof fn law_page_size(m: InsuranceModel, owner: Seq<char>, cursor: u32, limit: u32, active_only: bool)
    ensures
        1 <= limit <= MAX_PAGE_LIMIT ==> spec_clamp_limit(limit) == limit,
        limit == 0 ==> spec_clamp_limit(limit) == DEFAULT_PAGE_LIMIT,
        limit > MAX_PAGE_LIMIT ==> spec_clamp_limit(limit) == MAX_PAGE_LIMIT,
        ({
            let all = matching(m.policies, owner, cursor, active_only);
            let n = spec_clamp_limit(limit) as int;
            page_items(m.policies, owner, cursor, limit, active_only).len() == if all.len() < n {
                all.len() as int
            } else {
                n
            }
        }),
{
}

/// A successful modification moves the schedule to the given due time and
/// interval, makes it repeat exactly when the interval is positive, and
/// keeps its owner, policy and whether it is active.
pub proof fn law_modify_sets_due_time_and_interval(
    m: InsuranceModel,
    caller: Seq<char>,
    id: u32,
    next_due: u64,
    interval: u64,
    now: u64,
)
    requires
        m.wf(),
        m.modify_schedule_error(caller, id, next_due, now) is None,
    ensures
        ({
            let after = m.after_modify_schedule(id, next_due, interval);
            let before = m.schedule(id).unwrap();
            &&& after.schedule(id) is Some
            &&& after.schedule(id).unwrap().next_due == next_due
            &&& after.schedule(id).unwrap().interval == interval
            &&& after.schedule(id).unwrap().recurring == (interval > 0)
            &&& after.schedule(id).unwrap().owner == caller
            &&& after.schedule(id).unwrap().owner == before.owner
            &&& after.schedule(id).unwrap().policy_id == before.policy_id
            &&& after.schedule(id).unwrap().active == before.active
            &&& next_due > now
            &&& after.policies == m.policies
            &&& forall|q: u32| q != id ==> after.schedule(q) == m.schedule(q)
        }),
{
}

/// Deactivation asks only that the operation is not paused and that the
/// caller owns the policy: an inactive policy can be deactivated again, and
/// afterwards the policy is inactive and otherwise unchanged.
pub proof fn law_deactivation_needs_only_ownership(m: InsuranceModel, caller: Seq<char>, id: u32)
    requires
        m.wf(),
    ensures
        m.pause_error(PausableFunction::Deactivate) is None && m.owner_error(caller, id) is None ==> {
            let after = m.after_deactivate(id);
            &&& m.deactivate_error(caller, id) is None
            &&& !after.policy(id).unwrap().active
            &&& after.policy(id).unwrap().owner == caller
            &&& after.policy(id).unwrap().monthly_premium == m.policy(id).unwrap().monthly_premium
            &&& after.policy(id).unwrap().next_payment_date == m.policy(id).unwrap().next_payment_date
            &&& after.deactivate_error(caller, id) is None
        },
{
}

/// Every due schedule's id is among those an execution answers.
proof fn lemma_due_ids_complete(s: Seq<ScheduleModel>, now: u64, j: int)
    requires
        0 <= j < s.len(),
        is_due(s[j], now),
    ensures
        due_ids(s, now).contains(s[j].id),
    decreases s.len(),
{
    let s0 = s.drop_last();
    if j == s.len() - 1 {
        lemma_contains_push(due_ids(s0, now), s[j].id, s[j].id);
    } else {
        assert(s0[j] == s[j]);
        lemma_due_ids_complete(s0, now, j);
        if is_due(s.last(), now) {
            lemma_contains_push(due_ids(s0, now), s.last().id, s[j].id);
        }
    }
}

/// What an execution at `now` does to each schedule: every schedule that
/// was due is run and records `now` as its last run, and its id is answered;
/// a repeating one stays active and moves to its first due time after
/// `now`, a whole number of intervals after its old due time, counting the
/// intervals it skipped as missed; any other one ends. A schedule that was
/// not due is unchanged, and every id answered is that of a schedule whose
/// last run is now `now`.
pub proof fn law_execution_runs_due_schedules(m: InsuranceModel, now: u64)
    requires
        m.wf(),
        m.execution_fits(now),
    ensures
        ({
            let after = m.after_execution(now);
            &&& after.schedules.len() == m.schedules.len()
            &&& forall|j: int|
                0 <= j < m.schedules.len() && is_due(#[trigger] m.schedules[j], now) ==> {
                    let old = m.schedules[j];
                    let new = after.schedules[j];
                    let missed = new.missed_count - old.missed_count;
                    &&& new.last_executed == Some(now)
                    &&& due_ids(m.schedules, now).contains(old.id)
                    &&& new.id == old.id
                    &&& new.owner == old.owner
                    &&& new.policy_id == old.policy_id
                    &&& new.interval == old.interval
                    &&& (old.recurring && old.interval > 0) ==> {
                        &&& new.active
                        &&& missed >= 0
                        &&& new.next_due == old.next_due + old.interval * (missed + 1)
                        &&& old.interval * missed <= now - old.next_due
                        &&& now < new.next_due
                    }
                    &&& !(old.recurring && old.interval > 0) ==> !new.active && new.next_due == old.next_due
                }
            &&& forall|j: int|
                0 <= j < m.schedules.len() && !is_due(#[trigger] m.schedules[j], now) ==> after.schedules[j]
                    == m.schedules[j]
            &&& forall|x: u32|
                #[trigger] due_ids(m.schedules, now).contains(x) ==> after.schedule(x) is Some
                    && after.schedule(x).unwrap().last_executed == Some(now)
        }),
{
    let after = m.after_execution(now);
    assert forall|j: int| 0 <= j < m.schedules.len() && is_due(#[trigger] m.schedules[j], now) implies {
        let old = m.schedules[j];
        let new = after.schedules[j];
        let missed = new.missed_count - old.missed_count;
        &&& new.last_executed == Some(now)
        &&& due_ids(m.schedules, now).contains(old.id)
        &&& new.id == old.id
        &&& new.owner == old.owner
        &&& new.policy_id == old.policy_id
        &&& new.interval == old.interval
        &&& (old.recurring && old.interval > 0) ==> {
            &&& new.active
            &&& missed >= 0
            &&& new.next_due == old.next_due + old.interval * (missed + 1)
            &&& old.interval * missed <= now - old.next_due
            &&& now < new.next_due
        }
        &&& !(old.recurring && old.interval > 0) ==> !new.active && new.next_due == old.next_due
    } by {
        lemma_due_ids_complete(m.schedules, now, j);
        let old = m.schedules[j];
        assert(run_fits(old, now));
        if repeats(old) {
            lemma_periods(old, now);
        }
    }
    assert forall|x: u32| #[trigger] due_ids(m.schedules, now).contains(x) implies after.schedule(x) is Some
        && after.schedule(x).unwrap().last_executed == Some(now) by {
        lemma_due_ids_members(m.schedules, now, x);
        let j = choose|j: int| 0 <= j < m.schedules.len() && is_due(#[trigger] m.schedules[j], now) && m.schedules[j].id == x;
        assert(m.schedule_wf(m.schedules[j], j));
        assert(after.schedules[j].last_executed == Some(now));
    }
}

/// Every schedule of `owner` in `s` is listed.
proof fn lemma_schedules_of_complete(s: Seq<ScheduleModel>, owner: Seq<char>, j: int)
    requires
        0 <= j < s.len(),
        s[j].owner == owner,
    ensures
        schedules_of(s, owner).contains(s[j]),
    decreases s.len(),
{
    let s0 = s.drop_last();
    if j == s.len() - 1 {
        lemma_contains_push(schedules_of(s0, owner), s[j], s[j]);
    } else {
        assert(s0[j] == s[j]);
        lemma_schedules_of_complete(s0, owner, j);
        if s.last().owner == owner {
            lemma_contains_push(schedules_of(s0, owner), s.last(), s[j]);
        }
    }
}

/// Only schedules of `owner` are listed.
proof fn lemma_schedules_of_sound(s: Seq<ScheduleModel>, owner: Seq<char>)
    ensures
        forall|k: int|
            0 <= k < schedules_of(s, owner).len() ==> (#[trigger] schedules_of(s, owner)[k]).owner == owner,
    decreases s.len(),
{
    if s.len() > 0 {
        lemma_schedules_of_sound(s.drop_last(), owner);
    }
}

/// Replacing a schedule by one with the same id and owner keeps the ids an
/// owner's listing shows.
proof fn lemma_schedules_of_update(s: Seq<ScheduleModel>, i: int, x: ScheduleModel, owner: Seq<char>)
    requires
        0 <= i < s.len(),
        x.id == s[i].id,
        x.owner == s[i].owner,
    ensures
        schedules_of(s.update(i, x), owner).len() == schedules_of(s, owner).len(),
        forall|k: int|
            0 <= k < schedules_of(s, owner).len() ==> (#[trigger] schedules_of(s.update(i, x), owner)[k]).id
                == schedules_of(s, owner)[k].id,
    decreases s.len(),
{
    let t = s.update(i, x);
    if i == s.len() - 1 {
        assert(t.drop_last() =~= s.drop_last());
    } else {
        assert(t.drop_last() =~= s.drop_last().update(i, x));
        lemma_schedules_of_update(s.drop_last(), i, x, owner);
    }
}

/// An owner's schedule listing holds every schedule of that owner, active
/// or not, and nothing else; cancelling a schedule leaves the ids it lists
/// unchanged.
pub proof fn law_owner_schedules_listed(m: InsuranceModel, owner: Seq<char>, caller: Seq<char>, id: u32)
    requires
        m.wf(),
    ensures
        forall|j: int|
            0 <= j < m.schedules.len() && (#[trigger] m.schedules[j]).owner == owner ==> schedules_of(
                m.schedules,
                owner,
            ).contains(m.schedules[j]),
        forall|k: int|
            0 <= k < schedules_of(m.schedules, owner).len() ==> (#[trigger] schedules_of(m.schedules, owner)[k]).owner
                == owner,
        m.cancel_schedule_error(caller, id) is None ==> {
            let after = schedules_of(m.after_cancel_schedule(id).schedules, owner);
            let before = schedules_of(m.schedules, owner);
            &&& after.len() == before.len()
            &&& forall|k: int| 0 <= k < before.len() ==> (#[trigger] after[k]).id == before[k].id
        },
{
    assert forall|j: int| 0 <= j < m.schedules.len() && (#[trigger] m.schedules[j]).owner == owner implies schedules_of(
        m.schedules,
        owner,
    ).contains(m.schedules[j]) by {
        lemma_schedules_of_complete(m.schedules, owner, j);
    }
    lemma_schedules_of_sound(m.schedules, owner);
    if m.cancel_schedule_error(caller, id) is None {
        let x = ScheduleModel { active: false, ..m.schedules[id - 1] };
        lemma_schedules_of_update(m.schedules, id - 1, x, owner);
    }
}

} // verus!
