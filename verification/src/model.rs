//! The contract's state as a mathematical value, and what each operation
//! decides on it: which error it answers with, which records it selects.
use vstd::prelude::*;

use crate::types::{InsuranceError, PausableFunction, PolicyModel, ScheduleModel};

verus! {

/// Seconds between a premium payment and the next one that falls due.
pub const PREMIUM_PERIOD: u64 = 2592000;

/// Most policies that one batch payment may name.
pub const MAX_BATCH_SIZE: u32 = 50;

/// Default number of policies on one page when the caller asks for none.
pub const DEFAULT_PAGE_LIMIT: u32 = 20;

/// Largest number of policies on one page.
pub const MAX_PAGE_LIMIT: u32 = 50;

/// The state of the register. Policies and schedules are listed in the
/// order of their ids, which are handed out as 1, 2, 3, ... and never
/// taken back.
pub struct InsuranceModel {
    pub pause_admin: Option<Seq<char>>,
    pub paused: bool,
    pub paused_functions: Seq<PausableFunction>,
    pub policies: Seq<PolicyModel>,
    pub schedules: Seq<ScheduleModel>,
}

/// The page size that a request for `limit` policies is served with.
pub open spec fn spec_clamp_limit(limit: u32) -> u32 {
    if limit == 0 {
        DEFAULT_PAGE_LIMIT
    } else if limit > MAX_PAGE_LIMIT {
        MAX_PAGE_LIMIT
    } else {
        limit
    }
}

/// Whether a policy is listed on a page for `owner` after `cursor`.
pub open spec fn selected(p: PolicyModel, owner: Seq<char>, cursor: u32, active_only: bool) -> bool {
    &&& p.id > cursor
    &&& p.owner == owner
    &&& (p.active || !active_only)
}

/// The policies of `s` that a page for `owner` after `cursor` may list, in
/// their order in `s`.
pub open spec fn matching(s: Seq<PolicyModel>, owner: Seq<char>, cursor: u32, active_only: bool) -> Seq<
    PolicyModel,
>
    decreases s.len(),
{
    if s.len() == 0 {
        Seq::empty()
    } else {
        let m = matching(s.drop_last(), owner, cursor, active_only);
        if selected(s.last(), owner, cursor, active_only) {
            m.push(s.last())
        } else {
            m
        }
    }
}

/// The policies on the page: the first `spec_clamp_limit(limit)` of the
/// matching ones.
pub open spec fn page_items(s: Seq<PolicyModel>, owner: Seq<char>, cursor: u32, limit: u32, active_only: bool) -> Seq<
    PolicyModel,
> {
    let all = matching(s, owner, cursor, active_only);
    let n = spec_clamp_limit(limit) as int;
    if all.len() > n {
        all.take(n)
    } else {
        all
    }
}

/// The cursor of the next page: the id of the page's last policy when more
/// policies follow it, else 0.
pub open spec fn page_next_cursor(s: Seq<PolicyModel>, owner: Seq<char>, cursor: u32, limit: u32, active_only: bool) -> u32 {
    let all = matching(s, owner, cursor, active_only);
    let n = spec_clamp_limit(limit) as int;
    if all.len() > n {
        all[n - 1].id
    } else {
        0
    }
}

/// The sum of the monthly premiums of the active policies of `owner` in `s`.
pub open spec fn premium_total(s: Seq<PolicyModel>, owner: Seq<char>) -> int
    decreases s.len(),
{
    if s.len() == 0 {
        0
    } else {
        premium_total(s.drop_last(), owner) + if s.last().owner == owner && s.last().active {
            s.last().monthly_premium as int
        } else {
            0
        }
    }
}

/// The schedules of `owner` in `s`, in their order in `s`.
pub open spec fn schedules_of(s: Seq<ScheduleModel>, owner: Seq<char>) -> Seq<ScheduleModel>
    decreases s.len(),
{
    if s.len() == 0 {
        Seq::empty()
    } else {
        let m = schedules_of(s.drop_last(), owner);
        if s.last().owner == owner {
            m.push(s.last())
        } else {
            m
        }
    }
}

/// Whether a schedule runs when executed at time `now`.
pub open spec fn is_due(s: ScheduleModel, now: u64) -> bool {
    s.active && s.next_due <= now
}

/// Whether a schedule comes back after it runs.
pub open spec fn repeats(s: ScheduleModel) -> bool {
    s.recurring && s.interval > 0
}

/// The whole periods that have passed since a due schedule's due time, and
/// that it has missed when it runs at `now`.
pub open spec fn periods_missed(s: ScheduleModel, now: u64) -> int {
    (now - s.next_due) / (s.interval as int)
}

/// The first due time after `now` of a repeating schedule.
pub open spec fn next_due_after(s: ScheduleModel, now: u64) -> int {
    s.next_due + s.interval * (periods_missed(s, now) + 1)
}

/// Whether running a due schedule at `now` keeps its counters within their
/// machine types.
pub open spec fn run_fits(s: ScheduleModel, now: u64) -> bool {
    repeats(s) ==> {
        &&& next_due_after(s, now) <= u64::MAX
        &&& s.missed_count + periods_missed(s, now) <= u32::MAX
    }
}

/// A due schedule after it runs at `now`: a repeating one moves to its first
/// due time after `now` and counts the periods it missed, any other one ends.
pub open spec fn run_schedule(s: ScheduleModel, now: u64) -> ScheduleModel {
    if repeats(s) {
        ScheduleModel {
            last_executed: Some(now),
            next_due: next_due_after(s, now) as u64,
            missed_count: (s.missed_count + periods_missed(s, now)) as u32,
            ..s
        }
    } else {
        ScheduleModel { last_executed: Some(now), active: false, ..s }
    }
}

/// The ids of the schedules of `s` that run at `now`, in order.
pub open spec fn due_ids(s: Seq<ScheduleModel>, now: u64) -> Seq<u32>
    decreases s.len(),
{
    if s.len() == 0 {
        Seq::empty()
    } else {
        let m = due_ids(s.drop_last(), now);
        if is_due(s.last(), now) {
            m.push(s.last().id)
        } else {
            m
        }
    }
}

/// Whether some schedule of `s` that runs at `now` is for policy `policy_id`.
pub open spec fn pays_policy(s: Seq<ScheduleModel>, now: u64, policy_id: u32) -> bool {
    exists|j: int| 0 <= j < s.len() && is_due(#[trigger] s[j], now) && s[j].policy_id == policy_id
}

/// A policy whose premium has just been paid at `now`.
pub open spec fn paid(p: PolicyModel, now: u64) -> PolicyModel {
    PolicyModel { next_payment_date: (now + PREMIUM_PERIOD) as u64, ..p }
}

/// A policy as it is created.
pub open spec fn new_policy(
    id: u32,
    owner: Seq<char>,
    name: Seq<u8>,
    coverage_type: Seq<u8>,
    monthly_premium: i128,
    coverage_amount: i128,
    now: u64,
) -> PolicyModel {
    PolicyModel {
        id,
        owner,
        name,
        external_ref: None,
        coverage_type,
        monthly_premium,
        coverage_amount,
        active: true,
        next_payment_date: (now + PREMIUM_PERIOD) as u64,
        schedule_id: None,
        tags: Seq::empty(),
    }
}

/// A premium schedule as it is created.
pub open spec fn new_schedule(id: u32, owner: Seq<char>, policy_id: u32, next_due: u64, interval: u64, now: u64) -> ScheduleModel {
    ScheduleModel {
        id,
        owner,
        policy_id,
        next_due,
        interval,
        recurring: interval > 0,
        active: true,
        created_at: now,
        last_executed: None,
        missed_count: 0,
    }
}

/// The policies of `s` after the premiums of policies `ids` are paid at `now`.
pub open spec fn paid_all(s: Seq<PolicyModel>, ids: Seq<u32>, now: u64) -> Seq<PolicyModel> {
    Seq::new(s.len(), |i: int| if ids.contains((i + 1) as u32) { paid(s[i], now) } else { s[i] })
}

impl InsuranceModel {
    /// The state of a register that holds nothing.
    pub open spec fn empty() -> InsuranceModel {
        InsuranceModel {
            pause_admin: None,
            paused: false,
            paused_functions: Seq::empty(),
            policies: Seq::empty(),
            schedules: Seq::empty(),
        }
    }

    /// What every reachable state satisfies: ids are the positions plus one,
    /// every policy was created with positive amounts, and every schedule
    /// repeats exactly when its interval is positive and is for an existing
    /// policy of its own owner.
    pub open spec fn wf(self) -> bool {
        &&& self.policies.len() <= u32::MAX
        &&& self.schedules.len() <= u32::MAX
        &&& forall|i: int|
            0 <= i < self.policies.len() ==> {
                &&& (#[trigger] self.policies[i]).id == i + 1
                &&& self.policies[i].monthly_premium > 0
                &&& self.policies[i].coverage_amount > 0
            }
        &&& forall|i: int| 0 <= i < self.schedules.len() ==> self.schedule_wf(#[trigger] self.schedules[i], i)
    }

    /// Schedule `s` at position `i` has the id `i + 1`, repeats exactly when
    /// its interval is positive, and is for an existing policy of its owner.
    pub open spec fn schedule_wf(self, s: ScheduleModel, i: int) -> bool {
        &&& s.id == i + 1
        &&& s.recurring == (s.interval > 0)
        &&& 1 <= s.policy_id <= self.policies.len()
        &&& self.policies[s.policy_id - 1].owner == s.owner
    }

    /// The policy with id `id`, if there is one.
    pub open spec fn policy(self, id: u32) -> Option<PolicyModel> {
        if 1 <= id <= self.policies.len() {
            Some(self.policies[id - 1])
        } else {
            None
        }
    }

    /// The schedule with id `id`, if there is one.
    pub open spec fn schedule(self, id: u32) -> Option<ScheduleModel> {
        if 1 <= id <= self.schedules.len() {
            Some(self.schedules[id - 1])
        } else {
            None
        }
    }

    /// Why a paused operation `f` is refused, if it is.
    pub open spec fn pause_error(self, f: PausableFunction) -> Option<InsuranceError> {
        if self.paused {
            Some(InsuranceError::ContractPaused)
        } else if self.paused_functions.contains(f) {
            Some(InsuranceError::FunctionPaused)
        } else {
            None
        }
    }

    /// Why `caller` may not change policy `id`, if it may not.
    pub open spec fn owner_error(self, caller: Seq<char>, id: u32) -> Option<InsuranceError> {
        match self.policy(id) {
            None => Some(InsuranceError::PolicyNotFound),
            Some(p) => if p.owner != caller {
                Some(InsuranceError::Unauthorized)
            } else {
                None
            },
        }
    }

    /// Why `caller` may not pay the premium of policy `id`, if it may not.
    pub open spec fn payment_error(self, caller: Seq<char>, id: u32) -> Option<InsuranceError> {
        match self.owner_error(caller, id) {
            Some(e) => Some(e),
            None => if !self.policies[id - 1].active {
                Some(InsuranceError::PolicyInactive)
            } else {
                None
            },
        }
    }

    /// The first reason, in the order of `ids`, why `caller` may not pay the
    /// premiums of those policies.
    pub open spec fn batch_error(self, caller: Seq<char>, ids: Seq<u32>) -> Option<InsuranceError>
        decreases ids.len(),
    {
        if ids.len() == 0 {
            None
        } else {
            match self.batch_error(caller, ids.drop_last()) {
                Some(e) => Some(e),
                None => self.payment_error(caller, ids.last()),
            }
        }
    }

    /// Why `caller` may not change schedule `id`, if it may not.
    pub open spec fn schedule_owner_error(self, caller: Seq<char>, id: u32) -> Option<InsuranceError> {
        match self.schedule(id) {
            None => Some(InsuranceError::ScheduleNotFound),
            Some(s) => if s.owner != caller {
                Some(InsuranceError::Unauthorized)
            } else {
                None
            },
        }
    }

    /// Whether `caller` may make `new_admin` the pause administrator: the
    /// current one may hand the role on, and while there is none anyone may
    /// take it for themselves.
    pub open spec fn admin_change_allowed(self, caller: Seq<char>, new_admin: Seq<char>) -> bool {
        match self.pause_admin {
            None => caller == new_admin,
            Some(admin) => admin == caller,
        }
    }

    /// Whether `caller` is the pause administrator.
    pub open spec fn is_admin(self, caller: Seq<char>) -> bool {
        self.pause_admin == Some(caller)
    }

    /// Why a policy with these amounts may not be created now, if it may not.
    pub open spec fn create_policy_error(self, monthly_premium: i128, coverage_amount: i128) -> Option<
        InsuranceError,
    > {
        match self.pause_error(PausableFunction::CreatePolicy) {
            Some(e) => Some(e),
            None => if monthly_premium <= 0 || coverage_amount <= 0 {
                Some(InsuranceError::InvalidAmount)
            } else {
                None
            },
        }
    }

    /// Why `caller` may not pay the premium of policy `id` now, if it may not.
    pub open spec fn pay_premium_error(self, caller: Seq<char>, id: u32) -> Option<InsuranceError> {
        match self.pause_error(PausableFunction::PayPremium) {
            Some(e) => Some(e),
            None => self.payment_error(caller, id),
        }
    }

    /// Why `caller` may not pay the premiums of policies `ids` in one batch,
    /// if it may not.
    pub open spec fn batch_pay_error(self, caller: Seq<char>, ids: Seq<u32>) -> Option<InsuranceError> {
        match self.pause_error(PausableFunction::PayPremium) {
            Some(e) => Some(e),
            None => if ids.len() > MAX_BATCH_SIZE {
                Some(InsuranceError::BatchTooLarge)
            } else {
                self.batch_error(caller, ids)
            },
        }
    }

    /// Why `caller` may not deactivate policy `id`, if it may not.
    pub open spec fn deactivate_error(self, caller: Seq<char>, id: u32) -> Option<InsuranceError> {
        match self.pause_error(PausableFunction::Deactivate) {
            Some(e) => Some(e),
            None => self.owner_error(caller, id),
        }
    }

    /// Why `owner` may not plan premium payments for policy `policy_id`
    /// starting at `next_due`, if it may not.
    pub open spec fn create_schedule_error(self, owner: Seq<char>, policy_id: u32, next_due: u64, now: u64) -> Option<
        InsuranceError,
    > {
        match self.pause_error(PausableFunction::CreateSchedule) {
            Some(e) => Some(e),
            None => match self.owner_error(owner, policy_id) {
                Some(e) => Some(e),
                None => if next_due <= now {
                    Some(InsuranceError::InvalidTimestamp)
                } else {
                    None
                },
            },
        }
    }

    /// Why `caller` may not move schedule `id` to `next_due`, if it may not.
    pub open spec fn modify_schedule_error(self, caller: Seq<char>, id: u32, next_due: u64, now: u64) -> Option<
        InsuranceError,
    > {
        match self.pause_error(PausableFunction::ModifySchedule) {
            Some(e) => Some(e),
            None => if next_due <= now {
                Some(InsuranceError::InvalidTimestamp)
            } else {
                self.schedule_owner_error(caller, id)
            },
        }
    }

    /// Why `caller` may not cancel schedule `id`, if it may not.
    pub open spec fn cancel_schedule_error(self, caller: Seq<char>, id: u32) -> Option<InsuranceError> {
        match self.pause_error(PausableFunction::CancelSchedule) {
            Some(e) => Some(e),
            None => self.schedule_owner_error(caller, id),
        }
    }

    /// The state with policy `id` replaced by `p`.
    pub open spec fn with_policy(self, id: u32, p: PolicyModel) -> InsuranceModel {
        InsuranceModel { policies: self.policies.update(id - 1, p), ..self }
    }

    /// The state with schedule `id` replaced by `s`.
    pub open spec fn with_schedule(self, id: u32, s: ScheduleModel) -> InsuranceModel {
        InsuranceModel { schedules: self.schedules.update(id - 1, s), ..self }
    }

    /// The state after `admin` becomes the pause administrator.
    pub open spec fn after_set_pause_admin(self, admin: Seq<char>) -> InsuranceModel {
        InsuranceModel { pause_admin: Some(admin), ..self }
    }

    /// The state with the global pause switch set to `paused`.
    pub open spec fn after_set_paused(self, paused: bool) -> InsuranceModel {
        InsuranceModel { paused, ..self }
    }

    /// The state after a policy is created; its id is the next free one.
    pub open spec fn after_create_policy(
        self,
        owner: Seq<char>,
        name: Seq<u8>,
        coverage_type: Seq<u8>,
        monthly_premium: i128,
        coverage_amount: i128,
        now: u64,
    ) -> InsuranceModel {
        InsuranceModel {
            policies: self.policies.push(
                new_policy(
                    (self.policies.len() + 1) as u32,
                    owner,
                    name,
                    coverage_type,
                    monthly_premium,
                    coverage_amount,
                    now,
                ),
            ),
            ..self
        }
    }

    /// The state after the premium of policy `id` is paid at `now`.
    pub open spec fn after_pay_premium(self, id: u32, now: u64) -> InsuranceModel {
        self.with_policy(id, paid(self.policies[id - 1], now))
    }

    /// The state after the premiums of policies `ids` are paid at `now`.
    pub open spec fn after_batch_pay(self, ids: Seq<u32>, now: u64) -> InsuranceModel {
        InsuranceModel { policies: paid_all(self.policies, ids, now), ..self }
    }

    /// The state after policy `id` is deactivated.
    pub open spec fn after_deactivate(self, id: u32) -> InsuranceModel {
        self.with_policy(id, PolicyModel { active: false, ..self.policies[id - 1] })
    }

    /// The state after the external reference of policy `id` is set to
    /// `external_ref`.
    pub open spec fn after_set_external_ref(self, id: u32, external_ref: Option<Seq<u8>>) -> InsuranceModel {
        self.with_policy(id, PolicyModel { external_ref, ..self.policies[id - 1] })
    }

    /// The state after a schedule for policy `policy_id` is created; its id
    /// is the next free one, and the policy is linked to it.
    pub open spec fn after_create_schedule(
        self,
        owner: Seq<char>,
        policy_id: u32,
        next_due: u64,
        interval: u64,
        now: u64,
    ) -> InsuranceModel {
        let sid = (self.schedules.len() + 1) as u32;
        InsuranceModel {
            policies: self.policies.update(
                policy_id - 1,
                PolicyModel { schedule_id: Some(sid), ..self.policies[policy_id - 1] },
            ),
            schedules: self.schedules.push(new_schedule(sid, owner, policy_id, next_due, interval, now)),
            ..self
        }
    }

    /// The state after schedule `id` is moved to `next_due` with `interval`.
    pub open spec fn after_modify_schedule(self, id: u32, next_due: u64, interval: u64) -> InsuranceModel {
        self.with_schedule(
            id,
            ScheduleModel { next_due, interval, recurring: interval > 0, ..self.schedules[id - 1] },
        )
    }

    /// The state after schedule `id` is cancelled.
    pub open spec fn after_cancel_schedule(self, id: u32) -> InsuranceModel {
        self.with_schedule(id, ScheduleModel { active: false, ..self.schedules[id - 1] })
    }

    /// Whether executing the due schedules at `now` keeps every number within
    /// its machine type.
    pub open spec fn execution_fits(self, now: u64) -> bool {
        forall|j: int|
            0 <= j < self.schedules.len() && is_due(#[trigger] self.schedules[j], now) ==> {
                &&& run_fits(self.schedules[j], now)
                &&& (match self.policy(self.schedules[j].policy_id) {
                    Some(p) => p.active ==> now + PREMIUM_PERIOD <= u64::MAX,
                    None => true,
                })
            }
    }

    /// The state after the due schedules run at `now`.
    pub open spec fn after_execution(self, now: u64) -> InsuranceModel {
        InsuranceModel {
            policies: Seq::new(
                self.policies.len(),
                |i: int|
                    if self.policies[i].active && pays_policy(self.schedules, now, (i + 1) as u32) {
                        paid(self.policies[i], now)
                    } else {
                        self.policies[i]
                    },
            ),
            schedules: Seq::new(
                self.schedules.len(),
                |j: int|
                    if is_due(self.schedules[j], now) {
                        run_schedule(self.schedules[j], now)
                    } else {
                        self.schedules[j]
                    },
            ),
            ..self
        }
    }
}

} // verus!
