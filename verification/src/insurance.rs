//! The register itself: its state and every operation on it.
use vstd::prelude::*;

use crate::model::{
    paid, paid_all, run_schedule, due_ids, schedules_of, premium_total,
    page_items, page_next_cursor, spec_clamp_limit, is_due, repeats, periods_missed, next_due_after,
    pays_policy, run_fits, InsuranceModel, DEFAULT_PAGE_LIMIT, MAX_PAGE_LIMIT, MAX_BATCH_SIZE,
    PREMIUM_PERIOD,
};
use crate::paging::collect_page;
use crate::types::{
    opt_bytes, opt_text, policy_models, schedule_models, InsuranceError, InsurancePolicy,
    PausableFunction, PolicyModel, PolicyPage, PremiumSchedule, ScheduleModel,
};

verus! {

/// The register's state: the pause administrator and switches, the policies
/// and the premium schedules. Policies and schedules are kept in the order of
/// their ids, which are 1, 2, 3, ...
pub struct Insurance {
    pause_admin: Option<String>,
    paused: bool,
    paused_functions: Vec<PausableFunction>,
    policies: Vec<InsurancePolicy>,
    schedules: Vec<PremiumSchedule>,
}

impl View for Insurance {
    type V = InsuranceModel;

    closed spec fn view(&self) -> InsuranceModel {
        InsuranceModel {
            pause_admin: opt_text(self.pause_admin),
            paused: self.paused,
            paused_functions: self.paused_functions@,
            policies: policy_models(self.policies@),
            schedules: schedule_models(self.schedules@),
        }
    }
}

/// The state that stored parts describe.
pub open spec fn parts_model(
    pause_admin: Option<String>,
    paused: bool,
    paused_functions: Seq<PausableFunction>,
    policies: Seq<InsurancePolicy>,
    schedules: Seq<PremiumSchedule>,
) -> InsuranceModel {
    InsuranceModel {
        pause_admin: opt_text(pause_admin),
        paused,
        paused_functions,
        policies: policy_models(policies),
        schedules: schedule_models(schedules),
    }
}

/// The model of an optional policy.
pub open spec fn opt_policy(p: Option<InsurancePolicy>) -> Option<PolicyModel> {
    match p {
        Some(q) => Some(q@),
        None => None,
    }
}

/// The model of an optional schedule.
pub open spec fn opt_schedule(s: Option<PremiumSchedule>) -> Option<ScheduleModel> {
    match s {
        Some(q) => Some(q@),
        None => None,
    }
}

/// When every premium is positive, a prefix of the policies adds up to no
/// more than all of them.
pub proof fn lemma_total_prefix(s: Seq<PolicyModel>, owner: Seq<char>, i: int)
    requires
        0 <= i <= s.len(),
        forall|k: int| 0 <= k < s.len() ==> (#[trigger] s[k]).monthly_premium > 0,
    ensures
        0 <= premium_total(s.take(i), owner) <= premium_total(s, owner),
    decreases s.len(),
{
    if i == s.len() {
        assert(s.take(i) =~= s);
        lemma_total_nonneg(s, owner);
    } else {
        assert(s.drop_last().take(i) =~= s.take(i));
        lemma_total_prefix(s.drop_last(), owner, i);
    }
}

/// The sum of positive premiums is not negative.
pub proof fn lemma_total_nonneg(s: Seq<PolicyModel>, owner: Seq<char>)
    requires
        forall|k: int| 0 <= k < s.len() ==> (#[trigger] s[k]).monthly_premium > 0,
    ensures
        premium_total(s, owner) >= 0,
    decreases s.len(),
{
    if s.len() > 0 {
        lemma_total_nonneg(s.drop_last(), owner);
    }
}

/// The periods a due repeating schedule has missed lie between its due time
/// and `now`: `interval * k <= now - next_due < interval * (k + 1)`.
pub proof fn lemma_periods(s: ScheduleModel, now: u64)
    requires
        s.next_due <= now,
        s.interval > 0,
    ensures
        periods_missed(s, now) >= 0,
        s.interval * periods_missed(s, now) <= now - s.next_due,
        now - s.next_due < s.interval * (periods_missed(s, now) + 1),
{
    let x: int = now - s.next_due;
    let i: int = s.interval as int;
    let k = periods_missed(s, now);
    vstd::arithmetic::div_mod::lemma_fundamental_div_mod(x, i);
    vstd::arithmetic::div_mod::lemma_mod_pos_bound(x, i);
    assert(k == x / i);
    assert(k >= 0) by (nonlinear_arith)
        requires
            x == i * k + x % i,
            0 <= x % i < i,
            x >= 0,
    ;
    assert(i * (k + 1) == i * k + i) by (nonlinear_arith);
}

proof fn lemma_mul_le(i: int, a: int, b: int)
    requires
        i > 0,
        a <= b,
    ensures
        i * a <= i * b,
{
    assert(i * a <= i * b) by (nonlinear_arith)
        requires
            i > 0,
            a <= b,
    ;
}

proof fn lemma_mul_lt_cancel(i: int, a: int, b: int)
    requires
        i > 0,
        i * a < i * b,
    ensures
        a < b,
{
    assert(a < b) by (nonlinear_arith)
        requires
            i > 0,
            i * a < i * b,
    ;
}

/// For a repeating schedule that is due at `now`: its first due time after
/// `now`, and its missed count with the periods missed since its due time.
fn advance(s: &PremiumSchedule, now: u64) -> (r: (u64, u32))
    requires
        is_due(s@, now),
        repeats(s@),
        run_fits(s@, now),
    ensures
        r.0 == next_due_after(s@, now),
        r.1 == s.missed_count + periods_missed(s@, now),
{
    let ghost k = periods_missed(s@, now);
    let ghost d = s.next_due as int;
    let ghost i = s.interval as int;
    proof {
        lemma_periods(s@, now);
        lemma_mul_le(i, 1, k + 1);
        assert(i * 1 == i);
    }
    let mut missed: u32 = 0;
    let mut next: u64 = s.next_due + s.interval;
    while next <= now
        invariant
            d == s.next_due,
            i == s.interval,
            i > 0,
            k >= 0,
            i * k <= now - d,
            now - d < i * (k + 1),
            d + i * (k + 1) <= u64::MAX,
            s.missed_count + k <= u32::MAX,
            0 <= missed <= k,
            next == d + i * (missed + 1),
        decreases k - missed,
    {
        proof {
            lemma_mul_lt_cancel(i, missed + 1, k + 1);
            lemma_mul_le(i, missed + 2, k + 1);
            assert(i * (missed + 2) == i * (missed + 1) + i) by (nonlinear_arith);
        }
        missed = missed + 1;
        next = next + s.interval;
    }
    proof {
        lemma_mul_lt_cancel(i, k, missed + 1);
    }
    (next, s.missed_count + missed)
}

/// Whether some schedule among the first `j + 1` that runs at `now` is for
/// policy `pid`: one among the first `j`, or schedule `j`.
proof fn lemma_pays_step(s: Seq<ScheduleModel>, j: int, now: u64, pid: u32)
    requires
        0 <= j < s.len(),
    ensures
        pays_policy(s.take(j + 1), now, pid) <==> (pays_policy(s.take(j), now, pid) || (is_due(s[j], now)
            && s[j].policy_id == pid)),
{
    if pays_policy(s.take(j), now, pid) {
        let w = choose|w: int|
            0 <= w < s.take(j).len() && is_due(#[trigger] s.take(j)[w], now) && s.take(j)[w].policy_id == pid;
        assert(s.take(j + 1)[w] == s[w]);
    }
    if is_due(s[j], now) && s[j].policy_id == pid {
        assert(s.take(j + 1)[j] == s[j]);
    }
    if pays_policy(s.take(j + 1), now, pid) {
        let w = choose|w: int|
            0 <= w < s.take(j + 1).len() && is_due(#[trigger] s.take(j + 1)[w], now) && s.take(j + 1)[w].policy_id
                == pid;
        if w < j {
            assert(s.take(j)[w] == s[w]);
        }
    }
}

/// A sequence with `x` pushed holds `y` exactly when `y` is `x` or was there.
pub proof fn lemma_contains_push<T>(s: Seq<T>, x: T, y: T)
    ensures
        s.push(x).contains(y) <==> (s.contains(y) || x == y),
{
    if s.contains(y) {
        let w = choose|w: int| 0 <= w < s.len() && s[w] == y;
        assert(s.push(x)[w] == y);
    }
    if x == y {
        assert(s.push(x)[s.len() as int] == y);
    }
    if s.push(x).contains(y) {
        let w = choose|w: int| 0 <= w < s.push(x).len() && s.push(x)[w] == y;
        if w < s.len() {
            assert(s[w] == y);
        }
    }
}

/// When a prefix of a batch is refused, the whole batch is refused for the
/// same reason.
proof fn lemma_batch_error_prefix(m: InsuranceModel, caller: Seq<char>, ids: Seq<u32>, j: int)
    requires
        0 <= j <= ids.len(),
        m.batch_error(caller, ids.take(j)) is Some,
    ensures
        m.batch_error(caller, ids) == m.batch_error(caller, ids.take(j)),
    decreases ids.len(),
{
    if j == ids.len() {
        assert(ids.take(j) =~= ids);
    } else {
        assert(ids.drop_last().take(j) =~= ids.take(j));
        lemma_batch_error_prefix(m, caller, ids.drop_last(), j);
    }
}

impl Insurance {
    /// The state is one that the operations can reach.
    pub open spec fn wf(&self) -> bool {
        self@.wf()
    }

    proof fn lemma_lengths(&self)
        ensures
            self@.policies.len() == self.policies@.len(),
            self@.schedules.len() == self.schedules@.len(),
            forall|i: int| 0 <= i < self.policies@.len() ==> #[trigger] self@.policies[i] == self.policies@[i]@,
            forall|i: int| 0 <= i < self.schedules@.len() ==> #[trigger] self@.schedules[i] == self.schedules@[i]@,
    {
    }

    /// An empty register: no policies, no schedules, no administrator,
    /// nothing paused.
    pub fn new() -> (r: Self)
        ensures
            r@ == InsuranceModel::empty(),
            r.wf(),
    {
        let r = Insurance {
            pause_admin: None,
            paused: false,
            paused_functions: Vec::new(),
            policies: Vec::new(),
            schedules: Vec::new(),
        };
        assert(r@.policies =~= Seq::<PolicyModel>::empty());
        assert(r@.schedules =~= Seq::<ScheduleModel>::empty());
        r
    }

    /// The page size that a request for `limit` policies is served with: the
    /// default for 0, at most `MAX_PAGE_LIMIT`.
    pub fn clamp_limit(limit: u32) -> (r: u32)
        ensures
            r == spec_clamp_limit(limit),
            1 <= r <= MAX_PAGE_LIMIT,
    {
        if limit == 0 {
            DEFAULT_PAGE_LIMIT
        } else if limit > MAX_PAGE_LIMIT {
            MAX_PAGE_LIMIT
        } else {
            limit
        }
    }

    /// Whether operation `f` is paused on its own.
    fn is_function_paused(&self, f: PausableFunction) -> (r: bool)
        ensures
            r == self@.paused_functions.contains(f),
    {
        let n = self.paused_functions.len();
        for i in 0..n
            invariant
                n == self.paused_functions.len(),
                forall|j: int| 0 <= j < i ==> self.paused_functions@[j] != f,
        {
            if self.paused_functions[i] == f {
                assert(self@.paused_functions[i as int] == f);
                return true;
            }
        }
        false
    }

    /// Refuses operation `f` while the register or `f` is paused.
    fn require_not_paused(&self, f: PausableFunction) -> (r: Result<(), InsuranceError>)
        ensures
            match r {
                Ok(()) => self@.pause_error(f) is None,
                Err(e) => self@.pause_error(f) == Some(e),
            },
    {
        if self.paused {
            return Err(InsuranceError::ContractPaused);
        }
        if self.is_function_paused(f) {
            return Err(InsuranceError::FunctionPaused);
        }
        Ok(())
    }

    /// The position of policy `id` when `caller` owns it, else why not.
    fn owned_policy(&self, caller: &String, id: u32) -> (r: Result<usize, InsuranceError>)
        requires
            self.wf(),
        ensures
            match r {
                Ok(i) => self@.owner_error(caller@, id) is None && i == id - 1,
                Err(e) => self@.owner_error(caller@, id) == Some(e),
            },
    {
        proof {
            self.lemma_lengths();
        }
        if id == 0 || id as usize > self.policies.len() {
            return Err(InsuranceError::PolicyNotFound);
        }
        let i = (id - 1) as usize;
        if !(self.policies[i].owner == *caller) {
            return Err(InsuranceError::Unauthorized);
        }
        Ok(i)
    }

    /// The position of policy `id` when `caller` may pay its premium, else
    /// why not.
    fn payable_policy(&self, caller: &String, id: u32) -> (r: Result<usize, InsuranceError>)
        requires
            self.wf(),
        ensures
            match r {
                Ok(i) => self@.payment_error(caller@, id) is None && i == id - 1,
                Err(e) => self@.payment_error(caller@, id) == Some(e),
            },
    {
        proof {
            self.lemma_lengths();
        }
        let i = self.owned_policy(caller, id)?;
        if !self.policies[i].active {
            return Err(InsuranceError::PolicyInactive);
        }
        Ok(i)
    }

    /// The position of schedule `id` when `caller` owns it, else why not.
    fn owned_schedule(&self, caller: &String, id: u32) -> (r: Result<usize, InsuranceError>)
        requires
            self.wf(),
        ensures
            match r {
                Ok(i) => self@.schedule_owner_error(caller@, id) is None && i == id - 1,
                Err(e) => self@.schedule_owner_error(caller@, id) == Some(e),
            },
    {
        proof {
            self.lemma_lengths();
        }
        if id == 0 || id as usize > self.schedules.len() {
            return Err(InsuranceError::ScheduleNotFound);
        }
        let i = (id - 1) as usize;
        if !(self.schedules[i].owner == *caller) {
            return Err(InsuranceError::Unauthorized);
        }
        Ok(i)
    }

    /// Why a policy with these amounts may not be created now, if it may not:
    /// a pause, or an amount that is not positive.
    pub fn create_policy_refusal(&self, monthly_premium: i128, coverage_amount: i128) -> (r: Option<InsuranceError>)
        ensures
            r == self@.create_policy_error(monthly_premium, coverage_amount),
    {
        if let Err(e) = self.require_not_paused(PausableFunction::CreatePolicy) {
            return Some(e);
        }
        if monthly_premium <= 0 || coverage_amount <= 0 {
            return Some(InsuranceError::InvalidAmount);
        }
        None
    }

    /// Why `caller` may not pay the premium of policy `policy_id` now, if it
    /// may not: a pause, a missing policy, another owner, or an inactive
    /// policy, checked in that order.
    pub fn pay_premium_refusal(&self, caller: &String, policy_id: u32) -> (r: Option<InsuranceError>)
        requires
            self.wf(),
        ensures
            r == self@.pay_premium_error(caller@, policy_id),
    {
        if let Err(e) = self.require_not_paused(PausableFunction::PayPremium) {
            return Some(e);
        }
        match self.payable_policy(caller, policy_id) {
            Ok(_) => None,
            Err(e) => Some(e),
        }
    }

    /// Why `caller` may not pay the premiums of policies `policy_ids` in one
    /// batch, if it may not: a pause, too many ids, or the first id, in the
    /// order given, whose premium may not be paid.
    pub fn batch_pay_refusal(&self, caller: &String, policy_ids: &Vec<u32>) -> (r: Option<InsuranceError>)
        requires
            self.wf(),
        ensures
            r == self@.batch_pay_error(caller@, policy_ids@),
    {
        if let Err(e) = self.require_not_paused(PausableFunction::PayPremium) {
            return Some(e);
        }
        if policy_ids.len() > MAX_BATCH_SIZE as usize {
            return Some(InsuranceError::BatchTooLarge);
        }
        let n = policy_ids.len();
        let ghost ids = policy_ids@;
        let ghost m0 = self@;
        for k in 0..n
            invariant
                n == policy_ids.len(),
                ids == policy_ids@,
                self@ == m0,
                self.wf(),
                m0.pause_error(PausableFunction::PayPremium) is None,
                ids.len() <= MAX_BATCH_SIZE,
                m0.batch_error(caller@, ids.take(k as int)) is None,
        {
            proof {
                assert(ids.take(k + 1).drop_last() =~= ids.take(k as int));
            }
            match self.payable_policy(caller, policy_ids[k]) {
                Ok(_) => {},
                Err(e) => {
                    proof {
                        assert(ids.take(k + 1).last() == ids[k as int]);
                        lemma_batch_error_prefix(m0, caller@, ids, k + 1);
                    }
                    return Some(e);
                },
            }
        }
        proof {
            assert(ids.take(n as int) =~= ids);
        }
        None
    }

    /// Why `owner` may not plan premium payments for policy `policy_id`
    /// starting at `next_due`, if it may not: a pause, a missing policy,
    /// another owner, or a start that is not after `now`.
    pub fn create_schedule_refusal(&self, owner: &String, policy_id: u32, next_due: u64, now: u64) -> (r: Option<
        InsuranceError,
    >)
        requires
            self.wf(),
        ensures
            r == self@.create_schedule_error(owner@, policy_id, next_due, now),
    {
        if let Err(e) = self.require_not_paused(PausableFunction::CreateSchedule) {
            return Some(e);
        }
        if let Err(e) = self.owned_policy(owner, policy_id) {
            return Some(e);
        }
        if next_due <= now {
            return Some(InsuranceError::InvalidTimestamp);
        }
        None
    }

    /// Creates a policy for `owner`, active, with its first premium due
    /// `PREMIUM_PERIOD` after `now`, and answers its id, the next free one.
    /// Refused while creation is paused, and with `InvalidAmount` unless both
    /// amounts are positive.
    pub fn create_policy(
        &mut self,
        owner: String,
        name: Vec<u8>,
        coverage_type: Vec<u8>,
        monthly_premium: i128,
        coverage_amount: i128,
        now: u64,
    ) -> (r: Result<u32, InsuranceError>)
        requires
            old(self).wf(),
            old(self)@.create_policy_error(monthly_premium, coverage_amount) is None ==> {
                &&& now + PREMIUM_PERIOD <= u64::MAX
                &&& old(self)@.policies.len() < u32::MAX
            },
        ensures
            final(self).wf(),
            match r {
                Ok(id) => {
                    &&& old(self)@.create_policy_error(monthly_premium, coverage_amount) is None
                    &&& id == old(self)@.policies.len() + 1
                    &&& final(self)@ == old(self)@.after_create_policy(
                        owner@,
                        name@,
                        coverage_type@,
                        monthly_premium,
                        coverage_amount,
                        now,
                    )
                },
                Err(e) => {
                    &&& old(self)@.create_policy_error(monthly_premium, coverage_amount) == Some(e)
                    &&& final(self)@ == old(self)@
                },
            },
    {
        proof {
            self.lemma_lengths();
        }
        if let Some(e) = self.create_policy_refusal(monthly_premium, coverage_amount) {
            return Err(e);
        }
        let next_id = self.policies.len() as u32 + 1;
        let policy = InsurancePolicy {
            id: next_id,
            owner,
            name,
            external_ref: None,
            coverage_type,
            monthly_premium,
            coverage_amount,
            active: true,
            next_payment_date: now + PREMIUM_PERIOD,
            schedule_id: None,
            tags: Vec::new(),
        };
        let ghost before = self.policies@;
        assert(policy@.tags =~= Seq::<Seq<u8>>::empty());
        self.policies.push(policy);
        assert(policy_models(self.policies@) =~= policy_models(before).push(policy@));
        Ok(next_id)
    }

    /// Pays the premium of policy `policy_id`: its next payment falls due
    /// `PREMIUM_PERIOD` after `now`. Refused while payments are paused, and
    /// unless `caller` owns the policy and it is active.
    pub fn pay_premium(&mut self, caller: &String, policy_id: u32, now: u64) -> (r: Result<bool, InsuranceError>)
        requires
            old(self).wf(),
            old(self)@.pay_premium_error(caller@, policy_id) is None ==> now + PREMIUM_PERIOD <= u64::MAX,
        ensures
            final(self).wf(),
            match r {
                Ok(b) => {
                    &&& b
                    &&& old(self)@.pay_premium_error(caller@, policy_id) is None
                    &&& final(self)@ == old(self)@.after_pay_premium(policy_id, now)
                },
                Err(e) => {
                    &&& old(self)@.pay_premium_error(caller@, policy_id) == Some(e)
                    &&& final(self)@ == old(self)@
                },
            },
    {
        proof {
            self.lemma_lengths();
        }
        if let Some(e) = self.pay_premium_refusal(caller, policy_id) {
            return Err(e);
        }
        self.mark_paid((policy_id - 1) as usize, now + PREMIUM_PERIOD);
        Ok(true)
    }

    /// Replaces the policy at position `i` by `p`, a policy with the same id
    /// and positive amounts.
    fn replace_policy(&mut self, i: usize, p: InsurancePolicy)
        requires
            old(self).wf(),
            i < old(self)@.policies.len(),
            p@.id == i + 1,
            p@.monthly_premium > 0,
            p@.coverage_amount > 0,
            p@.owner == old(self)@.policies[i as int].owner,
        ensures
            final(self).wf(),
            final(self)@ == old(self)@.with_policy((i + 1) as u32, p@),
    {
        proof {
            self.lemma_lengths();
        }
        let ghost m0 = self@;
        let ghost before = self.policies@;
        self.policies.set(i, p);
        assert(policy_models(self.policies@) =~= policy_models(before).update(i as int, p@));
        assert forall|j: int| 0 <= j < self@.schedules.len() implies self@.schedule_wf(
            #[trigger] self@.schedules[j],
            j,
        ) by {
            assert(m0.schedule_wf(m0.schedules[j], j));
        }
    }

    /// Sets the next payment date of the policy at position `i`.
    fn mark_paid(&mut self, i: usize, next_payment_date: u64)
        requires
            old(self).wf(),
            i < old(self)@.policies.len(),
        ensures
            final(self).wf(),
            final(self)@ == old(self)@.with_policy(
                (i + 1) as u32,
                PolicyModel { next_payment_date, ..old(self)@.policies[i as int] },
            ),
    {
        proof {
            self.lemma_lengths();
        }
        let mut p = self.policies[i].clone();
        p.next_payment_date = next_payment_date;
        self.replace_policy(i, p);
    }

    /// Pays the premiums of all policies in `policy_ids` at once, and answers
    /// how many ids were given. Refused while payments are paused, with
    /// `BatchTooLarge` for more than `MAX_BATCH_SIZE` ids, and otherwise with
    /// the first reason, in the order of the ids, why one of them may not be
    /// paid; a refused batch changes nothing.
    pub fn batch_pay_premiums(&mut self, caller: &String, policy_ids: &Vec<u32>, now: u64) -> (r: Result<
        u32,
        InsuranceError,
    >)
        requires
            old(self).wf(),
            old(self)@.batch_pay_error(caller@, policy_ids@) is None ==> now + PREMIUM_PERIOD <= u64::MAX,
        ensures
            final(self).wf(),
            match r {
                Ok(count) => {
                    &&& old(self)@.batch_pay_error(caller@, policy_ids@) is None
                    &&& count == policy_ids.len()
                    &&& final(self)@ == old(self)@.after_batch_pay(policy_ids@, now)
                },
                Err(e) => {
                    &&& old(self)@.batch_pay_error(caller@, policy_ids@) == Some(e)
                    &&& final(self)@ == old(self)@
                },
            },
    {
        proof {
            self.lemma_lengths();
        }
        if let Some(e) = self.batch_pay_refusal(caller, policy_ids) {
            return Err(e);
        }
        let n = policy_ids.len();
        let ghost ids = policy_ids@;
        let ghost m0 = self@;
        let next_due = now + PREMIUM_PERIOD;
        let mut count: u32 = 0;
        assert(paid_all(m0.policies, ids.take(0), now) =~= m0.policies);
        for k in 0..n
            invariant
                n == policy_ids.len(),
                n <= MAX_BATCH_SIZE,
                ids == policy_ids@,
                count == k,
                next_due == now + PREMIUM_PERIOD,
                m0.wf(),
                m0.batch_error(caller@, ids) is None,
                self.wf(),
                self@ == (InsuranceModel { policies: paid_all(m0.policies, ids.take(k as int), now), ..m0 }),
        {
            let id = policy_ids[k];
            proof {
                self.lemma_batch_member(m0, caller@, ids, k as int);
                assert(ids.take(k + 1) =~= ids.take(k as int).push(id));
            }
            let i = (id - 1) as usize;
            self.mark_paid(i, next_due);
            count = count + 1;
            proof {
                let after = paid_all(m0.policies, ids.take(k + 1), now);
                assert forall|j: int| 0 <= j < after.len() implies self@.policies[j] == after[j] by {
                    lemma_contains_push(ids.take(k as int), id, (j + 1) as u32);
                }
                assert(self@.policies =~= after);
            }
        }
        proof {
            assert(ids.take(n as int) =~= ids);
        }
        Ok(count)
    }

    /// Every id of an acceptable batch names a policy that exists.
    proof fn lemma_batch_member(&self, m0: InsuranceModel, caller: Seq<char>, ids: Seq<u32>, k: int)
        requires
            m0.wf(),
            m0.batch_error(caller, ids) is None,
            0 <= k < ids.len(),
            self@.policies.len() == m0.policies.len(),
        ensures
            1 <= ids[k] <= m0.policies.len(),
        decreases ids.len(),
    {
        if k < ids.len() - 1 {
            assert(ids.drop_last()[k] == ids[k]);
            self.lemma_batch_member(m0, caller, ids.drop_last(), k);
        }
    }

    /// Deactivates policy `policy_id`; its premiums can no longer be paid.
    /// Refused while deactivation is paused, and unless `caller` owns it.
    pub fn deactivate_policy(&mut self, caller: &String, policy_id: u32) -> (r: Result<bool, InsuranceError>)
        requires
            old(self).wf(),
        ensures
            final(self).wf(),
            match r {
                Ok(b) => {
                    &&& b
                    &&& old(self)@.deactivate_error(caller@, policy_id) is None
                    &&& final(self)@ == old(self)@.after_deactivate(policy_id)
                },
                Err(e) => {
                    &&& old(self)@.deactivate_error(caller@, policy_id) == Some(e)
                    &&& final(self)@ == old(self)@
                },
            },
    {
        proof {
            self.lemma_lengths();
        }
        self.require_not_paused(PausableFunction::Deactivate)?;
        let i = self.owned_policy(caller, policy_id)?;
        let mut p = self.policies[i].clone();
        p.active = false;
        self.replace_policy(i, p);
        Ok(true)
    }

    /// Sets or clears the external reference of policy `policy_id`. Refused
    /// unless `caller` owns it; not subject to pausing.
    pub fn set_external_ref(&mut self, caller: &String, policy_id: u32, external_ref: Option<Vec<u8>>) -> (r: Result<
        bool,
        InsuranceError,
    >)
        requires
            old(self).wf(),
        ensures
            final(self).wf(),
            match r {
                Ok(b) => {
                    &&& b
                    &&& old(self)@.owner_error(caller@, policy_id) is None
                    &&& final(self)@ == old(self)@.after_set_external_ref(policy_id, opt_bytes(external_ref))
                },
                Err(e) => {
                    &&& old(self)@.owner_error(caller@, policy_id) == Some(e)
                    &&& final(self)@ == old(self)@
                },
            },
    {
        proof {
            self.lemma_lengths();
        }
        let i = self.owned_policy(caller, policy_id)?;
        let mut p = self.policies[i].clone();
        p.external_ref = external_ref;
        self.replace_policy(i, p);
        Ok(true)
    }

    /// The policy with id `policy_id`, if there is one.
    pub fn get_policy(&self, policy_id: u32) -> (r: Option<InsurancePolicy>)
        requires
            self.wf(),
        ensures
            opt_policy(r) == self@.policy(policy_id),
    {
        proof {
            self.lemma_lengths();
        }
        if policy_id == 0 || policy_id as usize > self.policies.len() {
            return None;
        }
        Some(self.policies[(policy_id - 1) as usize].clone())
    }

    /// One page of the active policies of `owner` with ids after `cursor`.
    pub fn get_active_policies(&self, owner: &String, cursor: u32, limit: u32) -> (page: PolicyPage)
        ensures
            policy_models(page.items@) == page_items(self@.policies, owner@, cursor, limit, true),
            page.next_cursor == page_next_cursor(self@.policies, owner@, cursor, limit, true),
            page.count == page.items.len(),
    {
        collect_page(&self.policies, owner, cursor, limit, true)
    }

    /// One page of all policies of `owner`, active or not, with ids after
    /// `cursor`.
    pub fn get_all_policies_for_owner(&self, owner: &String, cursor: u32, limit: u32) -> (page: PolicyPage)
        ensures
            policy_models(page.items@) == page_items(self@.policies, owner@, cursor, limit, false),
            page.next_cursor == page_next_cursor(self@.policies, owner@, cursor, limit, false),
            page.count == page.items.len(),
    {
        collect_page(&self.policies, owner, cursor, limit, false)
    }

    /// The sum of the monthly premiums of the active policies of `owner`.
    pub fn get_total_monthly_premium(&self, owner: &String) -> (total: i128)
        requires
            self.wf(),
            premium_total(self@.policies, owner@) <= i128::MAX,
        ensures
            total == premium_total(self@.policies, owner@),
    {
        proof {
            lemma_total_nonneg(self@.policies, owner@);
        }
        match self.total_monthly_premium_checked(owner) {
            Some(t) => t,
            None => 0,
        }
    }

    /// The sum of the monthly premiums of the active policies of `owner`, or
    /// `None` when it exceeds `i128::MAX`.
    pub fn total_monthly_premium_checked(&self, owner: &String) -> (total: Option<i128>)
        requires
            self.wf(),
        ensures
            premium_total(self@.policies, owner@) <= i128::MAX ==> total == Some(
                premium_total(self@.policies, owner@) as i128,
            ),
            premium_total(self@.policies, owner@) > i128::MAX ==> total is None,
    {
        proof {
            self.lemma_lengths();
        }
        let ghost all = self@.policies;
        let n = self.policies.len();
        let mut total: i128 = 0;
        assert(all.take(0) =~= Seq::<PolicyModel>::empty());
        for i in 0..n
            invariant
                n == self.policies.len(),
                all == self@.policies,
                self.wf(),
                total == premium_total(all.take(i as int), owner@),
        {
            proof {
                self.lemma_lengths();
                assert(all.take(i + 1).drop_last() =~= all.take(i as int));
            }
            let p = &self.policies[i];
            if p.owner == *owner && p.active {
                match total.checked_add(p.monthly_premium) {
                    Some(t) => {
                        total = t;
                    },
                    None => {
                        proof {
                            lemma_total_prefix(all, owner@, i + 1);
                        }
                        return None;
                    },
                }
            }
        }
        proof {
            assert(all.take(n as int) =~= all);
        }
        Some(total)
    }

    /// Replaces the schedule at position `j` by `s`, a schedule with the same
    /// id.
    fn replace_schedule(&mut self, j: usize, s: PremiumSchedule)
        requires
            old(self).wf(),
            j < old(self)@.schedules.len(),
            s@.id == j + 1,
            s@.recurring == (s@.interval > 0),
            s@.policy_id == old(self)@.schedules[j as int].policy_id,
            s@.owner == old(self)@.schedules[j as int].owner,
        ensures
            final(self).wf(),
            final(self)@ == old(self)@.with_schedule((j + 1) as u32, s@),
    {
        proof {
            self.lemma_lengths();
        }
        let ghost m0 = self@;
        let ghost before = self.schedules@;
        self.schedules.set(j, s);
        assert(schedule_models(self.schedules@) =~= schedule_models(before).update(j as int, s@));
        assert forall|k: int| 0 <= k < self@.schedules.len() implies self@.schedule_wf(
            #[trigger] self@.schedules[k],
            k,
        ) by {
            assert(m0.schedule_wf(m0.schedules[k], k));
        }
    }

    /// Plans the payment of the premiums of policy `policy_id`, first at
    /// `next_due` and then every `interval` seconds (only once when
    /// `interval` is 0), links the policy to the plan and answers its id, the
    /// next free one. Refused while creating schedules is paused, unless
    /// `owner` owns the policy, and with `InvalidTimestamp` unless `next_due`
    /// is after `now`.
    pub fn create_premium_schedule(&mut self, owner: String, policy_id: u32, next_due: u64, interval: u64, now: u64) -> (r:
        Result<u32, InsuranceError>)
        requires
            old(self).wf(),
            old(self)@.create_schedule_error(owner@, policy_id, next_due, now) is None ==> old(self)@.schedules.len()
                < u32::MAX,
        ensures
            final(self).wf(),
            match r {
                Ok(sid) => {
                    &&& old(self)@.create_schedule_error(owner@, policy_id, next_due, now) is None
                    &&& sid == old(self)@.schedules.len() + 1
                    &&& final(self)@ == old(self)@.after_create_schedule(owner@, policy_id, next_due, interval, now)
                },
                Err(e) => {
                    &&& old(self)@.create_schedule_error(owner@, policy_id, next_due, now) == Some(e)
                    &&& final(self)@ == old(self)@
                },
            },
    {
        proof {
            self.lemma_lengths();
        }
        if let Some(e) = self.create_schedule_refusal(&owner, policy_id, next_due, now) {
            return Err(e);
        }
        let i = (policy_id - 1) as usize;
        let schedule_id = self.schedules.len() as u32 + 1;
        let schedule = PremiumSchedule {
            id: schedule_id,
            owner,
            policy_id,
            next_due,
            interval,
            recurring: interval > 0,
            active: true,
            created_at: now,
            last_executed: None,
            missed_count: 0,
        };
        let ghost before = self.schedules@;
        self.schedules.push(schedule);
        assert(schedule_models(self.schedules@) =~= schedule_models(before).push(schedule@));
        proof {
            self.lemma_lengths();
        }
        let mut p = self.policies[i].clone();
        p.schedule_id = Some(schedule_id);
        self.replace_policy(i, p);
        Ok(schedule_id)
    }

    /// Moves schedule `schedule_id` to `next_due` and sets its interval.
    /// Refused while modifying schedules is paused, with `InvalidTimestamp`
    /// unless `next_due` is after `now`, and unless `caller` owns it.
    pub fn modify_premium_schedule(&mut self, caller: &String, schedule_id: u32, next_due: u64, interval: u64, now: u64) -> (r:
        Result<bool, InsuranceError>)
        requires
            old(self).wf(),
        ensures
            final(self).wf(),
            match r {
                Ok(b) => {
                    &&& b
                    &&& old(self)@.modify_schedule_error(caller@, schedule_id, next_due, now) is None
                    &&& final(self)@ == old(self)@.after_modify_schedule(schedule_id, next_due, interval)
                },
                Err(e) => {
                    &&& old(self)@.modify_schedule_error(caller@, schedule_id, next_due, now) == Some(e)
                    &&& final(self)@ == old(self)@
                },
            },
    {
        proof {
            self.lemma_lengths();
        }
        self.require_not_paused(PausableFunction::ModifySchedule)?;
        if next_due <= now {
            return Err(InsuranceError::InvalidTimestamp);
        }
        let j = self.owned_schedule(caller, schedule_id)?;
        let mut s = self.schedules[j].clone();
        s.next_due = next_due;
        s.interval = interval;
        s.recurring = interval > 0;
        self.replace_schedule(j, s);
        Ok(true)
    }

    /// Cancels schedule `schedule_id`: it no longer runs. Refused while
    /// cancelling is paused, and unless `caller` owns it.
    pub fn cancel_premium_schedule(&mut self, caller: &String, schedule_id: u32) -> (r: Result<bool, InsuranceError>)
        requires
            old(self).wf(),
        ensures
            final(self).wf(),
            match r {
                Ok(b) => {
                    &&& b
                    &&& old(self)@.cancel_schedule_error(caller@, schedule_id) is None
                    &&& final(self)@ == old(self)@.after_cancel_schedule(schedule_id)
                },
                Err(e) => {
                    &&& old(self)@.cancel_schedule_error(caller@, schedule_id) == Some(e)
                    &&& final(self)@ == old(self)@
                },
            },
    {
        proof {
            self.lemma_lengths();
        }
        self.require_not_paused(PausableFunction::CancelSchedule)?;
        let j = self.owned_schedule(caller, schedule_id)?;
        let mut s = self.schedules[j].clone();
        s.active = false;
        self.replace_schedule(j, s);
        Ok(true)
    }

    /// The schedule with id `schedule_id`, if there is one.
    pub fn get_premium_schedule(&self, schedule_id: u32) -> (r: Option<PremiumSchedule>)
        requires
            self.wf(),
        ensures
            opt_schedule(r) == self@.schedule(schedule_id),
    {
        proof {
            self.lemma_lengths();
        }
        if schedule_id == 0 || schedule_id as usize > self.schedules.len() {
            return None;
        }
        Some(self.schedules[(schedule_id - 1) as usize].clone())
    }

    /// The schedules of `owner`, in the order of their ids.
    pub fn get_premium_schedules(&self, owner: &String) -> (r: Vec<PremiumSchedule>)
        ensures
            schedule_models(r@) == schedules_of(self@.schedules, owner@),
    {
        proof {
            self.lemma_lengths();
        }
        let ghost all = self@.schedules;
        let mut result: Vec<PremiumSchedule> = Vec::new();
        let n = self.schedules.len();
        assert(schedule_models(result@) =~= schedules_of(all.take(0), owner@));
        for j in 0..n
            invariant
                n == self.schedules.len(),
                all == self@.schedules,
                schedule_models(result@) == schedules_of(all.take(j as int), owner@),
        {
            proof {
                self.lemma_lengths();
                assert(all.take(j + 1).drop_last() =~= all.take(j as int));
            }
            if self.schedules[j].owner == *owner {
                let ghost before = result@;
                result.push(self.schedules[j].clone());
                assert(schedule_models(result@) =~= schedule_models(before).push(all[j as int]));
            }
        }
        assert(all.take(n as int) =~= all);
        result
    }

    /// Runs every active schedule that is due at `now`, in the order of their
    /// ids, and answers their ids. Each pays the premium of its policy when
    /// that policy exists and is active; a repeating schedule then moves to
    /// its first due time after `now` and counts the periods it missed, any
    /// other schedule ends. No caller check and no pause applies.
    pub fn execute_due_premium_schedules(&mut self, now: u64) -> (executed: Vec<u32>)
        requires
            old(self).wf(),
            old(self)@.execution_fits(now),
        ensures
            final(self).wf(),
            final(self)@ == old(self)@.after_execution(now),
            executed@ == due_ids(old(self)@.schedules, now),
    {
        let ghost m0 = self@;
        proof {
            self.lemma_lengths();
        }
        let mut executed: Vec<u32> = Vec::new();
        let n = self.schedules.len();
        assert(due_ids(m0.schedules.take(0), now) =~= Seq::<u32>::empty());
        for j in 0..n
            invariant
                n == m0.schedules.len(),
                m0 == old(self)@,
                m0.wf(),
                m0.execution_fits(now),
                self.wf(),
                self@.pause_admin == m0.pause_admin,
                self@.paused == m0.paused,
                self@.paused_functions == m0.paused_functions,
                self@.schedules.len() == n,
                self@.policies.len() == m0.policies.len(),
                forall|k: int|
                    0 <= k < n ==> #[trigger] self@.schedules[k] == if k < j && is_due(m0.schedules[k], now) {
                        run_schedule(m0.schedules[k], now)
                    } else {
                        m0.schedules[k]
                    },
                forall|i: int|
                    0 <= i < m0.policies.len() ==> #[trigger] self@.policies[i] == if m0.policies[i].active
                        && pays_policy(m0.schedules.take(j as int), now, (i + 1) as u32) {
                        paid(m0.policies[i], now)
                    } else {
                        m0.policies[i]
                    },
                executed@ == due_ids(m0.schedules.take(j as int), now),
        {
            proof {
                self.lemma_lengths();
                assert(m0.schedules.take(j + 1).drop_last() =~= m0.schedules.take(j as int));
                assert forall|i: int| 0 <= i < m0.policies.len() implies #[trigger] pays_policy(
                    m0.schedules.take(j + 1),
                    now,
                    (i + 1) as u32,
                ) == (pays_policy(m0.schedules.take(j as int), now, (i + 1) as u32) || (is_due(
                    m0.schedules[j as int],
                    now,
                ) && m0.schedules[j as int].policy_id == (i + 1) as u32)) by {
                    lemma_pays_step(m0.schedules, j as int, now, (i + 1) as u32);
                }
            }
            let ghost sj = m0.schedules[j as int];
            assert(self@.schedules[j as int] == sj);
            let due = self.schedules[j].active && self.schedules[j].next_due <= now;
            if due {
                assert(is_due(m0.schedules[j as int], now));
                let pid = self.schedules[j].policy_id;
                if pid >= 1 && (pid as usize) <= self.policies.len() {
                    let i = (pid - 1) as usize;
                    if self.policies[i].active {
                        assert(self@.policies[i as int] == self.policies@[i as int]@);
                        assert(m0.policy(pid) == Some(m0.policies[i as int]));
                        assert(m0.policies[i as int].active);
                        self.mark_paid(i, now + PREMIUM_PERIOD);
                    }
                }
                let mut s = self.schedules[j].clone();
                s.last_executed = Some(now);
                if s.recurring && s.interval > 0 {
                    let (next, missed) = advance(&s, now);
                    s.next_due = next;
                    s.missed_count = missed;
                } else {
                    s.active = false;
                }
                let id = s.id;
                assert(s@ == run_schedule(sj, now));
                self.replace_schedule(j, s);
                executed.push(id);
            }
            proof {
                self.lemma_lengths();
            }
        }
        proof {
            assert(m0.schedules.take(n as int) =~= m0.schedules);
            assert(self@.policies =~= m0.after_execution(now).policies);
            assert(self@.schedules =~= m0.after_execution(now).schedules);
        }
        executed
    }

    /// Whether executing the due schedules at `now` keeps every number within
    /// its machine type, so that `execute_due_premium_schedules` may run.
    pub fn due_execution_fits(&self, now: u64) -> (r: bool)
        requires
            self.wf(),
        ensures
            r == self@.execution_fits(now),
    {
        proof {
            self.lemma_lengths();
        }
        let ghost m = self@;
        let n = self.schedules.len();
        for j in 0..n
            invariant
                n == self.schedules.len(),
                m == self@,
                self.wf(),
                forall|k: int|
                    0 <= k < j && is_due(#[trigger] m.schedules[k], now) ==> {
                        &&& run_fits(m.schedules[k], now)
                        &&& (match m.policy(m.schedules[k].policy_id) {
                            Some(p) => p.active ==> now + PREMIUM_PERIOD <= u64::MAX,
                            None => true,
                        })
                    },
        {
            proof {
                self.lemma_lengths();
            }
            let s = &self.schedules[j];
            assert(m.schedules[j as int] == s@);
            if s.active && s.next_due <= now {
                assert(is_due(m.schedules[j as int], now));
                if s.recurring && s.interval > 0 {
                    let k = (now - s.next_due) / s.interval;
                    proof {
                        assert(k == periods_missed(s@, now));
                    }
                    if k > (u32::MAX - s.missed_count) as u64 {
                        assert(!run_fits(m.schedules[j as int], now));
                        return false;
                    }
                    match k.checked_add(1) {
                        None => {
                            proof {
                                lemma_periods(s@, now);
                                lemma_mul_le(s.interval as int, 1, k as int + 1);
                            }
                            return false;
                        },
                        Some(k1) => match s.interval.checked_mul(k1) {
                            None => {
                                proof {
                                    assert(s.interval * (k + 1) == s.interval * k1);
                                }
                                assert(!run_fits(m.schedules[j as int], now));
                                return false;
                            },
                            Some(span) => {
                                if span > u64::MAX - s.next_due {
                                    assert(!run_fits(m.schedules[j as int], now));
                                    return false;
                                }
                            },
                        },
                    }
                }
                let pid = s.policy_id;
                if pid >= 1 && (pid as usize) <= self.policies.len() {
                    if self.policies[(pid - 1) as usize].active && now > u64::MAX - PREMIUM_PERIOD {
                        assert(m.policies[pid - 1] == self.policies@[pid - 1]@);
                        assert(m.policy(pid) == Some(m.policies[pid - 1]));
                        return false;
                    }
                }
            }
        }
        true
    }

    /// A register rebuilt from stored parts, when they form a state that the
    /// operations can reach: policy and schedule ids are their positions
    /// plus one, the next ids are the counts, and every policy has positive
    /// amounts. `None` otherwise.
    pub fn from_parts(
        pause_admin: Option<String>,
        paused: bool,
        paused_functions: Vec<PausableFunction>,
        policies: Vec<InsurancePolicy>,
        next_policy_id: u32,
        schedules: Vec<PremiumSchedule>,
        next_schedule_id: u32,
    ) -> (r: Option<Insurance>)
        ensures
            r is Some <==> {
                &&& parts_model(pause_admin, paused, paused_functions@, policies@, schedules@).wf()
                &&& next_policy_id == policies.len()
                &&& next_schedule_id == schedules.len()
            },
            r matches Some(ins) ==> ins.wf() && ins@ == parts_model(
                pause_admin,
                paused,
                paused_functions@,
                policies@,
                schedules@,
            ),
    {
        let ghost m = parts_model(pause_admin, paused, paused_functions@, policies@, schedules@);
        if next_policy_id as usize != policies.len() || next_schedule_id as usize != schedules.len() {
            return None;
        }
        let n = policies.len();
        for i in 0..n
            invariant
                n == policies.len(),
                m == parts_model(pause_admin, paused, paused_functions@, policies@, schedules@),
                forall|k: int|
                    0 <= k < i ==> {
                        &&& (#[trigger] m.policies[k]).id == k + 1
                        &&& m.policies[k].monthly_premium > 0
                        &&& m.policies[k].coverage_amount > 0
                    },
        {
            let p = &policies[i];
            assert(m.policies[i as int] == p@);
            if p.id as usize != i + 1 || p.monthly_premium <= 0 || p.coverage_amount <= 0 {
                return None;
            }
        }
        let n = schedules.len();
        for j in 0..n
            invariant
                n == schedules.len(),
                m == parts_model(pause_admin, paused, paused_functions@, policies@, schedules@),
                forall|k: int| 0 <= k < j ==> m.schedule_wf(#[trigger] m.schedules[k], k),
        {
            let sc = &schedules[j];
            assert(m.schedules[j as int] == sc@);
            if sc.id as usize != j + 1 || sc.recurring != (sc.interval > 0) || sc.policy_id == 0
                || sc.policy_id as usize > policies.len() {
                return None;
            }
            assert(m.policies[sc.policy_id - 1] == policies@[sc.policy_id - 1]@);
            if !(policies[(sc.policy_id - 1) as usize].owner == sc.owner) {
                return None;
            }
        }
        Some(Insurance { pause_admin, paused, paused_functions, policies, schedules })
    }

    /// The pause administrator, if there is one.
    pub fn pause_admin(&self) -> (r: &Option<String>)
        ensures
            opt_text(*r) == self@.pause_admin,
    {
        &self.pause_admin
    }

    /// Whether every pausable operation is paused.
    pub fn is_paused(&self) -> (r: bool)
        ensures
            r == self@.paused,
    {
        self.paused
    }

    /// The operations that are paused one by one.
    pub fn paused_functions(&self) -> (r: &Vec<PausableFunction>)
        ensures
            r@ == self@.paused_functions,
    {
        &self.paused_functions
    }

    /// All policies, in the order of their ids.
    pub fn policies(&self) -> (r: &Vec<InsurancePolicy>)
        ensures
            policy_models(r@) == self@.policies,
    {
        &self.policies
    }

    /// All premium schedules, in the order of their ids.
    pub fn schedules(&self) -> (r: &Vec<PremiumSchedule>)
        ensures
            schedule_models(r@) == self@.schedules,
    {
        &self.schedules
    }

    /// The id of the last policy created, 0 when there is none.
    pub fn last_policy_id(&self) -> (r: u32)
        requires
            self.wf(),
        ensures
            r == self@.policies.len(),
    {
        proof {
            self.lemma_lengths();
        }
        self.policies.len() as u32
    }

    /// The id of the last schedule created, 0 when there is none.
    pub fn last_schedule_id(&self) -> (r: u32)
        requires
            self.wf(),
        ensures
            r == self@.schedules.len(),
    {
        proof {
            self.lemma_lengths();
        }
        self.schedules.len() as u32
    }

    /// Makes `new_admin` the pause administrator. The current administrator
    /// may hand the role on; while there is none, a caller may only name
    /// itself. Anyone else is refused with `Unauthorized`.
    pub fn set_pause_admin(&mut self, caller: &String, new_admin: String) -> (r: Result<(), InsuranceError>)
        requires
            old(self).wf(),
        ensures
            final(self).wf(),
            r is Ok <==> old(self)@.admin_change_allowed(caller@, new_admin@),
            r is Ok ==> final(self)@ == old(self)@.after_set_pause_admin(new_admin@),
            r is Err ==> r == Err::<(), InsuranceError>(InsuranceError::Unauthorized) && final(self)@ == old(self)@,
    {
        match &self.pause_admin {
            None => {
                if !(*caller == new_admin) {
                    return Err(InsuranceError::Unauthorized);
                }
            },
            Some(admin) => {
                if !(*admin == *caller) {
                    return Err(InsuranceError::Unauthorized);
                }
            },
        }
        self.pause_admin = Some(new_admin);
        Ok(())
    }

    /// Pauses every pausable operation; only the pause administrator may.
    pub fn pause(&mut self, caller: &String) -> (r: Result<(), InsuranceError>)
        requires
            old(self).wf(),
        ensures
            final(self).wf(),
            r is Ok <==> old(self)@.is_admin(caller@),
            r is Ok ==> final(self)@ == old(self)@.after_set_paused(true),
            r is Err ==> r == Err::<(), InsuranceError>(InsuranceError::Unauthorized) && final(self)@ == old(self)@,
    {
        self.set_paused(caller, true)
    }

    /// Lifts the pause; only the pause administrator may.
    pub fn unpause(&mut self, caller: &String) -> (r: Result<(), InsuranceError>)
        requires
            old(self).wf(),
        ensures
            final(self).wf(),
            r is Ok <==> old(self)@.is_admin(caller@),
            r is Ok ==> final(self)@ == old(self)@.after_set_paused(false),
            r is Err ==> r == Err::<(), InsuranceError>(InsuranceError::Unauthorized) && final(self)@ == old(self)@,
    {
        self.set_paused(caller, false)
    }

    fn set_paused(&mut self, caller: &String, paused: bool) -> (r: Result<(), InsuranceError>)
        requires
            old(self).wf(),
        ensures
            final(self).wf(),
            r is Ok <==> old(self)@.is_admin(caller@),
            r is Ok ==> final(self)@ == old(self)@.after_set_paused(paused),
            r is Err ==> r == Err::<(), InsuranceError>(InsuranceError::Unauthorized) && final(self)@ == old(self)@,
    {
        match &self.pause_admin {
            None => {
                return Err(InsuranceError::Unauthorized);
            },
            Some(admin) => {
                if !(*admin == *caller) {
                    return Err(InsuranceError::Unauthorized);
                }
            },
        }
        self.paused = paused;
        Ok(())
    }
}

} // verus!
