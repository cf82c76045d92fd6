//! The records the contract keeps: policies, premium schedules, pages of
//! policies, and the errors and event kinds of its operations.
use vstd::prelude::*;

verus! {

/// The errors an operation answers with.
#[derive(Clone, Copy, Debug, PartialEq, Eq, PartialOrd, Ord, Structural)]
pub enum InsuranceError {
    PolicyNotFound,
    Unauthorized,
    InvalidAmount,
    PolicyInactive,
    ContractPaused,
    FunctionPaused,
    InvalidTimestamp,
    BatchTooLarge,
    ScheduleNotFound,
}

/// The numeric code under which each error is reported to callers.
pub open spec fn spec_error_code(e: InsuranceError) -> u32 {
    match e {
        InsuranceError::PolicyNotFound => 1,
        InsuranceError::Unauthorized => 2,
        InsuranceError::InvalidAmount => 3,
        InsuranceError::PolicyInactive => 4,
        InsuranceError::ContractPaused => 5,
        InsuranceError::FunctionPaused => 6,
        InsuranceError::InvalidTimestamp => 7,
        InsuranceError::BatchTooLarge => 8,
        InsuranceError::ScheduleNotFound => 9,
    }
}

impl InsuranceError {
    /// The error's numeric code: the variants are numbered 1 to 9 in the
    /// order in which they are declared.
    pub fn code(&self) -> (c: u32)
        ensures
            c == spec_error_code(*self),
    {
        match self {
            InsuranceError::PolicyNotFound => 1,
            InsuranceError::Unauthorized => 2,
            InsuranceError::InvalidAmount => 3,
            InsuranceError::PolicyInactive => 4,
            InsuranceError::ContractPaused => 5,
            InsuranceError::FunctionPaused => 6,
            InsuranceError::InvalidTimestamp => 7,
            InsuranceError::BatchTooLarge => 8,
            InsuranceError::ScheduleNotFound => 9,
        }
    }
}

/// The kinds of event the contract announces.
#[derive(Clone, Copy, Debug, PartialEq, Eq, Structural)]
pub enum InsuranceEvent {
    PolicyCreated,
    PremiumPaid,
    PolicyDeactivated,
    ExternalRefUpdated,
    ScheduleCreated,
    ScheduleExecuted,
    ScheduleMissed,
    ScheduleModified,
    ScheduleCancelled,
}

/// The operations that can be paused one by one, besides the global pause.
#[derive(Clone, Copy, Debug, PartialEq, Eq, Structural)]
pub enum PausableFunction {
    CreatePolicy,
    PayPremium,
    Deactivate,
    CreateSchedule,
    ModifySchedule,
    CancelSchedule,
}

/// An insurance policy. Accounts are written as their textual address; the
/// name, coverage type, external reference and tags are kept as the bytes
/// they were given as.
pub struct InsurancePolicy {
    pub id: u32,
    pub owner: String,
    pub name: Vec<u8>,
    pub external_ref: Option<Vec<u8>>,
    pub coverage_type: Vec<u8>,
    pub monthly_premium: i128,
    pub coverage_amount: i128,
    pub active: bool,
    pub next_payment_date: u64,
    pub schedule_id: Option<u32>,
    pub tags: Vec<Vec<u8>>,
}

/// What a policy holds, with the owner as a sequence of characters and the
/// other texts as sequences of bytes.
pub struct PolicyModel {
    pub id: u32,
    pub owner: Seq<char>,
    pub name: Seq<u8>,
    pub external_ref: Option<Seq<u8>>,
    pub coverage_type: Seq<u8>,
    pub monthly_premium: i128,
    pub coverage_amount: i128,
    pub active: bool,
    pub next_payment_date: u64,
    pub schedule_id: Option<u32>,
    pub tags: Seq<Seq<u8>>,
}

pub open spec fn opt_text(s: Option<String>) -> Option<Seq<char>> {
    match s {
        Some(t) => Some(t@),
        None => None,
    }
}

pub open spec fn opt_bytes(s: Option<Vec<u8>>) -> Option<Seq<u8>> {
    match s {
        Some(t) => Some(t@),
        None => None,
    }
}

pub open spec fn byte_lists(v: Seq<Vec<u8>>) -> Seq<Seq<u8>> {
    v.map_values(|t: Vec<u8>| t@)
}

impl View for InsurancePolicy {
    type V = PolicyModel;

    open spec fn view(&self) -> PolicyModel {
        PolicyModel {
            id: self.id,
            owner: self.owner@,
            name: self.name@,
            external_ref: opt_bytes(self.external_ref),
            coverage_type: self.coverage_type@,
            monthly_premium: self.monthly_premium,
            coverage_amount: self.coverage_amount,
            active: self.active,
            next_payment_date: self.next_payment_date,
            schedule_id: self.schedule_id,
            tags: byte_lists(self.tags@),
        }
    }
}

/// A copy of a byte sequence.
fn copy_bytes(v: &Vec<u8>) -> (r: Vec<u8>)
    ensures
        r@ == v@,
{
    let mut r: Vec<u8> = Vec::new();
    let n = v.len();
    for i in 0..n
        invariant
            n == v.len(),
            r@ == v@.take(i as int),
    {
        r.push(v[i]);
        assert(r@ =~= v@.take(i + 1));
    }
    assert(v@.take(n as int) =~= v@);
    r
}

/// A copy of an optional byte sequence.
fn copy_opt_bytes(s: &Option<Vec<u8>>) -> (r: Option<Vec<u8>>)
    ensures
        opt_bytes(r) == opt_bytes(*s),
{
    match s {
        Some(t) => Some(copy_bytes(t)),
        None => None,
    }
}

/// A copy of a list of byte sequences.
fn copy_byte_lists(v: &Vec<Vec<u8>>) -> (r: Vec<Vec<u8>>)
    ensures
        byte_lists(r@) == byte_lists(v@),
{
    let mut r: Vec<Vec<u8>> = Vec::new();
    let n = v.len();
    for i in 0..n
        invariant
            n == v.len(),
            r.len() == i,
            forall|j: int| 0 <= j < i ==> #[trigger] r@[j]@ == v@[j]@,
    {
        r.push(copy_bytes(&v[i]));
    }
    assert(byte_lists(r@) =~= byte_lists(v@));
    r
}

impl Clone for InsurancePolicy {
    fn clone(&self) -> (r: Self)
        ensures
            r@ == self@,
    {
        InsurancePolicy {
            id: self.id,
            owner: self.owner.clone(),
            name: copy_bytes(&self.name),
            external_ref: copy_opt_bytes(&self.external_ref),
            coverage_type: copy_bytes(&self.coverage_type),
            monthly_premium: self.monthly_premium,
            coverage_amount: self.coverage_amount,
            active: self.active,
            next_payment_date: self.next_payment_date,
            schedule_id: self.schedule_id,
            tags: copy_byte_lists(&self.tags),
        }
    }
}

/// One page of policies, in increasing order of id. `next_cursor` is the id
/// to pass as the cursor for the following page, or 0 when there is none.
pub struct PolicyPage {
    pub items: Vec<InsurancePolicy>,
    pub next_cursor: u32,
    pub count: u32,
}

/// The models of a list of policies.
pub open spec fn policy_models(v: Seq<InsurancePolicy>) -> Seq<PolicyModel> {
    v.map_values(|p: InsurancePolicy| p@)
}

/// A plan to pay the premium of a policy when it falls due, once or every
/// `interval` seconds.
pub struct PremiumSchedule {
    pub id: u32,
    pub owner: String,
    pub policy_id: u32,
    pub next_due: u64,
    pub interval: u64,
    pub recurring: bool,
    pub active: bool,
    pub created_at: u64,
    pub last_executed: Option<u64>,
    pub missed_count: u32,
}

/// What a premium schedule holds, with the owner as a sequence of characters.
pub struct ScheduleModel {
    pub id: u32,
    pub owner: Seq<char>,
    pub policy_id: u32,
    pub next_due: u64,
    pub interval: u64,
    pub recurring: bool,
    pub active: bool,
    pub created_at: u64,
    pub last_executed: Option<u64>,
    pub missed_count: u32,
}

impl View for PremiumSchedule {
    type V = ScheduleModel;

    open spec fn view(&self) -> ScheduleModel {
        ScheduleModel {
            id: self.id,
            owner: self.owner@,
            policy_id: self.policy_id,
            next_due: self.next_due,
            interval: self.interval,
            recurring: self.recurring,
            active: self.active,
            created_at: self.created_at,
            last_executed: self.last_executed,
            missed_count: self.missed_count,
        }
    }
}

impl Clone for PremiumSchedule {
    fn clone(&self) -> (r: Self)
        ensures
            r@ == self@,
    {
        PremiumSchedule {
            id: self.id,
            owner: self.owner.clone(),
            policy_id: self.policy_id,
            next_due: self.next_due,
            interval: self.interval,
            recurring: self.recurring,
            active: self.active,
            created_at: self.created_at,
            last_executed: self.last_executed,
            missed_count: self.missed_count,
        }
    }
}

/// The models of a list of schedules.
pub open spec fn schedule_models(v: Seq<PremiumSchedule>) -> Seq<ScheduleModel> {
    v.map_values(|s: PremiumSchedule| s@)
}

} // verus!
