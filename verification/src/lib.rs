//! An insurance-policy register: policies with monthly premiums, premium
//! schedules that pay them when due, paging through an owner's policies, and
//! a pause switch held by an administrator.
pub mod insurance;
pub mod laws;
pub mod mocks;
pub mod model;
pub mod paging;
pub mod types;

pub use model::{DEFAULT_PAGE_LIMIT, MAX_BATCH_SIZE, MAX_PAGE_LIMIT, PREMIUM_PERIOD};
pub use insurance::Insurance;
pub use mocks::{BillPaymentsMock, InsuranceMock, RemittanceSplitMock, SavingsGoalsMock};
pub use types::{InsuranceError, InsuranceEvent, InsurancePolicy, PausableFunction, PolicyPage, PremiumSchedule};
