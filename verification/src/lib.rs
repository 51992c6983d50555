pub mod accounting;
pub mod common;
pub mod approval;
pub mod budget;
pub mod codes;
pub mod crypto;
pub mod executor_claim;
pub mod executor_contract;
pub mod feedback;
pub mod format;
pub mod history;
pub mod keyed;
pub mod lookup;
pub mod payment_policy;
pub mod policy;
pub mod registration;
pub mod spend;
pub mod spending_target;
pub mod storage;
pub mod telemetry;
pub mod text;
pub mod user;

pub use payment_policy::{BudgetManager, PaymentIntent, PolicyDecision, PolicyEngine, PolicyError};
