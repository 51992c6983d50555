use vstd::prelude::*;

use crate::budget::model::{availability_name, BudgetAvailability, BudgetError, BudgetHoldError};
use crate::text::{push_str, string_from_chars};
use crate::storage::{storage_error_text, StorageError};

verus! {

#[derive(Debug)]
pub enum BudgetManagerError {
    Storage(StorageError),
    InvalidBudget(BudgetError),
    UnknownBudget,
    UnknownBudgetHold,
    MissingBudgetBalance,
    BudgetUnavailable(BudgetAvailability),
    CurrencyMismatch,
    AmountMustBePositive,
    InsufficientRemainingBudget,
    BudgetAlreadyRevoked,
    DuplicateSpendDecisionHold,
    ExpiredBudgetHold,
    InvalidBudgetHoldTransition(BudgetHoldError),
    OverlappingBudgetPeriod,
    InvalidPersistedState(String),
    MissingBudgetVersionProvenance,
    /// A freshly drawn random identifier already names a stored record.
    IdentifierCollision,
}

#[derive(Debug)]
pub enum BudgetUpdateError {
    AmountLimitMustBePositive,
    ExpectedRevisionMustBePositive,
    MissingActor,
    MissingSource,
    UnknownBudget,
    BudgetRevoked,
    BudgetExpired,
    LimitBelowCommitted { requested_amount_cents: i64, committed_amount_cents: i64 },
    RevisionConflict { expected_revision: u64, current_revision: u64 },
    Storage(StorageError),
}


pub open spec fn budget_error_name(e: BudgetError) -> Seq<char> {
    match e {
        BudgetError::AmountLimitMustBePositive => "AmountLimitMustBePositive"@,
    }
}

pub open spec fn hold_error_name(e: BudgetHoldError) -> Seq<char> {
    match e {
        BudgetHoldError::CannotClaimNonFrozenHold => "CannotClaimNonFrozenHold"@,
        BudgetHoldError::CannotSettleNonFrozenHold => "CannotSettleNonFrozenHold"@,
        BudgetHoldError::CannotReleaseNonFrozenHold => "CannotReleaseNonFrozenHold"@,
    }
}

/// The message of a budget manager error.
pub open spec fn budget_manager_error_text(e: BudgetManagerError) -> Seq<char> {
    match e {
        BudgetManagerError::Storage(s) => storage_error_text(s),
        BudgetManagerError::InvalidBudget(b) => "invalid budget: "@ + budget_error_name(b),
        BudgetManagerError::UnknownBudget => "budget not found"@,
        BudgetManagerError::UnknownBudgetHold => "budget hold not found"@,
        BudgetManagerError::MissingBudgetBalance => "budget balance not found"@,
        BudgetManagerError::BudgetUnavailable(a) => "budget is unavailable: "@ + availability_name(a),
        BudgetManagerError::CurrencyMismatch => "budget currency does not match request currency"@,
        BudgetManagerError::AmountMustBePositive => "amount must be positive"@,
        BudgetManagerError::InsufficientRemainingBudget => "budget does not have enough remaining balance"@,
        BudgetManagerError::BudgetAlreadyRevoked => "budget is already revoked"@,
        BudgetManagerError::DuplicateSpendDecisionHold => "spend decision already has a budget hold"@,
        BudgetManagerError::ExpiredBudgetHold => "budget hold has expired"@,
        BudgetManagerError::InvalidBudgetHoldTransition(h) => "invalid budget hold transition: "@ + hold_error_name(h),
        BudgetManagerError::OverlappingBudgetPeriod => "budget period overlaps an existing budget for the same agent and currency"@,
        BudgetManagerError::InvalidPersistedState(m) => "invalid persisted budget state: "@ + m@,
        BudgetManagerError::MissingBudgetVersionProvenance => "budget version actor and source provenance are required"@,
        BudgetManagerError::IdentifierCollision => "a fresh identifier already names a stored record"@,
    }
}

impl BudgetManagerError {
    /// The error's message.
    pub fn describe(&self) -> (s: String)
        ensures
            s@ == budget_manager_error_text(*self),
    {
        let mut text: Vec<char> = Vec::new();
        match self {
            BudgetManagerError::Storage(s) => return s.describe(),
            BudgetManagerError::InvalidBudget(b) => {
                push_str(&mut text, "invalid budget: ");
                match b {
                    BudgetError::AmountLimitMustBePositive => push_str(&mut text, "AmountLimitMustBePositive"),
                }
            },
            BudgetManagerError::UnknownBudget => push_str(&mut text, "budget not found"),
            BudgetManagerError::UnknownBudgetHold => push_str(&mut text, "budget hold not found"),
            BudgetManagerError::MissingBudgetBalance => push_str(&mut text, "budget balance not found"),
            BudgetManagerError::BudgetUnavailable(a) => {
                push_str(&mut text, "budget is unavailable: ");
                push_str(&mut text, a.as_str());
            },
            BudgetManagerError::CurrencyMismatch => push_str(&mut text, "budget currency does not match request currency"),
            BudgetManagerError::AmountMustBePositive => push_str(&mut text, "amount must be positive"),
            BudgetManagerError::InsufficientRemainingBudget => push_str(&mut text, "budget does not have enough remaining balance"),
            BudgetManagerError::BudgetAlreadyRevoked => push_str(&mut text, "budget is already revoked"),
            BudgetManagerError::DuplicateSpendDecisionHold => push_str(&mut text, "spend decision already has a budget hold"),
            BudgetManagerError::ExpiredBudgetHold => push_str(&mut text, "budget hold has expired"),
            BudgetManagerError::InvalidBudgetHoldTransition(h) => {
                push_str(&mut text, "invalid budget hold transition: ");
                match h {
                    BudgetHoldError::CannotClaimNonFrozenHold => push_str(&mut text, "CannotClaimNonFrozenHold"),
                    BudgetHoldError::CannotSettleNonFrozenHold => push_str(&mut text, "CannotSettleNonFrozenHold"),
                    BudgetHoldError::CannotReleaseNonFrozenHold => push_str(&mut text, "CannotReleaseNonFrozenHold"),
                }
            },
            BudgetManagerError::OverlappingBudgetPeriod => push_str(
                &mut text,
                "budget period overlaps an existing budget for the same agent and currency",
            ),
            BudgetManagerError::InvalidPersistedState(m) => {
                push_str(&mut text, "invalid persisted budget state: ");
                push_str(&mut text, m.as_str());
            },
            BudgetManagerError::MissingBudgetVersionProvenance => push_str(
                &mut text,
                "budget version actor and source provenance are required",
            ),
            BudgetManagerError::IdentifierCollision => push_str(&mut text, "a fresh identifier already names a stored record"),
        }
        string_from_chars(text.as_slice())
    }
}

} // verus!
