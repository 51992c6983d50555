use vstd::prelude::*;

use crate::policy::error::PolicyValidationError;
use crate::text::{push_str, string_from_chars};

verus! {

#[derive(Debug)]
pub enum SpendError {
    PolicyValidation { source: PolicyValidationError },
    UnknownSpendAuthToken,
    ExpiredSpendAuthToken,
    UsedSpendAuthToken,
    RevokedSpendAuthToken,
    MissingSpendDecision,
    SpendDecisionNotAllowed,
    PaymentRequestMismatch,
    UserScopeMismatch,
    UnknownLeaseProfile(String),
    EmptyOperationKey,
    OperationKeyConflict,
    SpendAuthTokenAlreadyClaimed,
    UnknownExecutorClaim,
    ExecutorClaimOperationMismatch,
    ExpiredExecutorClaim,
    FinalizedExecutorClaim,
    /// A freshly drawn random identifier already names a stored record.
    IdentifierCollision,
}

/// The message of a spend error.
pub open spec fn spend_error_text(e: SpendError) -> Seq<char> {
    match e {
        SpendError::PolicyValidation { .. } => "invalid policy"@,
        SpendError::UnknownSpendAuthToken => "unknown spend auth token"@,
        SpendError::ExpiredSpendAuthToken => "spend auth token is expired"@,
        SpendError::UsedSpendAuthToken => "spend auth token has already been used"@,
        SpendError::RevokedSpendAuthToken => "spend auth token has been revoked"@,
        SpendError::MissingSpendDecision => "spend decision record is missing"@,
        SpendError::SpendDecisionNotAllowed => "spend decision did not allow payment"@,
        SpendError::PaymentRequestMismatch => "payment request does not match authorized spend"@,
        SpendError::UserScopeMismatch => "request is outside the resolved user context"@,
        SpendError::UnknownLeaseProfile(name) => "unknown lease profile `"@ + name@ + "`"@,
        SpendError::EmptyOperationKey => "operation key cannot be empty"@,
        SpendError::OperationKeyConflict => "operation key was already authorized with different spend scope"@,
        SpendError::SpendAuthTokenAlreadyClaimed => "spend auth token has already been claimed by another operation"@,
        SpendError::UnknownExecutorClaim => "unknown executor spend claim"@,
        SpendError::ExecutorClaimOperationMismatch => "executor spend claim belongs to another operation"@,
        SpendError::ExpiredExecutorClaim => "executor spend claim is expired and requires reconciliation"@,
        SpendError::FinalizedExecutorClaim => "executor spend claim is already finalized"@,
        SpendError::IdentifierCollision => "a fresh identifier already names a stored record"@,
    }
}

impl SpendError {
    /// The error's message.
    pub fn describe(&self) -> (s: String)
        ensures
            s@ == spend_error_text(*self),
    {
        let mut out: Vec<char> = Vec::new();
        match self {
            SpendError::PolicyValidation { .. } => push_str(&mut out, "invalid policy"),
            SpendError::UnknownSpendAuthToken => push_str(&mut out, "unknown spend auth token"),
            SpendError::ExpiredSpendAuthToken => push_str(&mut out, "spend auth token is expired"),
            SpendError::UsedSpendAuthToken => push_str(&mut out, "spend auth token has already been used"),
            SpendError::RevokedSpendAuthToken => push_str(&mut out, "spend auth token has been revoked"),
            SpendError::MissingSpendDecision => push_str(&mut out, "spend decision record is missing"),
            SpendError::SpendDecisionNotAllowed => push_str(&mut out, "spend decision did not allow payment"),
            SpendError::PaymentRequestMismatch => push_str(&mut out, "payment request does not match authorized spend"),
            SpendError::UserScopeMismatch => push_str(&mut out, "request is outside the resolved user context"),
            SpendError::UnknownLeaseProfile(name) => {
                push_str(&mut out, "unknown lease profile `");
                push_str(&mut out, name.as_str());
                push_str(&mut out, "`");
            },
            SpendError::EmptyOperationKey => push_str(&mut out, "operation key cannot be empty"),
            SpendError::OperationKeyConflict => push_str(
                &mut out,
                "operation key was already authorized with different spend scope",
            ),
            SpendError::SpendAuthTokenAlreadyClaimed => push_str(
                &mut out,
                "spend auth token has already been claimed by another operation",
            ),
            SpendError::UnknownExecutorClaim => push_str(&mut out, "unknown executor spend claim"),
            SpendError::ExecutorClaimOperationMismatch => push_str(
                &mut out,
                "executor spend claim belongs to another operation",
            ),
            SpendError::ExpiredExecutorClaim => push_str(
                &mut out,
                "executor spend claim is expired and requires reconciliation",
            ),
            SpendError::FinalizedExecutorClaim => push_str(&mut out, "executor spend claim is already finalized"),
            SpendError::IdentifierCollision => push_str(&mut out, "a fresh identifier already names a stored record"),
        }
        assert(out@ =~= spend_error_text(*self));
        string_from_chars(out.as_slice())
    }
}

} // verus!
