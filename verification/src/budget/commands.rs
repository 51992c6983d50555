//! Limit updates: the command, its normalization, and what an applied
//! update returns.
use vstd::prelude::*;

use crate::budget::dto::BudgetWithBalance;
use crate::budget::error::BudgetUpdateError;
use crate::budget::model::BudgetVersion;
use crate::common::BudgetId;
use crate::text::{is_blank, str_is_blank, trim, trim_str};

verus! {

/// The source recorded for a limit update that names none.
pub const DEFAULT_BUDGET_UPDATE_SOURCE: &'static str = "hubu-core:budget-update";

/// Change the total limit of one logical budget, expecting its current
/// revision.
#[derive(Debug)]
pub struct UpdateBudgetLimitRequest {
    pub budget_id: BudgetId,
    pub expected_revision: u64,
    pub amount_limit_cents: i64,
    pub actor: String,
    pub source: Option<String>,
    pub reason: Option<String>,
}

#[derive(Debug)]
pub enum BudgetLimitUpdateError {
    Append(BudgetUpdateError),
}

/// An applied update or exact retry, with the current head of the budget.
#[derive(Debug)]
pub struct UpdateBudgetLimitResponse {
    pub applied_version: BudgetVersion,
    pub predecessor_revision: u64,
    pub current: BudgetWithBalance,
    pub idempotent_replay: bool,
}

/// A normalized limit update, ready to append as the next version.
#[derive(Debug)]
pub struct AppendBudgetVersionRequest {
    pub budget_id: BudgetId,
    pub expected_revision: u64,
    pub amount_limit_cents: i64,
    pub actor: String,
    pub source: String,
    pub reason: Option<String>,
    pub effective_at: i64,
}

/// The characters of an optional string.
pub open spec fn text_of(o: Option<String>) -> Option<Seq<char>> {
    match o {
        Some(x) => Some(x@),
        None => None,
    }
}

/// The source recorded for an update: its own, trimmed, or the default.
pub open spec fn normalized_source(source: Option<String>) -> Seq<char> {
    match source {
        Some(s) => trim(s@),
        None => "hubu-core:budget-update"@,
    }
}

/// The reason recorded for an update: its own, trimmed, unless blank.
pub open spec fn normalized_reason_text(reason: Option<String>) -> Option<Seq<char>> {
    match reason {
        Some(x) => if is_blank(x@) { None } else { Some(trim(x@)) },
        None => None,
    }
}

/// Check a limit update and normalize its provenance: actor and source
/// are trimmed, a missing source becomes the default one, and a blank
/// reason is dropped.
pub fn normalize_limit_update(request: UpdateBudgetLimitRequest, effective_at: i64) -> (r: Result<AppendBudgetVersionRequest, BudgetUpdateError>)
    ensures
        request.amount_limit_cents <= 0 ==> r matches Err(BudgetUpdateError::AmountLimitMustBePositive),
        request.amount_limit_cents > 0 && request.expected_revision == 0
            ==> r matches Err(BudgetUpdateError::ExpectedRevisionMustBePositive),
        request.amount_limit_cents > 0 && request.expected_revision > 0 && is_blank(request.actor@)
            ==> r matches Err(BudgetUpdateError::MissingActor),
        request.amount_limit_cents > 0 && request.expected_revision > 0 && !is_blank(request.actor@)
            && (request.source matches Some(s) && is_blank(s@))
            ==> r matches Err(BudgetUpdateError::MissingSource),
        request.amount_limit_cents > 0 && request.expected_revision > 0 && !is_blank(request.actor@)
            && !(request.source matches Some(s) && is_blank(s@))
            ==> (r matches Ok(append) && append.budget_id == request.budget_id
                && append.expected_revision == request.expected_revision
                && append.amount_limit_cents == request.amount_limit_cents
                && append.actor@ == trim(request.actor@)
                && append.source@ == normalized_source(request.source)
                && text_of(append.reason) == normalized_reason_text(request.reason)
                && append.effective_at == effective_at),
{
    if request.amount_limit_cents <= 0 {
        return Err(BudgetUpdateError::AmountLimitMustBePositive);
    }
    if request.expected_revision == 0 {
        return Err(BudgetUpdateError::ExpectedRevisionMustBePositive);
    }
    if str_is_blank(request.actor.as_str()) {
        return Err(BudgetUpdateError::MissingActor);
    }
    let actor = trim_str(request.actor.as_str());
    let source = match &request.source {
        Some(s) => {
            if str_is_blank(s.as_str()) {
                return Err(BudgetUpdateError::MissingSource);
            }
            trim_str(s.as_str())
        },
        None => String::from_str(DEFAULT_BUDGET_UPDATE_SOURCE),
    };
    let reason = match &request.reason {
        Some(reason) => if str_is_blank(reason.as_str()) {
            None
        } else {
            Some(trim_str(reason.as_str()))
        },
        None => None,
    };
    Ok(AppendBudgetVersionRequest {
        budget_id: request.budget_id,
        expected_revision: request.expected_revision,
        amount_limit_cents: request.amount_limit_cents,
        actor,
        source,
        reason,
        effective_at,
    })
}

/// Why a limit update is refused, checked in order, or `None`.
pub open spec fn limit_update_refusal(request: UpdateBudgetLimitRequest) -> Option<BudgetUpdateError> {
    if request.amount_limit_cents <= 0 {
        Some(BudgetUpdateError::AmountLimitMustBePositive)
    } else if request.expected_revision == 0 {
        Some(BudgetUpdateError::ExpectedRevisionMustBePositive)
    } else if is_blank(request.actor@) {
        Some(BudgetUpdateError::MissingActor)
    } else if request.source matches Some(s) && is_blank(s@) {
        Some(BudgetUpdateError::MissingSource)
    } else {
        None
    }
}

/// `append` is the normalized form of `request`, effective at `effective_at`.
pub open spec fn appended_from(request: UpdateBudgetLimitRequest, effective_at: i64, append: AppendBudgetVersionRequest) -> bool {
    &&& append.budget_id == request.budget_id
    &&& append.expected_revision == request.expected_revision
    &&& append.amount_limit_cents == request.amount_limit_cents
    &&& append.actor@ == trim(request.actor@)
    &&& append.source@ == normalized_source(request.source)
    &&& text_of(append.reason) == normalized_reason_text(request.reason)
    &&& append.effective_at == effective_at
}

#[derive(Debug)]
pub enum BudgetUpdateServiceError {
    Append(BudgetUpdateError),
}

/// Coordinates a storage-first limit update: the command is checked and
/// normalized here, storage commits the new version, and only then is the
/// budget manager changed.
#[derive(Clone, Copy, Debug)]
pub struct BudgetUpdateService;

impl BudgetUpdateService {
    /// The version append that a limit update asks storage for.
    pub fn append_request(&self, request: UpdateBudgetLimitRequest, effective_at: i64) -> (r: Result<
        AppendBudgetVersionRequest,
        BudgetUpdateServiceError,
    >)
        ensures
            match limit_update_refusal(request) {
                Some(e) => r matches Err(BudgetUpdateServiceError::Append(x)) && x == e,
                None => r matches Ok(append) && appended_from(request, effective_at, append),
            },
    {
        match normalize_limit_update(request, effective_at) {
            Ok(append) => Ok(append),
            Err(e) => Err(BudgetUpdateServiceError::Append(e)),
        }
    }
}

} // verus!
