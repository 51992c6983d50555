//! Spend approval: the decisions that turn a spend request, its policy
//! evaluation and the agent's budgets into an approved authorization with a
//! reserved hold, or a rejection with retry guidance.
//!
//! Storage calls sit between these decisions; the caller performs them in
//! the order each decision names.
use vstd::prelude::*;

use crate::budget::dto::{ReleaseBudgetResponse, ReserveBudgetRequest, ReserveBudgetResponse, SettleBudgetResponse};
use crate::budget::error::BudgetManagerError;
use crate::budget::manager::BudgetManager;
use crate::budget::model::{BudgetBalance, BudgetHold, BudgetHoldStatus};
use crate::budget::state::{
    agent_budgets, reservable, spec_release_outcome, spec_reserve_outcome, spec_settle_outcome, BudgetStateView,
};
use crate::common::{
    AgentAccountId, AgentId, BudgetHoldId, Currency, SpendAuthTokenId, SpendDecisionId, UserContext,
};
use crate::executor_contract::{clone_optional_scope, ExecutionScope};
use crate::policy::model::{Effect, Policy};
use crate::spend::error::SpendError;
use crate::spend::manager::{
    decision_is, first_replay, issue_token_outcome, same_decision, spec_evaluate_outcome, token_discarded, SpendManager, SpendManagerView,
};
use crate::spend::model::{
    clone_opt_string, IssuedSpendAuthToken, SpendAttemptAuditRecord, SpendAuthTokenRecord, SpendAuthorizationDecision, SpendDecisionRecord,
    SpendEvaluationResponse, SpendRequest, SpendRetryAction, SpendRetryGuidance,
};
use crate::storage::StorageError;
use crate::lookup::lemma_last_match_facts;
use crate::text::trim;

verus! {

/// Spend approval decisions.
pub struct SpendApprovalService;

/// A request to authorize one spend under an operation key.
#[derive(Debug)]
pub struct AuthorizeSpendRequest {
    pub operation_key: String,
    pub user: UserContext,
    pub agent_id: AgentId,
    pub agent_account_id: AgentAccountId,
    pub amount_cents: i64,
    pub currency: Currency,
    pub merchant: Option<String>,
    pub execution_scope: Option<ExecutionScope>,
    pub task_id: Option<String>,
    pub reason: String,
    pub lease_profile: String,
}

#[derive(Debug)]
pub enum SpendAuthorizationOutcome {
    Approved(ApprovedSpendAuthorization),
    Rejected(RejectedSpendAuthorization),
}

#[derive(Clone, Copy, Debug, PartialEq, Eq, Structural)]
pub enum HumanApprovalDecision {
    Approve,
    Deny,
}

/// An approved spend: its token and the budget hold reserved for it.
#[derive(Debug)]
pub struct ApprovedSpendAuthorization {
    pub operation_key: String,
    pub user: UserContext,
    pub agent_id: AgentId,
    pub agent_account_id: AgentAccountId,
    pub amount_cents: i64,
    pub currency: Currency,
    pub merchant: Option<String>,
    pub execution_scope: Option<ExecutionScope>,
    pub task_id: Option<String>,
    pub reason: String,
    pub lease_profile: String,
    pub evaluation: SpendEvaluationResponse,
    pub token: IssuedSpendAuthToken,
    pub budget_reservation: ReserveBudgetResponse,
}

impl ApprovedSpendAuthorization {
    /// The token's identifier as text.
    pub fn auth_token_id(&self) -> (s: String)
        ensures
            s@ == crate::format::uuid_text(self.token.id.0),
    {
        self.token.id.to_uuid_string()
    }
}

/// A rejected spend: the effect it received and why.
#[derive(Debug)]
pub struct RejectedSpendAuthorization {
    pub operation_key: String,
    pub user: UserContext,
    pub agent_id: AgentId,
    pub agent_account_id: AgentAccountId,
    pub amount_cents: i64,
    pub currency: Currency,
    pub merchant: Option<String>,
    pub execution_scope: Option<ExecutionScope>,
    pub task_id: Option<String>,
    pub reason: String,
    pub lease_profile: String,
    pub evaluation: SpendEvaluationResponse,
    pub decision: Effect,
    pub reasons: Vec<String>,
}

/// What happens to a hold when the payment rail answers that a payment
/// failed.
#[derive(Clone, Copy, Debug, PartialEq, Eq, Structural)]
pub enum FailedPaymentHoldPolicy {
    Release,
    KeepFrozenForRetry,
}

/// The hold after a payment: settled, released, or still frozen.
#[derive(Clone, Copy, Debug)]
pub enum BudgetHoldUpdate {
    Settled(SettleBudgetResponse),
    Released(ReleaseBudgetResponse),
    Frozen(ReserveBudgetResponse),
}

impl BudgetHoldUpdate {
    pub fn hold_and_balance(&self) -> (r: (BudgetHold, BudgetBalance))
        ensures
            r == match *self {
                BudgetHoldUpdate::Settled(x) => (x.hold, x.balance),
                BudgetHoldUpdate::Released(x) => (x.hold, x.balance),
                BudgetHoldUpdate::Frozen(x) => (x.hold, x.balance),
            },
    {
        match self {
            BudgetHoldUpdate::Settled(x) => (x.hold, x.balance),
            BudgetHoldUpdate::Released(x) => (x.hold, x.balance),
            BudgetHoldUpdate::Frozen(x) => (x.hold, x.balance),
        }
    }

    /// The hold and balance to store: those of a settlement or release; a
    /// still-frozen hold has nothing new to store.
    pub fn persisted_hold_and_balance(&self) -> (r: Option<(BudgetHold, BudgetBalance)>)
        ensures
            r == match *self {
                BudgetHoldUpdate::Settled(x) => Some((x.hold, x.balance)),
                BudgetHoldUpdate::Released(x) => Some((x.hold, x.balance)),
                BudgetHoldUpdate::Frozen(_) => None,
            },
    {
        match self {
            BudgetHoldUpdate::Settled(x) => Some((x.hold, x.balance)),
            BudgetHoldUpdate::Released(x) => Some((x.hold, x.balance)),
            BudgetHoldUpdate::Frozen(_) => None,
        }
    }
}

#[derive(Debug)]
pub enum SpendApprovalError {
    NonPositiveAmount,
    MissingSpendDecision,
    MissingSpendAuthToken,
    UsedSpendAuthTokenMissing,
    MissingActiveBudget,
    ChangedScopeRetryRejected { operation_key: String },
    PendingExactReplay { operation_key: String },
    UnknownApprovalRequest,
    ApprovalOwnerMismatch,
    ApprovalAlreadyResolved { current: &'static str, requested: &'static str },
    Spend(SpendError),
    Budget(BudgetManagerError),
    Storage(StorageError),
}

/// How storage admitted an attempt under an operation key.
#[derive(Clone, Copy, Debug, PartialEq, Eq, Structural)]
pub enum SpendAttemptAdmission {
    /// A new attempt, recorded as `revision`.
    Admitted { revision: u64 },
    /// The same immutable scope as an earlier attempt.
    ExactReplay { revision: u64 },
    /// A changed scope where changing it is unsafe.
    ChangedScopeBlocked,
}

/// The spend request an authorization request describes.
pub open spec fn spend_request_of(request: AuthorizeSpendRequest) -> SpendRequest {
    SpendRequest {
        amount_cents: request.amount_cents,
        currency: request.currency,
        owner_user_id: request.user.user_id,
        agent_id: request.agent_id,
        agent_account_id: request.agent_account_id,
        merchant: request.merchant,
        execution_scope: request.execution_scope,
        category: None,
        task_id: request.task_id,
        reason: request.reason,
        lease_profile: request.lease_profile,
    }
}

/// The retry guidance an audited attempt carries. A suggestion to reuse
/// the operation key gives way when changing the scope is unsafe: a replay
/// is told to replay exactly, a new attempt to use a new key.
pub open spec fn spec_retry_guidance(
    action: SpendRetryAction,
    message: Seq<char>,
    changed_scope_safe: bool,
    idempotent_replay: bool,
) -> (SpendRetryAction, Seq<char>) {
    if action == SpendRetryAction::ReuseOperationKey && !changed_scope_safe {
        if idempotent_replay {
            (SpendRetryAction::ReplayExactly, "replay this exact immutable scope; changed scope requires a new operation key"@)
        } else {
            (SpendRetryAction::CreateNewOperation, "this operation has side-effect-capable history; create a new operation key"@)
        }
    } else {
        (action, message)
    }
}

/// What a human decision does to an attempt whose recorded decision is
/// `current`.
#[derive(Clone, Copy, Debug)]
pub enum HumanApprovalTransition {
    /// The attempt was already resolved the other way.
    AlreadyResolved { current: &'static str, requested: &'static str },
    /// The attempt was already resolved this way: authorize it again.
    Reauthorize,
    /// Deny the pending attempt.
    DenyPending,
    /// Approve the pending attempt: issue its token and reserve its hold.
    ApprovePending,
}

/// What happens to the hold of an approved spend after the payment rail
/// answers.
#[derive(Clone, Copy, Debug, PartialEq, Eq, Structural)]
pub enum PaymentHoldAction {
    /// The payment succeeded and the hold was already settled.
    AlreadySettled,
    /// The payment succeeded: settle the hold.
    Settle,
    /// The payment failed and the hold was already released.
    AlreadyReleased,
    /// The payment failed and the policy releases the hold.
    Release,
    /// The payment failed and the policy keeps the hold for a retry.
    KeepFrozen,
}

/// What happens to a hold in `hold_status` once the payment rail answered:
/// a success settles it, a failure releases it or keeps it frozen as the
/// policy says; a hold already in that state stays as it is.
pub open spec fn spec_payment_hold_action(
    payment_succeeded: bool,
    hold_status: BudgetHoldStatus,
    policy: FailedPaymentHoldPolicy,
) -> PaymentHoldAction {
    if payment_succeeded {
        if hold_status == BudgetHoldStatus::Settled { PaymentHoldAction::AlreadySettled } else { PaymentHoldAction::Settle }
    } else if policy == FailedPaymentHoldPolicy::Release {
        if hold_status == BudgetHoldStatus::Released { PaymentHoldAction::AlreadyReleased } else { PaymentHoldAction::Release }
    } else {
        PaymentHoldAction::KeepFrozen
    }
}

/// The next step of a fresh authorization once its decision is recorded.
#[derive(Debug)]
pub enum FreshAuthorizationStep {
    /// The policy denied the spend: record the denial.
    Denied,
    /// The policy asks a human: the attempt waits for approval.
    PendingApproval,
    /// No active USD budget: the token was withdrawn; record a denial.
    NoActiveBudget,
    /// The budget lacks remaining balance: the token was withdrawn; record
    /// a denial.
    InsufficientBudget,
    /// The hold is reserved: store the token and hold, then record the
    /// approval.
    Reserved { token: IssuedSpendAuthToken, reservation: ReserveBudgetResponse },
}

impl SpendApprovalService {
    /// The spend request of an authorization request; the amount must be
    /// positive.
    pub fn spend_request(&self, request: &AuthorizeSpendRequest) -> (r: Result<SpendRequest, SpendApprovalError>)
        ensures
            request.amount_cents <= 0 ==> r matches Err(SpendApprovalError::NonPositiveAmount),
            request.amount_cents > 0 ==> r == Ok::<SpendRequest, SpendApprovalError>(spend_request_of(*request)),
    {
        if request.amount_cents <= 0 {
            return Err(SpendApprovalError::NonPositiveAmount);
        }
        Ok(SpendRequest {
            amount_cents: request.amount_cents,
            currency: request.currency,
            owner_user_id: request.user.user_id,
            agent_id: request.agent_id,
            agent_account_id: request.agent_account_id,
            merchant: clone_opt_string(&request.merchant),
            execution_scope: clone_optional_scope(&request.execution_scope),
            category: None,
            task_id: clone_opt_string(&request.task_id),
            reason: request.reason.clone(),
            lease_profile: request.lease_profile.clone(),
        })
    }

    /// The retry guidance an audited attempt carries.
    pub fn retry_guidance(
        &self,
        action: SpendRetryAction,
        message: &str,
        operation_key: &str,
        changed_scope_safe: bool,
        idempotent_replay: bool,
    ) -> (g: SpendRetryGuidance)
        ensures
            (g.action, g.message@) == spec_retry_guidance(action, message@, changed_scope_safe, idempotent_replay),
            g.operation_key@ == operation_key@,
    {
        let (action, message) = if action == SpendRetryAction::ReuseOperationKey && !changed_scope_safe {
            if idempotent_replay {
                (SpendRetryAction::ReplayExactly, "replay this exact immutable scope; changed scope requires a new operation key")
            } else {
                (SpendRetryAction::CreateNewOperation, "this operation has side-effect-capable history; create a new operation key")
            }
        } else {
            (action, message)
        };
        SpendRetryGuidance { action, operation_key: String::from_str(operation_key), message: String::from_str(message) }
    }

    /// What a human decision does to an attempt recorded as `current`.
    pub fn human_approval_transition(
        &self,
        current: SpendAuthorizationDecision,
        requested: HumanApprovalDecision,
    ) -> (t: HumanApprovalTransition)
        ensures
            t == match (current, requested) {
                (SpendAuthorizationDecision::Allowed, HumanApprovalDecision::Deny) => HumanApprovalTransition::AlreadyResolved {
                    current: t->current, requested: t->requested },
                (SpendAuthorizationDecision::Denied, HumanApprovalDecision::Approve) => HumanApprovalTransition::AlreadyResolved {
                    current: t->current, requested: t->requested },
                (SpendAuthorizationDecision::Allowed, HumanApprovalDecision::Approve) => HumanApprovalTransition::Reauthorize,
                (SpendAuthorizationDecision::Denied, HumanApprovalDecision::Deny) => HumanApprovalTransition::Reauthorize,
                (SpendAuthorizationDecision::PendingApproval, HumanApprovalDecision::Deny) => HumanApprovalTransition::DenyPending,
                (SpendAuthorizationDecision::PendingApproval, HumanApprovalDecision::Approve) => HumanApprovalTransition::ApprovePending,
            },
            (current, requested) == (SpendAuthorizationDecision::Allowed, HumanApprovalDecision::Deny)
                ==> (t matches HumanApprovalTransition::AlreadyResolved { current: c, requested: q } && c@ == "approved"@ && q@ == "denied"@),
            (current, requested) == (SpendAuthorizationDecision::Denied, HumanApprovalDecision::Approve)
                ==> (t matches HumanApprovalTransition::AlreadyResolved { current: c, requested: q } && c@ == "denied"@ && q@ == "approved"@),
    {
        match (current, requested) {
            (SpendAuthorizationDecision::Allowed, HumanApprovalDecision::Deny) => HumanApprovalTransition::AlreadyResolved {
                current: "approved",
                requested: "denied",
            },
            (SpendAuthorizationDecision::Denied, HumanApprovalDecision::Approve) => HumanApprovalTransition::AlreadyResolved {
                current: "denied",
                requested: "approved",
            },
            (SpendAuthorizationDecision::Allowed, HumanApprovalDecision::Approve) => HumanApprovalTransition::Reauthorize,
            (SpendAuthorizationDecision::Denied, HumanApprovalDecision::Deny) => HumanApprovalTransition::Reauthorize,
            (SpendAuthorizationDecision::PendingApproval, HumanApprovalDecision::Deny) => HumanApprovalTransition::DenyPending,
            (SpendAuthorizationDecision::PendingApproval, HumanApprovalDecision::Approve) => HumanApprovalTransition::ApprovePending,
        }
    }

    /// What happens to an approved spend's hold once the payment rail
    /// answered.
    pub fn payment_hold_action(
        &self,
        payment_succeeded: bool,
        hold_status: BudgetHoldStatus,
        policy: FailedPaymentHoldPolicy,
    ) -> (a: PaymentHoldAction)
        ensures
            a == spec_payment_hold_action(payment_succeeded, hold_status, policy),
    {
        if payment_succeeded {
            if hold_status == BudgetHoldStatus::Settled {
                PaymentHoldAction::AlreadySettled
            } else {
                PaymentHoldAction::Settle
            }
        } else if policy == FailedPaymentHoldPolicy::Release {
            if hold_status == BudgetHoldStatus::Released {
                PaymentHoldAction::AlreadyReleased
            } else {
                PaymentHoldAction::Release
            }
        } else {
            PaymentHoldAction::KeepFrozen
        }
    }

    /// Whether a hold is released when the payment manager refuses the
    /// payment outright: only a still-frozen hold is.
    pub fn releases_hold_on_payment_error(&self, hold_status: BudgetHoldStatus) -> (b: bool)
        ensures
            b == (hold_status == BudgetHoldStatus::Frozen),
    {
        hold_status == BudgetHoldStatus::Frozen
    }
}


/// The next step of a replayed authorization.
#[derive(Debug)]
pub enum ReplayAuthorizationStep {
    /// The earlier attempt holds its reservation: approve it again.
    Approve { token: IssuedSpendAuthToken, reservation: ReserveBudgetResponse },
    /// A human denied the attempt.
    RejectRecordedDenial,
    /// The attempt still waits for a human.
    RejectPendingApproval,
    /// The policy denied the attempt.
    RejectPriorDenial,
    /// The attempt was allowed but holds no reservation.
    RejectBudget,
}

/// The decision, the response's evaluation carries.
pub open spec fn effect_of(evaluation: SpendEvaluationResponse) -> Effect {
    evaluation.evaluation.decision
}

impl SpendApprovalService {
    /// Evaluate an attempt as storage admitted it: a new attempt is
    /// evaluated at its recorded revision for `actor`, an exact replay
    /// recovers its recorded decision, and a blocked scope change is
    /// refused.
    pub fn evaluate_admitted_at(
        &self,
        admission: SpendAttemptAdmission,
        user: &UserContext,
        operation_key: &str,
        spend_request: SpendRequest,
        actor: &str,
        policy: &Policy,
        spend_manager: &mut SpendManager,
        decision_id: SpendDecisionId,
        token_id: SpendAuthTokenId,
        now: i64,
    ) -> (r: Result<SpendEvaluationResponse, SpendApprovalError>)
        requires
            old(spend_manager).wf(),
            old(spend_manager)@.decisions.len() < u64::MAX,
        ensures
            final(spend_manager).wf(),
            match admission {
                SpendAttemptAdmission::ChangedScopeBlocked => r matches Err(SpendApprovalError::ChangedScopeRetryRejected { operation_key: k })
                    && k@ == operation_key@ && final(spend_manager)@ == old(spend_manager)@,
                SpendAttemptAdmission::ExactReplay { .. } => if first_replay(old(spend_manager)@, spend_request.agent_id, operation_key@, spend_request) is None {
                    r matches Err(SpendApprovalError::PendingExactReplay { operation_key: k }) && k@ == operation_key@
                        && final(spend_manager)@ == old(spend_manager)@
                } else {
                    exists|e: Result<SpendEvaluationResponse, SpendError>| #[trigger] spec_evaluate_outcome(old(spend_manager)@, *user, operation_key@,
                        spend_request, *policy, None, decision_id, token_id, now, e, final(spend_manager)@)
                        && match e {
                            Ok(resp) => r == Ok::<SpendEvaluationResponse, SpendApprovalError>(resp),
                            Err(x) => r matches Err(SpendApprovalError::Spend(y)) && y == x,
                        }
                },
                SpendAttemptAdmission::Admitted { revision } => exists|e: Result<SpendEvaluationResponse, SpendError>|
                    #[trigger] spec_evaluate_outcome(old(spend_manager)@, *user, operation_key@, spend_request, *policy,
                        Some((revision, actor@)), decision_id, token_id, now, e, final(spend_manager)@)
                    && match e {
                        Ok(resp) => r == Ok::<SpendEvaluationResponse, SpendApprovalError>(resp),
                        Err(x) => r matches Err(SpendApprovalError::Spend(y)) && y == x,
                    },
            },
    {
        let ghost request_copy = spend_request;
        match admission {
            SpendAttemptAdmission::ChangedScopeBlocked => {
                Err(SpendApprovalError::ChangedScopeRetryRejected { operation_key: String::from_str(operation_key) })
            },
            SpendAttemptAdmission::ExactReplay { .. } => {
                if !spend_manager.has_decision_for_scope(&spend_request.agent_id, operation_key, &spend_request) {
                    return Err(SpendApprovalError::PendingExactReplay { operation_key: String::from_str(operation_key) });
                }
                let e = spend_manager.evaluate_spend_with_revision(user, operation_key, spend_request, policy, None, decision_id, token_id, now);
                let ghost eg = e;
                assert(spec_evaluate_outcome(old(spend_manager)@, *user, operation_key@, request_copy, *policy, None, decision_id, token_id, now, eg, spend_manager@));
                match e {
                    Ok(resp) => Ok(resp),
                    Err(x) => Err(SpendApprovalError::Spend(x)),
                }
            },
            SpendAttemptAdmission::Admitted { revision } => {
                let e = spend_manager.evaluate_spend_with_revision(
                    user, operation_key, spend_request, policy, Some((revision, String::from_str(actor))), decision_id, token_id, now);
                let ghost eg = e;
                assert(spec_evaluate_outcome(old(spend_manager)@, *user, operation_key@, request_copy, *policy,
                    Some((revision, actor@)), decision_id, token_id, now, eg, spend_manager@));
                match e {
                    Ok(resp) => Ok(resp),
                    Err(x) => Err(SpendApprovalError::Spend(x)),
                }
            },
        }
    }

    /// The next step of a replayed authorization, given the decision its
    /// latest attempt recorded.
    pub fn replay_authorization(
        &self,
        evaluation: &SpendEvaluationResponse,
        latest: Option<SpendAuthorizationDecision>,
        budget_manager: &BudgetManager,
    ) -> (r: Result<ReplayAuthorizationStep, SpendApprovalError>)
        requires
            budget_manager.wf(),
        ensures
            ({
                let b = budget_manager@;
                let hold = b.hold_for_decision(evaluation.decision_id);
                let approve = match (evaluation.auth_token, hold) {
                    (Some(token), Some(h)) => match b.balance(h.budget_id) {
                        Some(balance) => r matches Ok(ReplayAuthorizationStep::Approve { token: t, reservation })
                            && t == token && reservation == (ReserveBudgetResponse { hold: h, balance }),
                        None => r matches Err(SpendApprovalError::MissingActiveBudget),
                    },
                    (None, Some(_)) => r matches Err(SpendApprovalError::MissingSpendAuthToken),
                    (_, None) => r matches Err(SpendApprovalError::MissingActiveBudget),
                };
                if effect_of(*evaluation) == Effect::NeedsApproval {
                    match latest {
                        Some(SpendAuthorizationDecision::Allowed) => approve,
                        Some(SpendAuthorizationDecision::Denied) => r matches Ok(ReplayAuthorizationStep::RejectRecordedDenial),
                        _ => r matches Ok(ReplayAuthorizationStep::RejectPendingApproval),
                    }
                } else if effect_of(*evaluation) != Effect::Allow {
                    r matches Ok(ReplayAuthorizationStep::RejectPriorDenial)
                } else if evaluation.auth_token is Some && hold is Some {
                    approve
                } else {
                    r matches Ok(ReplayAuthorizationStep::RejectBudget)
                }
            }),
    {
        let decision = evaluation.evaluation.decision;
        let hold = budget_manager.get_budget_hold_by_spend_decision(&evaluation.decision_id);
        if decision == Effect::NeedsApproval {
            match latest {
                Some(SpendAuthorizationDecision::Allowed) => {},
                Some(SpendAuthorizationDecision::Denied) => return Ok(ReplayAuthorizationStep::RejectRecordedDenial),
                _ => return Ok(ReplayAuthorizationStep::RejectPendingApproval),
            }
            let h = match hold {
                Some(h) => h,
                None => return Err(SpendApprovalError::MissingActiveBudget),
            };
            let token = match evaluation.auth_token {
                Some(t) => t,
                None => return Err(SpendApprovalError::MissingSpendAuthToken),
            };
            return match budget_manager.get_budget_balance(&h.budget_id) {
                Some(balance) => Ok(ReplayAuthorizationStep::Approve { token, reservation: ReserveBudgetResponse { hold: h, balance } }),
                None => Err(SpendApprovalError::MissingActiveBudget),
            };
        }
        if decision != Effect::Allow {
            return Ok(ReplayAuthorizationStep::RejectPriorDenial);
        }
        match (evaluation.auth_token, hold) {
            (Some(token), Some(h)) => match budget_manager.get_budget_balance(&h.budget_id) {
                Some(balance) => Ok(ReplayAuthorizationStep::Approve { token, reservation: ReserveBudgetResponse { hold: h, balance } }),
                None => Err(SpendApprovalError::MissingActiveBudget),
            },
            _ => Ok(ReplayAuthorizationStep::RejectBudget),
        }
    }

    /// The next step of a fresh authorization whose decision is recorded:
    /// a denial or a pending approval stands; an allowed spend reserves its
    /// amount from the agent's first active USD budget at `now`, or
    /// withdraws its token when there is none or it lacks the balance.
    pub fn fresh_authorization_at(
        &self,
        request: &AuthorizeSpendRequest,
        evaluation: &SpendEvaluationResponse,
        spend_manager: &mut SpendManager,
        budget_manager: &mut BudgetManager,
        now: i64,
    ) -> (r: Result<FreshAuthorizationStep, SpendApprovalError>)
        requires
            old(spend_manager).wf(),
            old(budget_manager).wf(),
        ensures
            final(spend_manager).wf(),
            final(budget_manager).wf(),
            effect_of(*evaluation) == Effect::Deny ==> (r matches Ok(FreshAuthorizationStep::Denied)
                && final(spend_manager)@ == old(spend_manager)@ && final(budget_manager)@ == old(budget_manager)@),
            effect_of(*evaluation) == Effect::NeedsApproval ==> (r matches Ok(FreshAuthorizationStep::PendingApproval)
                && final(spend_manager)@ == old(spend_manager)@ && final(budget_manager)@ == old(budget_manager)@),
            effect_of(*evaluation) == Effect::Allow && evaluation.auth_token is None
                ==> (r matches Err(SpendApprovalError::MissingSpendAuthToken)
                && final(spend_manager)@ == old(spend_manager)@ && final(budget_manager)@ == old(budget_manager)@),
            effect_of(*evaluation) == Effect::Allow && evaluation.auth_token is Some ==> {
                let bs = agent_budgets(old(budget_manager)@.budgets, request.agent_id);
                let token = evaluation.auth_token->0;
                if forall|j: int| 0 <= j < bs.len() ==> !reservable(old(budget_manager)@, #[trigger] bs[j], Currency::Usd, now) {
                    &&& r matches Ok(FreshAuthorizationStep::NoActiveBudget)
                    &&& final(budget_manager)@ == old(budget_manager)@
                    &&& final(spend_manager)@.decisions == old(spend_manager)@.decisions
                    &&& final(spend_manager)@.claims == old(spend_manager)@.claims
                } else {
                    exists|k: int| 0 <= k < bs.len()
                        && reservable(old(budget_manager)@, #[trigger] bs[k], Currency::Usd, now)
                        && (forall|j: int| 0 <= j < k ==> !reservable(old(budget_manager)@, #[trigger] bs[j], Currency::Usd, now))
                        && exists|hold_id: BudgetHoldId, reserved: Result<ReserveBudgetResponse, BudgetManagerError>|
                            #[trigger] spec_reserve_outcome(old(budget_manager)@, ReserveBudgetRequest {
                                budget_id: bs[k].id,
                                spend_decision_id: evaluation.decision_id,
                                amount_cents: request.amount_cents,
                                currency: request.currency,
                                expires_at: token.expires_at,
                            }, now, hold_id, reserved, final(budget_manager)@)
                            && match reserved {
                                Ok(reservation) => r matches Ok(FreshAuthorizationStep::Reserved { token: t, reservation: res })
                                    && t == token && res == reservation && final(spend_manager)@ == old(spend_manager)@,
                                Err(BudgetManagerError::InsufficientRemainingBudget) => r matches Ok(FreshAuthorizationStep::InsufficientBudget)
                                    && final(spend_manager)@.decisions == old(spend_manager)@.decisions,
                                Err(e) => r matches Err(SpendApprovalError::Budget(e2)) && e2 == e
                                    && final(spend_manager)@ == old(spend_manager)@,
                            }
                }
            },
    {
        let decision = evaluation.evaluation.decision;
        if decision == Effect::Deny {
            return Ok(FreshAuthorizationStep::Denied);
        }
        if decision == Effect::NeedsApproval {
            return Ok(FreshAuthorizationStep::PendingApproval);
        }
        let token = match evaluation.auth_token {
            Some(t) => t,
            None => return Err(SpendApprovalError::MissingSpendAuthToken),
        };
        let budget_id = match budget_manager.available_budget_id_for_agent_at(&request.agent_id, Currency::Usd, now) {
            Ok(Some(id)) => id,
            Ok(None) => {
                spend_manager.discard_auth_token_for_decision(&evaluation.decision_id);
                return Ok(FreshAuthorizationStep::NoActiveBudget);
            },
            Err(e) => return Err(SpendApprovalError::Budget(e)),
        };
        let reserve_request = ReserveBudgetRequest {
            budget_id,
            spend_decision_id: evaluation.decision_id,
            amount_cents: request.amount_cents,
            currency: request.currency,
            expires_at: token.expires_at,
        };
        let reserved = budget_manager.reserve_budget_at(reserve_request, now);
        let ghost rg = reserved;
        match reserved {
            Ok(reservation) => Ok(FreshAuthorizationStep::Reserved { token, reservation }),
            Err(BudgetManagerError::InsufficientRemainingBudget) => {
                spend_manager.discard_auth_token_for_decision(&evaluation.decision_id);
                Ok(FreshAuthorizationStep::InsufficientBudget)
            },
            Err(e) => Err(SpendApprovalError::Budget(e)),
        }
    }
}


/// The steps of approving a pending spend once its token was issued (or
/// refused) as `issued`, leaving the spend state `s1`: the token's record
/// is looked up, the decision's amount is reserved from the agent's first
/// reservable USD budget at `now`, and a failed reservation withdraws the
/// token again. `b` is the budget state before, `t` and `c` the states
/// after.
pub open spec fn approve_pending_steps(
    decision: SpendDecisionRecord,
    b: BudgetStateView,
    now: i64,
    issued: Result<IssuedSpendAuthToken, SpendError>,
    s1: SpendManagerView,
    r: Result<(IssuedSpendAuthToken, SpendAuthTokenRecord, ReserveBudgetResponse), SpendApprovalError>,
    t: SpendManagerView,
    c: BudgetStateView,
) -> bool {
    match issued {
        Err(e) => r matches Err(SpendApprovalError::Spend(e2)) && e2 == e && t == s1 && c == b,
        Ok(token) => match s1.token(token.id) {
            None => r matches Err(SpendApprovalError::MissingSpendAuthToken) && t == s1 && c == b,
            Some(record) => {
                let bs = agent_budgets(b.budgets, decision.request.agent_id);
                if forall|j: int| 0 <= j < bs.len() ==> !reservable(b, #[trigger] bs[j], Currency::Usd, now) {
                    r matches Err(SpendApprovalError::MissingActiveBudget) && t == s1 && c == b
                } else {
                    exists|k: int| 0 <= k < bs.len()
                        && reservable(b, #[trigger] bs[k], Currency::Usd, now)
                        && (forall|j: int| 0 <= j < k ==> !reservable(b, #[trigger] bs[j], Currency::Usd, now))
                        && exists|hold_id: BudgetHoldId, reserved: Result<ReserveBudgetResponse, BudgetManagerError>|
                            #[trigger] spec_reserve_outcome(b, ReserveBudgetRequest {
                                budget_id: bs[k].id,
                                spend_decision_id: decision.id,
                                amount_cents: decision.request.amount_cents,
                                currency: decision.request.currency,
                                expires_at: token.expires_at,
                            }, now, hold_id, reserved, c)
                            && match reserved {
                                Ok(reservation) => r == Ok::<
                                    (IssuedSpendAuthToken, SpendAuthTokenRecord, ReserveBudgetResponse),
                                    SpendApprovalError,
                                >((token, record, reservation)) && t == s1,
                                Err(e) => r matches Err(SpendApprovalError::Budget(e2)) && e2 == e
                                    && token_discarded(s1, decision.id, t),
                            }
                }
            },
        },
    }
}

impl SpendApprovalService {
    /// Approve a spend that waited for a human: issue its token as
    /// `token_id` at `now`, then reserve its amount from the agent's first
    /// reservable USD budget. A failed reservation withdraws the token; the
    /// caller stores the token and the hold next, and withdraws both with
    /// [`SpendApprovalService::withdraw_approval_at`] if that fails.
    pub fn approve_pending_at(
        &self,
        decision_id: &SpendDecisionId,
        spend_manager: &mut SpendManager,
        budget_manager: &mut BudgetManager,
        token_id: SpendAuthTokenId,
        now: i64,
    ) -> (r: Result<(IssuedSpendAuthToken, SpendAuthTokenRecord, ReserveBudgetResponse), SpendApprovalError>)
        requires
            old(spend_manager).wf(),
            old(budget_manager).wf(),
        ensures
            final(spend_manager).wf(),
            final(budget_manager).wf(),
            exists|issued: Result<IssuedSpendAuthToken, SpendError>, s1: SpendManagerView|
                #[trigger] issue_token_outcome(old(spend_manager)@, *decision_id, token_id, now, issued, s1)
                && approve_pending_steps(
                    old(spend_manager)@.decision(*decision_id)->0,
                    old(budget_manager)@,
                    now,
                    issued,
                    s1,
                    r,
                    final(spend_manager)@,
                    final(budget_manager)@,
                ),
    {
        let issued = spend_manager.issue_auth_token_for_approved_decision_at(decision_id, token_id, now);
        let ghost s1 = spend_manager@;
        let ghost ig = issued;
        let token = match issued {
            Ok(token) => token,
            Err(e) => return Err(SpendApprovalError::Spend(e)),
        };
        let record = match spend_manager.auth_token_record(&token.id) {
            Some(record) => record,
            None => return Err(SpendApprovalError::MissingSpendAuthToken),
        };
        let decision = match spend_manager.decision_record(decision_id) {
            Some(d) => d,
            None => return Err(SpendApprovalError::MissingSpendDecision),
        };
        proof {
            assert(issue_token_outcome(old(spend_manager)@, *decision_id, token_id, now, ig, s1));
            lemma_last_match_facts(s1.decisions, decision_is(*decision_id));
            assert(same_decision(decision, old(spend_manager)@.decision(*decision_id)->0));
            assert(decision.id == *decision_id);
        }
        let budget_id = match budget_manager.available_budget_id_for_agent_at(&decision.request.agent_id, Currency::Usd, now) {
            Ok(Some(id)) => id,
            Ok(None) => return Err(SpendApprovalError::MissingActiveBudget),
            Err(e) => return Err(SpendApprovalError::Budget(e)),
        };
        let reserve_request = ReserveBudgetRequest {
            budget_id,
            spend_decision_id: *decision_id,
            amount_cents: decision.request.amount_cents,
            currency: decision.request.currency,
            expires_at: token.expires_at,
        };
        let reserved = budget_manager.reserve_budget_at(reserve_request, now);
        let ghost rg = reserved;
        match reserved {
            Ok(reservation) => Ok((token, record, reservation)),
            Err(e) => {
                spend_manager.discard_auth_token_for_decision(decision_id);
                Err(SpendApprovalError::Budget(e))
            },
        }
    }

    /// Withdraw an approval whose records could not be stored: release its
    /// hold at `now` and withdraw the decision's token.
    pub fn withdraw_approval_at(
        &self,
        decision_id: &SpendDecisionId,
        hold_id: &BudgetHoldId,
        spend_manager: &mut SpendManager,
        budget_manager: &mut BudgetManager,
        now: i64,
    )
        requires
            old(spend_manager).wf(),
            old(budget_manager).wf(),
        ensures
            final(spend_manager).wf(),
            final(budget_manager).wf(),
            exists|released: Result<ReleaseBudgetResponse, BudgetManagerError>|
                #[trigger] spec_release_outcome(old(budget_manager)@, *hold_id, now, released, final(budget_manager)@),
            token_discarded(old(spend_manager)@, *decision_id, final(spend_manager)@),
    {
        let released = budget_manager.release_budget_at(hold_id, now);
        let ghost rg = released;
        spend_manager.discard_auth_token_for_decision(decision_id);
    }
}

impl SpendApprovalService {
    /// Apply the payment rail's answer to an approved spend's hold at
    /// `now`: settle it after a success, release it or keep it frozen after
    /// a failure as `policy` says; a hold already settled or released is
    /// reported as it is.
    pub fn apply_payment_outcome_at(
        &self,
        reservation: &ReserveBudgetResponse,
        payment_succeeded: bool,
        policy: FailedPaymentHoldPolicy,
        budget_manager: &mut BudgetManager,
        now: i64,
    ) -> (r: Result<BudgetHoldUpdate, SpendApprovalError>)
        requires
            old(budget_manager).wf(),
        ensures
            final(budget_manager).wf(),
            match spec_payment_hold_action(payment_succeeded, reservation.hold.status, policy) {
                PaymentHoldAction::AlreadySettled => r == Ok::<BudgetHoldUpdate, SpendApprovalError>(BudgetHoldUpdate::Settled(
                    SettleBudgetResponse { hold: reservation.hold, balance: reservation.balance },
                )) && final(budget_manager)@ == old(budget_manager)@,
                PaymentHoldAction::Settle => exists|settled: Result<SettleBudgetResponse, BudgetManagerError>|
                    #[trigger] spec_settle_outcome(old(budget_manager)@, reservation.hold.id, now, settled, final(budget_manager)@)
                    && match settled {
                        Ok(x) => r == Ok::<BudgetHoldUpdate, SpendApprovalError>(BudgetHoldUpdate::Settled(x)),
                        Err(e) => r matches Err(SpendApprovalError::Budget(e2)) && e2 == e,
                    },
                PaymentHoldAction::AlreadyReleased => r == Ok::<BudgetHoldUpdate, SpendApprovalError>(BudgetHoldUpdate::Released(
                    ReleaseBudgetResponse { hold: reservation.hold, balance: reservation.balance },
                )) && final(budget_manager)@ == old(budget_manager)@,
                PaymentHoldAction::Release => exists|released: Result<ReleaseBudgetResponse, BudgetManagerError>|
                    #[trigger] spec_release_outcome(old(budget_manager)@, reservation.hold.id, now, released, final(budget_manager)@)
                    && match released {
                        Ok(x) => r == Ok::<BudgetHoldUpdate, SpendApprovalError>(BudgetHoldUpdate::Released(x)),
                        Err(e) => r matches Err(SpendApprovalError::Budget(e2)) && e2 == e,
                    },
                PaymentHoldAction::KeepFrozen => r == Ok::<BudgetHoldUpdate, SpendApprovalError>(BudgetHoldUpdate::Frozen(*reservation))
                    && final(budget_manager)@ == old(budget_manager)@,
            },
    {
        let hold = reservation.hold;
        match self.payment_hold_action(payment_succeeded, hold.status, policy) {
            PaymentHoldAction::AlreadySettled => Ok(BudgetHoldUpdate::Settled(
                SettleBudgetResponse { hold, balance: reservation.balance },
            )),
            PaymentHoldAction::Settle => {
                let settled = budget_manager.settle_budget_at(&hold.id, now);
                let ghost sg = settled;
                match settled {
                    Ok(x) => Ok(BudgetHoldUpdate::Settled(x)),
                    Err(e) => Err(SpendApprovalError::Budget(e)),
                }
            },
            PaymentHoldAction::AlreadyReleased => Ok(BudgetHoldUpdate::Released(
                ReleaseBudgetResponse { hold, balance: reservation.balance },
            )),
            PaymentHoldAction::Release => {
                let released = budget_manager.release_budget_at(&hold.id, now);
                let ghost rg = released;
                match released {
                    Ok(x) => Ok(BudgetHoldUpdate::Released(x)),
                    Err(e) => Err(SpendApprovalError::Budget(e)),
                }
            },
            PaymentHoldAction::KeepFrozen => Ok(BudgetHoldUpdate::Frozen(*reservation)),
        }
    }

    /// Release an approved spend's hold at `now` after the payment manager
    /// refused the payment outright: only a still-frozen hold is released;
    /// any other is left as it is and `None` comes back.
    pub fn release_after_payment_error_at(
        &self,
        reservation: &ReserveBudgetResponse,
        budget_manager: &mut BudgetManager,
        now: i64,
    ) -> (r: Result<Option<ReleaseBudgetResponse>, BudgetManagerError>)
        requires
            old(budget_manager).wf(),
        ensures
            final(budget_manager).wf(),
            reservation.hold.status != BudgetHoldStatus::Frozen ==> r == Ok::<Option<ReleaseBudgetResponse>, BudgetManagerError>(None)
                && final(budget_manager)@ == old(budget_manager)@,
            reservation.hold.status == BudgetHoldStatus::Frozen ==> exists|released: Result<ReleaseBudgetResponse, BudgetManagerError>|
                #[trigger] spec_release_outcome(old(budget_manager)@, reservation.hold.id, now, released, final(budget_manager)@)
                && match released {
                    Ok(x) => r == Ok::<Option<ReleaseBudgetResponse>, BudgetManagerError>(Some(x)),
                    Err(e) => r == Err::<Option<ReleaseBudgetResponse>, BudgetManagerError>(e),
                },
    {
        if !self.releases_hold_on_payment_error(reservation.hold.status) {
            return Ok(None);
        }
        let released = budget_manager.release_budget_at(&reservation.hold.id, now);
        let ghost rg = released;
        match released {
            Ok(x) => Ok(Some(x)),
            Err(e) => Err(e),
        }
    }
}

/// The request fields an outcome repeats, taken from `request`.
pub open spec fn repeats_request(
    operation_key: String, user: UserContext, agent_id: AgentId, agent_account_id: AgentAccountId,
    amount_cents: i64, currency: Currency, merchant: Option<String>, execution_scope: Option<ExecutionScope>,
    task_id: Option<String>, reason: String, lease_profile: String, request: AuthorizeSpendRequest,
) -> bool {
    &&& user == request.user
    &&& agent_id == request.agent_id
    &&& agent_account_id == request.agent_account_id
    &&& amount_cents == request.amount_cents
    &&& currency == request.currency
    &&& merchant == request.merchant
    &&& execution_scope == request.execution_scope
    &&& task_id == request.task_id
    &&& reason == request.reason
    &&& lease_profile == request.lease_profile
}

impl SpendApprovalService {
    /// A rejection of `request` with the effect and reasons given.
    pub fn rejected_from_request(
        &self,
        request: AuthorizeSpendRequest,
        evaluation: SpendEvaluationResponse,
        decision: Effect,
        reasons: Vec<String>,
    ) -> (r: RejectedSpendAuthorization)
        ensures
            r.operation_key == request.operation_key,
            repeats_request(r.operation_key, r.user, r.agent_id, r.agent_account_id, r.amount_cents, r.currency,
                r.merchant, r.execution_scope, r.task_id, r.reason, r.lease_profile, request),
            r.evaluation == evaluation,
            r.decision == decision,
            r.reasons == reasons,
    {
        RejectedSpendAuthorization {
            operation_key: request.operation_key,
            user: request.user,
            agent_id: request.agent_id,
            agent_account_id: request.agent_account_id,
            amount_cents: request.amount_cents,
            currency: request.currency,
            merchant: request.merchant,
            execution_scope: request.execution_scope,
            task_id: request.task_id,
            reason: request.reason,
            lease_profile: request.lease_profile,
            evaluation,
            decision,
            reasons,
        }
    }

    /// A denial of `request` for a budget `reason`, under the operation key
    /// of its evaluation.
    pub fn budget_rejection(
        &self,
        request: AuthorizeSpendRequest,
        evaluation: SpendEvaluationResponse,
        reason: &str,
    ) -> (r: RejectedSpendAuthorization)
        ensures
            r.operation_key == evaluation.operation_key,
            repeats_request(r.operation_key, r.user, r.agent_id, r.agent_account_id, r.amount_cents, r.currency,
                r.merchant, r.execution_scope, r.task_id, r.reason, r.lease_profile, request),
            r.evaluation.decision_id == evaluation.decision_id,
            r.evaluation.operation_key == evaluation.operation_key,
            r.decision == Effect::Deny,
            r.reasons@.len() == 1,
            r.reasons@[0]@ == reason@,
    {
        let operation_key = evaluation.operation_key.clone();
        let mut reasons: Vec<String> = Vec::new();
        reasons.push(String::from_str(reason));
        RejectedSpendAuthorization {
            operation_key,
            user: request.user,
            agent_id: request.agent_id,
            agent_account_id: request.agent_account_id,
            amount_cents: request.amount_cents,
            currency: request.currency,
            merchant: request.merchant,
            execution_scope: request.execution_scope,
            task_id: request.task_id,
            reason: request.reason,
            lease_profile: request.lease_profile,
            evaluation,
            decision: Effect::Deny,
            reasons,
        }
    }

    /// The approval of `request` with its token and reservation.
    pub fn approved(
        &self,
        request: AuthorizeSpendRequest,
        evaluation: SpendEvaluationResponse,
        token: IssuedSpendAuthToken,
        budget_reservation: ReserveBudgetResponse,
    ) -> (r: ApprovedSpendAuthorization)
        ensures
            r.operation_key == evaluation.operation_key,
            repeats_request(r.operation_key, r.user, r.agent_id, r.agent_account_id, r.amount_cents, r.currency,
                r.merchant, r.execution_scope, r.task_id, r.reason, r.lease_profile, request),
            r.evaluation.decision_id == evaluation.decision_id,
            r.token == token,
            r.budget_reservation == budget_reservation,
    {
        let operation_key = evaluation.operation_key.clone();
        ApprovedSpendAuthorization {
            operation_key,
            user: request.user,
            agent_id: request.agent_id,
            agent_account_id: request.agent_account_id,
            amount_cents: request.amount_cents,
            currency: request.currency,
            merchant: request.merchant,
            execution_scope: request.execution_scope,
            task_id: request.task_id,
            reason: request.reason,
            lease_profile: request.lease_profile,
            evaluation,
            token,
            budget_reservation,
        }
    }

    /// The authorization request a recorded decision was made for.
    pub fn authorize_request_from_decision(&self, user: UserContext, decision: &SpendDecisionRecord) -> (r: AuthorizeSpendRequest)
        ensures
            r.operation_key == decision.operation_key,
            r.user == user,
            r.agent_id == decision.request.agent_id,
            r.agent_account_id == decision.request.agent_account_id,
            r.amount_cents == decision.request.amount_cents,
            r.currency == decision.request.currency,
            r.merchant == decision.request.merchant,
            r.execution_scope == decision.request.execution_scope,
            r.task_id == decision.request.task_id,
            r.reason == decision.request.reason,
            r.lease_profile == decision.request.lease_profile,
    {
        AuthorizeSpendRequest {
            operation_key: decision.operation_key.clone(),
            user,
            agent_id: decision.request.agent_id,
            agent_account_id: decision.request.agent_account_id,
            amount_cents: decision.request.amount_cents,
            currency: decision.request.currency,
            merchant: clone_opt_string(&decision.request.merchant),
            execution_scope: clone_optional_scope(&decision.request.execution_scope),
            task_id: clone_opt_string(&decision.request.task_id),
            reason: decision.request.reason.clone(),
            lease_profile: decision.request.lease_profile.clone(),
        }
    }

    /// The evaluation response a recorded decision answers with.
    pub fn evaluation_response_for_decision(
        &self,
        decision: &SpendDecisionRecord,
        auth_token: Option<IssuedSpendAuthToken>,
        idempotent_replay: bool,
        action: SpendRetryAction,
        message: &str,
    ) -> (r: SpendEvaluationResponse)
        ensures
            r.operation_key == decision.operation_key,
            r.decision_id == decision.id,
            crate::spend::manager::same_evaluation(r.evaluation, decision.evaluation),
            r.auth_token == auth_token,
            r.idempotent_replay == idempotent_replay,
            r.revision == decision.revision,
            r.retry_guidance.action == action,
            r.retry_guidance.operation_key == decision.operation_key,
            r.retry_guidance.message@ == message@,
            r.attempt_history@.len() == 0,
    {
        SpendEvaluationResponse {
            operation_key: decision.operation_key.clone(),
            decision_id: decision.id,
            evaluation: decision.evaluation.clone(),
            auth_token,
            idempotent_replay,
            revision: decision.revision,
            retry_guidance: SpendRetryGuidance {
                action,
                operation_key: decision.operation_key.clone(),
                message: String::from_str(message),
            },
            attempt_history: Vec::new(),
        }
    }
}


/// The position of the first attempt recorded at `revision`.
pub open spec fn first_attempt_at(history: Seq<SpendAttemptAuditRecord>, revision: u64) -> Option<int> {
    if exists|i: int| 0 <= i < history.len() && (#[trigger] history[i]).revision == revision {
        Some(choose|i: int| 0 <= i < history.len() && (#[trigger] history[i]).revision == revision
            && forall|j: int| 0 <= j < i ==> (#[trigger] history[j]).revision != revision)
    } else {
        None
    }
}

impl SpendApprovalService {
    /// The first attempt of `history` recorded at `revision`.
    pub fn attempt_at_revision(&self, history: &Vec<SpendAttemptAuditRecord>, revision: u64) -> (r: Option<usize>)
        ensures
            match r {
                Some(i) => i < history@.len() && first_attempt_at(history@, revision) == Some(i as int),
                None => first_attempt_at(history@, revision) is None,
            },
    {
        let mut i: usize = 0;
        while i < history.len()
            invariant
                i <= history.len(),
                forall|j: int| 0 <= j < i ==> (#[trigger] history@[j]).revision != revision,
            decreases history.len() - i,
        {
            if history[i].revision == revision {
                proof {
                    let k = choose|k: int| 0 <= k < history@.len() && (#[trigger] history@[k]).revision == revision
                        && forall|j: int| 0 <= j < k ==> (#[trigger] history@[j]).revision != revision;
                    assert(history@[i as int].revision == revision);
                    if k < i {
                        assert(history@[k].revision != revision);
                    }
                    if k > i {
                        assert(history@[i as int].revision != revision);
                    }
                }
                return Some(i);
            }
            i = i + 1;
        }
        None
    }

    /// The decision of an attempt still waiting for a human: it must be
    /// `user`'s and need approval.
    pub fn approval_request(
        &self,
        user: &UserContext,
        approval_request_id: &SpendDecisionId,
        spend_manager: &SpendManager,
    ) -> (r: Result<SpendDecisionRecord, SpendApprovalError>)
        ensures
            match spend_manager@.decision(*approval_request_id) {
                None => r matches Err(SpendApprovalError::UnknownApprovalRequest),
                Some(d) => if d.owner_user_id != user.user_id {
                    r matches Err(SpendApprovalError::ApprovalOwnerMismatch)
                } else if d.evaluation.decision != Effect::NeedsApproval {
                    r matches Err(SpendApprovalError::UnknownApprovalRequest)
                } else {
                    r matches Ok(x) && crate::spend::manager::same_decision(x, d)
                },
            },
    {
        let decision = match spend_manager.decision_record(approval_request_id) {
            Some(d) => d,
            None => return Err(SpendApprovalError::UnknownApprovalRequest),
        };
        if decision.owner_user_id != user.user_id {
            return Err(SpendApprovalError::ApprovalOwnerMismatch);
        }
        if decision.evaluation.decision != Effect::NeedsApproval {
            return Err(SpendApprovalError::UnknownApprovalRequest);
        }
        Ok(decision)
    }
}

} // verus!
