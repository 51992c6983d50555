use chrono::Utc;
use hubu_core::approval::{
    ApprovedSpendAuthorization, AuthorizeSpendRequest, FreshAuthorizationStep, HumanApprovalDecision,
    HumanApprovalTransition, PaymentHoldAction, FailedPaymentHoldPolicy, SpendApprovalService,
    SpendAttemptAdmission, SpendApprovalError, BudgetHoldUpdate,
};
use hubu_core::budget::error::BudgetManagerError;
use hubu_core::spend::error::SpendError;
use hubu_core::budget::dto::CreateSingleBudgetRequest;
use hubu_core::budget::manager::BudgetManager;
use hubu_core::budget::model::BudgetHoldStatus;
use hubu_core::budget::state::BudgetVersionProvenance;
use hubu_core::common::{
    AgentAccountId, AgentId, Currency, SpendAuthTokenId, SpendDecisionId, TimePeriod, UserContext, UserId,
};
use hubu_core::executor_claim::{
    plan_executor_finalization, ClaimExecutorSpendRequest, ExecutorClaimLocator,
    ExecutorClaimReconciliationOutcome, ExecutorClaimService, ExecutorFinalizationAction,
    ExecutorFinalizationAuthority, ReconcileExecutorClaimRequest,
};
use hubu_core::policy::condition::{Condition, Field, PolicyValue};
use hubu_core::policy::model::{Effect, Policy, Rule};
use hubu_core::spend::manager::SpendManager;
use hubu_core::executor_claim::ExecutorClaimState;
use hubu_core::spend::model::{
    SpendAuthorizationDecision, SpendExecutorClaimStatus, SpendExecutorSettlementReceipt, SpendExecutorVendorCost,
    SpendPaymentValidationRequest, SpendRetryAction,
};

const MINUTE: i64 = 60_000_000;

fn now_micros() -> i64 {
    Utc::now().timestamp_micros()
}

fn allow_policy(owner_user_id: UserId) -> Policy {
    Policy {
        id: "test-allow-policy".to_string(),
        version: "v1".to_string(),
        owner_user_id,
        default_effect: Effect::NeedsApproval,
        rules: vec![Rule {
            id: "allow_small_spend".to_string(),
            effect: Effect::Allow,
            when: Condition::Lte { field: Field::Amount, value: PolicyValue::MoneyCents(1_000) },
            reason: "amount is within the test limit".to_string(),
        }],
    }
}

struct Harness {
    service: SpendApprovalService,
    spend_manager: SpendManager,
    budget_manager: BudgetManager,
    user: UserContext,
    agent_id: AgentId,
    account_id: AgentAccountId,
    policy: Policy,
}

impl Harness {
    fn new(budget_cents: i64) -> Self {
        let user = UserContext::new(UserId::new());
        let agent_id = AgentId::new();
        let mut budget_manager = BudgetManager::new();
        let now = now_micros();
        budget_manager
            .create_single_budget_with_provenance(
                CreateSingleBudgetRequest {
                    agent_id,
                    amount_limit_cents: budget_cents,
                    currency: Currency::Usd,
                    period: TimePeriod::new(now - MINUTE, Some(now + 120 * MINUTE)).unwrap(),
                },
                BudgetVersionProvenance::default(),
            )
            .expect("budget should create");
        Harness {
            service: SpendApprovalService,
            spend_manager: SpendManager::new(),
            budget_manager,
            user,
            agent_id,
            account_id: AgentAccountId::new(),
            policy: allow_policy(user.user_id),
        }
    }

    fn request(&self, amount_cents: i64) -> AuthorizeSpendRequest {
        AuthorizeSpendRequest {
            operation_key: "test-operation".to_string(),
            user: self.user,
            agent_id: self.agent_id,
            agent_account_id: self.account_id,
            amount_cents,
            currency: Currency::Usd,
            merchant: Some("Acme Cafe".to_string()),
            execution_scope: None,
            task_id: Some("task-123".to_string()),
            reason: "Test authorization".to_string(),
            lease_profile: "default".to_string(),
        }
    }

    /// A first attempt under the operation key, evaluated and, when
    /// allowed, reserved.
    fn authorize(&mut self, amount_cents: i64) -> (AuthorizeSpendRequest, hubu_core::spend::model::SpendEvaluationResponse, FreshAuthorizationStep) {
        let request = self.request(amount_cents);
        let spend_request = self.service.spend_request(&request).unwrap();
        let now = now_micros();
        let actor = self.user.user_id.to_uuid_string();
        let evaluation = self
            .service
            .evaluate_admitted_at(
                SpendAttemptAdmission::Admitted { revision: 1 },
                &self.user,
                "test-operation",
                spend_request,
                &actor,
                &self.policy,
                &mut self.spend_manager,
                SpendDecisionId::new(),
                SpendAuthTokenId::new(),
                now,
            )
            .expect("evaluation should succeed");
        let step = self
            .service
            .fresh_authorization_at(&request, &evaluation, &mut self.spend_manager, &mut self.budget_manager, now)
            .expect("authorization should not error");
        (request, evaluation, step)
    }

    fn approve(&mut self, amount_cents: i64) -> ApprovedSpendAuthorization {
        let (request, evaluation, step) = self.authorize(amount_cents);
        match step {
            FreshAuthorizationStep::Reserved { token, reservation } => {
                self.service.approved(request, evaluation, token, reservation)
            }
            other => panic!("expected approval, got {other:?}"),
        }
    }
}

#[test]
fn authorizes_and_persists_token_and_hold_without_http() {
    let mut harness = Harness::new(1_000);
    let authorization = harness.approve(500);

    assert_eq!(authorization.amount_cents, 500);
    assert_eq!(authorization.budget_reservation.balance.frozen_amount_cents, 500);
    assert_eq!(harness.spend_manager.token_count(), 1);
    let hold = harness
        .budget_manager
        .get_budget_hold_by_spend_decision(&authorization.evaluation.decision_id)
        .expect("hold should be reserved");
    assert_eq!(hold.status, BudgetHoldStatus::Frozen);
    assert_eq!(hold.amount_cents, 500);
    assert_eq!(authorization.auth_token_id(), authorization.token.id.to_uuid_string());
}

#[test]
fn insufficient_budget_returns_structured_rejection_without_holds() {
    let mut harness = Harness::new(400);
    let (request, evaluation, step) = harness.authorize(500);
    assert!(matches!(step, FreshAuthorizationStep::InsufficientBudget));
    let decision_id = evaluation.decision_id;
    let rejection = harness.service.budget_rejection(request, evaluation, "budget does not have enough remaining balance");

    assert_eq!(rejection.decision, Effect::Deny);
    assert_eq!(rejection.reasons, vec!["budget does not have enough remaining balance".to_string()]);
    assert!(harness.budget_manager.get_budget_hold_by_spend_decision(&decision_id).is_none());
    assert_eq!(harness.spend_manager.token_count(), 0);
}

#[test]
fn non_positive_amount_is_refused_before_evaluation() {
    let harness = Harness::new(1_000);
    assert!(matches!(
        harness.service.spend_request(&harness.request(0)),
        Err(SpendApprovalError::NonPositiveAmount)
    ));
}

#[test]
fn policy_denial_and_pending_approval_reserve_nothing() {
    let mut harness = Harness::new(1_000);
    harness.policy.default_effect = Effect::Deny;
    let (_, _, step) = harness.authorize(5_000);
    assert!(matches!(step, FreshAuthorizationStep::Denied));

    let mut harness = Harness::new(10_000);
    let (_, evaluation, step) = harness.authorize(5_000);
    assert!(matches!(step, FreshAuthorizationStep::PendingApproval));
    assert!(harness.budget_manager.get_budget_hold_by_spend_decision(&evaluation.decision_id).is_none());
}

#[test]
fn changed_scope_retry_is_rejected_without_evaluation() {
    let mut harness = Harness::new(1_000);
    let request = harness.request(500);
    let spend_request = harness.service.spend_request(&request).unwrap();
    let result = harness.service.evaluate_admitted_at(
        SpendAttemptAdmission::ChangedScopeBlocked,
        &harness.user,
        "test-operation",
        spend_request,
        "actor",
        &harness.policy,
        &mut harness.spend_manager,
        SpendDecisionId::new(),
        SpendAuthTokenId::new(),
        now_micros(),
    );
    match result {
        Err(SpendApprovalError::ChangedScopeRetryRejected { operation_key }) => assert_eq!(operation_key, "test-operation"),
        other => panic!("expected a changed-scope rejection, got {other:?}"),
    }
    assert_eq!(harness.spend_manager.decision_count(), 0);
}

#[test]
fn human_approval_transitions_follow_the_recorded_decision() {
    let service = SpendApprovalService;
    assert!(matches!(
        service.human_approval_transition(SpendAuthorizationDecision::Allowed, HumanApprovalDecision::Deny),
        HumanApprovalTransition::AlreadyResolved { current: "approved", requested: "denied" }
    ));
    assert!(matches!(
        service.human_approval_transition(SpendAuthorizationDecision::Denied, HumanApprovalDecision::Approve),
        HumanApprovalTransition::AlreadyResolved { current: "denied", requested: "approved" }
    ));
    assert!(matches!(
        service.human_approval_transition(SpendAuthorizationDecision::Allowed, HumanApprovalDecision::Approve),
        HumanApprovalTransition::Reauthorize
    ));
    assert!(matches!(
        service.human_approval_transition(SpendAuthorizationDecision::PendingApproval, HumanApprovalDecision::Deny),
        HumanApprovalTransition::DenyPending
    ));
    assert!(matches!(
        service.human_approval_transition(SpendAuthorizationDecision::PendingApproval, HumanApprovalDecision::Approve),
        HumanApprovalTransition::ApprovePending
    ));
}

#[test]
fn payment_hold_actions_follow_the_rail_answer_and_policy() {
    let service = SpendApprovalService;
    assert_eq!(
        service.payment_hold_action(true, BudgetHoldStatus::Frozen, FailedPaymentHoldPolicy::Release),
        PaymentHoldAction::Settle
    );
    assert_eq!(
        service.payment_hold_action(true, BudgetHoldStatus::Settled, FailedPaymentHoldPolicy::Release),
        PaymentHoldAction::AlreadySettled
    );
    assert_eq!(
        service.payment_hold_action(false, BudgetHoldStatus::Frozen, FailedPaymentHoldPolicy::Release),
        PaymentHoldAction::Release
    );
    assert_eq!(
        service.payment_hold_action(false, BudgetHoldStatus::Released, FailedPaymentHoldPolicy::Release),
        PaymentHoldAction::AlreadyReleased
    );
    assert_eq!(
        service.payment_hold_action(false, BudgetHoldStatus::Frozen, FailedPaymentHoldPolicy::KeepFrozenForRetry),
        PaymentHoldAction::KeepFrozen
    );
}

#[test]
fn reuse_guidance_gives_way_when_changing_scope_is_unsafe() {
    let service = SpendApprovalService;
    let message = "this attempt was denied; reuse this operation key with corrected scope";
    let kept = service.retry_guidance(SpendRetryAction::ReuseOperationKey, message, "op", true, false);
    assert_eq!(kept.action, SpendRetryAction::ReuseOperationKey);
    assert_eq!(kept.message, message);
    assert_eq!(kept.operation_key, "op");
    let fresh = service.retry_guidance(SpendRetryAction::ReuseOperationKey, message, "op", false, false);
    assert_eq!(fresh.action, SpendRetryAction::CreateNewOperation);
    assert_eq!(fresh.message, "this operation has side-effect-capable history; create a new operation key");
    let replay = service.retry_guidance(SpendRetryAction::ReuseOperationKey, message, "op", false, true);
    assert_eq!(replay.action, SpendRetryAction::ReplayExactly);
    assert_eq!(replay.message, "replay this exact immutable scope; changed scope requires a new operation key");
}

#[test]
fn claim_service_reconciliation_can_release_unbilled_claim() {
    let mut harness = Harness::new(1_000);
    let authorization = harness.approve(500);
    let service = ExecutorClaimService;
    let claim = service
        .claim_at(
            ClaimExecutorSpendRequest {
                authorization: SpendPaymentValidationRequest {
                    spend_auth_token_id: authorization.token.id,
                    owner_user_id: harness.user.user_id,
                    agent_id: harness.agent_id,
                    agent_account_id: harness.account_id,
                    amount_cents: authorization.amount_cents,
                    currency: authorization.currency,
                    merchant: authorization.merchant.clone(),
                    execution_scope: authorization.execution_scope.clone(),
                    task_id: authorization.task_id.clone(),
                },
                operation_key: authorization.operation_key.clone(),
            },
            hubu_core::common::SpendExecutorClaimId::new(),
            now_micros(),
            &mut harness.spend_manager,
            &mut harness.budget_manager,
        )
        .expect("claim should succeed");
    assert_eq!(claim.budget_hold.status, BudgetHoldStatus::Claimed);
    let after_expiry = claim.claim.expires_at + 1_000_000;

    let pending = service
        .list_requiring_reconciliation(&harness.user.user_id, after_expiry, &harness.spend_manager, &harness.budget_manager)
        .expect("reconciliation queue should load");
    assert_eq!(pending.len(), 1);
    assert_eq!(pending[0].claim.id, claim.claim.id);

    let request = ReconcileExecutorClaimRequest {
        claim_id: claim.claim.id,
        owner_user_id: harness.user.user_id,
        provider_reference: "vendor-search-456".to_string(),
        evidence: "billing search found no charge".to_string(),
        outcome: ExecutorClaimReconciliationOutcome::VendorDidNotBill,
        receipt: None,
    };
    let evidence = service.check_reconciliation(&request).expect("evidence should be accepted");
    let finalization = plan_executor_finalization(
        &harness.user.user_id,
        &ExecutorClaimLocator::ClaimId(claim.claim.id),
        ExecutorFinalizationAction::Release,
        ExecutorFinalizationAuthority::Reconciliation {
            provider_reference: evidence.provider_reference,
            evidence: evidence.evidence,
            reconciled_by_user_id: harness.user.user_id,
        },
        after_expiry,
        Some(claim.claim.clone()),
        Some(claim.token),
        Some(claim.budget_hold),
        Some(claim.budget_balance),
        None,
    )
    .expect("expired claim should release");
    let reconciled = service
        .apply_finalization(finalization, &mut harness.spend_manager, &mut harness.budget_manager)
        .expect("released claim should load");

    assert_eq!(reconciled.claim.status, SpendExecutorClaimStatus::Released);
    assert!(reconciled.token.revoked_at.is_some());
    assert_eq!(reconciled.budget_balance.remaining_amount_cents, 1_000);
    assert_eq!(reconciled.claim.provider_reference.as_deref(), Some("vendor-search-456"));

    let authority = || ExecutorFinalizationAuthority::Reconciliation {
        provider_reference: "vendor-search-456".to_string(),
        evidence: "billing search found no charge".to_string(),
        reconciled_by_user_id: harness.user.user_id,
    };
    let replay = plan_executor_finalization(
        &harness.user.user_id,
        &ExecutorClaimLocator::ClaimId(claim.claim.id),
        ExecutorFinalizationAction::Release,
        authority(),
        after_expiry + 1_000_000,
        Some(reconciled.claim.clone()),
        Some(reconciled.token),
        Some(reconciled.budget_hold),
        Some(reconciled.budget_balance),
        None,
    )
    .expect("a repeated release replays");
    assert!(replay.idempotent_replay);
    assert_eq!(replay.balance, reconciled.budget_balance);
    let settle = plan_executor_finalization(
        &harness.user.user_id,
        &ExecutorClaimLocator::ClaimId(claim.claim.id),
        ExecutorFinalizationAction::Settle(hubu_core::common::PaymentId::new()),
        authority(),
        after_expiry,
        Some(reconciled.claim.clone()),
        Some(reconciled.token),
        Some(reconciled.budget_hold),
        Some(reconciled.budget_balance),
        Some(settlement_receipt(400)),
    );
    match settle {
        Err(hubu_core::storage::StorageError::InvalidData(message)) => {
            assert_eq!(message, "executor claim has already been released")
        }
        other => panic!("expected a refusal, got {other:?}"),
    }
}

fn settlement_receipt(actual_vendor_cost_cents: i64) -> SpendExecutorSettlementReceipt {
    SpendExecutorSettlementReceipt {
        actual_vendor_cost: SpendExecutorVendorCost { amount: actual_vendor_cost_cents, scale: 2, currency: Currency::Usd },
        provider_request_id: "provider-request-123".to_string(),
        price_model_snapshot: format!(
            r#"{{"provider":"example-image-provider","model":"image-model-v1","unit_price_cents":{actual_vendor_cost_cents},"pricing_unit":"image","currency":"usd"}}"#
        ),
        artifact_reference: "artifact://hubu-logo.png".to_string(),
    }
}

fn claimed(harness: &mut Harness, authorization: &ApprovedSpendAuthorization) -> ExecutorClaimState {
    ExecutorClaimService
        .claim_at(
            ClaimExecutorSpendRequest {
                authorization: SpendPaymentValidationRequest {
                    spend_auth_token_id: authorization.token.id,
                    owner_user_id: harness.user.user_id,
                    agent_id: harness.agent_id,
                    agent_account_id: harness.account_id,
                    amount_cents: authorization.amount_cents,
                    currency: authorization.currency,
                    merchant: authorization.merchant.clone(),
                    execution_scope: authorization.execution_scope.clone(),
                    task_id: authorization.task_id.clone(),
                },
                operation_key: authorization.operation_key.clone(),
            },
            hubu_core::common::SpendExecutorClaimId::new(),
            now_micros(),
            &mut harness.spend_manager,
            &mut harness.budget_manager,
        )
        .expect("claim should succeed")
}

#[test]
fn claim_service_owns_claim_creation_lookup_and_executor_settlement() {
    let mut harness = Harness::new(1_000);
    let authorization = harness.approve(500);
    let service = ExecutorClaimService;
    let claim = claimed(&mut harness, &authorization);
    assert_eq!(claim.budget_hold.status, BudgetHoldStatus::Claimed);
    assert_eq!(harness.spend_manager.executor_claim_records_for_owner(&harness.user.user_id).len(), 1);
    let found = service
        .get(&claim.claim.id, &harness.user.user_id, &harness.spend_manager, &harness.budget_manager)
        .expect("claim should be found");
    assert_eq!(found.claim.id, claim.claim.id);

    let finalization = plan_executor_finalization(
        &harness.user.user_id,
        &ExecutorClaimLocator::Operation { agent_id: harness.agent_id, operation_key: authorization.operation_key.clone() },
        ExecutorFinalizationAction::Settle(hubu_core::common::PaymentId::new()),
        ExecutorFinalizationAuthority::Executor,
        now_micros(),
        Some(claim.claim.clone()),
        Some(claim.token),
        Some(claim.budget_hold),
        Some(claim.budget_balance),
        Some(settlement_receipt(400)),
    )
    .expect("active claim should settle");
    let settled = service
        .apply_finalization(finalization, &mut harness.spend_manager, &mut harness.budget_manager)
        .expect("settled claim should load");
    assert_eq!(settled.claim.status, SpendExecutorClaimStatus::Settled);
    assert!(settled.token.used_at.is_some());
    assert_eq!(settled.budget_balance.consumed_amount_cents, 400);
    assert_eq!(settled.budget_balance.remaining_amount_cents, 600);
    let receipt = settled.settlement_receipt.as_ref().expect("receipt should be returned");
    assert_eq!(receipt.authorized_max_cents, 500);
    assert_eq!(receipt.budget_charge_cents, 400);
    assert_eq!(receipt.released_amount_cents, 100);
    assert_eq!(receipt.overrun_amount_cents, 0);
}

#[test]
fn claim_service_lists_and_reconciles_expired_claims() {
    let mut harness = Harness::new(1_000);
    let authorization = harness.approve(500);
    let service = ExecutorClaimService;
    let claim = claimed(&mut harness, &authorization);
    let after_expiry = claim.claim.expires_at + 1_000_000;

    let pending = service
        .list_requiring_reconciliation(&harness.user.user_id, after_expiry, &harness.spend_manager, &harness.budget_manager)
        .expect("reconciliation queue should load");
    assert_eq!(pending.len(), 1);
    assert_eq!(pending[0].claim.id, claim.claim.id);

    let request = ReconcileExecutorClaimRequest {
        claim_id: claim.claim.id,
        owner_user_id: harness.user.user_id,
        provider_reference: " vendor-charge-123 ".to_string(),
        evidence: " provider export confirms billing ".to_string(),
        outcome: ExecutorClaimReconciliationOutcome::VendorBilled,
        receipt: Some(settlement_receipt(400)),
    };
    let evidence = service.check_reconciliation(&request).expect("evidence should be accepted");
    let finalization = plan_executor_finalization(
        &harness.user.user_id,
        &ExecutorClaimLocator::ClaimId(claim.claim.id),
        ExecutorFinalizationAction::Settle(hubu_core::common::PaymentId::new()),
        ExecutorFinalizationAuthority::Reconciliation {
            provider_reference: evidence.provider_reference,
            evidence: evidence.evidence,
            reconciled_by_user_id: harness.user.user_id,
        },
        after_expiry,
        Some(claim.claim.clone()),
        Some(claim.token),
        Some(claim.budget_hold),
        Some(claim.budget_balance),
        request.receipt,
    )
    .expect("expired claim should reconcile");
    let reconciled = service
        .apply_finalization(finalization, &mut harness.spend_manager, &mut harness.budget_manager)
        .expect("reconciled claim should load");
    assert_eq!(reconciled.claim.status, SpendExecutorClaimStatus::Settled);
    assert_eq!(reconciled.claim.provider_reference.as_deref(), Some("vendor-charge-123"));
    assert_eq!(reconciled.claim.reconciliation_evidence.as_deref(), Some("provider export confirms billing"));
    assert_eq!(reconciled.budget_balance.consumed_amount_cents, 400);
    assert_eq!(reconciled.budget_balance.remaining_amount_cents, 600);

    let pending = service
        .list_requiring_reconciliation(&harness.user.user_id, after_expiry, &harness.spend_manager, &harness.budget_manager)
        .expect("reconciliation queue should reload");
    assert!(pending.is_empty());
}

#[test]
fn settlement_charges_an_overrun_and_needs_a_receipt() {
    let mut harness = Harness::new(1_000);
    let authorization = harness.approve(500);
    let claim = claimed(&mut harness, &authorization);
    let plan = |receipt| {
        plan_executor_finalization(
            &harness.user.user_id,
            &ExecutorClaimLocator::ClaimId(claim.claim.id),
            ExecutorFinalizationAction::Settle(hubu_core::common::PaymentId(7)),
            ExecutorFinalizationAuthority::Executor,
            claim.claim.claimed_at,
            Some(claim.claim.clone()),
            Some(claim.token),
            Some(claim.budget_hold),
            Some(claim.budget_balance),
            receipt,
        )
    };
    let over = plan(Some(settlement_receipt(650))).expect("an overrun still settles");
    assert_eq!(over.balance.consumed_amount_cents, 650);
    assert_eq!(over.balance.frozen_amount_cents, 0);
    assert_eq!(over.balance.remaining_amount_cents, 350);
    let receipt = over.receipt.expect("receipt should be returned");
    assert_eq!(receipt.overrun_amount_cents, 150);
    assert_eq!(receipt.released_amount_cents, 0);
    match plan(None) {
        Err(hubu_core::storage::StorageError::InvalidData(m)) => assert_eq!(m, "settlement receipt is required"),
        other => panic!("expected a refusal, got {other:?}"),
    }
    let mut negative = settlement_receipt(1);
    negative.actual_vendor_cost.amount = -1;
    match plan(Some(negative)) {
        Err(hubu_core::storage::StorageError::InvalidData(m)) => assert_eq!(m, "actual vendor cost cannot be negative"),
        other => panic!("expected a refusal, got {other:?}"),
    }
}

#[test]
fn approving_a_pending_spend_issues_its_token_and_reserves_the_amount() {
    let mut harness = Harness::new(10_000);
    let (_, evaluation, step) = harness.authorize(5_000);
    assert!(matches!(step, FreshAuthorizationStep::PendingApproval));
    assert_eq!(harness.spend_manager.token_count(), 0);

    let (token, record, reservation) = harness
        .service
        .approve_pending_at(
            &evaluation.decision_id,
            &mut harness.spend_manager,
            &mut harness.budget_manager,
            SpendAuthTokenId::new(),
            now_micros(),
        )
        .expect("the pending spend should be approved");

    assert_eq!(record.id, token.id);
    assert_eq!(record.spend_decision_id, evaluation.decision_id);
    assert_eq!(harness.spend_manager.token_count(), 1);
    assert_eq!(reservation.hold.amount_cents, 5_000);
    assert_eq!(reservation.hold.spend_decision_id, evaluation.decision_id);
    assert_eq!(reservation.hold.expires_at, token.expires_at);
    assert_eq!(reservation.balance.frozen_amount_cents, 5_000);
    assert_eq!(reservation.balance.remaining_amount_cents, 5_000);
}

#[test]
fn approving_a_pending_spend_without_enough_budget_withdraws_the_token() {
    let mut harness = Harness::new(4_000);
    let (_, evaluation, step) = harness.authorize(5_000);
    assert!(matches!(step, FreshAuthorizationStep::PendingApproval));

    let result = harness.service.approve_pending_at(
        &evaluation.decision_id,
        &mut harness.spend_manager,
        &mut harness.budget_manager,
        SpendAuthTokenId::new(),
        now_micros(),
    );

    assert!(matches!(
        result,
        Err(SpendApprovalError::Budget(BudgetManagerError::InsufficientRemainingBudget))
    ));
    assert_eq!(harness.spend_manager.token_count(), 0);
    assert!(harness.budget_manager.get_budget_hold_by_spend_decision(&evaluation.decision_id).is_none());
}

#[test]
fn approving_an_unknown_decision_changes_nothing() {
    let mut harness = Harness::new(10_000);
    let result = harness.service.approve_pending_at(
        &SpendDecisionId::new(),
        &mut harness.spend_manager,
        &mut harness.budget_manager,
        SpendAuthTokenId::new(),
        now_micros(),
    );
    assert!(matches!(result, Err(SpendApprovalError::Spend(SpendError::MissingSpendDecision))));
    assert_eq!(harness.spend_manager.token_count(), 0);
}

#[test]
fn withdrawing_an_approval_releases_its_hold_and_token() {
    let mut harness = Harness::new(10_000);
    let (_, evaluation, _) = harness.authorize(5_000);
    let (_, _, reservation) = harness
        .service
        .approve_pending_at(
            &evaluation.decision_id,
            &mut harness.spend_manager,
            &mut harness.budget_manager,
            SpendAuthTokenId::new(),
            now_micros(),
        )
        .unwrap();

    harness.service.withdraw_approval_at(
        &evaluation.decision_id,
        &reservation.hold.id,
        &mut harness.spend_manager,
        &mut harness.budget_manager,
        now_micros(),
    );

    assert_eq!(harness.spend_manager.token_count(), 0);
    let hold = harness.budget_manager.get_budget_hold(&reservation.hold.id).unwrap();
    assert_eq!(hold.status, BudgetHoldStatus::Released);
    let balance = harness.budget_manager.get_budget_balance(&hold.budget_id).unwrap();
    assert_eq!(balance.frozen_amount_cents, 0);
    assert_eq!(balance.remaining_amount_cents, 10_000);
}

#[test]
fn payment_answers_settle_release_or_keep_the_hold() {
    let mut harness = Harness::new(1_000);
    let authorization = harness.approve(500);
    let reservation = authorization.budget_reservation;
    let now = now_micros();

    match harness
        .service
        .apply_payment_outcome_at(&reservation, false, FailedPaymentHoldPolicy::KeepFrozenForRetry, &mut harness.budget_manager, now)
        .unwrap()
    {
        BudgetHoldUpdate::Frozen(kept) => assert_eq!(kept.hold.id, reservation.hold.id),
        other => panic!("expected the hold kept frozen, got {other:?}"),
    }

    match harness
        .service
        .apply_payment_outcome_at(&reservation, true, FailedPaymentHoldPolicy::Release, &mut harness.budget_manager, now)
        .unwrap()
    {
        BudgetHoldUpdate::Settled(settled) => {
            assert_eq!(settled.hold.status, BudgetHoldStatus::Settled);
            assert_eq!(settled.balance.consumed_amount_cents, 500);
            assert_eq!(settled.balance.frozen_amount_cents, 0);
            assert_eq!(settled.balance.remaining_amount_cents, 500);
        }
        other => panic!("expected a settlement, got {other:?}"),
    }
    let settled_again = harness
        .service
        .apply_payment_outcome_at(&reservation, false, FailedPaymentHoldPolicy::Release, &mut harness.budget_manager, now);
    assert!(matches!(settled_again, Err(SpendApprovalError::Budget(_))));
}

#[test]
fn a_failed_payment_releases_the_hold_under_the_release_policy() {
    let mut harness = Harness::new(1_000);
    let authorization = harness.approve(500);
    let reservation = authorization.budget_reservation;

    match harness
        .service
        .apply_payment_outcome_at(&reservation, false, FailedPaymentHoldPolicy::Release, &mut harness.budget_manager, now_micros())
        .unwrap()
    {
        BudgetHoldUpdate::Released(released) => {
            assert_eq!(released.hold.status, BudgetHoldStatus::Released);
            assert_eq!(released.balance.frozen_amount_cents, 0);
            assert_eq!(released.balance.remaining_amount_cents, 1_000);
        }
        other => panic!("expected a release, got {other:?}"),
    }
}

#[test]
fn a_refused_payment_releases_only_a_frozen_hold() {
    let mut harness = Harness::new(1_000);
    let authorization = harness.approve(500);
    let reservation = authorization.budget_reservation;

    let released = harness
        .service
        .release_after_payment_error_at(&reservation, &mut harness.budget_manager, now_micros())
        .unwrap()
        .expect("a frozen hold is released");
    assert_eq!(released.hold.status, BudgetHoldStatus::Released);
    assert_eq!(released.balance.remaining_amount_cents, 1_000);

    let mut finalized = reservation;
    finalized.hold.status = BudgetHoldStatus::Released;
    let again = harness
        .service
        .release_after_payment_error_at(&finalized, &mut harness.budget_manager, now_micros())
        .unwrap();
    assert!(again.is_none());
}
