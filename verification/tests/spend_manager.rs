use chrono::Utc;
use hubu_core::common::{AgentAccountId, AgentId, Currency, PaymentId, UserContext, UserId};
use hubu_core::policy::condition::{Condition, Field, PolicyValue};
use hubu_core::policy::model::{Effect, Policy, Rule};
use hubu_core::spend::error::SpendError;
use hubu_core::spend::manager::SpendManager;
use hubu_core::spend::model::{
    LeaseConfig, LeaseProfile, SpendExecutorClaimRequest, SpendExecutorClaimValidationRequest,
    SpendPaymentValidationRequest, SpendRequest,
};

fn spend_request(amount_cents: i64) -> SpendRequest {
    SpendRequest {
        amount_cents,
        currency: Currency::Usd,
        owner_user_id: test_user_id(),
        agent_id: AgentId::new(),
        agent_account_id: AgentAccountId::new(),
        merchant: Some("Acme Cafe".to_string()),
        execution_scope: None,
        category: Some("meals".to_string()),
        task_id: Some("task_123".to_string()),
        reason: "Team lunch".to_string(),
        lease_profile: "default".to_string(),
    }
}

fn policy(default_effect: Effect, rules: Vec<Rule>) -> Policy {
    Policy {
        id: "base_spending_policy".to_string(),
        version: "2026-05-22.1".to_string(),
        owner_user_id: test_user_id(),
        rules,
        default_effect,
    }
}

fn test_user_id() -> UserId {
    UserId(0x0000_0000_0000_4000_8000_0000_0000_0123)
}

fn user_context() -> UserContext {
    UserContext::new(test_user_id())
}

fn amount_rule(id: &str, effect: Effect, limit_cents: i64) -> Rule {
    Rule {
        id: id.to_string(),
        effect,
        when: Condition::Lte { field: Field::Amount, value: PolicyValue::MoneyCents(limit_cents) },
        reason: format!("{id} matched"),
    }
}

fn payment_for(request: &SpendRequest, token_id: hubu_core::common::SpendAuthTokenId) -> SpendPaymentValidationRequest {
    SpendPaymentValidationRequest {
        spend_auth_token_id: token_id,
        owner_user_id: request.owner_user_id,
        agent_id: request.agent_id,
        agent_account_id: request.agent_account_id,
        amount_cents: request.amount_cents,
        currency: request.currency,
        merchant: request.merchant.clone(),
        execution_scope: request.execution_scope.clone(),
        task_id: request.task_id.clone(),
    }
}

fn now_micros() -> i64 {
    Utc::now().timestamp_micros()
}

#[test]
fn allow_decision_stores_decision_and_issues_auth_token() {
    let mut manager = SpendManager::new();
    let request = spend_request(2_500);
    let policy = policy(Effect::NeedsApproval, vec![amount_rule("allow_small_spend", Effect::Allow, 5_000)]);
    let before = now_micros();

    let response = manager
        .evaluate_spend(&user_context(), "test-job", request.clone(), &policy)
        .expect("spend evaluation should succeed");

    assert_eq!(response.evaluation.decision, Effect::Allow);
    assert_eq!(manager.decision_count(), 1);
    assert_eq!(manager.token_count(), 1);

    let decision_record = manager.decision_record(&response.decision_id).expect("decision record should be stored");
    assert_eq!(decision_record.id, response.decision_id);
    assert_eq!(decision_record.owner_user_id, test_user_id());
    assert_eq!(decision_record.request.task_id, request.task_id);
    assert_eq!(decision_record.evaluation.decision, Effect::Allow);

    let token = response.auth_token.expect("allow decision should issue auth token");
    assert!(token.expires_at > before);

    let token_record = manager.auth_token_record(&token.id).expect("auth token record should be stored");
    assert_eq!(token_record.id, token.id);
    assert_eq!(token_record.owner_user_id, test_user_id());
    assert_eq!(token_record.spend_decision_id, response.decision_id);
    assert_eq!(token_record.expires_at, token.expires_at);
    assert_eq!(token_record.used_at, None);
    assert_eq!(token_record.used_by_payment_id, None);
    assert_eq!(token_record.revoked_at, None);
}

#[test]
fn authorization_operation_replays_historical_scope_and_tracks_new_revision() {
    let mut manager = SpendManager::new();
    let request = spend_request(2_500);
    let policy = policy(Effect::Allow, Vec::new());

    let first = manager
        .evaluate_spend(&user_context(), "stable-job-1", request.clone(), &policy)
        .expect("first authorization should evaluate");
    let retry = manager
        .evaluate_spend(&user_context(), " stable-job-1 ", request.clone(), &policy)
        .expect("same operation and scope should replay");

    assert!(!first.idempotent_replay);
    assert!(retry.idempotent_replay);
    assert_eq!(retry.operation_key, "stable-job-1");
    assert_eq!(retry.decision_id, first.decision_id);
    assert_eq!(retry.auth_token.as_ref().map(|token| &token.id), first.auth_token.as_ref().map(|token| &token.id));
    assert_eq!(manager.decision_count(), 1);
    assert_eq!(manager.token_count(), 1);

    let mut changed = request.clone();
    changed.amount_cents += 1;
    let corrected = manager
        .evaluate_spend(&user_context(), "stable-job-1", changed, &policy)
        .expect("storage admission, not the process-local manager, governs corrected scope");
    assert_eq!(corrected.revision, 2);
    assert_eq!(manager.decision_count(), 2);
    assert_eq!(manager.token_count(), 2);

    let historical = manager
        .evaluate_spend(&user_context(), "stable-job-1", request, &policy)
        .expect("the original immutable scope remains replayable");
    assert!(historical.idempotent_replay);
    assert_eq!(historical.decision_id, first.decision_id);
}

#[test]
fn different_agents_can_reuse_the_same_operation_key() {
    let mut manager = SpendManager::new();
    let first_request = spend_request(2_500);
    let mut second_request = first_request.clone();
    second_request.agent_id = AgentId::new();
    second_request.agent_account_id = AgentAccountId::new();
    let policy = policy(Effect::Allow, Vec::new());

    let first = manager
        .evaluate_spend(&user_context(), "agent-local-job-1", first_request, &policy)
        .expect("first agent should authorize its operation");
    let second = manager
        .evaluate_spend(&user_context(), "agent-local-job-1", second_request, &policy)
        .expect("second agent should reuse the local operation key");

    assert_ne!(first.decision_id, second.decision_id);
    assert!(!first.idempotent_replay);
    assert!(!second.idempotent_replay);
    assert_eq!(manager.decision_count(), 2);
    assert_eq!(manager.token_count(), 2);
}

#[test]
fn validates_auth_token_when_payment_matches_authorized_spend() {
    let mut manager = SpendManager::new();
    let request = spend_request(2_500);
    let policy = policy(Effect::NeedsApproval, vec![amount_rule("allow_small_spend", Effect::Allow, 5_000)]);
    let evaluation = manager
        .evaluate_spend(&user_context(), "test-job", request.clone(), &policy)
        .expect("spend evaluation should succeed");
    let token = evaluation.auth_token.expect("allow decision should issue auth token");

    let validation = manager
        .validate_auth_token_for_payment(&payment_for(&request, token.id))
        .expect("matching payment should validate");

    assert_eq!(validation.owner_user_id, test_user_id());
    assert_eq!(validation.spend_auth_token_id, token.id);
    assert_eq!(validation.spend_decision_id, evaluation.decision_id);
}

#[test]
fn rejects_auth_token_when_payment_amount_differs_from_authorized_spend() {
    let mut manager = SpendManager::new();
    let request = spend_request(2_500);
    let policy = policy(Effect::NeedsApproval, vec![amount_rule("allow_small_spend", Effect::Allow, 5_000)]);
    let evaluation = manager
        .evaluate_spend(&user_context(), "test-job", request.clone(), &policy)
        .expect("spend evaluation should succeed");
    let token = evaluation.auth_token.expect("allow decision should issue auth token");

    let mut payment = payment_for(&request, token.id);
    payment.amount_cents = request.amount_cents + 1;
    let error =
        manager.validate_auth_token_for_payment(&payment).err().expect("mismatched amount should fail validation");

    assert!(matches!(error, SpendError::PaymentRequestMismatch));
}

#[test]
fn rejects_auth_token_when_payment_account_differs_from_authorized_spend() {
    let mut manager = SpendManager::new();
    let request = spend_request(2_500);
    let policy = policy(Effect::NeedsApproval, vec![amount_rule("allow_small_spend", Effect::Allow, 5_000)]);
    let evaluation = manager
        .evaluate_spend(&user_context(), "test-job", request.clone(), &policy)
        .expect("spend evaluation should succeed");
    let token = evaluation.auth_token.expect("allow decision should issue auth token");

    let mut payment = payment_for(&request, token.id);
    payment.agent_account_id = AgentAccountId::new();
    let error =
        manager.validate_auth_token_for_payment(&payment).err().expect("mismatched account should fail validation");

    assert!(matches!(error, SpendError::PaymentRequestMismatch));
}

#[test]
fn used_auth_token_cannot_validate_again() {
    let mut manager = SpendManager::new();
    let request = spend_request(2_500);
    let policy = policy(Effect::NeedsApproval, vec![amount_rule("allow_small_spend", Effect::Allow, 5_000)]);
    let evaluation = manager
        .evaluate_spend(&user_context(), "test-job", request.clone(), &policy)
        .expect("spend evaluation should succeed");
    let token = evaluation.auth_token.expect("allow decision should issue auth token");

    manager.mark_auth_token_used(&token.id, PaymentId::new()).expect("token should be marked used");

    let error = manager
        .validate_auth_token_for_payment(&payment_for(&request, token.id))
        .err()
        .expect("used token should fail validation");

    assert!(matches!(error, SpendError::UsedSpendAuthToken));
}

#[test]
fn non_allow_decision_stores_decision_without_issuing_auth_token() {
    let mut manager = SpendManager::new();
    let request = spend_request(8_000);
    let policy = policy(Effect::NeedsApproval, vec![amount_rule("allow_small_spend", Effect::Allow, 5_000)]);

    let response =
        manager.evaluate_spend(&user_context(), "test-job", request, &policy).expect("spend evaluation should succeed");

    assert_eq!(response.evaluation.decision, Effect::NeedsApproval);
    assert!(response.auth_token.is_none());
    assert_eq!(manager.decision_count(), 1);
    assert_eq!(manager.token_count(), 0);
    assert!(manager.decision_record(&response.decision_id).is_some());
}

#[test]
fn invalid_policy_returns_error_without_storing_state() {
    let mut manager = SpendManager::new();
    let request = spend_request(2_500);
    let policy = Policy {
        id: String::new(),
        version: "2026-05-22.1".to_string(),
        owner_user_id: test_user_id(),
        rules: Vec::new(),
        default_effect: Effect::Allow,
    };

    let error = manager
        .evaluate_spend(&user_context(), "test-job", request, &policy)
        .err()
        .expect("invalid policy should fail spend evaluation");

    assert!(matches!(error, SpendError::PolicyValidation { .. }));
    assert_eq!(manager.decision_count(), 0);
    assert_eq!(manager.token_count(), 0);
}

#[test]
fn rejects_spend_evaluation_outside_user_context() {
    let mut manager = SpendManager::new();
    let mut request = spend_request(2_500);
    request.owner_user_id = UserId(0x0000_0000_0000_4000_8000_0000_0000_0456);
    let policy = policy(Effect::Allow, Vec::new());

    let error = manager
        .evaluate_spend(&user_context(), "test-job", request, &policy)
        .err()
        .expect("wrong user context should fail");

    assert!(matches!(error, SpendError::UserScopeMismatch));
    assert_eq!(manager.decision_count(), 0);
}

#[test]
fn executor_claim_uses_profile_lease_and_survives_authorization_expiry() {
    let config = LeaseConfig {
        authorization_ttl_seconds: 60,
        default_lease_profile: "image".to_string(),
        lease_profiles: vec![("image".to_string(), LeaseProfile { claim_ttl_seconds: 600 })],
    };
    let mut manager = SpendManager::from_records_with_claims(Vec::new(), Vec::new(), Vec::new(), config);
    let mut spend = spend_request(2_500);
    spend.lease_profile = "image".to_string();
    let evaluation = manager
        .evaluate_spend(&user_context(), "gongbu-image-123", spend.clone(), &policy(Effect::Allow, Vec::new()))
        .expect("spend should authorize");
    let operation_key = evaluation.operation_key.clone();
    let token = evaluation.auth_token.expect("allow should issue token");
    let authorization = payment_for(&spend, token.id);
    let (claim, _) = manager
        .claim_auth_token(SpendExecutorClaimRequest { authorization, operation_key: operation_key.clone() })
        .expect("executor should claim token");

    assert_eq!(claim.lease_profile, "image");
    assert!(claim.expires_at > token.expires_at);

    let after_authorization_expired = token.expires_at + 1_000_000;
    manager
        .validate_executor_claim_at(
            &SpendExecutorClaimValidationRequest {
                owner_user_id: spend.owner_user_id,
                agent_id: spend.agent_id,
                operation_key,
            },
            after_authorization_expired,
        )
        .expect("active claim should outlive original authorization");
}

#[test]
fn executor_claim_is_idempotent_for_same_operation_and_exclusive_for_others() {
    let mut manager = SpendManager::new();
    let spend = spend_request(2_500);
    let evaluation = manager
        .evaluate_spend(&user_context(), "gongbu-job-1", spend.clone(), &policy(Effect::Allow, Vec::new()))
        .expect("spend should authorize");
    let operation_key = evaluation.operation_key.clone();
    let token = evaluation.auth_token.expect("allow should issue token");
    let request = || SpendExecutorClaimRequest {
        authorization: payment_for(&spend, token.id),
        operation_key: operation_key.clone(),
    };
    let (first, _) = manager.claim_auth_token(request()).expect("first claim should succeed");
    let (retry, _) = manager.claim_auth_token(request()).expect("same operation should receive the existing claim");
    assert_eq!(first.id, retry.id);

    let error = manager
        .claim_auth_token(SpendExecutorClaimRequest {
            authorization: payment_for(&spend, token.id),
            operation_key: "another-operation".to_string(),
        })
        .err()
        .expect("another operation must not claim the token");
    assert!(matches!(error, SpendError::SpendAuthTokenAlreadyClaimed));
}

#[test]
fn spend_errors_have_readable_messages() {
    assert_eq!(SpendError::UsedSpendAuthToken.describe(), "spend auth token has already been used");
    assert_eq!(SpendError::UnknownLeaseProfile("gpu".to_string()).describe(), "unknown lease profile `gpu`");
    assert_eq!(
        SpendError::ExpiredExecutorClaim.describe(),
        "executor spend claim is expired and requires reconciliation"
    );
}

#[test]
fn human_approval_issues_one_token_for_a_pending_decision() {
    let mut manager = SpendManager::new();
    let request = spend_request(8_000);
    let policy = policy(Effect::NeedsApproval, vec![amount_rule("allow_small_spend", Effect::Allow, 5_000)]);
    let pending = manager.evaluate_spend(&user_context(), "needs-human", request, &policy).unwrap();
    assert!(pending.auth_token.is_none());

    let before = now_micros();
    let token = manager.issue_auth_token_for_approved_decision(&pending.decision_id).unwrap();
    assert!(token.expires_at > before);
    assert_eq!(manager.token_count(), 1);
    let record = manager.auth_token_record(&token.id).unwrap();
    assert_eq!(record.spend_decision_id, pending.decision_id);
    assert_eq!(record.owner_user_id, test_user_id());
    assert!(record.used_at.is_none() && record.revoked_at.is_none());

    let again = manager.issue_auth_token_for_approved_decision(&pending.decision_id).unwrap();
    assert_eq!(again, token);
    assert_eq!(manager.token_count(), 1);

    let allowed = manager
        .evaluate_spend(&user_context(), "small", spend_request(1_000), &policy)
        .unwrap();
    assert!(matches!(
        manager.issue_auth_token_for_approved_decision(&allowed.decision_id),
        Err(SpendError::SpendDecisionNotAllowed)
    ));
    assert!(matches!(
        manager.issue_auth_token_for_approved_decision(&hubu_core::common::SpendDecisionId::new()),
        Err(SpendError::MissingSpendDecision)
    ));
}
