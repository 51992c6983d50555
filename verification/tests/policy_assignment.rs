use hubu_core::budget::commands::{BudgetUpdateService, BudgetUpdateServiceError, UpdateBudgetLimitRequest};
use hubu_core::budget::error::BudgetUpdateError;
use hubu_core::common::{AgentId, BudgetId};
use hubu_core::policy::assignment::PolicyAssignmentScope;
use hubu_core::storage::StorageError;

#[test]
fn policy_assignment_scopes_are_stored_and_read_back() {
    let agent = AgentId(0x0000_0000_0000_4000_8000_0000_0000_0abc);
    let scope = PolicyAssignmentScope::AgentOverride(agent);
    assert_eq!(scope.scope_type(), "agent_override");
    assert_eq!(scope.scope_id(), "00000000-0000-4000-8000-000000000abc");
    assert_eq!(scope.agent_id().as_deref(), Some("00000000-0000-4000-8000-000000000abc"));
    assert_eq!(PolicyAssignmentScope::from_parts(scope.scope_type(), &scope.scope_id()), Ok(scope));

    let default = PolicyAssignmentScope::UserDefault;
    assert_eq!(default.scope_type(), "user_default");
    assert_eq!(default.scope_id(), "default");
    assert_eq!(default.agent_id(), None);
    assert_eq!(PolicyAssignmentScope::from_parts("user_default", "anything"), Ok(default));

    assert_eq!(
        PolicyAssignmentScope::from_parts("agent_override", "not-a-uuid"),
        Err(StorageError::InvalidData("invalid agent id `not-a-uuid`".to_string()))
    );
    assert_eq!(
        PolicyAssignmentScope::from_parts("team", "x"),
        Err(StorageError::InvalidData("unknown policy assignment scope `team`".to_string()))
    );
}

#[test]
fn budget_update_service_normalizes_the_append_request() {
    let service = BudgetUpdateService;
    let request = UpdateBudgetLimitRequest {
        budget_id: BudgetId(1),
        expected_revision: 2,
        amount_limit_cents: 5_000,
        actor: "  alice ".to_string(),
        source: None,
        reason: Some("   ".to_string()),
    };
    let append = service.append_request(request, 42).unwrap();
    assert_eq!(append.actor, "alice");
    assert_eq!(append.source, "hubu-core:budget-update");
    assert_eq!(append.reason, None);
    assert_eq!(append.effective_at, 42);

    let refused = service.append_request(
        UpdateBudgetLimitRequest {
            budget_id: BudgetId(1),
            expected_revision: 0,
            amount_limit_cents: 5_000,
            actor: "alice".to_string(),
            source: None,
            reason: None,
        },
        42,
    );
    assert!(matches!(refused, Err(BudgetUpdateServiceError::Append(BudgetUpdateError::ExpectedRevisionMustBePositive))));
}

#[test]
fn agent_override_scope_needs_a_parsed_identifier() {
    assert_eq!(
        PolicyAssignmentScope::override_from_parsed("anything", Some(0xabc)).unwrap(),
        PolicyAssignmentScope::AgentOverride(AgentId(0xabc))
    );
    match PolicyAssignmentScope::override_from_parsed("not-a-uuid", None) {
        Err(StorageError::InvalidData(message)) => assert_eq!(message, "invalid agent id `not-a-uuid`"),
        other => panic!("expected a refusal, got {other:?}"),
    }
}
