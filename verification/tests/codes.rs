use hubu_core::budget::model::{BudgetHoldStatus, BudgetStatus};
use hubu_core::codes::{
    account_status, agent_status, agent_type, budget_hold_status, budget_status, executor_claim_status,
    parse_account_status, parse_agent_status, parse_agent_type, parse_budget_hold_status, parse_budget_status,
    parse_executor_claim_status, parse_spending_target_status, parse_user_status, spending_target_status,
    user_status,
};
use hubu_core::registration::{AccountStatus, AgentStatus, AgentType};
use hubu_core::spend::model::SpendExecutorClaimStatus;
use hubu_core::spending_target::SpendingTargetStatus;
use hubu_core::user::UserStatus;

#[test]
fn every_status_code_reads_back_as_its_status() {
    for status in [BudgetStatus::Active, BudgetStatus::Exhausted, BudgetStatus::Expired, BudgetStatus::Revoked] {
        assert_eq!(parse_budget_status(budget_status(&status)), Some(status));
    }
    for status in [
        BudgetHoldStatus::Frozen,
        BudgetHoldStatus::Claimed,
        BudgetHoldStatus::Settled,
        BudgetHoldStatus::Released,
        BudgetHoldStatus::Expired,
    ] {
        assert_eq!(parse_budget_hold_status(budget_hold_status(&status)), Some(status));
    }
    for status in [SpendExecutorClaimStatus::Claimed, SpendExecutorClaimStatus::Settled, SpendExecutorClaimStatus::Released] {
        assert_eq!(parse_executor_claim_status(executor_claim_status(&status)), Some(status));
    }
    for status in [SpendingTargetStatus::Active, SpendingTargetStatus::Revoked] {
        assert_eq!(parse_spending_target_status(spending_target_status(status)), Some(status));
    }
    for status in [UserStatus::Active, UserStatus::Suspended] {
        assert_eq!(parse_user_status(user_status(&status)), Some(status));
    }
    for kind in [AgentType::InteractiveAgent, AgentType::AutonomousAgent] {
        assert_eq!(parse_agent_type(agent_type(&kind)), Some(kind));
    }
    for status in [AgentStatus::Active, AgentStatus::Suspended] {
        assert_eq!(parse_agent_status(agent_status(&status)), Some(status));
    }
    for status in [AccountStatus::Active, AccountStatus::Suspended] {
        assert_eq!(parse_account_status(account_status(&status)), Some(status));
    }
}

#[test]
fn status_codes_are_the_stored_words() {
    assert_eq!(agent_type(&AgentType::InteractiveAgent), "interactive_agent");
    assert_eq!(agent_type(&AgentType::AutonomousAgent), "autonomous_agent");
    assert_eq!(user_status(&UserStatus::Suspended), "suspended");
    assert_eq!(budget_hold_status(&BudgetHoldStatus::Claimed), "claimed");
    assert_eq!(budget_status(&BudgetStatus::Exhausted), "exhausted");
}

#[test]
fn unknown_codes_are_refused() {
    assert_eq!(parse_user_status("Active"), None);
    assert_eq!(parse_agent_type("agent"), None);
    assert_eq!(parse_agent_status(""), None);
    assert_eq!(parse_account_status("closed"), None);
    assert_eq!(parse_budget_status("frozen"), None);
    assert_eq!(parse_budget_hold_status("active"), None);
    assert_eq!(parse_executor_claim_status("frozen"), None);
    assert_eq!(parse_spending_target_status("expired"), None);
}

#[test]
fn fresh_identifiers_are_version_four_uuids() {
    let texts = [
        hubu_core::common::UserId::new().to_uuid_string(),
        hubu_core::common::AgentId::new().to_uuid_string(),
        hubu_core::common::SpendDecisionId::new().to_uuid_string(),
        hubu_core::common::PaymentId::new().to_uuid_string(),
    ];
    for text in texts {
        assert_eq!(text.as_bytes()[14], b'4');
        assert!(matches!(text.as_bytes()[19], b'8' | b'9' | b'a' | b'b'));
    }
    assert_ne!(hubu_core::common::BudgetId::new(), hubu_core::common::BudgetId::new());
}
