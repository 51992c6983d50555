use hubu_core::common::{AgentAccountId, AgentId, Currency, UserId};
use hubu_core::executor_contract::{ExecutionScope, ScopeIdentity, EXECUTION_SCOPE_SCHEMA_VERSION};
use hubu_core::policy::condition::{Condition, Field, PolicyValue, ValueKind};
use hubu_core::policy::engine::{evaluate_policy, evaluate_rules, final_decision, merge_effects, validate_policy};
use hubu_core::policy::error::PolicyValidationError;
use hubu_core::policy::model::{Effect, Policy, Rule, RuleResult};
use hubu_core::spend::model::SpendRequest;

fn test_user_id() -> UserId {
    UserId(0x0000_0000_0000_4000_8000_0000_0000_0123)
}

fn condition_request() -> SpendRequest {
    SpendRequest {
        amount_cents: 4_500,
        currency: Currency::Usd,
        owner_user_id: test_user_id(),
        agent_id: AgentId::new(),
        agent_account_id: AgentAccountId::new(),
        merchant: Some("Acme Cafe".to_string()),
        execution_scope: None,
        category: Some("meals".to_string()),
        task_id: None,
        reason: "test spend".to_string(),
        lease_profile: "default".to_string(),
    }
}

fn spend_request(amount_cents: i64, category: Option<&str>) -> SpendRequest {
    SpendRequest {
        amount_cents,
        currency: Currency::Usd,
        owner_user_id: test_user_id(),
        agent_id: AgentId::new(),
        agent_account_id: AgentAccountId::new(),
        merchant: Some("Acme Cafe".to_string()),
        execution_scope: None,
        category: category.map(str::to_string),
        task_id: None,
        reason: "test spend".to_string(),
        lease_profile: "default".to_string(),
    }
}

fn rule(id: &str, effect: Effect, when: Condition) -> Rule {
    Rule { id: id.to_string(), effect, when, reason: format!("{id} matched") }
}

fn policy(default_effect: Effect, rules: Vec<Rule>) -> Policy {
    Policy {
        id: "base_spending_policy".to_string(),
        version: "2026-05-22.1".to_string(),
        owner_user_id: test_user_id(),
        rules,
        default_effect,
    }
}

#[test]
fn evaluates_amount_comparisons() {
    let request = condition_request();

    assert!(Condition::Lte { field: Field::Amount, value: PolicyValue::MoneyCents(5_000) }.eval(&request));

    assert!(!Condition::Gt { field: Field::Amount, value: PolicyValue::MoneyCents(5_000) }.eval(&request));
}

#[test]
fn evaluates_boolean_groups() {
    let request = condition_request();

    let condition = Condition::All {
        conditions: vec![
            Condition::Eq { field: Field::Category, value: PolicyValue::String("meals".to_string()) },
            Condition::Not {
                condition: Box::new(Condition::Gt { field: Field::Amount, value: PolicyValue::MoneyCents(5_000) }),
            },
        ],
    };

    assert!(condition.eval(&request));
}

#[test]
fn evaluates_each_typed_execution_scope_field() {
    let mut request = condition_request();
    let identity = |id: &str| ScopeIdentity { id: id.into(), display_name: id.into() };
    request.execution_scope = Some(ExecutionScope {
        schema_version: EXECUTION_SCOPE_SCHEMA_VERSION,
        provider: identity("provider:google:gemini-developer"),
        executor: identity("executor:gongbu:image"),
        capability: identity("capability:image:generate"),
        billing_merchant: identity("merchant:google"),
    });
    for (field, expected) in [
        (Field::Provider, "provider:google:gemini-developer"),
        (Field::Executor, "executor:gongbu:image"),
        (Field::Capability, "capability:image:generate"),
        (Field::BillingMerchant, "merchant:google"),
    ] {
        assert!(Condition::Eq { field, value: PolicyValue::String(expected.into()) }.eval(&request));
    }
}

#[test]
fn missing_optional_field_does_not_match() {
    let mut request = condition_request();
    request.merchant = None;

    assert!(!Condition::Eq { field: Field::Merchant, value: PolicyValue::String("Acme Cafe".to_string()) }
        .eval(&request));

    assert!(!Condition::Exists { field: Field::Merchant }.eval(&request));
}

#[test]
fn in_condition_matches_any_listed_value_and_neq_negates_eq() {
    let request = condition_request();
    assert!(Condition::In {
        field: Field::Category,
        values: vec![PolicyValue::String("travel".to_string()), PolicyValue::String("meals".to_string())],
    }
    .eval(&request));
    assert!(!Condition::In { field: Field::Category, values: vec![PolicyValue::String("travel".to_string())] }
        .eval(&request));
    assert!(Condition::Neq { field: Field::Category, value: PolicyValue::String("travel".to_string()) }
        .eval(&request));
    assert!(!Condition::Neq { field: Field::Category, value: PolicyValue::String("meals".to_string()) }
        .eval(&request));
    assert!(Condition::Gte { field: Field::Amount, value: PolicyValue::MoneyCents(4_500) }.eval(&request));
    assert!(!Condition::Lt { field: Field::Amount, value: PolicyValue::MoneyCents(4_500) }.eval(&request));
    assert!(Condition::Any {
        conditions: vec![
            Condition::Exists { field: Field::Provider },
            Condition::Eq { field: Field::Currency, value: PolicyValue::Currency(Currency::Usd) },
        ],
    }
    .eval(&request));
}

#[test]
fn returns_default_effect_when_no_rules_match() {
    let request = spend_request(2_500, Some("meals"));
    let policy = policy(
        Effect::NeedsApproval,
        vec![rule(
            "deny_large_purchase",
            Effect::Deny,
            Condition::Gt { field: Field::Amount, value: PolicyValue::MoneyCents(50_000) },
        )],
    );

    let evaluation = evaluate_policy(&request, &policy).expect("policy should be valid");

    assert_eq!(evaluation.decision, Effect::NeedsApproval);
    assert_eq!(evaluation.policy_id, "base_spending_policy");
    assert_eq!(evaluation.policy_version, "2026-05-22.1");
    assert!(evaluation.reasons.is_empty());
    assert_eq!(evaluation.rule_results.len(), 1);
}

#[test]
fn deny_wins_over_allow() {
    let request = spend_request(60_000, Some("meals"));
    let policy = policy(
        Effect::NeedsApproval,
        vec![
            rule(
                "allow_meals",
                Effect::Allow,
                Condition::Eq { field: Field::Category, value: PolicyValue::String("meals".to_string()) },
            ),
            rule(
                "deny_large_purchase",
                Effect::Deny,
                Condition::Gt { field: Field::Amount, value: PolicyValue::MoneyCents(50_000) },
            ),
        ],
    );

    let evaluation = evaluate_policy(&request, &policy).expect("policy should be valid");

    assert_eq!(evaluation.decision, Effect::Deny);
    assert_eq!(
        evaluation.reasons,
        vec!["allow_meals matched".to_string(), "deny_large_purchase matched".to_string()]
    );
}

#[test]
fn needs_approval_wins_over_allow() {
    let request = spend_request(8_000, Some("meals"));
    let policy = policy(
        Effect::Deny,
        vec![
            rule(
                "allow_meals",
                Effect::Allow,
                Condition::Eq { field: Field::Category, value: PolicyValue::String("meals".to_string()) },
            ),
            rule(
                "approve_meals_over_75",
                Effect::NeedsApproval,
                Condition::Gt { field: Field::Amount, value: PolicyValue::MoneyCents(7_500) },
            ),
        ],
    );

    let evaluation = evaluate_policy(&request, &policy).expect("policy should be valid");

    assert_eq!(evaluation.decision, Effect::NeedsApproval);
}

#[test]
fn rule_result_contains_effect_and_reason_only_when_matched() {
    let request = spend_request(2_500, Some("meals"));
    let rules = vec![
        rule(
            "allow_small_meals",
            Effect::Allow,
            Condition::Lte { field: Field::Amount, value: PolicyValue::MoneyCents(5_000) },
        ),
        rule(
            "deny_large_purchase",
            Effect::Deny,
            Condition::Gt { field: Field::Amount, value: PolicyValue::MoneyCents(50_000) },
        ),
    ];

    let results = evaluate_rules(&request, &rules);

    assert_eq!(results.len(), 2);
    assert!(results[0].matched);
    assert_eq!(results[0].effect, Some(Effect::Allow));
    assert_eq!(results[0].reason, Some("allow_small_meals matched".to_string()));
    assert!(!results[1].matched);
    assert_eq!(results[1].effect, None);
    assert_eq!(results[1].reason, None);
}

#[test]
fn validation_rejects_field_value_mismatch() {
    let policy = policy(
        Effect::NeedsApproval,
        vec![rule(
            "invalid_amount_type",
            Effect::Deny,
            Condition::Gt { field: Field::Amount, value: PolicyValue::String("50000".to_string()) },
        )],
    );

    let error = validate_policy(&policy).err().expect("policy should be invalid");

    match error {
        PolicyValidationError::FieldValueMismatch { rule_id, field, expected, actual } => {
            assert_eq!(rule_id, "invalid_amount_type");
            assert_eq!(field, Field::Amount);
            assert_eq!(expected, ValueKind::MoneyCents);
            assert_eq!(actual, ValueKind::String);
        }
        other => panic!("unexpected validation error: {other:?}"),
    }
}

#[test]
fn validation_rejects_ordered_operator_on_unorderable_field() {
    let policy = policy(
        Effect::NeedsApproval,
        vec![rule(
            "invalid_category_ordering",
            Effect::Deny,
            Condition::Gt { field: Field::Category, value: PolicyValue::String("meals".to_string()) },
        )],
    );

    let error = validate_policy(&policy).err().expect("policy should be invalid");

    match error {
        PolicyValidationError::UnorderableField { rule_id, field, operator } => {
            assert_eq!(rule_id, "invalid_category_ordering");
            assert_eq!(field, Field::Category);
            assert_eq!(operator, "gt");
        }
        other => panic!("unexpected validation error: {other:?}"),
    }
}

#[test]
fn evaluate_policy_returns_validation_error_before_evaluating_invalid_policy() {
    let request = spend_request(2_500, Some("meals"));
    let policy = policy(
        Effect::NeedsApproval,
        vec![rule(
            "invalid_amount_type",
            Effect::Deny,
            Condition::Gt { field: Field::Amount, value: PolicyValue::String("50000".to_string()) },
        )],
    );

    assert!(matches!(evaluate_policy(&request, &policy), Err(PolicyValidationError::FieldValueMismatch { .. })));
}

#[test]
fn validation_reports_each_blank_field_and_empty_group() {
    let mut blank_id = policy(Effect::Allow, vec![]);
    blank_id.id = "  ".to_string();
    assert!(matches!(validate_policy(&blank_id), Err(PolicyValidationError::EmptyPolicyId)));

    let mut blank_version = policy(Effect::Allow, vec![]);
    blank_version.version = String::new();
    assert!(matches!(validate_policy(&blank_version), Err(PolicyValidationError::EmptyPolicyVersion)));

    let blank_rule = policy(
        Effect::Allow,
        vec![Rule {
            id: " ".to_string(),
            effect: Effect::Deny,
            when: Condition::Exists { field: Field::Merchant },
            reason: "r".to_string(),
        }],
    );
    assert!(matches!(validate_policy(&blank_rule), Err(PolicyValidationError::EmptyRuleId)));

    let blank_reason = policy(
        Effect::Allow,
        vec![Rule {
            id: "r1".to_string(),
            effect: Effect::Deny,
            when: Condition::Exists { field: Field::Merchant },
            reason: "".to_string(),
        }],
    );
    match validate_policy(&blank_reason) {
        Err(PolicyValidationError::EmptyRuleReason { rule_id }) => assert_eq!(rule_id, "r1"),
        other => panic!("unexpected result: {other:?}"),
    }

    let empty_group = policy(Effect::Allow, vec![rule("g", Effect::Deny, Condition::Any { conditions: vec![] })]);
    match validate_policy(&empty_group) {
        Err(PolicyValidationError::EmptyConditionGroup { rule_id, operator }) => {
            assert_eq!(rule_id, "g");
            assert_eq!(operator, "any");
        }
        other => panic!("unexpected result: {other:?}"),
    }
}

#[test]
fn merged_decision_does_not_depend_on_rule_order() {
    for a in [Effect::Allow, Effect::Deny, Effect::NeedsApproval] {
        for b in [Effect::Allow, Effect::Deny, Effect::NeedsApproval] {
            assert_eq!(merge_effects(a, b), merge_effects(b, a));
        }
    }
    let matched = |effect: Effect| RuleResult {
        rule_id: "r".to_string(),
        matched: true,
        effect: Some(effect),
        reason: Some("r".to_string()),
    };
    assert_eq!(final_decision(Effect::Deny, &vec![]), Effect::Deny);
    assert_eq!(final_decision(Effect::Deny, &vec![matched(Effect::Allow)]), Effect::Allow);
    assert_eq!(
        final_decision(Effect::Allow, &vec![matched(Effect::NeedsApproval), matched(Effect::Deny)]),
        Effect::Deny
    );
}

#[test]
fn describes_conditions_in_words() {
    let condition = Condition::All {
        conditions: vec![
            Condition::Eq { field: Field::Category, value: PolicyValue::String("meals".to_string()) },
            Condition::Not {
                condition: Box::new(Condition::Gt { field: Field::Amount, value: PolicyValue::MoneyCents(5_000) }),
            },
        ],
    };
    assert_eq!(
        condition.describe(),
        "all of (category equals `meals`; not (amount is greater than 5000 minor units))"
    );
    assert_eq!(
        Condition::In {
            field: Field::BillingMerchant,
            values: vec![PolicyValue::String("a".to_string()), PolicyValue::String("b".to_string())],
        }
        .describe(),
        "billing_merchant is one of `a`, `b`"
    );
    assert_eq!(
        Condition::Any {
            conditions: vec![
                Condition::Exists { field: Field::Merchant },
                Condition::Neq { field: Field::Currency, value: PolicyValue::Currency(Currency::Usd) },
                Condition::Lte { field: Field::Amount, value: PolicyValue::MoneyCents(-7) },
            ],
        }
        .describe(),
        "any of (merchant is supplied; currency does not equal usd; amount is at most -7 minor units)"
    );
    assert_eq!(
        Condition::Eq {
            field: Field::AgentId,
            value: PolicyValue::AgentId(AgentId(0x0000_0000_0000_4000_8000_0000_0000_0abc)),
        }
        .describe(),
        "agent_id equals 00000000-0000-4000-8000-000000000abc"
    );
    assert_eq!(Condition::All { conditions: vec![] }.describe(), "all of ()");
}

#[test]
fn validation_errors_have_readable_messages() {
    let mismatch = PolicyValidationError::FieldValueMismatch {
        rule_id: "r".to_string(),
        field: Field::Amount,
        expected: ValueKind::MoneyCents,
        actual: ValueKind::String,
    };
    assert_eq!(mismatch.describe(), "rule `r` uses field `amount` with string value, but expected money_cents");
    let unorderable =
        PolicyValidationError::UnorderableField { rule_id: "r".to_string(), field: Field::Category, operator: "gt" };
    assert_eq!(unorderable.describe(), "rule `r` uses ordered operator `gt` on non-orderable field `category`");
    let group = PolicyValidationError::EmptyConditionGroup { rule_id: "g".to_string(), operator: "all" };
    assert_eq!(group.describe(), "rule `g` has an empty `all` condition group");
    assert_eq!(PolicyValidationError::EmptyPolicyId.describe(), "policy id cannot be empty");
    assert_eq!(
        PolicyValidationError::EmptyRuleReason { rule_id: "x".to_string() }.describe(),
        "rule `x` reason cannot be empty"
    );
}
