use hubu_core::{BudgetManager, PaymentIntent, PolicyDecision, PolicyEngine, PolicyError};

#[test]
fn authorizes_payment_when_budget_is_available() {
    let intent = PaymentIntent::new("alice", "bob", 10, "USDC");
    let mut budget = BudgetManager::new(25);

    let decision = PolicyEngine::default().authorize(&intent, &mut budget);

    assert_eq!(decision, Ok(PolicyDecision::Approved));
    assert_eq!(budget.remaining(), 15);
}

#[test]
fn refuses_zero_and_over_budget_payments_without_reserving() {
    let mut budget = BudgetManager::new(25);
    let engine = PolicyEngine::new();

    let zero = PaymentIntent::new("alice", "bob", 0, "USDC");
    assert_eq!(engine.authorize(&zero, &mut budget), Err(PolicyError::InvalidAmount));
    assert_eq!(budget.remaining(), 25);

    let large = PaymentIntent::new("alice", "bob", 26, "USDC");
    assert_eq!(
        engine.authorize(&large, &mut budget),
        Err(PolicyError::BudgetExceeded { requested: 26, remaining: 25 })
    );
    assert_eq!(budget.remaining(), 25);

    let exact = PaymentIntent::new("alice", "bob", 25, "USDC");
    assert_eq!(engine.authorize(&exact, &mut budget), Ok(PolicyDecision::Approved));
    assert_eq!(budget.remaining(), 0);
}

#[test]
fn two_reservations_leave_what_one_of_their_sum_leaves() {
    let mut stepwise = BudgetManager::new(100);
    stepwise.reserve(30).unwrap();
    stepwise.reserve(45).unwrap();
    let mut at_once = BudgetManager::new(100);
    at_once.reserve(75).unwrap();
    assert_eq!(stepwise.remaining(), at_once.remaining());
}

#[test]
fn payment_policy_errors_have_readable_messages() {
    assert_eq!(PolicyError::InvalidAmount.describe(), "payment amount must be greater than zero");
    assert_eq!(
        PolicyError::BudgetExceeded { requested: 26, remaining: 25 }.describe(),
        "budget exceeded: requested 26, remaining 25"
    );
}
