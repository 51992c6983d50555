use hubu_core::budget::model::{
    Budget, BudgetAdministrativeState, BudgetBalance, BudgetHold, BudgetHoldStatus,
};
use hubu_core::common::{
    AgentAccountId, AgentId, BudgetHoldId, BudgetId, BudgetVersionId, Currency, SpendDecisionId, TimePeriod,
};
use hubu_core::history::owner_budget_records;

fn budget(agent_id: AgentId) -> Budget {
    Budget {
        id: BudgetId::new(),
        agent_id,
        current_version_id: BudgetVersionId::new(),
        currency: Currency::Usd,
        period: TimePeriod { starting_at: 0, ending_before: None },
        administrative_state: BudgetAdministrativeState::Active,
        created_at: 0,
        updated_at: 0,
    }
}

fn balance(budget_id: BudgetId, remaining: i64) -> BudgetBalance {
    BudgetBalance { budget_id, consumed_amount_cents: 0, frozen_amount_cents: 0, remaining_amount_cents: remaining }
}

fn hold(budget_id: BudgetId, amount_cents: i64) -> BudgetHold {
    BudgetHold {
        id: BudgetHoldId::new(),
        budget_id,
        budget_version_id: BudgetVersionId::new(),
        spend_decision_id: SpendDecisionId::new(),
        amount_cents,
        currency: Currency::Usd,
        status: BudgetHoldStatus::Frozen,
        executor_claim_id: None,
        created_at: 0,
        updated_at: 0,
        expires_at: 1,
    }
}

#[test]
fn history_shows_only_budgets_of_owned_agents_with_their_balances_and_holds() {
    let mine = AgentId::new();
    let other = AgentId::new();
    let accounts = vec![(mine, AgentAccountId::new())];
    let first = budget(mine);
    let foreign = budget(other);
    let second = budget(mine);
    let budgets = vec![first, foreign, second];
    let balances = vec![balance(foreign.id, 1), balance(second.id, 2), balance(first.id, 3)];
    let holds = vec![hold(first.id, 10), hold(foreign.id, 20), hold(second.id, 30), hold(first.id, 40)];

    let records = owner_budget_records(&accounts, &budgets, &balances, &holds);

    assert_eq!(records.budgets, vec![first, second]);
    assert_eq!(records.balances, vec![balances[1], balances[2]]);
    assert_eq!(records.holds, vec![holds[0], holds[2], holds[3]]);

    let none = owner_budget_records(&Vec::new(), &budgets, &balances, &holds);
    assert!(none.budgets.is_empty() && none.balances.is_empty() && none.holds.is_empty());
}
