use vstd::prelude::*;

use crate::budget::model::{
    evaluate_budget_availability, spec_availability, Budget, BudgetAvailability, BudgetBalance,
    BudgetEvaluationError, BudgetHold, BudgetVersion,
};
use crate::common::{AgentId, BudgetId, Currency, SpendDecisionId, TimePeriod};

verus! {

#[derive(Clone, Copy, Debug)]
pub struct CreateSingleBudgetRequest {
    pub agent_id: AgentId,
    pub amount_limit_cents: i64,
    pub currency: Currency,
    pub period: TimePeriod,
}

#[derive(Debug)]
pub struct CreateSingleBudgetResponse {
    pub budget: Budget,
    pub version: BudgetVersion,
    pub balance: BudgetBalance,
}

#[derive(Clone, Copy, Debug)]
pub struct CreateBudgetSeriesRequest {
    pub agent_id: AgentId,
    pub amount_limit_cents: i64,
    pub currency: Currency,
    pub starting_at: i64,
    pub recurrence: BudgetRecurrence,
    pub period_count: usize,
}

#[derive(Debug)]
pub struct CreateBudgetSeriesResponse {
    pub budgets: Vec<BudgetWithBalance>,
}

#[derive(Clone, Copy, Debug, PartialEq, Eq, Structural)]
pub enum BudgetRecurrence {
    Daily,
    Monthly,
    Yearly,
}

#[derive(Clone, Copy, Debug)]
pub struct ReserveBudgetRequest {
    pub budget_id: BudgetId,
    pub spend_decision_id: SpendDecisionId,
    pub amount_cents: i64,
    pub currency: Currency,
    pub expires_at: i64,
}

#[derive(Clone, Copy, Debug)]
pub struct ReserveBudgetResponse {
    pub hold: BudgetHold,
    pub balance: BudgetBalance,
}

#[derive(Clone, Copy, Debug)]
pub struct SettleBudgetResponse {
    pub hold: BudgetHold,
    pub balance: BudgetBalance,
}

#[derive(Clone, Copy, Debug)]
pub struct ReleaseBudgetResponse {
    pub hold: BudgetHold,
    pub balance: BudgetBalance,
}

#[derive(Clone, Copy, Debug)]
pub struct ExpireBudgetHoldResponse {
    pub hold: BudgetHold,
    pub balance: BudgetBalance,
}

/// A durable snapshot of one logical budget: the budget, its current
/// version and its balance.
#[derive(Debug)]
pub struct BudgetWithBalance {
    pub budget: Budget,
    pub version: BudgetVersion,
    pub balance: BudgetBalance,
}

impl Clone for BudgetWithBalance {
    fn clone(&self) -> (r: Self)
        ensures
            r == *self,
    {
        BudgetWithBalance { budget: self.budget, version: self.version.clone(), balance: self.balance }
    }
}

/// The snapshot's parts belong to one budget.
pub open spec fn spec_snapshot_consistent(s: BudgetWithBalance) -> bool {
    &&& s.version.id == s.budget.current_version_id
    &&& s.version.budget_id == s.budget.id
    &&& s.balance.budget_id == s.budget.id
}

impl BudgetWithBalance {
    pub fn availability_at(&self, now: i64) -> (r: Result<BudgetAvailability, BudgetEvaluationError>)
        ensures
            spec_snapshot_consistent(*self) ==> r == Ok::<BudgetAvailability, BudgetEvaluationError>(spec_availability(self.budget, self.balance, now)),
            !spec_snapshot_consistent(*self) ==> r is Err,
    {
        evaluate_budget_availability(&self.budget, &self.version, &self.balance, now)
    }

    pub fn evaluate_at(self, now: i64) -> (r: Result<EvaluatedBudget, BudgetEvaluationError>)
        ensures
            spec_snapshot_consistent(self) ==> (r matches Ok(e) && e.current == self && e.evaluated_at == now
                && e.availability == spec_availability(self.budget, self.balance, now)),
            !spec_snapshot_consistent(self) ==> r is Err,
    {
        match self.availability_at(now) {
            Ok(availability) => Ok(EvaluatedBudget { current: self, availability, evaluated_at: now }),
            Err(e) => Err(e),
        }
    }
}

/// A durable snapshot paired with its availability at one instant.
#[derive(Debug)]
pub struct EvaluatedBudget {
    pub current: BudgetWithBalance,
    pub availability: BudgetAvailability,
    pub evaluated_at: i64,
}

} // verus!
