//! The budget records an owner's history shows: only budgets of agents the
//! owner holds an account for, with their balances and holds.
use vstd::prelude::*;

use crate::budget::model::{Budget, BudgetBalance, BudgetHold};
use crate::common::{AgentAccountId, AgentId, BudgetId};

verus! {

/// The owner holds an account for `agent`.
pub open spec fn owns_agent(accounts: Seq<(AgentId, AgentAccountId)>, agent: AgentId) -> bool {
    exists|i: int| 0 <= i < accounts.len() && (#[trigger] accounts[i]).0 == agent
}

/// A budget of an agent the owner holds an account for.
pub open spec fn owned_budget(accounts: Seq<(AgentId, AgentAccountId)>) -> spec_fn(Budget) -> bool {
    |b: Budget| owns_agent(accounts, b.agent_id)
}

/// `budgets` holds a budget with identifier `id`.
pub open spec fn lists_budget(budgets: Seq<Budget>, id: BudgetId) -> bool {
    exists|i: int| 0 <= i < budgets.len() && (#[trigger] budgets[i]).id == id
}

/// A balance of one of `budgets`.
pub open spec fn balance_of_listed(budgets: Seq<Budget>) -> spec_fn(BudgetBalance) -> bool {
    |b: BudgetBalance| lists_budget(budgets, b.budget_id)
}

/// A hold on one of `budgets`.
pub open spec fn hold_of_listed(budgets: Seq<Budget>) -> spec_fn(BudgetHold) -> bool {
    |h: BudgetHold| lists_budget(budgets, h.budget_id)
}

/// The budgets, balances and holds of an owner's history.
#[derive(Debug)]
pub struct OwnerBudgetRecords {
    pub budgets: Vec<Budget>,
    pub balances: Vec<BudgetBalance>,
    pub holds: Vec<BudgetHold>,
}

fn agent_owned(accounts: &Vec<(AgentId, AgentAccountId)>, agent: AgentId) -> (r: bool)
    ensures
        r == owns_agent(accounts@, agent),
{
    let mut i: usize = 0;
    while i < accounts.len()
        invariant
            i <= accounts.len(),
            forall|j: int| 0 <= j < i ==> (#[trigger] accounts@[j]).0 != agent,
        decreases accounts.len() - i,
    {
        if accounts[i].0 == agent {
            return true;
        }
        i = i + 1;
    }
    false
}

fn budget_listed(budgets: &Vec<Budget>, id: BudgetId) -> (r: bool)
    ensures
        r == lists_budget(budgets@, id),
{
    let mut i: usize = 0;
    while i < budgets.len()
        invariant
            i <= budgets.len(),
            forall|j: int| 0 <= j < i ==> (#[trigger] budgets@[j]).id != id,
        decreases budgets.len() - i,
    {
        if budgets[i].id == id {
            return true;
        }
        i = i + 1;
    }
    false
}

/// The records of an owner's history, from every stored budget, balance and
/// hold and the owner's `(agent, account)` pairs: the budgets of owned
/// agents, then the balances and holds of those budgets, each in stored
/// order.
pub fn owner_budget_records(
    accounts: &Vec<(AgentId, AgentAccountId)>,
    budgets: &Vec<Budget>,
    balances: &Vec<BudgetBalance>,
    holds: &Vec<BudgetHold>,
) -> (r: OwnerBudgetRecords)
    ensures
        r.budgets@ == budgets@.filter(owned_budget(accounts@)),
        r.balances@ == balances@.filter(balance_of_listed(r.budgets@)),
        r.holds@ == holds@.filter(hold_of_listed(r.budgets@)),
{
    let ghost p = owned_budget(accounts@);
    let mut kept: Vec<Budget> = Vec::new();
    let mut i: usize = 0;
    while i < budgets.len()
        invariant
            i <= budgets.len(),
            p == owned_budget(accounts@),
            kept@ == budgets@.take(i as int).filter(p),
        decreases budgets.len() - i,
    {
        proof {
            let s = budgets@.take(i as int);
            let t = budgets@.take(i + 1);
            assert(t.drop_last() =~= s);
            assert(t.last() == budgets@[i as int]);
            reveal_with_fuel(Seq::<_>::filter, 1);
            assert(t.filter(p) == if p(budgets@[i as int]) { s.filter(p).push(budgets@[i as int]) } else { s.filter(p) });
        }
        if agent_owned(accounts, budgets[i].agent_id) {
            kept.push(budgets[i]);
        }
        i = i + 1;
    }
    assert(budgets@.take(budgets.len() as int) =~= budgets@);

    let ghost q = balance_of_listed(kept@);
    let mut kept_balances: Vec<BudgetBalance> = Vec::new();
    let mut i: usize = 0;
    while i < balances.len()
        invariant
            i <= balances.len(),
            q == balance_of_listed(kept@),
            kept_balances@ == balances@.take(i as int).filter(q),
        decreases balances.len() - i,
    {
        proof {
            let s = balances@.take(i as int);
            let t = balances@.take(i + 1);
            assert(t.drop_last() =~= s);
            assert(t.last() == balances@[i as int]);
            reveal_with_fuel(Seq::<_>::filter, 1);
            assert(t.filter(q) == if q(balances@[i as int]) { s.filter(q).push(balances@[i as int]) } else { s.filter(q) });
        }
        if budget_listed(&kept, balances[i].budget_id) {
            kept_balances.push(balances[i]);
        }
        i = i + 1;
    }
    assert(balances@.take(balances.len() as int) =~= balances@);

    let ghost h = hold_of_listed(kept@);
    let mut kept_holds: Vec<BudgetHold> = Vec::new();
    let mut i: usize = 0;
    while i < holds.len()
        invariant
            i <= holds.len(),
            h == hold_of_listed(kept@),
            kept_holds@ == holds@.take(i as int).filter(h),
        decreases holds.len() - i,
    {
        proof {
            let s = holds@.take(i as int);
            let t = holds@.take(i + 1);
            assert(t.drop_last() =~= s);
            assert(t.last() == holds@[i as int]);
            reveal_with_fuel(Seq::<_>::filter, 1);
            assert(t.filter(h) == if h(holds@[i as int]) { s.filter(h).push(holds@[i as int]) } else { s.filter(h) });
        }
        if budget_listed(&kept, holds[i].budget_id) {
            kept_holds.push(holds[i]);
        }
        i = i + 1;
    }
    assert(holds@.take(holds.len() as int) =~= holds@);
    OwnerBudgetRecords { budgets: kept, balances: kept_balances, holds: kept_holds }
}

} // verus!
