//! The public budget facade: one in-memory budget state whose every
//! operation keeps the balance law.
use vstd::prelude::*;

use crate::budget::dto::{
    BudgetWithBalance, CreateSingleBudgetRequest, CreateSingleBudgetResponse, EvaluatedBudget,
    ExpireBudgetHoldResponse, ReleaseBudgetResponse, ReserveBudgetRequest, ReserveBudgetResponse,
    SettleBudgetResponse,
};
use crate::budget::error::BudgetManagerError;
use crate::budget::model::{Budget, BudgetBalance, BudgetHold, BudgetVersion};
use crate::budget::state::{
    agent_budgets, budget_fault, budget_fault_text, budget_versions_of, budgets_overlap_at, overlap_text, records_in_order_ok,
    version_fault, version_fault_text, reservable, revision_leq, snapshot_of, spec_claim_outcome,
    spec_create_outcome, spec_expire_outcome, spec_release_outcome, spec_reserve_outcome,
    spec_revoke_outcome, spec_settle_outcome, BudgetState, BudgetStateView, BudgetVersionProvenance,
};
use crate::budget::dto::spec_snapshot_consistent;
use crate::budget::model::spec_availability;
use crate::common::{
    now_micros, AgentId, BudgetHoldId, BudgetId, BudgetVersionId, Currency, SpendDecisionId,
    SpendExecutorClaimId,
};
use vstd::relations::sorted_by;

verus! {

/// Budgets, their versions, balances and holds.
///
/// Administration (creation, revocation, limit updates) is committed to
/// storage by the caller first; the manager then publishes the committed
/// records, either by running the same in-memory operation or by
/// [`BudgetManager::apply_committed_state`].
pub struct BudgetManager {
    state: BudgetState,
}

impl View for BudgetManager {
    type V = BudgetStateView;

    closed spec fn view(&self) -> BudgetStateView {
        self.state@
    }
}

impl BudgetManager {
    pub open spec fn wf(&self) -> bool {
        self@.wf()
    }

    pub fn new() -> (m: Self)
        ensures
            m.wf(),
            m@.budgets.len() == 0,
            m@.versions.len() == 0,
            m@.balances.len() == 0,
            m@.holds.len() == 0,
    {
        BudgetManager { state: BudgetState::new() }
    }

    /// Load stored records, refusing any set that breaks the state
    /// invariant or the version history. Versions and then budgets are
    /// checked in record order, the first faulty one refused with a message
    /// that names it or its fault; overlapping budgets are refused with a
    /// message that names two of them and the overlap.
    pub fn from_records(
        budgets: Vec<Budget>,
        versions: Vec<BudgetVersion>,
        balances: Vec<BudgetBalance>,
        holds: Vec<BudgetHold>,
    ) -> (r: Result<Self, BudgetManagerError>)
        ensures
            ({
                let records = BudgetStateView { budgets: budgets@, versions: versions@, balances: balances@, holds: holds@ };
                match r {
                    Ok(m) => records.records_valid() && m@ == records && m.wf(),
                    Err(e) => !records.records_valid() && e is InvalidPersistedState,
                }
            }),
            ({
                let records = BudgetStateView { budgets: budgets@, versions: versions@, balances: balances@, holds: holds@ };
                forall|k: int| 0 <= k < records.versions.len() && #[trigger] version_fault(records.versions, k)
                    && (forall|j: int| 0 <= j < k ==> !version_fault(records.versions, j))
                    ==> (r matches Err(BudgetManagerError::InvalidPersistedState(m)) && m@ == version_fault_text(records.versions, k))
            }),
            ({
                let records = BudgetStateView { budgets: budgets@, versions: versions@, balances: balances@, holds: holds@ };
                (forall|j: int| 0 <= j < records.versions.len() ==> !#[trigger] version_fault(records.versions, j))
                    ==> forall|k: int| 0 <= k < records.budgets.len() && #[trigger] budget_fault(records, k)
                    && (forall|j: int| 0 <= j < k ==> !budget_fault(records, j))
                    ==> (r matches Err(BudgetManagerError::InvalidPersistedState(m)) && m@ == budget_fault_text(records, k))
            }),
            ({
                let records = BudgetStateView { budgets: budgets@, versions: versions@, balances: balances@, holds: holds@ };
                records_in_order_ok(records) && !records.budgets_disjoint() ==> (r matches Err(
                    BudgetManagerError::InvalidPersistedState(m),
                ) && exists|i: int, j: int| #[trigger] budgets_overlap_at(records.budgets, i, j)
                    && m@ == overlap_text(records.budgets[i].id, records.budgets[j].id))
            }),
    {
        match BudgetState::from_records(budgets, versions, balances, holds) {
            Ok(state) => Ok(BudgetManager { state }),
            Err(e) => Err(e),
        }
    }

    /// Publish a state that storage has committed.
    pub fn apply_committed_state(&mut self, state: BudgetState)
        ensures
            final(self)@ == state@,
    {
        self.state = state;
    }

    /// Publish a hold and balance that storage has finalized.
    pub fn apply_persisted_finalization(&mut self, hold: BudgetHold, balance: BudgetBalance)
        requires
            old(self).wf(),
        ensures
            final(self)@.budgets == old(self)@.budgets,
            final(self)@.versions == old(self)@.versions,
            final(self)@.hold(hold.id) == Some(hold),
            final(self)@.balance(hold.budget_id) == Some(BudgetBalance { budget_id: hold.budget_id, ..balance }),
    {
        self.state.apply_persisted_finalization(hold, balance);
        proof { crate::budget::state::lemma_finalization_lookup(old(self)@, self@, hold, balance); }
    }

    /// Create one logical budget with revision 1 and a zero balance, under
    /// fresh identifiers, created now.
    pub fn create_single_budget_with_provenance(
        &mut self,
        request: CreateSingleBudgetRequest,
        provenance: BudgetVersionProvenance,
    ) -> (r: Result<CreateSingleBudgetResponse, BudgetManagerError>)
        requires
            old(self).wf(),
        ensures
            final(self).wf(),
            exists|budget_id: BudgetId, version_id: BudgetVersionId, now: i64|
                #[trigger] spec_create_outcome(old(self)@, request, provenance, budget_id, version_id, now, r, final(self)@),
    {
        let budget_id = BudgetId::new();
        let version_id = BudgetVersionId::new();
        let now = now_micros();
        let r = self.state.create_budget_for_period_with_ids(request, &provenance, budget_id, version_id, now);
        assert(spec_create_outcome(old(self)@, request, provenance, budget_id, version_id, now, r, self@));
        r
    }

    /// Reserve from a budget that is active now, as a new frozen hold.
    pub fn reserve_budget(&mut self, request: ReserveBudgetRequest) -> (r: Result<ReserveBudgetResponse, BudgetManagerError>)
        requires
            old(self).wf(),
        ensures
            final(self).wf(),
            exists|now: i64, hold_id: BudgetHoldId|
                #[trigger] spec_reserve_outcome(old(self)@, request, now, hold_id, r, final(self)@),
    {
        let now = now_micros();
        let r = self.reserve_budget_at(request, now);
        let ghost hold_id = choose|hold_id: BudgetHoldId| #[trigger] spec_reserve_outcome(old(self)@, request, now, hold_id, r, self@);
        assert(spec_reserve_outcome(old(self)@, request, now, hold_id, r, self@));
        r
    }

    /// Reserve from a budget that is active at `now`, as a new frozen hold
    /// under a fresh identifier.
    pub fn reserve_budget_at(&mut self, request: ReserveBudgetRequest, now: i64) -> (r: Result<ReserveBudgetResponse, BudgetManagerError>)
        requires
            old(self).wf(),
        ensures
            final(self).wf(),
            exists|hold_id: BudgetHoldId| #[trigger] spec_reserve_outcome(old(self)@, request, now, hold_id, r, final(self)@),
    {
        let hold_id = BudgetHoldId::new();
        let r = self.state.reserve_budget_at_with_id(request, now, hold_id);
        assert(spec_reserve_outcome(old(self)@, request, now, hold_id, r, self@));
        r
    }

    /// Bind a frozen hold to one executor claim and extend its lease.
    pub fn claim_budget(
        &mut self,
        hold_id: &BudgetHoldId,
        claim_id: SpendExecutorClaimId,
        expires_at: i64,
    ) -> (r: Result<ReserveBudgetResponse, BudgetManagerError>)
        requires
            old(self).wf(),
        ensures
            final(self).wf(),
            exists|now: i64| #[trigger] spec_claim_outcome(old(self)@, *hold_id, claim_id, expires_at, now, r, final(self)@),
    {
        let now = now_micros();
        let r = self.state.claim_budget_at(hold_id, claim_id, expires_at, now);
        assert(spec_claim_outcome(old(self)@, *hold_id, claim_id, expires_at, now, r, self@));
        r
    }

    /// Bind a frozen hold to one executor claim at `now`.
    pub fn claim_budget_at(
        &mut self,
        hold_id: &BudgetHoldId,
        claim_id: SpendExecutorClaimId,
        expires_at: i64,
        now: i64,
    ) -> (r: Result<ReserveBudgetResponse, BudgetManagerError>)
        requires
            old(self).wf(),
        ensures
            final(self).wf(),
            spec_claim_outcome(old(self)@, *hold_id, claim_id, expires_at, now, r, final(self)@),
    {
        self.state.claim_budget_at(hold_id, claim_id, expires_at, now)
    }

    /// Settle an active hold now: its amount moves from frozen to consumed.
    pub fn settle_budget(&mut self, hold_id: &BudgetHoldId) -> (r: Result<SettleBudgetResponse, BudgetManagerError>)
        requires
            old(self).wf(),
        ensures
            final(self).wf(),
            exists|now: i64| #[trigger] spec_settle_outcome(old(self)@, *hold_id, now, r, final(self)@),
    {
        let now = now_micros();
        let r = self.state.settle_budget_at(hold_id, now);
        assert(spec_settle_outcome(old(self)@, *hold_id, now, r, self@));
        r
    }

    /// Settle an active hold at `now`.
    pub fn settle_budget_at(&mut self, hold_id: &BudgetHoldId, now: i64) -> (r: Result<SettleBudgetResponse, BudgetManagerError>)
        requires
            old(self).wf(),
        ensures
            final(self).wf(),
            spec_settle_outcome(old(self)@, *hold_id, now, r, final(self)@),
    {
        self.state.settle_budget_at(hold_id, now)
    }

    /// Release an active hold now: its amount returns to remaining.
    pub fn release_budget(&mut self, hold_id: &BudgetHoldId) -> (r: Result<ReleaseBudgetResponse, BudgetManagerError>)
        requires
            old(self).wf(),
        ensures
            final(self).wf(),
            exists|now: i64| #[trigger] spec_release_outcome(old(self)@, *hold_id, now, r, final(self)@),
    {
        let now = now_micros();
        let r = self.state.release_budget_at(hold_id, now);
        assert(spec_release_outcome(old(self)@, *hold_id, now, r, self@));
        r
    }

    /// Release an active hold at `now`.
    pub fn release_budget_at(&mut self, hold_id: &BudgetHoldId, now: i64) -> (r: Result<ReleaseBudgetResponse, BudgetManagerError>)
        requires
            old(self).wf(),
        ensures
            final(self).wf(),
            spec_release_outcome(old(self)@, *hold_id, now, r, final(self)@),
    {
        self.state.release_budget_at(hold_id, now)
    }

    /// Release every frozen hold whose lease ended at or before `now`.
    pub fn expire_overdue_budget_holds(&mut self, now: i64) -> (r: Result<Vec<ExpireBudgetHoldResponse>, BudgetManagerError>)
        requires
            old(self).wf(),
        ensures
            final(self).wf(),
            spec_expire_outcome(old(self)@, now, r, final(self)@),
    {
        self.state.expire_overdue_budget_holds(now)
    }

    pub fn get_budget_by_id(&self, budget_id: &BudgetId) -> (r: Option<BudgetWithBalance>)
        requires
            self.wf(),
        ensures
            match self@.budget(*budget_id) {
                None => r is None,
                Some(b) => r matches Some(snapshot) && snapshot_of(self@, b, snapshot) && spec_snapshot_consistent(snapshot),
            },
    {
        self.state.get_budget_by_id(budget_id)
    }

    pub fn get_budgets_by_agent_id(&self, agent_id: &AgentId) -> (r: Vec<BudgetWithBalance>)
        requires
            self.wf(),
        ensures
            r@.len() == agent_budgets(self@.budgets, *agent_id).len(),
            forall|k: int| 0 <= k < r@.len() ==> snapshot_of(self@, agent_budgets(self@.budgets, *agent_id)[k], #[trigger] r@[k]),
    {
        self.state.get_budgets_by_agent_id(agent_id)
    }

    /// The version history of one budget in ascending revision order.
    pub fn get_budget_versions_by_budget_id(&self, budget_id: &BudgetId) -> (r: Vec<BudgetVersion>)
        ensures
            r@.to_multiset() == budget_versions_of(self@.versions, *budget_id).to_multiset(),
            sorted_by(r@, revision_leq()),
    {
        self.state.get_budget_versions_by_budget_id(budget_id)
    }

    pub fn get_evaluated_budget_by_id(&self, budget_id: &BudgetId, now: i64) -> (r: Result<Option<EvaluatedBudget>, BudgetManagerError>)
        requires
            self.wf(),
        ensures
            match self@.budget(*budget_id) {
                None => r matches Ok(None),
                Some(b) => r matches Ok(Some(e)) && snapshot_of(self@, b, e.current) && e.evaluated_at == now
                    && e.availability == spec_availability(b, self@.balance(*budget_id)->0, now),
            },
    {
        self.state.get_evaluated_budget_by_id(budget_id, now)
    }

    pub fn get_evaluated_budgets_by_agent_id(&self, agent_id: &AgentId, now: i64) -> (r: Result<Vec<EvaluatedBudget>, BudgetManagerError>)
        requires
            self.wf(),
        ensures
            r matches Ok(es) && es@.len() == agent_budgets(self@.budgets, *agent_id).len()
                && forall|k: int| 0 <= k < es@.len() ==> {
                    let b = agent_budgets(self@.budgets, *agent_id)[k];
                    &&& snapshot_of(self@, b, (#[trigger] es@[k]).current)
                    &&& es@[k].evaluated_at == now
                    &&& es@[k].availability == spec_availability(b, self@.balance(b.id)->0, now)
                },
    {
        self.state.get_evaluated_budgets_by_agent_id(agent_id, now)
    }

    pub fn available_budget_id_for_agent_at(&self, agent_id: &AgentId, currency: Currency, now: i64) -> (r: Result<Option<BudgetId>, BudgetManagerError>)
        requires
            self.wf(),
        ensures
            match r {
                Ok(Some(id)) => exists|k: int| 0 <= k < agent_budgets(self@.budgets, *agent_id).len()
                    && #[trigger] agent_budgets(self@.budgets, *agent_id)[k].id == id
                    && reservable(self@, agent_budgets(self@.budgets, *agent_id)[k], currency, now)
                    && forall|j: int| 0 <= j < k ==> !reservable(self@, #[trigger] agent_budgets(self@.budgets, *agent_id)[j], currency, now),
                Ok(None) => forall|j: int| 0 <= j < agent_budgets(self@.budgets, *agent_id).len()
                    ==> !reservable(self@, #[trigger] agent_budgets(self@.budgets, *agent_id)[j], currency, now),
                Err(_) => false,
            },
    {
        self.state.available_budget_id_for_agent_at(agent_id, currency, now)
    }

    pub fn get_budget_balance(&self, budget_id: &BudgetId) -> (r: Option<BudgetBalance>)
        requires
            self.wf(),
        ensures
            r == self@.balance(*budget_id),
    {
        self.state.get_budget_balance(budget_id)
    }

    pub fn get_budget_hold(&self, hold_id: &BudgetHoldId) -> (r: Option<BudgetHold>)
        requires
            self.wf(),
        ensures
            r == self@.hold(*hold_id),
    {
        self.state.get_budget_hold(hold_id)
    }

    pub fn get_budget_hold_by_spend_decision(&self, spend_decision_id: &SpendDecisionId) -> (r: Option<BudgetHold>)
        requires
            self.wf(),
        ensures
            r == self@.hold_for_decision(*spend_decision_id),
    {
        self.state.get_budget_hold_by_spend_decision(spend_decision_id)
    }

    /// Revoke a budget now; its outstanding holds may still finalize.
    pub fn revoke_budget(&mut self, budget_id: &BudgetId) -> (r: Result<BudgetWithBalance, BudgetManagerError>)
        requires
            old(self).wf(),
        ensures
            final(self).wf(),
            exists|now: i64| #[trigger] spec_revoke_outcome(old(self)@, *budget_id, now, r, final(self)@),
    {
        let now = now_micros();
        let r = self.revoke_budget_at(budget_id, now);
        assert(spec_revoke_outcome(old(self)@, *budget_id, now, r, self@));
        r
    }

    /// Revoke a budget at `now`.
    pub fn revoke_budget_at(&mut self, budget_id: &BudgetId, now: i64) -> (r: Result<BudgetWithBalance, BudgetManagerError>)
        requires
            old(self).wf(),
        ensures
            final(self).wf(),
            spec_revoke_outcome(old(self)@, *budget_id, now, r, final(self)@),
    {
        self.state.revoke_budget_at(budget_id, now)
    }
}


impl Default for BudgetManager {
    fn default() -> (m: Self)
        ensures
            m.wf(),
            m@.budgets.len() == 0,
            m@.versions.len() == 0,
            m@.balances.len() == 0,
            m@.holds.len() == 0,
    {
        BudgetManager::new()
    }
}

} // verus!
