use vstd::prelude::*;
use crate::format::uuid_text;

use crate::budget::dto::{
    spec_snapshot_consistent, BudgetWithBalance, CreateSingleBudgetRequest, CreateSingleBudgetResponse,
    EvaluatedBudget, ExpireBudgetHoldResponse, ReleaseBudgetResponse, ReserveBudgetRequest,
    ReserveBudgetResponse, SettleBudgetResponse,
};
use crate::budget::error::BudgetManagerError;
use crate::budget::model::{
    spec_request_fingerprint, BudgetError,
    evaluate_budget_availability, is_active_status, spec_availability, spec_claim, Budget,
    BudgetAdministrativeState, BudgetAvailability, BudgetBalance, BudgetHold, BudgetHoldError,
    BudgetHoldStatus, BudgetVersion,
};
use crate::common::{
    periods_overlap, spec_periods_overlap, AgentId, BudgetHoldId, BudgetId, BudgetVersionId,
    Currency, SpendDecisionId, SpendExecutorClaimId, TimePeriod,
};
use crate::text::{is_blank, push_str, str_is_blank, string_from_chars};
use vstd::relations::sorted_by;
use crate::keyed::{
    find_key, has_key, key_index, keys_unique, lemma_find_at, lemma_find_some, lemma_push,
    lemma_update,
};

verus! {

pub open spec fn budget_key() -> spec_fn(Budget) -> BudgetId {
    |b: Budget| b.id
}

pub open spec fn version_key() -> spec_fn(BudgetVersion) -> BudgetVersionId {
    |v: BudgetVersion| v.id
}

pub open spec fn balance_key() -> spec_fn(BudgetBalance) -> BudgetId {
    |b: BudgetBalance| b.budget_id
}

pub open spec fn hold_key() -> spec_fn(BudgetHold) -> BudgetHoldId {
    |h: BudgetHold| h.id
}

pub open spec fn hold_decision_key() -> spec_fn(BudgetHold) -> SpendDecisionId {
    |h: BudgetHold| h.spend_decision_id
}

/// What a hold adds to the frozen amount of budget `b`.
pub open spec fn hold_contribution(h: BudgetHold, b: BudgetId) -> int {
    if h.budget_id == b && is_active_status(h.status) {
        h.amount_cents as int
    } else {
        0
    }
}

/// Sum of the amounts of the frozen or claimed holds of budget `b`.
pub open spec fn active_total(holds: Seq<BudgetHold>, b: BudgetId) -> int
    decreases holds.len(),
{
    if holds.len() == 0 {
        0
    } else {
        active_total(holds.drop_last(), b) + hold_contribution(holds.last(), b)
    }
}

pub proof fn lemma_total_push(holds: Seq<BudgetHold>, h: BudgetHold, b: BudgetId)
    ensures
        active_total(holds.push(h), b) == active_total(holds, b) + hold_contribution(h, b),
{
    assert(holds.push(h).drop_last() =~= holds);
}

pub proof fn lemma_total_update(holds: Seq<BudgetHold>, i: int, h: BudgetHold, b: BudgetId)
    requires
        0 <= i < holds.len(),
    ensures
        active_total(holds.update(i, h), b) == active_total(holds, b) - hold_contribution(holds[i], b)
            + hold_contribution(h, b),
    decreases holds.len(),
{
    let t = holds.update(i, h);
    if i == holds.len() - 1 {
        assert(t.drop_last() =~= holds.drop_last());
    } else {
        lemma_total_update(holds.drop_last(), i, h, b);
        assert(t.drop_last() =~= holds.drop_last().update(i, h));
    }
}

pub proof fn lemma_total_bounds(holds: Seq<BudgetHold>, b: BudgetId)
    requires
        forall|k: int| 0 <= k < holds.len() ==> #[trigger] holds[k].amount_cents > 0,
    ensures
        active_total(holds, b) >= 0,
        forall|k: int| 0 <= k < holds.len() ==> active_total(holds, b) >= hold_contribution(#[trigger] holds[k], b),
    decreases holds.len(),
{
    if holds.len() > 0 {
        let d = holds.drop_last();
        lemma_total_bounds(d, b);
        assert forall|k: int| 0 <= k < holds.len() implies active_total(holds, b) >= hold_contribution(#[trigger] holds[k], b) by {
            if k < holds.len() - 1 {
                assert(d[k] == holds[k]);
            }
        }
    }
}

pub proof fn lemma_total_absent(holds: Seq<BudgetHold>, b: BudgetId)
    requires
        forall|k: int| 0 <= k < holds.len() ==> #[trigger] holds[k].budget_id != b,
    ensures
        active_total(holds, b) == 0,
    decreases holds.len(),
{
    if holds.len() > 0 {
        let d = holds.drop_last();
        assert forall|k: int| 0 <= k < d.len() implies #[trigger] d[k].budget_id != b by {
            assert(d[k] == holds[k]);
        }
        lemma_total_absent(d, b);
    }
}

/// The records of a budget state, each sequence in insertion order.
pub struct BudgetStateView {
    pub budgets: Seq<Budget>,
    pub versions: Seq<BudgetVersion>,
    pub balances: Seq<BudgetBalance>,
    pub holds: Seq<BudgetHold>,
}

impl BudgetStateView {
    pub open spec fn budget(self, id: BudgetId) -> Option<Budget> {
        find_key(self.budgets, budget_key(), id)
    }

    pub open spec fn version(self, id: BudgetVersionId) -> Option<BudgetVersion> {
        find_key(self.versions, version_key(), id)
    }

    pub open spec fn balance(self, id: BudgetId) -> Option<BudgetBalance> {
        find_key(self.balances, balance_key(), id)
    }

    pub open spec fn hold(self, id: BudgetHoldId) -> Option<BudgetHold> {
        find_key(self.holds, hold_key(), id)
    }

    pub open spec fn hold_for_decision(self, id: SpendDecisionId) -> Option<BudgetHold> {
        find_key(self.holds, hold_decision_key(), id)
    }

    /// The limit of the current version of budget `id`.
    pub open spec fn limit(self, id: BudgetId) -> int {
        self.version(self.budget(id)->0.current_version_id)->0.amount_limit_cents as int
    }

    pub open spec fn budget_ok(self, b: Budget) -> bool {
        &&& self.version(b.current_version_id) matches Some(v)
        &&& v.budget_id == b.id
        &&& v.amount_limit_cents > 0
        &&& self.balance(b.id) is Some
    }

    /// The balance law: remaining is the current limit less consumed and
    /// frozen, and frozen is the sum of the budget's frozen or claimed holds.
    pub open spec fn balance_ok(self, bal: BudgetBalance) -> bool {
        &&& self.budget(bal.budget_id) is Some
        &&& bal.consumed_amount_cents >= 0
        &&& bal.frozen_amount_cents >= 0
        &&& bal.remaining_amount_cents == self.limit(bal.budget_id) - bal.consumed_amount_cents
            - bal.frozen_amount_cents
        &&& bal.frozen_amount_cents == active_total(self.holds, bal.budget_id)
    }

    pub open spec fn hold_ok(self, h: BudgetHold) -> bool {
        &&& h.amount_cents > 0
        &&& self.budget(h.budget_id) matches Some(b)
        &&& b.currency == h.currency
        &&& self.version(h.budget_version_id) matches Some(v)
        &&& v.budget_id == h.budget_id
    }

    /// Non-revoked budgets of one agent and currency never overlap in time.
    pub open spec fn budgets_disjoint(self) -> bool {
        forall|i: int, j: int|
            0 <= i < self.budgets.len() && 0 <= j < self.budgets.len() && i != j
                && self.budgets[i].administrative_state != BudgetAdministrativeState::Revoked
                && self.budgets[j].administrative_state != BudgetAdministrativeState::Revoked
                && self.budgets[i].agent_id == self.budgets[j].agent_id
                && self.budgets[i].currency == self.budgets[j].currency
                ==> !spec_periods_overlap(#[trigger] self.budgets[i].period, #[trigger] self.budgets[j].period)
    }

    pub open spec fn wf(self) -> bool {
        &&& keys_unique(self.budgets, budget_key())
        &&& keys_unique(self.versions, version_key())
        &&& keys_unique(self.balances, balance_key())
        &&& keys_unique(self.holds, hold_key())
        &&& keys_unique(self.holds, hold_decision_key())
        &&& forall|i: int| 0 <= i < self.budgets.len() ==> self.budget_ok(#[trigger] self.budgets[i])
        &&& forall|i: int| 0 <= i < self.balances.len() ==> self.balance_ok(#[trigger] self.balances[i])
        &&& forall|i: int| 0 <= i < self.holds.len() ==> self.hold_ok(#[trigger] self.holds[i])
        &&& self.budgets_disjoint()
    }
}

/// In-memory budget records with their indexes. Every operation keeps the
/// balance law of [`BudgetStateView::balance_ok`].
pub struct BudgetState {
    budgets: Vec<Budget>,
    versions: Vec<BudgetVersion>,
    balances: Vec<BudgetBalance>,
    holds: Vec<BudgetHold>,
}

impl View for BudgetState {
    type V = BudgetStateView;

    closed spec fn view(&self) -> BudgetStateView {
        BudgetStateView {
            budgets: self.budgets@,
            versions: self.versions@,
            balances: self.balances@,
            holds: self.holds@,
        }
    }
}

impl BudgetState {
    pub open spec fn wf(&self) -> bool {
        self@.wf()
    }

    pub fn new() -> (s: Self)
        ensures
            s.wf(),
            s@.budgets.len() == 0,
            s@.versions.len() == 0,
            s@.balances.len() == 0,
            s@.holds.len() == 0,
    {
        BudgetState { budgets: Vec::new(), versions: Vec::new(), balances: Vec::new(), holds: Vec::new() }
    }

    fn budget_position(&self, id: BudgetId) -> (r: Option<usize>)
        ensures
            match r {
                Some(i) => i < self@.budgets.len() && self@.budgets[i as int].id == id,
                None => !has_key(self@.budgets, budget_key(), id),
            },
    {
        let mut i: usize = 0;
        while i < self.budgets.len()
            invariant
                i <= self.budgets.len(),
                forall|j: int| 0 <= j < i ==> #[trigger] self.budgets@[j].id != id,
            decreases self.budgets.len() - i,
        {
            if self.budgets[i].id == id {
                return Some(i);
            }
            i = i + 1;
        }
        assert forall|j: int| 0 <= j < self.budgets@.len() implies budget_key()(#[trigger] self.budgets@[j]) != id by {}
        None
    }

    fn version_position(&self, id: BudgetVersionId) -> (r: Option<usize>)
        ensures
            match r {
                Some(i) => i < self@.versions.len() && self@.versions[i as int].id == id,
                None => !has_key(self@.versions, version_key(), id),
            },
    {
        let mut i: usize = 0;
        while i < self.versions.len()
            invariant
                i <= self.versions.len(),
                forall|j: int| 0 <= j < i ==> #[trigger] self.versions@[j].id != id,
            decreases self.versions.len() - i,
        {
            if self.versions[i].id == id {
                return Some(i);
            }
            i = i + 1;
        }
        assert forall|j: int| 0 <= j < self.versions@.len() implies version_key()(#[trigger] self.versions@[j]) != id by {}
        None
    }

    fn balance_position(&self, id: BudgetId) -> (r: Option<usize>)
        ensures
            match r {
                Some(i) => i < self@.balances.len() && self@.balances[i as int].budget_id == id,
                None => !has_key(self@.balances, balance_key(), id),
            },
    {
        let mut i: usize = 0;
        while i < self.balances.len()
            invariant
                i <= self.balances.len(),
                forall|j: int| 0 <= j < i ==> #[trigger] self.balances@[j].budget_id != id,
            decreases self.balances.len() - i,
        {
            if self.balances[i].budget_id == id {
                return Some(i);
            }
            i = i + 1;
        }
        assert forall|j: int| 0 <= j < self.balances@.len() implies balance_key()(#[trigger] self.balances@[j]) != id by {}
        None
    }

    fn hold_position(&self, id: BudgetHoldId) -> (r: Option<usize>)
        ensures
            match r {
                Some(i) => i < self@.holds.len() && self@.holds[i as int].id == id,
                None => !has_key(self@.holds, hold_key(), id),
            },
    {
        let mut i: usize = 0;
        while i < self.holds.len()
            invariant
                i <= self.holds.len(),
                forall|j: int| 0 <= j < i ==> #[trigger] self.holds@[j].id != id,
            decreases self.holds.len() - i,
        {
            if self.holds[i].id == id {
                return Some(i);
            }
            i = i + 1;
        }
        assert forall|j: int| 0 <= j < self.holds@.len() implies hold_key()(#[trigger] self.holds@[j]) != id by {}
        None
    }

    fn decision_hold_position(&self, id: SpendDecisionId) -> (r: Option<usize>)
        ensures
            match r {
                Some(i) => i < self@.holds.len() && self@.holds[i as int].spend_decision_id == id,
                None => !has_key(self@.holds, hold_decision_key(), id),
            },
    {
        let mut i: usize = 0;
        while i < self.holds.len()
            invariant
                i <= self.holds.len(),
                forall|j: int| 0 <= j < i ==> #[trigger] self.holds@[j].spend_decision_id != id,
            decreases self.holds.len() - i,
        {
            if self.holds[i].spend_decision_id == id {
                return Some(i);
            }
            i = i + 1;
        }
        assert forall|j: int| 0 <= j < self.holds@.len() implies hold_decision_key()(#[trigger] self.holds@[j]) != id by {}
        None
    }

    pub fn get_budget_balance(&self, budget_id: &BudgetId) -> (r: Option<BudgetBalance>)
        requires
            self.wf(),
        ensures
            r == self@.balance(*budget_id),
    {
        match self.balance_position(*budget_id) {
            Some(i) => {
                proof { lemma_find_at(self@.balances, balance_key(), i as int); }
                Some(self.balances[i])
            },
            None => None,
        }
    }

    pub fn get_budget_hold(&self, hold_id: &BudgetHoldId) -> (r: Option<BudgetHold>)
        requires
            self.wf(),
        ensures
            r == self@.hold(*hold_id),
    {
        match self.hold_position(*hold_id) {
            Some(i) => {
                proof { lemma_find_at(self@.holds, hold_key(), i as int); }
                Some(self.holds[i])
            },
            None => None,
        }
    }

    pub fn get_budget_hold_by_spend_decision(&self, spend_decision_id: &SpendDecisionId) -> (r: Option<BudgetHold>)
        requires
            self.wf(),
        ensures
            r == self@.hold_for_decision(*spend_decision_id),
    {
        match self.decision_hold_position(*spend_decision_id) {
            Some(i) => {
                proof { lemma_find_at(self@.holds, hold_decision_key(), i as int); }
                Some(self.holds[i])
            },
            None => None,
        }
    }
}



/// The hold a reservation creates.
pub open spec fn spec_new_hold(s: BudgetStateView, request: ReserveBudgetRequest, now: i64, hold_id: BudgetHoldId) -> BudgetHold {
    BudgetHold {
        id: hold_id,
        budget_id: request.budget_id,
        budget_version_id: s.budget(request.budget_id)->0.current_version_id,
        spend_decision_id: request.spend_decision_id,
        amount_cents: request.amount_cents,
        currency: request.currency,
        status: BudgetHoldStatus::Frozen,
        executor_claim_id: None,
        created_at: now,
        updated_at: now,
        expires_at: request.expires_at,
    }
}

/// What a reservation does to state `s` at `now` when the new hold would
/// be named `hold_id`: the result `r` and the state `t` after it.
pub open spec fn spec_reserve_outcome(
    s: BudgetStateView,
    request: ReserveBudgetRequest,
    now: i64,
    hold_id: BudgetHoldId,
    r: Result<ReserveBudgetResponse, BudgetManagerError>,
    t: BudgetStateView,
) -> bool {
    let budget = s.budget(request.budget_id)->0;
    let balance = s.balance(request.budget_id)->0;
    let availability = spec_availability(budget, balance, now);
    if request.amount_cents <= 0 {
        r matches Err(BudgetManagerError::AmountMustBePositive) && t == s
    } else if s.hold_for_decision(request.spend_decision_id) is Some {
        r matches Err(BudgetManagerError::DuplicateSpendDecisionHold) && t == s
    } else if s.budget(request.budget_id) is None {
        r matches Err(BudgetManagerError::UnknownBudget) && t == s
    } else if availability != BudgetAvailability::Active {
        r matches Err(BudgetManagerError::BudgetUnavailable(a)) && a == availability && t == s
    } else if budget.currency != request.currency {
        r matches Err(BudgetManagerError::CurrencyMismatch) && t == s
    } else if balance.remaining_amount_cents < request.amount_cents {
        r matches Err(BudgetManagerError::InsufficientRemainingBudget) && t == s
    } else if s.hold(hold_id) is Some {
        r matches Err(BudgetManagerError::IdentifierCollision) && t == s
    } else {
        let hold = spec_new_hold(s, request, now, hold_id);
        let new_balance = BudgetBalance {
            remaining_amount_cents: (balance.remaining_amount_cents - request.amount_cents) as i64,
            frozen_amount_cents: (balance.frozen_amount_cents + request.amount_cents) as i64,
            ..balance
        };
        &&& r matches Ok(resp) && resp.hold == hold && resp.balance == new_balance
        &&& t.holds == s.holds.push(hold)
        &&& t.balances == s.balances.update(key_index(s.balances, balance_key(), request.budget_id), new_balance)
        &&& t.budgets == s.budgets
        &&& t.versions == s.versions
    }
}

/// What binding hold `hold_id` to executor claim `claim_id` until `expires_at` does at `now`.
pub open spec fn spec_claim_outcome(
    s: BudgetStateView,
    hold_id: BudgetHoldId,
    claim_id: SpendExecutorClaimId,
    expires_at: i64,
    now: i64,
    r: Result<ReserveBudgetResponse, BudgetManagerError>,
    t: BudgetStateView,
) -> bool {
    match s.hold(hold_id) {
        None => r matches Err(BudgetManagerError::UnknownBudgetHold) && t == s,
        Some(hold) => match spec_claim(hold, claim_id, expires_at, now) {
            Err(e) => r matches Err(BudgetManagerError::InvalidBudgetHoldTransition(e2)) && e2 == e
                && t == s,
            Ok(claimed) => r matches Ok(resp) && resp.hold == claimed
                && resp.balance == s.balance(hold.budget_id)->0
                && t.holds == s.holds.update(key_index(s.holds, hold_key(), hold_id), claimed)
                && t.balances == s.balances && t.budgets == s.budgets
                && t.versions == s.versions,
        },
    }
}

/// What settling hold `hold_id` at `now` does: the result `r` and the state `t` after it.
pub open spec fn spec_settle_outcome(
    s: BudgetStateView,
    hold_id: BudgetHoldId,
    now: i64,
    r: Result<SettleBudgetResponse, BudgetManagerError>,
    t: BudgetStateView,
) -> bool {
    match s.hold(hold_id) {
        None => r matches Err(BudgetManagerError::UnknownBudgetHold) && t == s,
        Some(hold) => {
            let balance = s.balance(hold.budget_id)->0;
            if hold.expires_at <= now {
                r matches Err(BudgetManagerError::ExpiredBudgetHold) && t == s
            } else if !is_active_status(hold.status) {
                r matches Err(BudgetManagerError::InvalidBudgetHoldTransition(BudgetHoldError::CannotSettleNonFrozenHold))
                    && t == s
            } else if balance.consumed_amount_cents + hold.amount_cents > i64::MAX {
                r matches Err(BudgetManagerError::InvalidPersistedState(_)) && t == s
            } else {
                let settled = BudgetHold { status: BudgetHoldStatus::Settled, updated_at: now, ..hold };
                let new_balance = BudgetBalance {
                    frozen_amount_cents: (balance.frozen_amount_cents - hold.amount_cents) as i64,
                    consumed_amount_cents: (balance.consumed_amount_cents + hold.amount_cents) as i64,
                    ..balance
                };
                &&& r matches Ok(resp) && resp.hold == settled && resp.balance == new_balance
                &&& t == spec_with_hold_step(s, key_index(s.holds, hold_key(), hold_id), settled, new_balance)
            }
        },
    }
}

/// What releasing hold `hold_id` at `now` does: the result `r` and the state `t` after it.
pub open spec fn spec_release_outcome(
    s: BudgetStateView,
    hold_id: BudgetHoldId,
    now: i64,
    r: Result<ReleaseBudgetResponse, BudgetManagerError>,
    t: BudgetStateView,
) -> bool {
    match s.hold(hold_id) {
        None => r matches Err(BudgetManagerError::UnknownBudgetHold) && t == s,
        Some(hold) => {
            let balance = s.balance(hold.budget_id)->0;
            if !is_active_status(hold.status) {
                r matches Err(BudgetManagerError::InvalidBudgetHoldTransition(BudgetHoldError::CannotReleaseNonFrozenHold))
                    && t == s
            } else {
                let released = BudgetHold { status: BudgetHoldStatus::Released, updated_at: now, ..hold };
                let new_balance = BudgetBalance {
                    frozen_amount_cents: (balance.frozen_amount_cents - hold.amount_cents) as i64,
                    remaining_amount_cents: (balance.remaining_amount_cents + hold.amount_cents) as i64,
                    ..balance
                };
                &&& r matches Ok(resp) && resp.hold == released && resp.balance == new_balance
                &&& t == spec_with_hold_step(s, key_index(s.holds, hold_key(), hold_id), released, new_balance)
            }
        },
    }
}

/// What creating a budget named `budget_id`, with revision 1 named `version_id`, does at `now`.
pub open spec fn spec_create_outcome(
    s: BudgetStateView,
    request: CreateSingleBudgetRequest,
    provenance: BudgetVersionProvenance,
    budget_id: BudgetId,
    version_id: BudgetVersionId,
    now: i64,
    r: Result<CreateSingleBudgetResponse, BudgetManagerError>,
    t: BudgetStateView,
) -> bool {
    if spec_has_overlap(s, request.agent_id, request.currency, request.period) {
        r matches Err(BudgetManagerError::OverlappingBudgetPeriod) && t == s
    } else if crate::text::is_blank(provenance.actor@) || crate::text::is_blank(provenance.source@) {
        r matches Err(BudgetManagerError::MissingBudgetVersionProvenance) && t == s
    } else if request.amount_limit_cents <= 0 {
        r matches Err(BudgetManagerError::InvalidBudget(BudgetError::AmountLimitMustBePositive))
            && t == s
    } else if s.budget(budget_id) is Some || s.version(version_id) is Some {
        r matches Err(BudgetManagerError::IdentifierCollision) && t == s
    } else {
        let budget = Budget {
            id: budget_id,
            agent_id: request.agent_id,
            current_version_id: version_id,
            currency: request.currency,
            period: request.period,
            administrative_state: BudgetAdministrativeState::Active,
            created_at: now,
            updated_at: now,
        };
        let balance = BudgetBalance {
            budget_id,
            consumed_amount_cents: 0,
            frozen_amount_cents: 0,
            remaining_amount_cents: request.amount_limit_cents,
        };
        &&& r matches Ok(resp) && resp.budget == budget && resp.balance == balance
            && resp.version == (BudgetVersion {
                id: version_id,
                budget_id,
                revision: 1,
                predecessor_version_id: None,
                amount_limit_cents: request.amount_limit_cents,
                effective_at: now,
                actor: provenance.actor,
                source: provenance.source,
                reason: provenance.reason,
                request_fingerprint: resp.version.request_fingerprint,
                created_at: now,
            })
            && resp.version.request_fingerprint@ == spec_request_fingerprint(
                request.agent_id,
                request.amount_limit_cents,
                request.currency,
                request.period,
            )
            && t.budgets == s.budgets.push(budget)
            && t.versions == s.versions.push(resp.version)
            && t.balances == s.balances.push(balance)
            && t.holds == s.holds
    }
}

/// What revoking budget `budget_id` at `now` does: the result `r` and the state `t` after it.
pub open spec fn spec_revoke_outcome(
    s: BudgetStateView,
    budget_id: BudgetId,
    now: i64,
    r: Result<BudgetWithBalance, BudgetManagerError>,
    t: BudgetStateView,
) -> bool {
    match s.budget(budget_id) {
        None => r matches Err(BudgetManagerError::MissingBudgetBalance) && t == s,
        Some(b) => if b.administrative_state == BudgetAdministrativeState::Revoked {
            r matches Err(BudgetManagerError::BudgetAlreadyRevoked) && t == s
        } else {
            let revoked = Budget {
                administrative_state: BudgetAdministrativeState::Revoked,
                updated_at: now,
                ..b
            };
            &&& r matches Ok(snapshot) && snapshot.budget == revoked
                && snapshot.version == s.version(b.current_version_id)->0
                && snapshot.balance == s.balance(budget_id)->0
            &&& t.budgets == s.budgets.update(key_index(s.budgets, budget_key(), budget_id), revoked)
            &&& t.versions == s.versions
            &&& t.balances == s.balances
            &&& t.holds == s.holds
        },
    }
}

/// What expiring the overdue holds at `now` does: every frozen hold whose lease ended at or before `now` is released, in recorded order.
pub open spec fn spec_expire_outcome(
    s: BudgetStateView,
    now: i64,
    r: Result<Vec<ExpireBudgetHoldResponse>, BudgetManagerError>,
    t: BudgetStateView,
) -> bool {
    let expired = expiring_indices(s.holds, now, s.holds.len() as int);
    &&& t.holds == expire_prefix(s.holds, now, s.holds.len() as int)
    &&& t.budgets == s.budgets
    &&& t.versions == s.versions
    &&& t.balances.len() == s.balances.len()
    &&& forall|j: int| 0 <= j < s.balances.len() ==> #[trigger] t.balances[j] == (BudgetBalance {
        frozen_amount_cents: active_total(t.holds, s.balances[j].budget_id) as i64,
        remaining_amount_cents: (s.balances[j].remaining_amount_cents + s.balances[j].frozen_amount_cents
            - active_total(t.holds, s.balances[j].budget_id)) as i64,
        ..s.balances[j]
    })
    &&& r matches Ok(responses) && responses@.len() == expired.len()
        && forall|k: int| 0 <= k < expired.len() ==> (#[trigger] responses@[k]).hold == expire_step(s.holds[expired[k]], now)
            && responses@[k].balance == balance_after_expiry(s, now, expired[k])
}

impl BudgetState {
    /// The budget with its current version and balance.
    pub fn get_budget_by_id(&self, budget_id: &BudgetId) -> (r: Option<BudgetWithBalance>)
        requires
            self.wf(),
        ensures
            match self@.budget(*budget_id) {
                None => r is None,
                Some(b) => r matches Some(snapshot) && snapshot.budget == b
                    && snapshot.version == self@.version(b.current_version_id)->0
                    && snapshot.balance == self@.balance(*budget_id)->0
                    && spec_snapshot_consistent(snapshot),
            },
    {
        let bi = match self.budget_position(*budget_id) {
            Some(i) => i,
            None => return None,
        };
        let budget = self.budgets[bi];
        proof {
            lemma_find_at(self@.budgets, budget_key(), bi as int);
            assert(self@.budget_ok(self@.budgets[bi as int]));
        }
        let vi = match self.version_position(budget.current_version_id) {
            Some(i) => i,
            None => return None,
        };
        let bal = match self.balance_position(*budget_id) {
            Some(i) => i,
            None => return None,
        };
        proof {
            lemma_find_at(self@.versions, version_key(), vi as int);
            lemma_find_at(self@.balances, balance_key(), bal as int);
        }
        Some(BudgetWithBalance { budget, version: self.versions[vi].clone(), balance: self.balances[bal] })
    }

    /// Reserve `request.amount_cents` from a budget that is active at `now`,
    /// as a new frozen hold named `hold_id`.
    pub fn reserve_budget_at_with_id(
        &mut self,
        request: ReserveBudgetRequest,
        now: i64,
        hold_id: BudgetHoldId,
    ) -> (r: Result<ReserveBudgetResponse, BudgetManagerError>)
        requires
            old(self).wf(),
        ensures
            final(self).wf(),
            spec_reserve_outcome(old(self)@, request, now, hold_id, r, final(self)@),
    {
        if request.amount_cents <= 0 {
            return Err(BudgetManagerError::AmountMustBePositive);
        }
        if self.decision_hold_position(request.spend_decision_id).is_some() {
            proof { lemma_find_some(self@.holds, hold_decision_key(), request.spend_decision_id); }
            return Err(BudgetManagerError::DuplicateSpendDecisionHold);
        }
        let current = match self.get_budget_by_id(&request.budget_id) {
            Some(c) => c,
            None => return Err(BudgetManagerError::UnknownBudget),
        };
        let availability = match current.availability_at(now) {
            Ok(a) => a,
            Err(_) => return Err(BudgetManagerError::InvalidPersistedState(String::new())),
        };
        if !availability.allows_reservation() {
            return Err(BudgetManagerError::BudgetUnavailable(availability));
        }
        if current.budget.currency != request.currency {
            return Err(BudgetManagerError::CurrencyMismatch);
        }
        let bi = match self.balance_position(request.budget_id) {
            Some(i) => i,
            None => return Err(BudgetManagerError::MissingBudgetBalance),
        };
        let balance = self.balances[bi];
        proof {
            lemma_find_at(self@.balances, balance_key(), bi as int);
        }
        if balance.remaining_amount_cents < request.amount_cents {
            return Err(BudgetManagerError::InsufficientRemainingBudget);
        }
        if self.hold_position(hold_id).is_some() {
            proof { lemma_find_some(self@.holds, hold_key(), hold_id); }
            return Err(BudgetManagerError::IdentifierCollision);
        }
        let ghost s = self@;
        proof {
            assert(s.balance_ok(s.balances[bi as int]));
        }
        let new_balance = BudgetBalance {
            remaining_amount_cents: balance.remaining_amount_cents - request.amount_cents,
            frozen_amount_cents: balance.frozen_amount_cents + request.amount_cents,
            ..balance
        };
        let hold = BudgetHold {
            id: hold_id,
            budget_id: request.budget_id,
            budget_version_id: current.version.id,
            spend_decision_id: request.spend_decision_id,
            amount_cents: request.amount_cents,
            currency: request.currency,
            status: BudgetHoldStatus::Frozen,
            executor_claim_id: None,
            created_at: now,
            updated_at: now,
            expires_at: request.expires_at,
        };
        self.balances.set(bi, new_balance);
        self.holds.push(hold);
        proof {
            let t = self@;
            lemma_update(s.balances, balance_key(), bi as int, new_balance);
            lemma_push(s.holds, hold_key(), hold);
            lemma_push(s.holds, hold_decision_key(), hold);
            assert(t.budgets == s.budgets && t.versions == s.versions);
            assert forall|b: BudgetId| #[trigger] active_total(t.holds, b) == active_total(s.holds, b)
                + hold_contribution(hold, b) by {
                lemma_total_push(s.holds, hold, b);
            }
            assert forall|i: int| 0 <= i < t.budgets.len() implies t.budget_ok(#[trigger] t.budgets[i]) by {
                assert(s.budget_ok(s.budgets[i]));
            }
            assert forall|i: int| 0 <= i < t.balances.len() implies t.balance_ok(#[trigger] t.balances[i]) by {
                if i != bi {
                    assert(t.balances[i] == s.balances[i]);
                    assert(s.balance_ok(s.balances[i]));
                }
            }
            assert forall|i: int| 0 <= i < t.holds.len() implies t.hold_ok(#[trigger] t.holds[i]) by {
                if i < s.holds.len() {
                    assert(t.holds[i] == s.holds[i]);
                    assert(s.hold_ok(s.holds[i]));
                }
            }
        }
        Ok(ReserveBudgetResponse { hold, balance: new_balance })
    }
}



/// A hold changes only in its lifecycle fields.
pub open spec fn same_hold_identity(a: BudgetHold, b: BudgetHold) -> bool {
    &&& a.id == b.id
    &&& a.budget_id == b.budget_id
    &&& a.budget_version_id == b.budget_version_id
    &&& a.spend_decision_id == b.spend_decision_id
    &&& a.amount_cents == b.amount_cents
    &&& a.currency == b.currency
}

/// The state after hold `hi` becomes `hold` and its budget's balance
/// becomes `balance`.
pub open spec fn spec_with_hold_step(s: BudgetStateView, hi: int, hold: BudgetHold, balance: BudgetBalance) -> BudgetStateView {
    BudgetStateView {
        budgets: s.budgets,
        versions: s.versions,
        balances: s.balances.update(key_index(s.balances, balance_key(), hold.budget_id), balance),
        holds: s.holds.update(hi, hold),
    }
}

/// Replacing a hold and re-deriving its budget's balance keeps the state
/// well formed.
pub proof fn lemma_hold_step(s: BudgetStateView, hi: int, hold: BudgetHold, balance: BudgetBalance)
    requires
        s.wf(),
        0 <= hi < s.holds.len(),
        same_hold_identity(s.holds[hi], hold),
        balance.budget_id == hold.budget_id,
        balance.consumed_amount_cents >= 0,
        balance.frozen_amount_cents == s.balance(hold.budget_id)->0.frozen_amount_cents
            - hold_contribution(s.holds[hi], hold.budget_id) + hold_contribution(hold, hold.budget_id),
        balance.remaining_amount_cents == s.limit(hold.budget_id) - balance.consumed_amount_cents
            - balance.frozen_amount_cents,
    ensures
        spec_with_hold_step(s, hi, hold, balance).wf(),
        s.balance(hold.budget_id) is Some,
{
    let old_hold = s.holds[hi];
    let b = hold.budget_id;
    assert(s.hold_ok(old_hold));
    let bi = key_index(s.balances, balance_key(), b);
    assert(s.budget_ok(s.budget(b)->0)) by {
        lemma_find_some(s.budgets, budget_key(), b);
        let k = key_index(s.budgets, budget_key(), b);
        assert(s.budget_ok(s.budgets[k]));
    }
    lemma_find_some(s.balances, balance_key(), b);
    let t = spec_with_hold_step(s, hi, hold, balance);
    lemma_update(s.balances, balance_key(), bi, balance);
    lemma_update(s.holds, hold_key(), hi, hold);
    lemma_update(s.holds, hold_decision_key(), hi, hold);
    assert forall|x: BudgetId| #[trigger] active_total(t.holds, x) == active_total(s.holds, x)
        - hold_contribution(old_hold, x) + hold_contribution(hold, x) by {
        lemma_total_update(s.holds, hi, hold, x);
    }
    assert forall|k: int| 0 <= k < t.holds.len() implies #[trigger] t.holds[k].amount_cents > 0 by {
        assert(s.hold_ok(s.holds[k]));
    }
    lemma_total_bounds(t.holds, b);
    assert forall|i: int| 0 <= i < t.budgets.len() implies t.budget_ok(#[trigger] t.budgets[i]) by {
        assert(s.budget_ok(s.budgets[i]));
    }
    assert forall|i: int| 0 <= i < t.balances.len() implies t.balance_ok(#[trigger] t.balances[i]) by {
        if i != bi {
            assert(t.balances[i] == s.balances[i]);
            assert(s.balance_ok(s.balances[i]));
            assert(s.balances[i].budget_id != b);
        } else {
            assert(s.balance_ok(s.balances[bi]));
        }
    }
    assert forall|i: int| 0 <= i < t.holds.len() implies t.hold_ok(#[trigger] t.holds[i]) by {
        assert(s.hold_ok(s.holds[i]));
    }
}

impl BudgetState {
    /// Bind a frozen hold to one executor claim and extend its lease.
    pub fn claim_budget_at(
        &mut self,
        hold_id: &BudgetHoldId,
        claim_id: SpendExecutorClaimId,
        expires_at: i64,
        now: i64,
    ) -> (r: Result<ReserveBudgetResponse, BudgetManagerError>)
        requires
            old(self).wf(),
        ensures
            final(self).wf(),
            spec_claim_outcome(old(self)@, *hold_id, claim_id, expires_at, now, r, final(self)@),
    {
        let hi = match self.hold_position(*hold_id) {
            Some(i) => i,
            None => return Err(BudgetManagerError::UnknownBudgetHold),
        };
        proof { lemma_find_at(self@.holds, hold_key(), hi as int); }
        let mut hold = self.holds[hi];
        match hold.claim_at(claim_id, expires_at, now) {
            Ok(()) => {},
            Err(e) => return Err(BudgetManagerError::InvalidBudgetHoldTransition(e)),
        }
        let bi = match self.balance_position(hold.budget_id) {
            Some(i) => i,
            None => {
                proof {
                    let s = self@;
                    assert(s.hold_ok(s.holds[hi as int]));
                    let k = key_index(s.budgets, budget_key(), hold.budget_id);
                    lemma_find_some(s.budgets, budget_key(), hold.budget_id);
                    assert(s.budget_ok(s.budgets[k]));
                }
                return Err(BudgetManagerError::MissingBudgetBalance);
            },
        };
        let balance = self.balances[bi];
        let ghost s = self@;
        proof {
            lemma_find_at(s.balances, balance_key(), bi as int);
            assert(s.balance_ok(s.balances[bi as int]));
            lemma_hold_step(s, hi as int, hold, balance);
            lemma_find_at(s.balances, balance_key(), bi as int);
            assert(s.balances.update(bi as int, balance) =~= s.balances);
        }
        self.holds.set(hi, hold);
        Ok(ReserveBudgetResponse { hold, balance })
    }

    /// Settle an active hold after payment succeeds: its amount moves from
    /// frozen to consumed. A hold whose lease ended at or before `now` is
    /// refused.
    pub fn settle_budget_at(&mut self, hold_id: &BudgetHoldId, now: i64) -> (r: Result<SettleBudgetResponse, BudgetManagerError>)
        requires
            old(self).wf(),
        ensures
            final(self).wf(),
            spec_settle_outcome(old(self)@, *hold_id, now, r, final(self)@),
    {
        let hi = match self.hold_position(*hold_id) {
            Some(i) => i,
            None => return Err(BudgetManagerError::UnknownBudgetHold),
        };
        let ghost s = self@;
        proof {
            lemma_find_at(s.holds, hold_key(), hi as int);
            assert(s.hold_ok(s.holds[hi as int]));
        }
        let mut hold = self.holds[hi];
        if hold.expires_at <= now {
            return Err(BudgetManagerError::ExpiredBudgetHold);
        }
        let bi = match self.balance_position(hold.budget_id) {
            Some(i) => i,
            None => {
                proof {
                    let k = key_index(s.budgets, budget_key(), hold.budget_id);
                    lemma_find_some(s.budgets, budget_key(), hold.budget_id);
                    assert(s.budget_ok(s.budgets[k]));
                }
                return Err(BudgetManagerError::MissingBudgetBalance);
            },
        };
        let balance = self.balances[bi];
        proof {
            lemma_find_at(s.balances, balance_key(), bi as int);
            assert(s.balance_ok(s.balances[bi as int]));
        }
        match hold.settle_at(now) {
            Ok(()) => {},
            Err(e) => return Err(BudgetManagerError::InvalidBudgetHoldTransition(e)),
        }
        if balance.consumed_amount_cents > i64::MAX - hold.amount_cents {
            return Err(BudgetManagerError::InvalidPersistedState(String::new()));
        }
        proof {
            assert forall|k: int| 0 <= k < s.holds.len() implies #[trigger] s.holds[k].amount_cents > 0 by {
                assert(s.hold_ok(s.holds[k]));
            }
            lemma_total_bounds(s.holds, hold.budget_id);
            assert(active_total(s.holds, hold.budget_id) >= hold_contribution(s.holds[hi as int], hold.budget_id));
        }
        let new_balance = BudgetBalance {
            frozen_amount_cents: balance.frozen_amount_cents - hold.amount_cents,
            consumed_amount_cents: balance.consumed_amount_cents + hold.amount_cents,
            ..balance
        };
        proof {
            lemma_hold_step(s, hi as int, hold, new_balance);
        }
        self.holds.set(hi, hold);
        self.balances.set(bi, new_balance);
        proof {
            assert(self@ == spec_with_hold_step(s, hi as int, hold, new_balance));
        }
        Ok(SettleBudgetResponse { hold, balance: new_balance })
    }

    /// Release an active hold: its amount returns from frozen to remaining.
    pub fn release_budget_at(&mut self, hold_id: &BudgetHoldId, now: i64) -> (r: Result<ReleaseBudgetResponse, BudgetManagerError>)
        requires
            old(self).wf(),
        ensures
            final(self).wf(),
            spec_release_outcome(old(self)@, *hold_id, now, r, final(self)@),
    {
        let hi = match self.hold_position(*hold_id) {
            Some(i) => i,
            None => return Err(BudgetManagerError::UnknownBudgetHold),
        };
        let ghost s = self@;
        proof {
            lemma_find_at(s.holds, hold_key(), hi as int);
            assert(s.hold_ok(s.holds[hi as int]));
        }
        let mut hold = self.holds[hi];
        let bi = match self.balance_position(hold.budget_id) {
            Some(i) => i,
            None => {
                proof {
                    let k = key_index(s.budgets, budget_key(), hold.budget_id);
                    lemma_find_some(s.budgets, budget_key(), hold.budget_id);
                    assert(s.budget_ok(s.budgets[k]));
                }
                return Err(BudgetManagerError::MissingBudgetBalance);
            },
        };
        let balance = self.balances[bi];
        proof {
            lemma_find_at(s.balances, balance_key(), bi as int);
            assert(s.balance_ok(s.balances[bi as int]));
        }
        match hold.release_at(now) {
            Ok(()) => {},
            Err(e) => return Err(BudgetManagerError::InvalidBudgetHoldTransition(e)),
        }
        proof {
            assert forall|k: int| 0 <= k < s.holds.len() implies #[trigger] s.holds[k].amount_cents > 0 by {
                assert(s.hold_ok(s.holds[k]));
            }
            lemma_total_bounds(s.holds, hold.budget_id);
            assert(active_total(s.holds, hold.budget_id) >= hold_contribution(s.holds[hi as int], hold.budget_id));
        }
        let new_balance = BudgetBalance {
            frozen_amount_cents: balance.frozen_amount_cents - hold.amount_cents,
            remaining_amount_cents: balance.remaining_amount_cents + hold.amount_cents,
            ..balance
        };
        proof {
            lemma_hold_step(s, hi as int, hold, new_balance);
        }
        self.holds.set(hi, hold);
        self.balances.set(bi, new_balance);
        proof {
            assert(self@ == spec_with_hold_step(s, hi as int, hold, new_balance));
        }
        Ok(ReleaseBudgetResponse { hold, balance: new_balance })
    }
}



/// A frozen hold whose lease ended at or before `now`.
pub open spec fn expiring(h: BudgetHold, now: i64) -> bool {
    h.status == BudgetHoldStatus::Frozen && h.expires_at <= now
}

pub open spec fn expire_step(h: BudgetHold, now: i64) -> BudgetHold {
    if expiring(h, now) {
        BudgetHold { status: BudgetHoldStatus::Expired, updated_at: now, ..h }
    } else {
        h
    }
}

/// The holds with the first `n` of them expired where due.
pub open spec fn expire_prefix(holds: Seq<BudgetHold>, now: i64, n: int) -> Seq<BudgetHold> {
    Seq::new(holds.len(), |k: int| if k < n { expire_step(holds[k], now) } else { holds[k] })
}

/// Positions of the holds among the first `n` that expire at `now`.
pub open spec fn expiring_indices(holds: Seq<BudgetHold>, now: i64, n: int) -> Seq<int>
    decreases n,
{
    if n <= 0 {
        Seq::empty()
    } else {
        let p = expiring_indices(holds, now, n - 1);
        if expiring(holds[n - 1], now) {
            p.push(n - 1)
        } else {
            p
        }
    }
}

/// The balance of the budget of hold `j` right after holds up to `j` have
/// expired.
pub open spec fn balance_after_expiry(s: BudgetStateView, now: i64, j: int) -> BudgetBalance {
    let h = s.holds[j];
    let bal = s.balance(h.budget_id)->0;
    let total = active_total(expire_prefix(s.holds, now, j + 1), h.budget_id);
    BudgetBalance {
        frozen_amount_cents: total as i64,
        remaining_amount_cents: (bal.remaining_amount_cents + bal.frozen_amount_cents - total) as i64,
        ..bal
    }
}

impl BudgetState {
    /// Expire the frozen holds whose lease ended at or before `now`; each
    /// returns its amount to remaining. Claimed holds are left alone.
    pub fn expire_overdue_budget_holds(&mut self, now: i64) -> (r: Result<Vec<ExpireBudgetHoldResponse>, BudgetManagerError>)
        requires
            old(self).wf(),
        ensures
            final(self).wf(),
            spec_expire_outcome(old(self)@, now, r, final(self)@),
    {
        let ghost s = self@;
        let mut responses: Vec<ExpireBudgetHoldResponse> = Vec::new();
        let n = self.holds.len();
        let mut i: usize = 0;
        proof {
            assert(expire_prefix(s.holds, now, 0) =~= s.holds);
        }
        while i < n
            invariant
                self.wf(),
                n == s.holds.len(),
                i <= n,
                self@.holds == expire_prefix(s.holds, now, i as int),
                self@.budgets == s.budgets,
                self@.versions == s.versions,
                self@.balances.len() == s.balances.len(),
                forall|j: int| 0 <= j < s.balances.len() ==> (#[trigger] self@.balances[j]).budget_id == s.balances[j].budget_id
                    && self@.balances[j].consumed_amount_cents == s.balances[j].consumed_amount_cents,
                s.wf(),
                responses@.len() == expiring_indices(s.holds, now, i as int).len(),
                forall|k: int| 0 <= k < responses@.len() ==> (#[trigger] responses@[k]).hold == expire_step(
                    s.holds[expiring_indices(s.holds, now, i as int)[k]],
                    now,
                ) && responses@[k].balance == balance_after_expiry(s, now, expiring_indices(s.holds, now, i as int)[k]),
            decreases n - i,
        {
            let ghost cur = self@;
            let hold = self.holds[i];
            proof {
                assert(hold == s.holds[i as int]);
            }
            if hold.status == BudgetHoldStatus::Frozen && hold.expires_at <= now {
                let bi = match self.balance_position(hold.budget_id) {
                    Some(k) => k,
                    None => {
                        proof {
                            assert(cur.hold_ok(cur.holds[i as int]));
                            let k = key_index(cur.budgets, budget_key(), hold.budget_id);
                            lemma_find_some(cur.budgets, budget_key(), hold.budget_id);
                            assert(cur.budget_ok(cur.budgets[k]));
                        }
                        return Err(BudgetManagerError::MissingBudgetBalance);
                    },
                };
                let balance = self.balances[bi];
                let expired = BudgetHold { status: BudgetHoldStatus::Expired, updated_at: now, ..hold };
                proof {
                    lemma_find_at(cur.balances, balance_key(), bi as int);
                    assert(cur.balance_ok(cur.balances[bi as int]));
                    assert forall|k: int| 0 <= k < cur.holds.len() implies #[trigger] cur.holds[k].amount_cents > 0 by {
                        assert(cur.hold_ok(cur.holds[k]));
                    }
                    lemma_total_bounds(cur.holds, hold.budget_id);
                    assert(active_total(cur.holds, hold.budget_id) >= hold_contribution(cur.holds[i as int], hold.budget_id));
                }
                let new_balance = BudgetBalance {
                    frozen_amount_cents: balance.frozen_amount_cents - hold.amount_cents,
                    remaining_amount_cents: balance.remaining_amount_cents + hold.amount_cents,
                    ..balance
                };
                proof {
                    lemma_hold_step(cur, i as int, expired, new_balance);
                }
                self.holds.set(i, expired);
                self.balances.set(bi, new_balance);
                proof {
                    assert(self@ == spec_with_hold_step(cur, i as int, expired, new_balance));
                    assert(self@.holds =~= expire_prefix(s.holds, now, i + 1));
                    let sb = key_index(s.balances, balance_key(), hold.budget_id);
                    lemma_find_at(s.balances, balance_key(), bi as int);
                    assert(s.balances[bi as int].budget_id == hold.budget_id);
                    assert(s.balance_ok(s.balances[bi as int]));
                    assert(cur.limit(hold.budget_id) == s.limit(hold.budget_id));
                    assert(self@.balance_ok(self@.balances[bi as int]));
                    assert(new_balance == balance_after_expiry(s, now, i as int));
                }
                responses.push(ExpireBudgetHoldResponse { hold: expired, balance: new_balance });
            } else {
                proof {
                    assert(self@.holds =~= expire_prefix(s.holds, now, i + 1));
                }
            }
            i = i + 1;
        }
        proof {
            let t = self@;
            assert forall|j: int| 0 <= j < s.balances.len() implies #[trigger] t.balances[j] == (BudgetBalance {
                frozen_amount_cents: active_total(t.holds, s.balances[j].budget_id) as i64,
                remaining_amount_cents: (s.balances[j].remaining_amount_cents + s.balances[j].frozen_amount_cents
                    - active_total(t.holds, s.balances[j].budget_id)) as i64,
                ..s.balances[j]
            }) by {
                assert(t.balance_ok(t.balances[j]));
                assert(s.balance_ok(s.balances[j]));
            }
        }
        Ok(responses)
    }
}



/// Actor and source recorded on a budget version, with an optional reason.
#[derive(Debug)]
pub struct BudgetVersionProvenance {
    pub actor: String,
    pub source: String,
    pub reason: Option<String>,
}

impl BudgetVersionProvenance {
    pub fn new(actor: String, source: String) -> (p: Self)
        ensures
            p.actor == actor,
            p.source == source,
            p.reason is None,
    {
        BudgetVersionProvenance { actor, source, reason: None }
    }

    /// The provenance of budgets created through compatibility paths.
    pub fn default_provenance() -> (p: Self)
        ensures
            p.actor@ == "system:compatibility"@,
            p.source@ == "budget_manager"@,
            p.reason is None,
    {
        BudgetVersionProvenance::new("system:compatibility".to_owned(), "budget_manager".to_owned())
    }
}

impl Default for BudgetVersionProvenance {
    fn default() -> (p: Self)
        ensures
            p.actor@ == "system:compatibility"@,
            p.source@ == "budget_manager"@,
            p.reason is None,
    {
        BudgetVersionProvenance::default_provenance()
    }
}

impl Clone for BudgetVersionProvenance {
    fn clone(&self) -> (r: Self)
        ensures
            r == *self,
    {
        BudgetVersionProvenance {
            actor: self.actor.clone(),
            source: self.source.clone(),
            reason: crate::spend::model::clone_opt_string(&self.reason),
        }
    }
}

/// A non-revoked budget of the agent and currency overlaps the period.
pub open spec fn spec_has_overlap(s: BudgetStateView, agent_id: AgentId, currency: Currency, period: TimePeriod) -> bool {
    exists|i: int|
        0 <= i < s.budgets.len() && s.budgets[i].administrative_state != BudgetAdministrativeState::Revoked
            && s.budgets[i].currency == currency && s.budgets[i].agent_id == agent_id
            && spec_periods_overlap(#[trigger] s.budgets[i].period, period)
}

impl BudgetState {
    fn has_overlapping_budget(&self, agent_id: &AgentId, currency: Currency, period: &TimePeriod) -> (r: bool)
        ensures
            r == spec_has_overlap(self@, *agent_id, currency, *period),
    {
        let mut i: usize = 0;
        while i < self.budgets.len()
            invariant
                i <= self.budgets.len(),
                forall|j: int| 0 <= j < i ==> !(self@.budgets[j].administrative_state != BudgetAdministrativeState::Revoked
                    && self@.budgets[j].currency == currency && self@.budgets[j].agent_id == *agent_id
                    && spec_periods_overlap(#[trigger] self@.budgets[j].period, *period)),
            decreases self.budgets.len() - i,
        {
            let b = &self.budgets[i];
            if b.administrative_state != BudgetAdministrativeState::Revoked && b.currency == currency
                && b.agent_id == *agent_id && periods_overlap(&b.period, period) {
                return true;
            }
            i = i + 1;
        }
        false
    }

    /// Create one logical budget with revision 1 of its limit and a zero
    /// balance, named by the given identifiers and created at `now`.
    ///
    /// An agent holds at most one non-revoked budget per currency at any
    /// instant, so an overlapping period is refused.
    pub fn create_budget_for_period_with_ids(
        &mut self,
        request: CreateSingleBudgetRequest,
        provenance: &BudgetVersionProvenance,
        budget_id: BudgetId,
        version_id: BudgetVersionId,
        now: i64,
    ) -> (r: Result<CreateSingleBudgetResponse, BudgetManagerError>)
        requires
            old(self).wf(),
        ensures
            final(self).wf(),
            spec_create_outcome(old(self)@, request, *provenance, budget_id, version_id, now, r, final(self)@),
    {
        if self.has_overlapping_budget(&request.agent_id, request.currency, &request.period) {
            return Err(BudgetManagerError::OverlappingBudgetPeriod);
        }
        if crate::text::str_is_blank(provenance.actor.as_str()) || crate::text::str_is_blank(provenance.source.as_str()) {
            return Err(BudgetManagerError::MissingBudgetVersionProvenance);
        }
        let budget = Budget::new_at(budget_id, request.agent_id, request.currency, request.period, version_id, now);
        let version = match BudgetVersion::initial(
            &budget,
            request.amount_limit_cents,
            provenance.actor.clone(),
            provenance.source.clone(),
            crate::spend::model::clone_opt_string(&provenance.reason),
        ) {
            Ok(v) => v,
            Err(e) => return Err(BudgetManagerError::InvalidBudget(e)),
        };
        if self.budget_position(budget_id).is_some() || self.version_position(version_id).is_some() {
            proof {
                if has_key(self@.budgets, budget_key(), budget_id) {
                    lemma_find_some(self@.budgets, budget_key(), budget_id);
                }
                if has_key(self@.versions, version_key(), version_id) {
                    lemma_find_some(self@.versions, version_key(), version_id);
                }
            }
            return Err(BudgetManagerError::IdentifierCollision);
        }
        let balance = BudgetBalance {
            budget_id,
            consumed_amount_cents: 0,
            frozen_amount_cents: 0,
            remaining_amount_cents: request.amount_limit_cents,
        };
        let ghost s = self@;
        proof {
            assert(!has_key(s.balances, balance_key(), budget_id)) by {
                if has_key(s.balances, balance_key(), budget_id) {
                    let k = key_index(s.balances, balance_key(), budget_id);
                    assert(s.balance_ok(s.balances[k]));
                }
            }
            assert forall|k: int| 0 <= k < s.holds.len() implies #[trigger] s.holds[k].budget_id != budget_id by {
                assert(s.hold_ok(s.holds[k]));
            }
            lemma_total_absent(s.holds, budget_id);
        }
        let response_version = version.clone();
        self.budgets.push(budget);
        self.versions.push(version);
        self.balances.push(balance);
        proof {
            let t = self@;
            lemma_push(s.budgets, budget_key(), budget);
            lemma_push(s.versions, version_key(), response_version);
            lemma_push(s.balances, balance_key(), balance);
            assert forall|i: int| 0 <= i < t.budgets.len() implies t.budget_ok(#[trigger] t.budgets[i]) by {
                if i < s.budgets.len() {
                    assert(t.budgets[i] == s.budgets[i]);
                    assert(s.budget_ok(s.budgets[i]));
                }
            }
            assert forall|i: int| 0 <= i < t.balances.len() implies t.balance_ok(#[trigger] t.balances[i]) by {
                if i < s.balances.len() {
                    assert(t.balances[i] == s.balances[i]);
                    assert(s.balance_ok(s.balances[i]));
                    let bid = s.balances[i].budget_id;
                    let bk = key_index(s.budgets, budget_key(), bid);
                    lemma_find_some(s.budgets, budget_key(), bid);
                    assert(s.budget_ok(s.budgets[bk]));
                }
            }
            assert forall|i: int| 0 <= i < t.holds.len() implies t.hold_ok(#[trigger] t.holds[i]) by {
                assert(s.hold_ok(s.holds[i]));
            }
            assert forall|i: int, j: int|
                0 <= i < t.budgets.len() && 0 <= j < t.budgets.len() && i != j
                    && t.budgets[i].administrative_state != BudgetAdministrativeState::Revoked
                    && t.budgets[j].administrative_state != BudgetAdministrativeState::Revoked
                    && t.budgets[i].agent_id == t.budgets[j].agent_id
                    && t.budgets[i].currency == t.budgets[j].currency
                implies !spec_periods_overlap(#[trigger] t.budgets[i].period, #[trigger] t.budgets[j].period) by {
                if i == s.budgets.len() {
                    assert(t.budgets[j] == s.budgets[j]);
                } else if j == s.budgets.len() {
                    assert(t.budgets[i] == s.budgets[i]);
                } else {
                    assert(t.budgets[i] == s.budgets[i] && t.budgets[j] == s.budgets[j]);
                }
            }
        }
        Ok(CreateSingleBudgetResponse { budget, version: response_version, balance })
    }

    /// Mark a budget revoked at `now`; its outstanding holds may still
    /// settle or release.
    pub fn revoke_budget_at(&mut self, budget_id: &BudgetId, now: i64) -> (r: Result<BudgetWithBalance, BudgetManagerError>)
        requires
            old(self).wf(),
        ensures
            final(self).wf(),
            spec_revoke_outcome(old(self)@, *budget_id, now, r, final(self)@),
    {
        let ghost s = self@;
        let bal = match self.balance_position(*budget_id) {
            Some(i) => i,
            None => {
                proof {
                    if has_key(s.budgets, budget_key(), *budget_id) {
                        let k = key_index(s.budgets, budget_key(), *budget_id);
                        lemma_find_some(s.budgets, budget_key(), *budget_id);
                        assert(s.budget_ok(s.budgets[k]));
                    }
                }
                return Err(BudgetManagerError::MissingBudgetBalance);
            },
        };
        let bi = match self.budget_position(*budget_id) {
            Some(i) => i,
            None => {
                proof {
                    lemma_find_at(s.balances, balance_key(), bal as int);
                    assert(s.balance_ok(s.balances[bal as int]));
                }
                return Err(BudgetManagerError::UnknownBudget);
            },
        };
        let budget = self.budgets[bi];
        proof {
            lemma_find_at(s.budgets, budget_key(), bi as int);
            lemma_find_at(s.balances, balance_key(), bal as int);
            assert(s.budget_ok(s.budgets[bi as int]));
        }
        if budget.administrative_state == BudgetAdministrativeState::Revoked {
            return Err(BudgetManagerError::BudgetAlreadyRevoked);
        }
        let vi = match self.version_position(budget.current_version_id) {
            Some(i) => i,
            None => return Err(BudgetManagerError::UnknownBudget),
        };
        proof {
            lemma_find_at(s.versions, version_key(), vi as int);
        }
        let revoked = Budget { administrative_state: BudgetAdministrativeState::Revoked, updated_at: now, ..budget };
        self.budgets.set(bi, revoked);
        proof {
            let t = self@;
            lemma_update(s.budgets, budget_key(), bi as int, revoked);
            assert forall|i: int| 0 <= i < t.budgets.len() implies t.budget_ok(#[trigger] t.budgets[i]) by {
                assert(s.budget_ok(s.budgets[i]));
            }
            assert forall|i: int| 0 <= i < t.balances.len() implies t.balance_ok(#[trigger] t.balances[i]) by {
                assert(s.balance_ok(s.balances[i]));
            }
            assert forall|i: int| 0 <= i < t.holds.len() implies t.hold_ok(#[trigger] t.holds[i]) by {
                assert(s.hold_ok(s.holds[i]));
            }
            assert forall|i: int, j: int|
                0 <= i < t.budgets.len() && 0 <= j < t.budgets.len() && i != j
                    && t.budgets[i].administrative_state != BudgetAdministrativeState::Revoked
                    && t.budgets[j].administrative_state != BudgetAdministrativeState::Revoked
                    && t.budgets[i].agent_id == t.budgets[j].agent_id
                    && t.budgets[i].currency == t.budgets[j].currency
                implies !spec_periods_overlap(#[trigger] t.budgets[i].period, #[trigger] t.budgets[j].period) by {
                assert(i != bi && j != bi);
                assert(t.budgets[i] == s.budgets[i] && t.budgets[j] == s.budgets[j]);
            }
        }
        Ok(BudgetWithBalance { budget: revoked, version: self.versions[vi].clone(), balance: self.balances[bal] })
    }
}


/// Limit, revision and provenance of a stored version are well formed.
pub open spec fn version_metadata_ok(v: BudgetVersion) -> bool {
    &&& v.amount_limit_cents > 0
    &&& v.revision > 0
    &&& !is_blank(v.actor@)
    &&& !is_blank(v.source@)
    &&& !is_blank(v.request_fingerprint@)
}

impl BudgetStateView {
    /// Revision 1 has no predecessor; every later revision follows the
    /// version of the same budget whose revision is one lower.
    pub open spec fn chain_ok(self, v: BudgetVersion) -> bool {
        match v.predecessor_version_id {
            None => v.revision == 1,
            Some(p) => {
                &&& v.revision > 1
                &&& self.version(p) matches Some(pv)
                &&& pv.budget_id == v.budget_id
                &&& pv.revision + 1 == v.revision
            },
        }
    }

    /// The current version of budget `b` carries its highest revision.
    pub open spec fn current_is_latest(self, b: Budget) -> bool {
        &&& self.version(b.current_version_id) matches Some(cur)
        &&& forall|j: int| 0 <= j < self.versions.len() && #[trigger] self.versions[j].budget_id == b.id
            ==> self.versions[j].revision <= cur.revision
    }

    /// The version history of every budget is one unbroken chain that ends
    /// at the budget's current version.
    pub open spec fn history_ok(self) -> bool {
        &&& forall|i: int| 0 <= i < self.versions.len() ==> version_metadata_ok(#[trigger] self.versions[i])
        &&& forall|i: int| 0 <= i < self.versions.len() ==> self.budget(#[trigger] self.versions[i].budget_id) is Some
        &&& forall|i: int, j: int|
            0 <= i < self.versions.len() && 0 <= j < self.versions.len() && i != j
                && #[trigger] self.versions[i].budget_id == #[trigger] self.versions[j].budget_id
                ==> self.versions[i].revision != self.versions[j].revision
        &&& forall|i: int| 0 <= i < self.versions.len() ==> self.chain_ok(#[trigger] self.versions[i])
        &&& forall|i: int, j: int|
            0 <= i < self.versions.len() && 0 <= j < self.versions.len() && i != j
                && (#[trigger] self.versions[i]).predecessor_version_id is Some
                ==> self.versions[i].predecessor_version_id != (#[trigger] self.versions[j]).predecessor_version_id
        &&& forall|i: int| 0 <= i < self.budgets.len() ==> self.current_is_latest(#[trigger] self.budgets[i])
    }

    /// Stored records that can be loaded: the state invariant and a
    /// consistent version history.
    pub open spec fn records_valid(self) -> bool {
        self.wf() && self.history_ok()
    }
}

/// Version `k` has bad immutable metadata or reuses the identifier of an
/// earlier version.
pub open spec fn version_fault(versions: Seq<BudgetVersion>, k: int) -> bool {
    ||| !version_metadata_ok(versions[k])
    ||| exists|j: int| 0 <= j < k && #[trigger] versions[j].id == versions[k].id
}

/// The message refusing version `k` for its fault.
pub open spec fn version_fault_text(versions: Seq<BudgetVersion>, k: int) -> Seq<char> {
    if !version_metadata_ok(versions[k]) {
        "budget version "@ + uuid_text(versions[k].id.0) + " has invalid immutable metadata"@
    } else {
        "duplicate budget version id"@
    }
}

/// Budget `k` has no current version, points at a version of another
/// budget, or reuses the identifier of an earlier budget.
pub open spec fn budget_fault(records: BudgetStateView, k: int) -> bool {
    let b = records.budgets[k];
    ||| records.version(b.current_version_id) is None
    ||| records.version(b.current_version_id)->0.budget_id != b.id
    ||| exists|j: int| 0 <= j < k && #[trigger] records.budgets[j].id == b.id
}

/// The message refusing budget `k` for its fault.
pub open spec fn budget_fault_text(records: BudgetStateView, k: int) -> Seq<char> {
    let b = records.budgets[k];
    if records.version(b.current_version_id) is None {
        "budget "@ + uuid_text(b.id.0) + " has no current version"@
    } else if records.version(b.current_version_id)->0.budget_id != b.id {
        "budget "@ + uuid_text(b.id.0) + " points at a version owned by another budget"@
    } else {
        "duplicate budget id"@
    }
}

/// No version and no budget is refused by the checks made in record order.
pub open spec fn records_in_order_ok(records: BudgetStateView) -> bool {
    &&& forall|k: int| 0 <= k < records.versions.len() ==> !#[trigger] version_fault(records.versions, k)
    &&& forall|k: int| 0 <= k < records.budgets.len() ==> !#[trigger] budget_fault(records, k)
}

/// Versions that pass the checks in record order have distinct identifiers.
proof fn lemma_versions_in_order_unique(versions: Seq<BudgetVersion>)
    requires
        forall|k: int| 0 <= k < versions.len() ==> !#[trigger] version_fault(versions, k),
    ensures
        keys_unique(versions, version_key()),
{
    assert forall|a: int, b: int| 0 <= a < versions.len() && 0 <= b < versions.len() && a != b
        implies version_key()(#[trigger] versions[a]) != version_key()(#[trigger] versions[b]) by {
        if a < b {
            assert(!version_fault(versions, b));
        } else {
            assert(!version_fault(versions, a));
        }
    }
}

/// Budgets `i` and `j` are distinct non-revoked budgets of one agent and
/// currency whose periods overlap.
pub open spec fn budgets_overlap_at(budgets: Seq<Budget>, i: int, j: int) -> bool {
    &&& 0 <= i < budgets.len()
    &&& 0 <= j < budgets.len()
    &&& i != j
    &&& budgets[i].administrative_state != BudgetAdministrativeState::Revoked
    &&& budgets[j].administrative_state != BudgetAdministrativeState::Revoked
    &&& budgets[i].agent_id == budgets[j].agent_id
    &&& budgets[i].currency == budgets[j].currency
    &&& spec_periods_overlap(budgets[i].period, budgets[j].period)
}

/// The message refusing two overlapping budgets, the lower identifier first.
pub open spec fn overlap_text(a: BudgetId, b: BudgetId) -> Seq<char> {
    let (first, second) = if a.0 <= b.0 { (a, b) } else { (b, a) };
    "non-revoked budgets "@ + uuid_text(first.0) + " and "@ + uuid_text(second.0) + " overlap for one agent and currency"@
}

/// Whether the identifiers in `ids` are pairwise distinct.
fn distinct_ids(ids: &Vec<u128>) -> (r: bool)
    ensures
        r == (forall|a: int, b: int| 0 <= a < ids.len() && 0 <= b < ids.len() && a != b ==> #[trigger] ids@[a] != #[trigger] ids@[b]),
{
    let n = ids.len();
    let mut i: usize = 0;
    while i < n
        invariant
            n == ids.len(),
            i <= n,
            forall|a: int, b: int| 0 <= a < i && 0 <= b < n && a != b ==> #[trigger] ids@[a] != #[trigger] ids@[b],
        decreases n - i,
    {
        let mut j: usize = 0;
        while j < n
            invariant
                n == ids.len(),
                i < n,
                j <= n,
                forall|a: int, b: int| 0 <= a < i && 0 <= b < n && a != b ==> #[trigger] ids@[a] != #[trigger] ids@[b],
                forall|b: int| 0 <= b < j && b != i ==> ids@[i as int] != #[trigger] ids@[b],
            decreases n - j,
        {
            if j != i && ids[i] == ids[j] {
                return false;
            }
            j = j + 1;
        }
        assert forall|a: int, b: int| 0 <= a < i + 1 && 0 <= b < n && a != b implies #[trigger] ids@[a] != #[trigger] ids@[b] by {
            if a == i {
                assert(ids@[i as int] != ids@[b]);
            }
        }
        i = i + 1;
    }
    true
}

/// Sum of `amount` over the holds of `holds`, with bounds that keep it in
/// an `i128`.
proof fn lemma_total_range(holds: Seq<BudgetHold>, b: BudgetId)
    ensures
        -(holds.len() as int) * 9223372036854775808 <= active_total(holds, b) <= (holds.len() as int) * 9223372036854775808,
    decreases holds.len(),
{
    if holds.len() > 0 {
        lemma_total_range(holds.drop_last(), b);
    }
}

impl BudgetState {
    fn budget_ids_unique(&self) -> (r: bool)
        ensures
            r == keys_unique(self@.budgets, budget_key()),
    {
        let mut ids: Vec<u128> = Vec::new();
        let mut i: usize = 0;
        while i < self.budgets.len()
            invariant
                i <= self.budgets.len(),
                ids@.len() == i,
                forall|k: int| 0 <= k < i ==> #[trigger] ids@[k] == self.budgets@[k].id.0,
            decreases self.budgets.len() - i,
        {
            ids.push(self.budgets[i].id.0);
            i = i + 1;
        }
        let r = distinct_ids(&ids);
        proof {
            if r {
                assert forall|a: int, b: int| 0 <= a < self@.budgets.len() && 0 <= b < self@.budgets.len() && a != b
                    implies budget_key()(#[trigger] self@.budgets[a]) != budget_key()(#[trigger] self@.budgets[b]) by {
                    assert(ids@[a] != ids@[b]);
                }
            } else {
                let (a, b) = choose|a: int, b: int| 0 <= a < ids.len() && 0 <= b < ids.len() && a != b && #[trigger] ids@[a] == #[trigger] ids@[b];
                assert(budget_key()(self@.budgets[a]) == budget_key()(self@.budgets[b]));
            }
        }
        r
    }

    fn version_ids_unique(&self) -> (r: bool)
        ensures
            r == keys_unique(self@.versions, version_key()),
    {
        let mut ids: Vec<u128> = Vec::new();
        let mut i: usize = 0;
        while i < self.versions.len()
            invariant
                i <= self.versions.len(),
                ids@.len() == i,
                forall|k: int| 0 <= k < i ==> #[trigger] ids@[k] == self.versions@[k].id.0,
            decreases self.versions.len() - i,
        {
            ids.push(self.versions[i].id.0);
            i = i + 1;
        }
        let r = distinct_ids(&ids);
        proof {
            if r {
                assert forall|a: int, b: int| 0 <= a < self@.versions.len() && 0 <= b < self@.versions.len() && a != b
                    implies version_key()(#[trigger] self@.versions[a]) != version_key()(#[trigger] self@.versions[b]) by {
                    assert(ids@[a] != ids@[b]);
                }
            } else {
                let (a, b) = choose|a: int, b: int| 0 <= a < ids.len() && 0 <= b < ids.len() && a != b && #[trigger] ids@[a] == #[trigger] ids@[b];
                assert(version_key()(self@.versions[a]) == version_key()(self@.versions[b]));
            }
        }
        r
    }

    fn balance_ids_unique(&self) -> (r: bool)
        ensures
            r == keys_unique(self@.balances, balance_key()),
    {
        let mut ids: Vec<u128> = Vec::new();
        let mut i: usize = 0;
        while i < self.balances.len()
            invariant
                i <= self.balances.len(),
                ids@.len() == i,
                forall|k: int| 0 <= k < i ==> #[trigger] ids@[k] == self.balances@[k].budget_id.0,
            decreases self.balances.len() - i,
        {
            ids.push(self.balances[i].budget_id.0);
            i = i + 1;
        }
        let r = distinct_ids(&ids);
        proof {
            if r {
                assert forall|a: int, b: int| 0 <= a < self@.balances.len() && 0 <= b < self@.balances.len() && a != b
                    implies balance_key()(#[trigger] self@.balances[a]) != balance_key()(#[trigger] self@.balances[b]) by {
                    assert(ids@[a] != ids@[b]);
                }
            } else {
                let (a, b) = choose|a: int, b: int| 0 <= a < ids.len() && 0 <= b < ids.len() && a != b && #[trigger] ids@[a] == #[trigger] ids@[b];
                assert(balance_key()(self@.balances[a]) == balance_key()(self@.balances[b]));
            }
        }
        r
    }

    fn hold_ids_unique(&self) -> (r: (bool, bool))
        ensures
            r.0 == keys_unique(self@.holds, hold_key()),
            r.1 == keys_unique(self@.holds, hold_decision_key()),
    {
        let mut ids: Vec<u128> = Vec::new();
        let mut decisions: Vec<u128> = Vec::new();
        let mut i: usize = 0;
        while i < self.holds.len()
            invariant
                i <= self.holds.len(),
                ids@.len() == i,
                decisions@.len() == i,
                forall|k: int| 0 <= k < i ==> #[trigger] ids@[k] == self.holds@[k].id.0,
                forall|k: int| 0 <= k < i ==> #[trigger] decisions@[k] == self.holds@[k].spend_decision_id.0,
            decreases self.holds.len() - i,
        {
            ids.push(self.holds[i].id.0);
            decisions.push(self.holds[i].spend_decision_id.0);
            i = i + 1;
        }
        let r1 = distinct_ids(&ids);
        let r2 = distinct_ids(&decisions);
        proof {
            if r1 {
                assert forall|a: int, b: int| 0 <= a < self@.holds.len() && 0 <= b < self@.holds.len() && a != b
                    implies hold_key()(#[trigger] self@.holds[a]) != hold_key()(#[trigger] self@.holds[b]) by {
                    assert(ids@[a] != ids@[b]);
                }
            } else {
                let (a, b) = choose|a: int, b: int| 0 <= a < ids.len() && 0 <= b < ids.len() && a != b && #[trigger] ids@[a] == #[trigger] ids@[b];
                assert(hold_key()(self@.holds[a]) == hold_key()(self@.holds[b]));
            }
            if r2 {
                assert forall|a: int, b: int| 0 <= a < self@.holds.len() && 0 <= b < self@.holds.len() && a != b
                    implies hold_decision_key()(#[trigger] self@.holds[a]) != hold_decision_key()(#[trigger] self@.holds[b]) by {
                    assert(decisions@[a] != decisions@[b]);
                }
            } else {
                let (a, b) = choose|a: int, b: int| 0 <= a < decisions.len() && 0 <= b < decisions.len() && a != b && #[trigger] decisions@[a] == #[trigger] decisions@[b];
                assert(hold_decision_key()(self@.holds[a]) == hold_decision_key()(self@.holds[b]));
            }
        }
        (r1, r2)
    }

    /// The frozen or claimed amount that the holds commit on budget `b`.
    fn active_total_of(&self, b: BudgetId) -> (r: i128)
        ensures
            r == active_total(self@.holds, b),
    {
        let mut sum: i128 = 0;
        let mut i: usize = 0;
        while i < self.holds.len()
            invariant
                i <= self.holds.len(),
                sum == active_total(self@.holds.take(i as int), b),
            decreases self.holds.len() - i,
        {
            let h = self.holds[i];
            proof {
                assert(self@.holds.take(i + 1).drop_last() =~= self@.holds.take(i as int));
                lemma_total_range(self@.holds.take(i as int), b);
            }
            if h.budget_id == b && (match h.status {
                BudgetHoldStatus::Frozen | BudgetHoldStatus::Claimed => true,
                _ => false,
            }) {
                sum = sum + h.amount_cents as i128;
            }
            i = i + 1;
        }
        assert(self@.holds.take(self.holds.len() as int) =~= self@.holds);
        sum
    }
}


impl BudgetState {
    fn budgets_ok_check(&self) -> (r: bool)
        requires
            keys_unique(self@.versions, version_key()),
            keys_unique(self@.balances, balance_key()),
        ensures
            r == (forall|i: int| 0 <= i < self@.budgets.len() ==> self@.budget_ok(#[trigger] self@.budgets[i])),
    {
        let mut i: usize = 0;
        while i < self.budgets.len()
            invariant
                keys_unique(self@.versions, version_key()),
                keys_unique(self@.balances, balance_key()),
                i <= self.budgets.len(),
                forall|k: int| 0 <= k < i ==> self@.budget_ok(#[trigger] self@.budgets[k]),
            decreases self.budgets.len() - i,
        {
            let b = self.budgets[i];
            let vi = match self.version_position(b.current_version_id) {
                Some(vi) => vi,
                None => {
                    assert(!self@.budget_ok(self@.budgets[i as int]));
                    return false;
                },
            };
            proof { lemma_find_at(self@.versions, version_key(), vi as int); }
            if !(self.versions[vi].budget_id == b.id && self.versions[vi].amount_limit_cents > 0) {
                assert(!self@.budget_ok(self@.budgets[i as int]));
                return false;
            }
            match self.balance_position(b.id) {
                Some(bal) => {
                    proof { lemma_find_at(self@.balances, balance_key(), bal as int); }
                },
                None => {
                    assert(!self@.budget_ok(self@.budgets[i as int]));
                    return false;
                },
            }
            i = i + 1;
        }
        true
    }

    fn balances_ok_check(&self) -> (r: bool)
        requires
            keys_unique(self@.budgets, budget_key()),
            keys_unique(self@.versions, version_key()),
            forall|i: int| 0 <= i < self@.budgets.len() ==> self@.budget_ok(#[trigger] self@.budgets[i]),
        ensures
            r == (forall|i: int| 0 <= i < self@.balances.len() ==> self@.balance_ok(#[trigger] self@.balances[i])),
    {
        let mut i: usize = 0;
        while i < self.balances.len()
            invariant
                keys_unique(self@.budgets, budget_key()),
                keys_unique(self@.versions, version_key()),
                forall|k: int| 0 <= k < self@.budgets.len() ==> self@.budget_ok(#[trigger] self@.budgets[k]),
                i <= self.balances.len(),
                forall|k: int| 0 <= k < i ==> self@.balance_ok(#[trigger] self@.balances[k]),
            decreases self.balances.len() - i,
        {
            let bal = self.balances[i];
            let bi = match self.budget_position(bal.budget_id) {
                Some(bi) => bi,
                None => {
                    assert(!self@.balance_ok(self@.balances[i as int]));
                    return false;
                },
            };
            proof {
                lemma_find_at(self@.budgets, budget_key(), bi as int);
                assert(self@.budget_ok(self@.budgets[bi as int]));
            }
            let vi = match self.version_position(self.budgets[bi].current_version_id) {
                Some(vi) => vi,
                None => return false,
            };
            proof { lemma_find_at(self@.versions, version_key(), vi as int); }
            let limit = self.versions[vi].amount_limit_cents;
            let total = self.active_total_of(bal.budget_id);
            if !(bal.consumed_amount_cents >= 0 && bal.frozen_amount_cents >= 0
                && bal.remaining_amount_cents as i128 == limit as i128 - bal.consumed_amount_cents as i128
                    - bal.frozen_amount_cents as i128
                && bal.frozen_amount_cents as i128 == total) {
                assert(!self@.balance_ok(self@.balances[i as int]));
                return false;
            }
            i = i + 1;
        }
        true
    }

    fn holds_ok_check(&self) -> (r: bool)
        requires
            keys_unique(self@.budgets, budget_key()),
            keys_unique(self@.versions, version_key()),
        ensures
            r == (forall|i: int| 0 <= i < self@.holds.len() ==> self@.hold_ok(#[trigger] self@.holds[i])),
    {
        let mut i: usize = 0;
        while i < self.holds.len()
            invariant
                keys_unique(self@.budgets, budget_key()),
                keys_unique(self@.versions, version_key()),
                i <= self.holds.len(),
                forall|k: int| 0 <= k < i ==> self@.hold_ok(#[trigger] self@.holds[k]),
            decreases self.holds.len() - i,
        {
            let h = self.holds[i];
            let bi = match self.budget_position(h.budget_id) {
                Some(bi) => bi,
                None => {
                    assert(!self@.hold_ok(self@.holds[i as int]));
                    return false;
                },
            };
            let vi = match self.version_position(h.budget_version_id) {
                Some(vi) => vi,
                None => {
                    assert(!self@.hold_ok(self@.holds[i as int]));
                    return false;
                },
            };
            proof {
                lemma_find_at(self@.budgets, budget_key(), bi as int);
                lemma_find_at(self@.versions, version_key(), vi as int);
            }
            if !(h.amount_cents > 0 && self.budgets[bi].currency == h.currency && self.versions[vi].budget_id == h.budget_id) {
                assert(!self@.hold_ok(self@.holds[i as int]));
                return false;
            }
            i = i + 1;
        }
        true
    }

    fn first_overlap(&self) -> (r: Option<(usize, usize)>)
        ensures
            r is None <==> self@.budgets_disjoint(),
            r matches Some((i, j)) ==> budgets_overlap_at(self@.budgets, i as int, j as int),
    {
        let n = self.budgets.len();
        let mut i: usize = 0;
        while i < n
            invariant
                n == self.budgets.len(),
                i <= n,
                forall|a: int, b: int|
                    0 <= a < i && 0 <= b < n && a != b
                        && self@.budgets[a].administrative_state != BudgetAdministrativeState::Revoked
                        && self@.budgets[b].administrative_state != BudgetAdministrativeState::Revoked
                        && self@.budgets[a].agent_id == self@.budgets[b].agent_id
                        && self@.budgets[a].currency == self@.budgets[b].currency
                        ==> !spec_periods_overlap(#[trigger] self@.budgets[a].period, #[trigger] self@.budgets[b].period),
            decreases n - i,
        {
            let left = self.budgets[i];
            let mut j: usize = 0;
            while j < n
                invariant
                    n == self.budgets.len(),
                    i < n,
                    j <= n,
                    left == self@.budgets[i as int],
                    forall|a: int, b: int|
                        0 <= a < i && 0 <= b < n && a != b
                            && self@.budgets[a].administrative_state != BudgetAdministrativeState::Revoked
                            && self@.budgets[b].administrative_state != BudgetAdministrativeState::Revoked
                            && self@.budgets[a].agent_id == self@.budgets[b].agent_id
                            && self@.budgets[a].currency == self@.budgets[b].currency
                            ==> !spec_periods_overlap(#[trigger] self@.budgets[a].period, #[trigger] self@.budgets[b].period),
                    forall|b: int|
                        0 <= b < j && b != i
                            && left.administrative_state != BudgetAdministrativeState::Revoked
                            && self@.budgets[b].administrative_state != BudgetAdministrativeState::Revoked
                            && left.agent_id == self@.budgets[b].agent_id
                            && left.currency == self@.budgets[b].currency
                            ==> !spec_periods_overlap(left.period, #[trigger] self@.budgets[b].period),
                decreases n - j,
            {
                let right = self.budgets[j];
                if j != i && left.administrative_state != BudgetAdministrativeState::Revoked
                    && right.administrative_state != BudgetAdministrativeState::Revoked
                    && left.agent_id == right.agent_id && left.currency == right.currency
                    && periods_overlap(&left.period, &right.period) {
                    assert(!self@.budgets_disjoint());
                    return Some((i, j));
                }
                j = j + 1;
            }
            i = i + 1;
        }
        None
    }
}


impl BudgetState {
    fn version_metadata_check(&self) -> (r: bool)
        ensures
            r == (forall|i: int| 0 <= i < self@.versions.len() ==> version_metadata_ok(#[trigger] self@.versions[i])),
    {
        let mut i: usize = 0;
        while i < self.versions.len()
            invariant
                i <= self.versions.len(),
                forall|k: int| 0 <= k < i ==> version_metadata_ok(#[trigger] self@.versions[k]),
            decreases self.versions.len() - i,
        {
            let v = &self.versions[i];
            if v.amount_limit_cents <= 0 || v.revision == 0 || str_is_blank(v.actor.as_str())
                || str_is_blank(v.source.as_str()) || str_is_blank(v.request_fingerprint.as_str()) {
                assert(!version_metadata_ok(self@.versions[i as int]));
                return false;
            }
            i = i + 1;
        }
        true
    }

    fn version_owners_check(&self) -> (r: bool)
        ensures
            r == (forall|i: int| 0 <= i < self@.versions.len() ==> self@.budget(#[trigger] self@.versions[i].budget_id) is Some),
    {
        let mut i: usize = 0;
        while i < self.versions.len()
            invariant
                i <= self.versions.len(),
                forall|k: int| 0 <= k < i ==> self@.budget(#[trigger] self@.versions[k].budget_id) is Some,
            decreases self.versions.len() - i,
        {
            if self.budget_position(self.versions[i].budget_id).is_none() {
                return false;
            }
            i = i + 1;
        }
        true
    }

    fn revisions_unique_check(&self) -> (r: bool)
        ensures
            r == (forall|i: int, j: int|
                0 <= i < self@.versions.len() && 0 <= j < self@.versions.len() && i != j
                    && #[trigger] self@.versions[i].budget_id == #[trigger] self@.versions[j].budget_id
                    ==> self@.versions[i].revision != self@.versions[j].revision),
    {
        let n = self.versions.len();
        let mut i: usize = 0;
        while i < n
            invariant
                n == self.versions.len(),
                i <= n,
                forall|a: int, b: int|
                    0 <= a < i && 0 <= b < n && a != b
                        && #[trigger] self@.versions[a].budget_id == #[trigger] self@.versions[b].budget_id
                        ==> self@.versions[a].revision != self@.versions[b].revision,
            decreases n - i,
        {
            let mut j: usize = 0;
            while j < n
                invariant
                    n == self.versions.len(),
                    i < n,
                    j <= n,
                    forall|a: int, b: int|
                        0 <= a < i && 0 <= b < n && a != b
                            && #[trigger] self@.versions[a].budget_id == #[trigger] self@.versions[b].budget_id
                            ==> self@.versions[a].revision != self@.versions[b].revision,
                    forall|b: int| 0 <= b < j && b != i && self@.versions[i as int].budget_id == #[trigger] self@.versions[b].budget_id
                        ==> self@.versions[i as int].revision != self@.versions[b].revision,
                decreases n - j,
            {
                if j != i && self.versions[i].budget_id == self.versions[j].budget_id
                    && self.versions[i].revision == self.versions[j].revision {
                    return false;
                }
                j = j + 1;
            }
            i = i + 1;
        }
        true
    }

    fn chains_check(&self) -> (r: bool)
        requires
            keys_unique(self@.versions, version_key()),
        ensures
            r == (forall|i: int| 0 <= i < self@.versions.len() ==> self@.chain_ok(#[trigger] self@.versions[i])),
    {
        let mut i: usize = 0;
        while i < self.versions.len()
            invariant
                keys_unique(self@.versions, version_key()),
                i <= self.versions.len(),
                forall|k: int| 0 <= k < i ==> self@.chain_ok(#[trigger] self@.versions[k]),
            decreases self.versions.len() - i,
        {
            let v = &self.versions[i];
            match v.predecessor_version_id {
                None => {
                    if v.revision != 1 {
                        assert(!self@.chain_ok(self@.versions[i as int]));
                        return false;
                    }
                },
                Some(p) => {
                    if v.revision <= 1 {
                        assert(!self@.chain_ok(self@.versions[i as int]));
                        return false;
                    }
                    let pi = match self.version_position(p) {
                        Some(pi) => pi,
                        None => {
                            assert(!self@.chain_ok(self@.versions[i as int]));
                            return false;
                        },
                    };
                    proof { lemma_find_at(self@.versions, version_key(), pi as int); }
                    let pv = &self.versions[pi];
                    if !(pv.budget_id == v.budget_id && pv.revision < v.revision && pv.revision + 1 == v.revision) {
                        assert(!self@.chain_ok(self@.versions[i as int]));
                        return false;
                    }
                },
            }
            i = i + 1;
        }
        true
    }

    fn successors_unique_check(&self) -> (r: bool)
        ensures
            r == (forall|i: int, j: int|
                0 <= i < self@.versions.len() && 0 <= j < self@.versions.len() && i != j
                    && (#[trigger] self@.versions[i]).predecessor_version_id is Some
                    ==> self@.versions[i].predecessor_version_id != (#[trigger] self@.versions[j]).predecessor_version_id),
    {
        let n = self.versions.len();
        let mut i: usize = 0;
        while i < n
            invariant
                n == self.versions.len(),
                i <= n,
                forall|a: int, b: int|
                    0 <= a < i && 0 <= b < n && a != b
                        && (#[trigger] self@.versions[a]).predecessor_version_id is Some
                        ==> self@.versions[a].predecessor_version_id != (#[trigger] self@.versions[b]).predecessor_version_id,
            decreases n - i,
        {
            match self.versions[i].predecessor_version_id {
                None => {},
                Some(p) => {
                    let mut j: usize = 0;
                    while j < n
                        invariant
                            n == self.versions.len(),
                            i < n,
                            j <= n,
                            self@.versions[i as int].predecessor_version_id == Some(p),
                            forall|b: int| 0 <= b < j && b != i
                                ==> (#[trigger] self@.versions[b]).predecessor_version_id != Some(p),
                        decreases n - j,
                    {
                        if j != i {
                            match self.versions[j].predecessor_version_id {
                                Some(q) => {
                                    if q == p {
                                        return false;
                                    }
                                },
                                None => {},
                            }
                        }
                        j = j + 1;
                    }
                },
            }
            i = i + 1;
        }
        true
    }

    fn latest_check(&self) -> (r: bool)
        requires
            keys_unique(self@.versions, version_key()),
        ensures
            r == (forall|i: int| 0 <= i < self@.budgets.len() ==> self@.current_is_latest(#[trigger] self@.budgets[i])),
    {
        let mut i: usize = 0;
        while i < self.budgets.len()
            invariant
                keys_unique(self@.versions, version_key()),
                i <= self.budgets.len(),
                forall|k: int| 0 <= k < i ==> self@.current_is_latest(#[trigger] self@.budgets[k]),
            decreases self.budgets.len() - i,
        {
            let b = self.budgets[i];
            let ci = match self.version_position(b.current_version_id) {
                Some(ci) => ci,
                None => {
                    assert(!self@.current_is_latest(self@.budgets[i as int]));
                    return false;
                },
            };
            proof { lemma_find_at(self@.versions, version_key(), ci as int); }
            let current = self.versions[ci].revision;
            let mut j: usize = 0;
            while j < self.versions.len()
                invariant
                    i < self.budgets.len(),
                    b == self@.budgets[i as int],
                    ci < self.versions.len(),
                    current == self@.versions[ci as int].revision,
                    self@.version(b.current_version_id) == Some(self@.versions[ci as int]),
                    j <= self.versions.len(),
                    forall|k: int| 0 <= k < j && #[trigger] self@.versions[k].budget_id == b.id
                        ==> self@.versions[k].revision <= current,
                decreases self.versions.len() - j,
            {
                if self.versions[j].budget_id == b.id && self.versions[j].revision > current {
                    assert(self@.versions[j as int].budget_id == b.id);
                    assert(!self@.current_is_latest(self@.budgets[i as int]));
                    return false;
                }
                j = j + 1;
            }
            i = i + 1;
        }
        true
    }

    /// The first version, in record order, with bad metadata or a reused
    /// identifier.
    fn first_version_fault(&self) -> (r: Option<usize>)
        ensures
            match r {
                Some(k) => k < self@.versions.len() && version_fault(self@.versions, k as int)
                    && forall|j: int| 0 <= j < k ==> !#[trigger] version_fault(self@.versions, j),
                None => forall|k: int| 0 <= k < self@.versions.len() ==> !#[trigger] version_fault(self@.versions, k),
            },
    {
        let n = self.versions.len();
        let mut k: usize = 0;
        while k < n
            invariant
                n == self.versions.len(),
                k <= n,
                forall|j: int| 0 <= j < k ==> !#[trigger] version_fault(self@.versions, j),
            decreases n - k,
        {
            let v = &self.versions[k];
            if v.amount_limit_cents <= 0 || v.revision == 0 || str_is_blank(v.actor.as_str())
                || str_is_blank(v.source.as_str()) || str_is_blank(v.request_fingerprint.as_str()) {
                assert(version_fault(self@.versions, k as int));
                return Some(k);
            }
            let id = v.id.0;
            let mut j: usize = 0;
            while j < k
                invariant
                    n == self.versions.len(),
                    k < n,
                    j <= k,
                    id == self@.versions[k as int].id.0,
                    forall|i: int| 0 <= i < k ==> !#[trigger] version_fault(self@.versions, i),
                    forall|i: int| 0 <= i < j ==> #[trigger] self@.versions[i].id != self@.versions[k as int].id,
                decreases k - j,
            {
                if self.versions[j].id.0 == id {
                    assert(self@.versions[j as int].id == self@.versions[k as int].id);
                    assert(version_fault(self@.versions, k as int));
                    return Some(k);
                }
                j = j + 1;
            }
            assert(!version_fault(self@.versions, k as int));
            k = k + 1;
        }
        None
    }

    /// The first budget, in record order, without a current version of its
    /// own or with a reused identifier.
    fn first_budget_fault(&self) -> (r: Option<usize>)
        requires
            keys_unique(self@.versions, version_key()),
        ensures
            match r {
                Some(k) => k < self@.budgets.len() && budget_fault(self@, k as int)
                    && forall|j: int| 0 <= j < k ==> !#[trigger] budget_fault(self@, j),
                None => forall|k: int| 0 <= k < self@.budgets.len() ==> !#[trigger] budget_fault(self@, k),
            },
    {
        let n = self.budgets.len();
        let mut k: usize = 0;
        while k < n
            invariant
                n == self.budgets.len(),
                k <= n,
                keys_unique(self@.versions, version_key()),
                forall|j: int| 0 <= j < k ==> !#[trigger] budget_fault(self@, j),
            decreases n - k,
        {
            let b = self.budgets[k];
            match self.version_position(b.current_version_id) {
                None => {
                    assert(budget_fault(self@, k as int));
                    return Some(k);
                },
                Some(vi) => {
                    proof { lemma_find_at(self@.versions, version_key(), vi as int); }
                    if self.versions[vi].budget_id.0 != b.id.0 {
                        assert(budget_fault(self@, k as int));
                        return Some(k);
                    }
                },
            }
            let mut j: usize = 0;
            while j < k
                invariant
                    n == self.budgets.len(),
                    k < n,
                    j <= k,
                    b == self@.budgets[k as int],
                    keys_unique(self@.versions, version_key()),
                    forall|i: int| 0 <= i < k ==> !#[trigger] budget_fault(self@, i),
                    forall|i: int| 0 <= i < j ==> #[trigger] self@.budgets[i].id != b.id,
                decreases k - j,
            {
                if self.budgets[j].id.0 == b.id.0 {
                    assert(self@.budgets[j as int].id == b.id);
                    assert(budget_fault(self@, k as int));
                    return Some(k);
                }
                j = j + 1;
            }
            assert(!budget_fault(self@, k as int));
            k = k + 1;
        }
        None
    }

    /// The message refusing version `k`.
    fn version_fault_message(&self, k: usize) -> (m: String)
        requires
            k < self@.versions.len(),
        ensures
            m@ == version_fault_text(self@.versions, k as int),
    {
        let v = &self.versions[k];
        if v.amount_limit_cents <= 0 || v.revision == 0 || str_is_blank(v.actor.as_str())
            || str_is_blank(v.source.as_str()) || str_is_blank(v.request_fingerprint.as_str()) {
            let mut text: Vec<char> = Vec::new();
            push_str(&mut text, "budget version ");
            push_str(&mut text, v.id.to_uuid_string().as_str());
            push_str(&mut text, " has invalid immutable metadata");
            string_from_chars(text.as_slice())
        } else {
            String::from_str("duplicate budget version id")
        }
    }

    /// The message refusing budget `k`.
    fn budget_fault_message(&self, k: usize) -> (m: String)
        requires
            k < self@.budgets.len(),
            keys_unique(self@.versions, version_key()),
        ensures
            m@ == budget_fault_text(self@, k as int),
    {
        let b = self.budgets[k];
        let suffix = match self.version_position(b.current_version_id) {
            None => " has no current version",
            Some(vi) => {
                proof { lemma_find_at(self@.versions, version_key(), vi as int); }
                if self.versions[vi].budget_id.0 != b.id.0 {
                    " points at a version owned by another budget"
                } else {
                    return String::from_str("duplicate budget id");
                }
            },
        };
        let mut text: Vec<char> = Vec::new();
        push_str(&mut text, "budget ");
        push_str(&mut text, b.id.to_uuid_string().as_str());
        push_str(&mut text, suffix);
        string_from_chars(text.as_slice())
    }

    /// Rebuild the state from stored records, refusing any set of records
    /// that breaks the state invariant or the version history.
    pub fn from_records(
        budgets: Vec<Budget>,
        versions: Vec<BudgetVersion>,
        balances: Vec<BudgetBalance>,
        holds: Vec<BudgetHold>,
    ) -> (r: Result<Self, BudgetManagerError>)
        ensures
            ({
                let records = BudgetStateView { budgets: budgets@, versions: versions@, balances: balances@, holds: holds@ };
                match r {
                    Ok(s) => records.records_valid() && s@ == records && s.wf(),
                    Err(e) => !records.records_valid() && e is InvalidPersistedState,
                }
            }),
            ({
                let records = BudgetStateView { budgets: budgets@, versions: versions@, balances: balances@, holds: holds@ };
                forall|k: int| 0 <= k < records.versions.len() && #[trigger] version_fault(records.versions, k)
                    && (forall|j: int| 0 <= j < k ==> !version_fault(records.versions, j))
                    ==> (r matches Err(BudgetManagerError::InvalidPersistedState(m)) && m@ == version_fault_text(records.versions, k))
            }),
            ({
                let records = BudgetStateView { budgets: budgets@, versions: versions@, balances: balances@, holds: holds@ };
                (forall|j: int| 0 <= j < records.versions.len() ==> !#[trigger] version_fault(records.versions, j))
                    ==> forall|k: int| 0 <= k < records.budgets.len() && #[trigger] budget_fault(records, k)
                    && (forall|j: int| 0 <= j < k ==> !budget_fault(records, j))
                    ==> (r matches Err(BudgetManagerError::InvalidPersistedState(m)) && m@ == budget_fault_text(records, k))
            }),
            ({
                let records = BudgetStateView { budgets: budgets@, versions: versions@, balances: balances@, holds: holds@ };
                records_in_order_ok(records) && !records.budgets_disjoint() ==> (r matches Err(
                    BudgetManagerError::InvalidPersistedState(m),
                ) && exists|i: int, j: int| #[trigger] budgets_overlap_at(records.budgets, i, j)
                    && m@ == overlap_text(records.budgets[i].id, records.budgets[j].id))
            }),
    {
        let s = BudgetState { budgets, versions, balances, holds };
        match s.first_version_fault() {
            Some(k) => return Err(BudgetManagerError::InvalidPersistedState(s.version_fault_message(k))),
            None => {},
        }
        proof { lemma_versions_in_order_unique(s@.versions); }
        match s.first_budget_fault() {
            Some(k) => return Err(BudgetManagerError::InvalidPersistedState(s.budget_fault_message(k))),
            None => {},
        }
        match s.first_overlap() {
            Some((i, j)) => {
                let (first, second) = if s.budgets[i].id.0 <= s.budgets[j].id.0 { (i, j) } else { (j, i) };
                let mut text: Vec<char> = Vec::new();
                push_str(&mut text, "non-revoked budgets ");
                push_str(&mut text, s.budgets[first].id.to_uuid_string().as_str());
                push_str(&mut text, " and ");
                push_str(&mut text, s.budgets[second].id.to_uuid_string().as_str());
                push_str(&mut text, " overlap for one agent and currency");
                assert(text@ =~= overlap_text(s@.budgets[i as int].id, s@.budgets[j as int].id));
                return Err(BudgetManagerError::InvalidPersistedState(string_from_chars(text.as_slice())));
            },
            None => {},
        }
        if !s.balance_ids_unique() {
            return Err(BudgetManagerError::InvalidPersistedState(String::from_str("duplicate logical budget balance")));
        }
        let (hold_ids_ok, decisions_ok) = s.hold_ids_unique();
        if !hold_ids_ok {
            return Err(BudgetManagerError::InvalidPersistedState(String::from_str("duplicate budget hold id")));
        }
        if !decisions_ok {
            return Err(BudgetManagerError::InvalidPersistedState(
                String::from_str("multiple holds reference one spend decision"),
            ));
        }
        let ids_ok = s.version_ids_unique() && s.budget_ids_unique() && s.version_metadata_check() && s.budgets_ok_check();
        if !ids_ok {
            return Err(BudgetManagerError::InvalidPersistedState(
                String::from_str("stored budget records are inconsistent"),
            ));
        }
        let valid = s.version_owners_check() && s.revisions_unique_check()
            && s.chains_check() && s.successors_unique_check() && s.latest_check()
            && s.balances_ok_check() && s.holds_ok_check();
        if valid {
            Ok(s)
        } else {
            Err(BudgetManagerError::InvalidPersistedState(
                String::from_str("stored budget records are inconsistent"),
            ))
        }
    }
}


/// The budgets of `agent`, in the order they were recorded.
pub open spec fn agent_budgets(budgets: Seq<Budget>, agent: AgentId) -> Seq<Budget>
    decreases budgets.len(),
{
    if budgets.len() == 0 {
        Seq::empty()
    } else {
        let earlier = agent_budgets(budgets.drop_last(), agent);
        if budgets.last().agent_id == agent {
            earlier.push(budgets.last())
        } else {
            earlier
        }
    }
}

/// The versions of budget `id`, in the order they were recorded.
pub open spec fn budget_versions_of(versions: Seq<BudgetVersion>, id: BudgetId) -> Seq<BudgetVersion>
    decreases versions.len(),
{
    if versions.len() == 0 {
        Seq::empty()
    } else {
        let earlier = budget_versions_of(versions.drop_last(), id);
        if versions.last().budget_id == id {
            earlier.push(versions.last())
        } else {
            earlier
        }
    }
}

pub open spec fn revision_leq() -> spec_fn(BudgetVersion, BudgetVersion) -> bool {
    |a: BudgetVersion, b: BudgetVersion| a.revision <= b.revision
}

/// `snapshot` is budget `b` of state `s` with its current version and balance.
pub open spec fn snapshot_of(s: BudgetStateView, b: Budget, snapshot: BudgetWithBalance) -> bool {
    &&& snapshot.budget == b
    &&& snapshot.version == s.version(b.current_version_id)->0
    &&& snapshot.balance == s.balance(b.id)->0
}

impl BudgetState {
    /// Snapshots of every budget of `agent_id`, in the order they were recorded.
    pub fn get_budgets_by_agent_id(&self, agent_id: &AgentId) -> (r: Vec<BudgetWithBalance>)
        requires
            self.wf(),
        ensures
            r@.len() == agent_budgets(self@.budgets, *agent_id).len(),
            forall|k: int| 0 <= k < r@.len() ==> snapshot_of(self@, agent_budgets(self@.budgets, *agent_id)[k], #[trigger] r@[k]),
            forall|k: int| 0 <= k < r@.len() ==> spec_snapshot_consistent(#[trigger] r@[k]),
    {
        let mut out: Vec<BudgetWithBalance> = Vec::new();
        let mut i: usize = 0;
        while i < self.budgets.len()
            invariant
                self.wf(),
                i <= self.budgets.len(),
                out@.len() == agent_budgets(self@.budgets.take(i as int), *agent_id).len(),
                forall|k: int| 0 <= k < out@.len() ==> snapshot_of(self@, agent_budgets(self@.budgets.take(i as int), *agent_id)[k], #[trigger] out@[k]),
                forall|k: int| 0 <= k < out@.len() ==> spec_snapshot_consistent(#[trigger] out@[k]),
            decreases self.budgets.len() - i,
        {
            let b = self.budgets[i];
            proof {
                assert(self@.budgets.take(i + 1).drop_last() =~= self@.budgets.take(i as int));
            }
            if b.agent_id == *agent_id {
                proof { lemma_find_at(self@.budgets, budget_key(), i as int); }
                match self.get_budget_by_id(&b.id) {
                    Some(snapshot) => {
                        out.push(snapshot);
                    },
                    None => {
                        assert(false);
                    },
                }
            }
            i = i + 1;
        }
        assert(self@.budgets.take(self.budgets.len() as int) =~= self@.budgets);
        out
    }

    /// The version history of one budget in ascending revision order.
    pub fn get_budget_versions_by_budget_id(&self, budget_id: &BudgetId) -> (r: Vec<BudgetVersion>)
        ensures
            r@.to_multiset() == budget_versions_of(self@.versions, *budget_id).to_multiset(),
            sorted_by(r@, revision_leq()),
    {
        broadcast use vstd::seq_lib::group_to_multiset_ensures;
        let mut out: Vec<BudgetVersion> = Vec::new();
        let mut i: usize = 0;
        while i < self.versions.len()
            invariant
                i <= self.versions.len(),
                out@.to_multiset() == budget_versions_of(self@.versions.take(i as int), *budget_id).to_multiset(),
                sorted_by(out@, revision_leq()),
            decreases self.versions.len() - i,
        {
            proof {
                assert(self@.versions.take(i + 1).drop_last() =~= self@.versions.take(i as int));
            }
            proof {
                assert(self@.versions.take(i + 1).last() == self@.versions[i as int]);
            }
            if self.versions[i].budget_id == *budget_id {
                let v = self.versions[i].clone();
                let mut p: usize = 0;
                while p < out.len() && out[p].revision <= v.revision
                    invariant
                        p <= out.len(),
                        forall|k: int| 0 <= k < p ==> (#[trigger] out@[k]).revision <= v.revision,
                    decreases out.len() - p,
                {
                    p = p + 1;
                }
                let ghost before = out@;
                proof {
                    assert forall|k: int| p <= k < before.len() implies (#[trigger] before[k]).revision > v.revision by {
                        if k > p {
                            assert(revision_leq()(before[p as int], before[k]));
                        }
                    }
                }
                out.insert(p, v);
                proof {
                    assert(out@ == before.insert(p as int, v));
                    vstd::seq_lib::to_multiset_insert(before, p as int, v);
                    let prev = budget_versions_of(self@.versions.take(i as int), *budget_id);
                    assert(self@.versions.take(i + 1).last() == self@.versions[i as int]);
                    assert(budget_versions_of(self@.versions.take(i + 1), *budget_id) == prev.push(v));
                    vstd::seq_lib::to_multiset_build(prev, v);
                    assert forall|a: int, b: int| 0 <= a < b < out@.len() implies #[trigger] revision_leq()(out@[a], out@[b]) by {
                        if b < p {
                            assert(revision_leq()(before[a], before[b]));
                        } else if b == p {
                        } else if a < p {
                            assert(out@[b] == before[b - 1]);
                        } else if a == p {
                            assert(out@[b] == before[b - 1]);
                        } else {
                            assert(revision_leq()(before[a - 1], before[b - 1]));
                        }
                    }
                }
            }
            i = i + 1;
        }
        assert(self@.versions.take(self.versions.len() as int) =~= self@.versions);
        out
    }

    /// The budget with its availability at `now`.
    pub fn get_evaluated_budget_by_id(&self, budget_id: &BudgetId, now: i64) -> (r: Result<Option<EvaluatedBudget>, BudgetManagerError>)
        requires
            self.wf(),
        ensures
            match self@.budget(*budget_id) {
                None => r matches Ok(None),
                Some(b) => r matches Ok(Some(e)) && snapshot_of(self@, b, e.current) && e.evaluated_at == now
                    && e.availability == spec_availability(b, self@.balance(*budget_id)->0, now),
            },
    {
        match self.get_budget_by_id(budget_id) {
            None => Ok(None),
            Some(snapshot) => match snapshot.evaluate_at(now) {
                Ok(e) => Ok(Some(e)),
                Err(_) => Err(BudgetManagerError::InvalidPersistedState(
                    String::from_str("budget snapshot does not belong to one budget"),
                )),
            },
        }
    }

    /// Every budget of `agent_id` with its availability at `now`, in the
    /// order they were recorded.
    pub fn get_evaluated_budgets_by_agent_id(&self, agent_id: &AgentId, now: i64) -> (r: Result<Vec<EvaluatedBudget>, BudgetManagerError>)
        requires
            self.wf(),
        ensures
            r matches Ok(es) && es@.len() == agent_budgets(self@.budgets, *agent_id).len()
                && forall|k: int| 0 <= k < es@.len() ==> {
                    let b = agent_budgets(self@.budgets, *agent_id)[k];
                    &&& snapshot_of(self@, b, (#[trigger] es@[k]).current)
                    &&& es@[k].evaluated_at == now
                    &&& es@[k].availability == spec_availability(b, self@.balance(b.id)->0, now)
                },
    {
        let mut out: Vec<EvaluatedBudget> = Vec::new();
        let mut i: usize = 0;
        while i < self.budgets.len()
            invariant
                self.wf(),
                i <= self.budgets.len(),
                out@.len() == agent_budgets(self@.budgets.take(i as int), *agent_id).len(),
                forall|k: int| 0 <= k < out@.len() ==> {
                    let b = agent_budgets(self@.budgets.take(i as int), *agent_id)[k];
                    &&& snapshot_of(self@, b, (#[trigger] out@[k]).current)
                    &&& out@[k].evaluated_at == now
                    &&& out@[k].availability == spec_availability(b, self@.balance(b.id)->0, now)
                },
            decreases self.budgets.len() - i,
        {
            let b = self.budgets[i];
            proof {
                assert(self@.budgets.take(i + 1).drop_last() =~= self@.budgets.take(i as int));
            }
            if b.agent_id == *agent_id {
                proof { lemma_find_at(self@.budgets, budget_key(), i as int); }
                match self.get_evaluated_budget_by_id(&b.id, now) {
                    Ok(Some(e)) => {
                        out.push(e);
                    },
                    _ => {
                        assert(false);
                    },
                }
            }
            i = i + 1;
        }
        assert(self@.budgets.take(self.budgets.len() as int) =~= self@.budgets);
        Ok(out)
    }
}


/// Budget `b` of state `s` takes reservations in `currency` at `now`.
pub open spec fn reservable(s: BudgetStateView, b: Budget, currency: Currency, now: i64) -> bool {
    b.currency == currency && spec_availability(b, s.balance(b.id)->0, now) == BudgetAvailability::Active
}

impl BudgetState {
    /// The first budget of `agent_id`, in recorded order, that takes
    /// reservations in `currency` at `now`.
    pub fn available_budget_id_for_agent_at(&self, agent_id: &AgentId, currency: Currency, now: i64) -> (r: Result<Option<BudgetId>, BudgetManagerError>)
        requires
            self.wf(),
        ensures
            ({
                let bs = agent_budgets(self@.budgets, *agent_id);
                match r {
                    Ok(Some(id)) => exists|k: int| 0 <= k < bs.len() && #[trigger] bs[k].id == id
                        && reservable(self@, bs[k], currency, now)
                        && forall|j: int| 0 <= j < k ==> !reservable(self@, #[trigger] bs[j], currency, now),
                    Ok(None) => forall|j: int| 0 <= j < bs.len() ==> !reservable(self@, #[trigger] bs[j], currency, now),
                    Err(_) => false,
                }
            }),
    {
        let evaluated = match self.get_evaluated_budgets_by_agent_id(agent_id, now) {
            Ok(es) => es,
            Err(e) => return Err(e),
        };
        let mut k: usize = 0;
        while k < evaluated.len()
            invariant
                evaluated@.len() == agent_budgets(self@.budgets, *agent_id).len(),
                forall|j: int| 0 <= j < evaluated@.len() ==> {
                    let b = agent_budgets(self@.budgets, *agent_id)[j];
                    &&& snapshot_of(self@, b, (#[trigger] evaluated@[j]).current)
                    &&& evaluated@[j].availability == spec_availability(b, self@.balance(b.id)->0, now)
                },
                k <= evaluated.len(),
                forall|j: int| 0 <= j < k ==> !reservable(self@, #[trigger] agent_budgets(self@.budgets, *agent_id)[j], currency, now),
            decreases evaluated.len() - k,
        {
            let e = &evaluated[k];
            assert(snapshot_of(self@, agent_budgets(self@.budgets, *agent_id)[k as int], evaluated@[k as int].current));
            if e.current.budget.currency == currency && e.availability.allows_reservation() {
                assert(reservable(self@, agent_budgets(self@.budgets, *agent_id)[k as int], currency, now));
                let id = e.current.budget.id;
                assert(agent_budgets(self@.budgets, *agent_id)[k as int].id == id);
                return Ok(Some(id));
            }
            k = k + 1;
        }
        Ok(None)
    }

    /// Replace a hold and its budget's balance with their stored
    /// finalization.
    pub fn apply_persisted_finalization(&mut self, hold: BudgetHold, balance: BudgetBalance)
        requires
            old(self).wf(),
        ensures
            ({
                let s = old(self)@;
                let t = final(self)@;
                &&& t.budgets == s.budgets
                &&& t.versions == s.versions
                &&& t.holds == if has_key(s.holds, hold_key(), hold.id) {
                    s.holds.update(key_index(s.holds, hold_key(), hold.id), hold)
                } else {
                    s.holds.push(hold)
                }
                &&& t.balances == if has_key(s.balances, balance_key(), hold.budget_id) {
                    s.balances.update(key_index(s.balances, balance_key(), hold.budget_id), BudgetBalance { budget_id: hold.budget_id, ..balance })
                } else {
                    s.balances.push(BudgetBalance { budget_id: hold.budget_id, ..balance })
                }
            }),
    {
        let ghost s = self@;
        let balance = BudgetBalance { budget_id: hold.budget_id, ..balance };
        match self.hold_position(hold.id) {
            Some(i) => {
                proof { lemma_find_at(s.holds, hold_key(), i as int); }
                self.holds.set(i, hold);
            },
            None => self.holds.push(hold),
        }
        match self.balance_position(hold.budget_id) {
            Some(i) => {
                proof { lemma_find_at(s.balances, balance_key(), i as int); }
                self.balances.set(i, balance);
            },
            None => self.balances.push(balance),
        }
    }
}


/// After a stored finalization is applied, the hold and its balance are
/// found under their keys.
pub proof fn lemma_finalization_lookup(s: BudgetStateView, t: BudgetStateView, hold: BudgetHold, balance: BudgetBalance)
    requires
        s.wf(),
        t.holds == if has_key(s.holds, hold_key(), hold.id) {
            s.holds.update(key_index(s.holds, hold_key(), hold.id), hold)
        } else {
            s.holds.push(hold)
        },
        t.balances == if has_key(s.balances, balance_key(), hold.budget_id) {
            s.balances.update(key_index(s.balances, balance_key(), hold.budget_id), BudgetBalance { budget_id: hold.budget_id, ..balance })
        } else {
            s.balances.push(BudgetBalance { budget_id: hold.budget_id, ..balance })
        },
    ensures
        t.hold(hold.id) == Some(hold),
        t.balance(hold.budget_id) == Some(BudgetBalance { budget_id: hold.budget_id, ..balance }),
{
    let nb = BudgetBalance { budget_id: hold.budget_id, ..balance };
    if has_key(s.holds, hold_key(), hold.id) {
        lemma_find_some(s.holds, hold_key(), hold.id);
        lemma_update(s.holds, hold_key(), key_index(s.holds, hold_key(), hold.id), hold);
    } else {
        lemma_push(s.holds, hold_key(), hold);
    }
    if has_key(s.balances, balance_key(), hold.budget_id) {
        lemma_find_some(s.balances, balance_key(), hold.budget_id);
        lemma_update(s.balances, balance_key(), key_index(s.balances, balance_key(), hold.budget_id), nb);
    } else {
        lemma_push(s.balances, balance_key(), nb);
    }
}

} // verus!
