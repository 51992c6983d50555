//! Laws of the budget state that relate its operations to one another.
use vstd::prelude::*;

use crate::budget::dto::{ExpireBudgetHoldResponse, ReleaseBudgetResponse, ReserveBudgetRequest, ReserveBudgetResponse, SettleBudgetResponse};
use crate::budget::error::BudgetManagerError;
use crate::budget::model::{is_active_status, BudgetAdministrativeState, BudgetAvailability, BudgetHold, BudgetHoldError, BudgetHoldStatus};
use crate::budget::state::{
    balance_key, expire_step, expiring, expiring_indices, hold_key, spec_expire_outcome, spec_new_hold, spec_release_outcome, spec_reserve_outcome, spec_settle_outcome,
    BudgetStateView,
};
use crate::common::{spec_periods_overlap, BudgetHoldId, TimePeriod};
use crate::keyed::{key_index, lemma_find_at, lemma_find_some, lemma_push, lemma_update};

verus! {

/// After a reservation, the new hold is found under its id and its
/// budget's balance under the budget's id.
proof fn lemma_reserved_lookup(
    s: BudgetStateView,
    request: ReserveBudgetRequest,
    now: i64,
    hold_id: BudgetHoldId,
    reserved: ReserveBudgetResponse,
    t: BudgetStateView,
)
    requires
        s.wf(),
        t.wf(),
        spec_reserve_outcome(s, request, now, hold_id, Ok(reserved), t),
    ensures
        t.hold(hold_id) == Some(reserved.hold),
        t.balance(request.budget_id) == Some(reserved.balance),
        reserved.hold.budget_id == request.budget_id,
        reserved.hold.amount_cents == request.amount_cents,
        reserved.hold.status == BudgetHoldStatus::Frozen,
        s.balance(request.budget_id) is Some,
{
    lemma_find_at(t.holds, hold_key(), s.holds.len() as int);
    let k = key_index(s.balances, balance_key(), request.budget_id);
    lemma_find_some(s.balances, balance_key(), request.budget_id);
    lemma_find_at(t.balances, balance_key(), k);
}

/// Reserving an amount and then releasing the hold gives the budget back
/// exactly the balance it had: nothing consumed, nothing left frozen.
pub proof fn lemma_release_restores_reservation(
    s: BudgetStateView,
    request: ReserveBudgetRequest,
    now: i64,
    hold_id: BudgetHoldId,
    reserved: ReserveBudgetResponse,
    t: BudgetStateView,
    later: i64,
    released: ReleaseBudgetResponse,
    u: BudgetStateView,
)
    requires
        s.wf(),
        t.wf(),
        spec_reserve_outcome(s, request, now, hold_id, Ok(reserved), t),
        spec_release_outcome(t, hold_id, later, Ok(released), u),
    ensures
        released.balance == s.balance(request.budget_id)->0,
        released.hold.status == BudgetHoldStatus::Released,
        u.balance(request.budget_id) == s.balance(request.budget_id),
{
    lemma_reserved_lookup(s, request, now, hold_id, reserved, t);
    let k = key_index(t.balances, balance_key(), request.budget_id);
    lemma_find_some(t.balances, balance_key(), request.budget_id);
    lemma_update(t.balances, balance_key(), k, released.balance);
}

/// Reserving an amount and then settling the hold moves exactly that
/// amount from the budget's remaining balance to its consumed balance.
pub proof fn lemma_settle_consumes_reservation(
    s: BudgetStateView,
    request: ReserveBudgetRequest,
    now: i64,
    hold_id: BudgetHoldId,
    reserved: ReserveBudgetResponse,
    t: BudgetStateView,
    later: i64,
    settled: SettleBudgetResponse,
    u: BudgetStateView,
)
    requires
        s.wf(),
        t.wf(),
        spec_reserve_outcome(s, request, now, hold_id, Ok(reserved), t),
        spec_settle_outcome(t, hold_id, later, Ok(settled), u),
    ensures
        settled.balance.consumed_amount_cents == s.balance(request.budget_id)->0.consumed_amount_cents + request.amount_cents,
        settled.balance.frozen_amount_cents == s.balance(request.budget_id)->0.frozen_amount_cents,
        settled.balance.remaining_amount_cents == s.balance(request.budget_id)->0.remaining_amount_cents - request.amount_cents,
        settled.hold.status == BudgetHoldStatus::Settled,
        u.balance(request.budget_id) == Some(settled.balance),
{
    lemma_reserved_lookup(s, request, now, hold_id, reserved, t);
    let k = key_index(t.balances, balance_key(), request.budget_id);
    lemma_find_some(t.balances, balance_key(), request.budget_id);
    lemma_update(t.balances, balance_key(), k, settled.balance);
}

/// A hold is finalized once: after it was settled or released, neither a
/// settlement nor a release of it succeeds, and the state stays as it is.
pub proof fn lemma_finalized_hold_is_final(
    s: BudgetStateView,
    hold_id: BudgetHoldId,
    now: i64,
    settle: Result<SettleBudgetResponse, BudgetManagerError>,
    t1: BudgetStateView,
    release: Result<ReleaseBudgetResponse, BudgetManagerError>,
    t2: BudgetStateView,
)
    requires
        s.wf(),
        s.hold(hold_id) matches Some(h) && (h.status == BudgetHoldStatus::Settled || h.status == BudgetHoldStatus::Released),
        spec_settle_outcome(s, hold_id, now, settle, t1),
        spec_release_outcome(s, hold_id, now, release, t2),
    ensures
        settle is Err,
        release matches Err(BudgetManagerError::InvalidBudgetHoldTransition(BudgetHoldError::CannotReleaseNonFrozenHold)),
        t1 == s,
        t2 == s,
{
}

/// No position expires when no hold among the first `n` is due.
proof fn lemma_nothing_expiring(holds: Seq<BudgetHold>, now: i64, n: int)
    requires
        n <= holds.len(),
        forall|k: int| 0 <= k < n ==> !#[trigger] expiring(holds[k], now),
    ensures
        expiring_indices(holds, now, n).len() == 0,
    decreases n,
{
    if n > 0 {
        lemma_nothing_expiring(holds, now, n - 1);
        assert(!expiring(holds[n - 1], now));
    }
}

/// Expiring the overdue holds twice at the same instant: the second pass
/// finds nothing due, reports no hold and leaves the state as the first
/// pass left it.
pub proof fn lemma_expire_twice_expires_nothing(
    s: BudgetStateView,
    now: i64,
    first: Result<Vec<ExpireBudgetHoldResponse>, BudgetManagerError>,
    t: BudgetStateView,
    second: Result<Vec<ExpireBudgetHoldResponse>, BudgetManagerError>,
    u: BudgetStateView,
)
    requires
        t.wf(),
        spec_expire_outcome(s, now, first, t),
        spec_expire_outcome(t, now, second, u),
    ensures
        second matches Ok(responses) && responses@.len() == 0,
        u == t,
{
    let n = t.holds.len() as int;
    assert forall|k: int| 0 <= k < n implies !#[trigger] expiring(t.holds[k], now) by {
        assert(t.holds[k] == expire_step(s.holds[k], now));
    }
    lemma_nothing_expiring(t.holds, now, n);
    assert(u.holds =~= t.holds);
    assert forall|j: int| 0 <= j < t.balances.len() implies #[trigger] u.balances[j] == t.balances[j] by {
        assert(t.balance_ok(t.balances[j]));
    }
    assert(u.balances =~= t.balances);
}

/// A reservation of a positive amount for a known budget is refused as
/// unavailable exactly by the budget's state at `now`: revoked once
/// revoked, scheduled before its period starts, expired from the instant
/// its period ends (the period is half-open), exhausted when nothing
/// remains; each refusal leaves the state unchanged.
pub proof fn lemma_reservation_follows_availability(
    s: BudgetStateView,
    request: ReserveBudgetRequest,
    now: i64,
    hold_id: BudgetHoldId,
    r: Result<ReserveBudgetResponse, BudgetManagerError>,
    t: BudgetStateView,
)
    requires
        spec_reserve_outcome(s, request, now, hold_id, r, t),
        request.amount_cents > 0,
        s.hold_for_decision(request.spend_decision_id) is None,
        s.budget(request.budget_id) is Some,
    ensures
        ({
            let b = s.budget(request.budget_id)->0;
            let remaining = s.balance(request.budget_id)->0.remaining_amount_cents;
            let revoked = b.administrative_state == BudgetAdministrativeState::Revoked;
            let started = b.period.starting_at <= now;
            let ended = b.period.ending_before matches Some(end) && end <= now;
            &&& revoked ==> r == Err::<ReserveBudgetResponse, BudgetManagerError>(
                BudgetManagerError::BudgetUnavailable(BudgetAvailability::Revoked),
            )
            &&& !revoked && !started ==> r == Err::<ReserveBudgetResponse, BudgetManagerError>(
                BudgetManagerError::BudgetUnavailable(BudgetAvailability::Scheduled),
            )
            &&& !revoked && started && ended ==> r == Err::<ReserveBudgetResponse, BudgetManagerError>(
                BudgetManagerError::BudgetUnavailable(BudgetAvailability::Expired),
            )
            &&& !revoked && started && !ended && remaining <= 0 ==> r == Err::<ReserveBudgetResponse, BudgetManagerError>(
                BudgetManagerError::BudgetUnavailable(BudgetAvailability::Exhausted),
            )
            &&& (revoked || !started || ended || remaining <= 0) ==> t == s
        }),
{
}

/// Whether two periods overlap does not depend on their order.
pub proof fn lemma_periods_overlap_symmetric(left: TimePeriod, right: TimePeriod)
    ensures
        spec_periods_overlap(left, right) == spec_periods_overlap(right, left),
{
}

} // verus!
