use vstd::prelude::*;

use crate::common::{
    now_micros, rfc3339, spec_rfc3339, AgentId, BudgetHoldId, BudgetId, BudgetVersionId, Currency,
    SpendDecisionId, SpendExecutorClaimId, TimePeriod,
};
use crate::crypto::{hex_encode, hex_lower, sha256, sha256_digest};
use crate::format::{decimal_string, int_decimal, uuid_text};
use crate::spend::model::clone_opt_string;
use crate::text::{chars_of, push_str, string_from_chars};
use vstd::utf8::encode_utf8;

verus! {

/// Administrative state of a logical budget: only an explicit revocation
/// changes it.
#[derive(Clone, Copy, Debug, PartialEq, Eq, Structural)]
pub enum BudgetAdministrativeState {
    Active,
    Revoked,
}

/// Stable logical spending allocation for one agent over a time period.
///
/// Agent, currency and period are immutable; the limit is owned by the
/// [`BudgetVersion`] named by `current_version_id`.
#[derive(Clone, Copy, Debug, PartialEq, Eq, Structural)]
pub struct Budget {
    pub id: BudgetId,
    pub agent_id: AgentId,
    pub current_version_id: BudgetVersionId,
    pub currency: Currency,
    pub period: TimePeriod,
    pub administrative_state: BudgetAdministrativeState,
    pub created_at: i64,
    pub updated_at: i64,
}

#[derive(Clone, Copy, Debug, PartialEq, Eq, Structural)]
pub enum BudgetError {
    AmountLimitMustBePositive,
}

impl Budget {
    /// A new active budget created now, with a fresh current version id.
    pub fn new(id: BudgetId, agent_id: AgentId, currency: Currency, period: TimePeriod) -> (b: Self)
        ensures
            b.id == id,
            b.agent_id == agent_id,
            b.currency == currency,
            b.period == period,
            b.administrative_state == BudgetAdministrativeState::Active,
            b.created_at == b.updated_at,
    {
        Self::new_at(id, agent_id, currency, period, BudgetVersionId::new(), now_micros())
    }

    pub fn new_at(
        id: BudgetId,
        agent_id: AgentId,
        currency: Currency,
        period: TimePeriod,
        current_version_id: BudgetVersionId,
        created_at: i64,
    ) -> (b: Self)
        ensures
            b == (Budget {
                id,
                agent_id,
                current_version_id,
                currency,
                period,
                administrative_state: BudgetAdministrativeState::Active,
                created_at,
                updated_at: created_at,
            }),
    {
        Budget {
            id,
            agent_id,
            current_version_id,
            currency,
            period,
            administrative_state: BudgetAdministrativeState::Active,
            created_at,
            updated_at: created_at,
        }
    }
}

/// Immutable configuration revision for a logical [`Budget`].
#[derive(Debug)]
pub struct BudgetVersion {
    pub id: BudgetVersionId,
    pub budget_id: BudgetId,
    pub revision: u64,
    pub predecessor_version_id: Option<BudgetVersionId>,
    pub amount_limit_cents: i64,
    pub effective_at: i64,
    pub actor: String,
    pub source: String,
    pub reason: Option<String>,
    pub request_fingerprint: String,
    pub created_at: i64,
}

impl Clone for BudgetVersion {
    fn clone(&self) -> (r: Self)
        ensures
            r == *self,
    {
        BudgetVersion {
            id: self.id,
            budget_id: self.budget_id,
            revision: self.revision,
            predecessor_version_id: self.predecessor_version_id,
            amount_limit_cents: self.amount_limit_cents,
            effective_at: self.effective_at,
            actor: self.actor.clone(),
            source: self.source.clone(),
            reason: clone_opt_string(&self.reason),
            request_fingerprint: self.request_fingerprint.clone(),
            created_at: self.created_at,
        }
    }
}

/// The canonical text of a budget creation request whose period bounds
/// render as `starting_at` and, when the period ends, `ending_before`.
pub open spec fn fingerprint_text_of(
    agent_id: AgentId,
    amount_limit_cents: i64,
    currency: Currency,
    starting_at: Seq<char>,
    ending_before: Option<Seq<char>>,
) -> Seq<char> {
    "agent_id="@ + uuid_text(agent_id.0) + "\namount_limit_cents="@ + int_decimal(amount_limit_cents as int)
        + "\ncurrency="@ + "usd"@ + "\nstarting_at="@ + starting_at + "\nending_before="@ + match ending_before {
        Some(end) => end,
        None => Seq::empty(),
    }
}

/// The canonical text of a budget creation request, its period bounds in
/// RFC 3339.
pub open spec fn spec_fingerprint_text(
    agent_id: AgentId,
    amount_limit_cents: i64,
    currency: Currency,
    period: TimePeriod,
) -> Seq<char> {
    fingerprint_text_of(agent_id, amount_limit_cents, currency, spec_rfc3339(period.starting_at), match period.ending_before {
        Some(end) => Some(spec_rfc3339(end)),
        None => None,
    })
}

/// `sha256:` and the lowercase hexadecimal digits of a digest.
pub open spec fn spec_fingerprint_of_digest(digest: Seq<u8>) -> Seq<char> {
    "sha256:"@ + hex_lower(digest)
}

/// `sha256:` and the lowercase hex SHA-256 of the canonical request text.
pub open spec fn spec_request_fingerprint(
    agent_id: AgentId,
    amount_limit_cents: i64,
    currency: Currency,
    period: TimePeriod,
) -> Seq<char> {
    spec_fingerprint_of_digest(sha256_digest(encode_utf8(spec_fingerprint_text(agent_id, amount_limit_cents, currency, period))))
}

/// The canonical text of a budget creation request from the rendered bounds
/// of its period.
pub fn request_fingerprint_text(
    agent_id: &AgentId,
    amount_limit_cents: i64,
    currency: Currency,
    starting_at: &str,
    ending_before: Option<&str>,
) -> (t: String)
    ensures
        t@ == fingerprint_text_of(*agent_id, amount_limit_cents, currency, starting_at@, match ending_before {
            Some(end) => Some(end@),
            None => None,
        }),
{
    let mut text: Vec<char> = Vec::new();
    push_str(&mut text, "agent_id=");
    push_str(&mut text, agent_id.to_uuid_string().as_str());
    push_str(&mut text, "\namount_limit_cents=");
    push_str(&mut text, decimal_string(amount_limit_cents).as_str());
    push_str(&mut text, "\ncurrency=");
    push_str(&mut text, currency.as_str());
    push_str(&mut text, "\nstarting_at=");
    push_str(&mut text, starting_at);
    push_str(&mut text, "\nending_before=");
    match ending_before {
        Some(end) => push_str(&mut text, end),
        None => {},
    }
    let canonical = string_from_chars(text.as_slice());
    assert(canonical@ =~= fingerprint_text_of(*agent_id, amount_limit_cents, currency, starting_at@, match ending_before {
        Some(end) => Some(end@),
        None => None,
    }));
    canonical
}

/// A fingerprint from a digest: `sha256:` and its lowercase hexadecimal
/// digits.
pub fn fingerprint_of_digest(digest: &[u8]) -> (f: String)
    requires
        digest@.len() < 0x4000_0000,
    ensures
        f@ == spec_fingerprint_of_digest(digest@),
{
    let hex = hex_encode(digest);
    let mut out: Vec<char> = Vec::new();
    push_str(&mut out, "sha256:");
    let ghost prefix = out@;
    let mut i: usize = 0;
    while i < hex.len()
        invariant
            i <= hex.len(),
            out@ == prefix + hex@.take(i as int),
        decreases hex.len() - i,
    {
        out.push(hex[i]);
        proof {
            assert(hex@.take(i + 1) =~= hex@.take(i as int).push(hex@[i as int]));
        }
        i = i + 1;
    }
    assert(hex@.take(hex.len() as int) =~= hex@);
    string_from_chars(out.as_slice())
}

/// Stable fingerprint of the request that created a budget's revision 1.
pub fn initial_budget_request_fingerprint(
    agent_id: &AgentId,
    amount_limit_cents: i64,
    currency: Currency,
    period: &TimePeriod,
) -> (fingerprint: String)
    ensures
        fingerprint@ == spec_request_fingerprint(*agent_id, amount_limit_cents, currency, *period),
{
    let starting_at = rfc3339(period.starting_at);
    let ending_before: Option<String> = match period.ending_before {
        Some(end) => Some(rfc3339(end)),
        None => None,
    };
    let canonical = match &ending_before {
        Some(end) => request_fingerprint_text(agent_id, amount_limit_cents, currency, starting_at.as_str(), Some(end.as_str())),
        None => request_fingerprint_text(agent_id, amount_limit_cents, currency, starting_at.as_str(), None),
    };
    assert(canonical@ == spec_fingerprint_text(*agent_id, amount_limit_cents, currency, *period));
    let digest = sha256(canonical.as_str().as_bytes());
    fingerprint_of_digest(digest.as_slice())
}

impl BudgetVersion {
    /// Revision 1 of a new budget, owned by `budget` and created with it.
    pub fn initial(
        budget: &Budget,
        amount_limit_cents: i64,
        actor: String,
        source: String,
        reason: Option<String>,
    ) -> (r: Result<Self, BudgetError>)
        ensures
            amount_limit_cents <= 0 ==> r == Err::<BudgetVersion, BudgetError>(BudgetError::AmountLimitMustBePositive),
            amount_limit_cents > 0 ==> (r matches Ok(v) && v == (BudgetVersion {
                id: budget.current_version_id,
                budget_id: budget.id,
                revision: 1,
                predecessor_version_id: None,
                amount_limit_cents,
                effective_at: budget.created_at,
                actor,
                source,
                reason,
                request_fingerprint: v.request_fingerprint,
                created_at: budget.created_at,
            }) && v.request_fingerprint@ == spec_request_fingerprint(
                budget.agent_id,
                amount_limit_cents,
                budget.currency,
                budget.period,
            )),
    {
        if amount_limit_cents <= 0 {
            return Err(BudgetError::AmountLimitMustBePositive);
        }
        let request_fingerprint = initial_budget_request_fingerprint(
            &budget.agent_id,
            amount_limit_cents,
            budget.currency,
            &budget.period,
        );
        Ok(BudgetVersion {
            id: budget.current_version_id,
            budget_id: budget.id,
            revision: 1,
            predecessor_version_id: None,
            amount_limit_cents,
            effective_at: budget.created_at,
            actor,
            source,
            reason,
            request_fingerprint,
            created_at: budget.created_at,
        })
    }
}

/// Legacy persisted lifecycle label of a budget.
#[derive(Clone, Copy, Debug, PartialEq, Eq, Structural)]
pub enum BudgetStatus {
    /// The budget may reserve new holds.
    Active,
    /// The budget has no remaining amount available.
    Exhausted,
    /// The budget's bounded time period has ended.
    Expired,
    /// The budget was disabled before the end of its period, if any.
    Revoked,
}

/// Lifecycle of a budget at one instant, derived from its administrative
/// state, its period and its balance.
#[derive(Clone, Copy, Debug, PartialEq, Eq, Structural)]
pub enum BudgetAvailability {
    Scheduled,
    Active,
    Exhausted,
    Expired,
    Revoked,
}

impl BudgetAvailability {
    pub fn allows_reservation(&self) -> (b: bool)
        ensures
            b == (*self == BudgetAvailability::Active),
    {
        matches!(self, BudgetAvailability::Active)
    }

    pub fn as_str(&self) -> (s: &'static str)
        ensures
            s@ == availability_name(*self),
    {
        match self {
            BudgetAvailability::Scheduled => "scheduled",
            BudgetAvailability::Active => "active",
            BudgetAvailability::Exhausted => "exhausted",
            BudgetAvailability::Expired => "expired",
            BudgetAvailability::Revoked => "revoked",
        }
    }
}

/// The lowercase name of an availability.
pub open spec fn availability_name(a: BudgetAvailability) -> Seq<char> {
    match a {
        BudgetAvailability::Scheduled => "scheduled"@,
        BudgetAvailability::Active => "active"@,
        BudgetAvailability::Exhausted => "exhausted"@,
        BudgetAvailability::Expired => "expired"@,
        BudgetAvailability::Revoked => "revoked"@,
    }
}

/// A snapshot whose parts do not belong together.
#[derive(Clone, Copy, Debug, PartialEq, Eq, Structural)]
pub enum BudgetEvaluationError {
    VersionMismatch,
    BalanceMismatch,
}

/// Cached usage totals for a budget: consumed and frozen belong to the
/// logical budget; remaining is `limit - consumed - frozen` and may be
/// negative after a confirmed provider overrun.
#[derive(Clone, Copy, Debug, PartialEq, Eq, Structural)]
pub struct BudgetBalance {
    pub budget_id: BudgetId,
    pub consumed_amount_cents: i64,
    pub frozen_amount_cents: i64,
    pub remaining_amount_cents: i64,
}

/// The availability of a budget at `now`: revoked, scheduled before its
/// start, expired from its exclusive end, exhausted without remaining
/// amount, otherwise active.
pub open spec fn spec_availability(budget: Budget, balance: BudgetBalance, now: i64) -> BudgetAvailability {
    if budget.administrative_state == BudgetAdministrativeState::Revoked {
        BudgetAvailability::Revoked
    } else if now < budget.period.starting_at {
        BudgetAvailability::Scheduled
    } else if budget.period.ending_before matches Some(end) && now >= end {
        BudgetAvailability::Expired
    } else if balance.remaining_amount_cents <= 0 {
        BudgetAvailability::Exhausted
    } else {
        BudgetAvailability::Active
    }
}

/// Evaluate a budget snapshot at one instant.
pub fn evaluate_budget_availability(
    budget: &Budget,
    version: &BudgetVersion,
    balance: &BudgetBalance,
    now: i64,
) -> (r: Result<BudgetAvailability, BudgetEvaluationError>)
    ensures
        version.id != budget.current_version_id || version.budget_id != budget.id ==> r == Err::<BudgetAvailability, BudgetEvaluationError>(BudgetEvaluationError::VersionMismatch),
        version.id == budget.current_version_id && version.budget_id == budget.id && balance.budget_id != budget.id ==> r == Err::<BudgetAvailability, BudgetEvaluationError>(BudgetEvaluationError::BalanceMismatch),
        version.id == budget.current_version_id && version.budget_id == budget.id && balance.budget_id == budget.id ==> r == Ok::<BudgetAvailability, BudgetEvaluationError>(spec_availability(*budget, *balance, now)),
{
    if version.id != budget.current_version_id || version.budget_id != budget.id {
        return Err(BudgetEvaluationError::VersionMismatch);
    }
    if balance.budget_id != budget.id {
        return Err(BudgetEvaluationError::BalanceMismatch);
    }
    if budget.administrative_state == BudgetAdministrativeState::Revoked {
        return Ok(BudgetAvailability::Revoked);
    }
    if now < budget.period.starting_at {
        return Ok(BudgetAvailability::Scheduled);
    }
    match budget.period.ending_before {
        Some(end) => {
            if now >= end {
                return Ok(BudgetAvailability::Expired);
            }
        },
        None => {},
    }
    if balance.remaining_amount_cents <= 0 {
        return Ok(BudgetAvailability::Exhausted);
    }
    Ok(BudgetAvailability::Active)
}

/// Lifecycle state for a reserved budget hold.
#[derive(Clone, Copy, Debug, PartialEq, Eq, Structural)]
pub enum BudgetHoldStatus {
    /// Amount is reserved and unavailable for other spend.
    Frozen,
    /// An executor has exclusively claimed the hold for billable work.
    Claimed,
    /// Payment settled and the amount moved into consumed usage.
    Settled,
    /// Hold was cancelled or unused and the amount returned to the budget.
    Released,
    /// Hold passed its expiration time before settlement.
    Expired,
}

/// A hold whose amount still counts as frozen.
pub open spec fn is_active_status(status: BudgetHoldStatus) -> bool {
    status == BudgetHoldStatus::Frozen || status == BudgetHoldStatus::Claimed
}

/// Reserved budget created from an approved spend decision.
#[derive(Clone, Copy, Debug, PartialEq, Eq, Structural)]
pub struct BudgetHold {
    pub id: BudgetHoldId,
    pub budget_id: BudgetId,
    pub budget_version_id: BudgetVersionId,
    pub spend_decision_id: SpendDecisionId,
    pub amount_cents: i64,
    pub currency: Currency,
    pub status: BudgetHoldStatus,
    pub executor_claim_id: Option<SpendExecutorClaimId>,
    pub created_at: i64,
    pub updated_at: i64,
    pub expires_at: i64,
}

#[derive(Clone, Copy, Debug, PartialEq, Eq, Structural)]
pub enum BudgetHoldError {
    CannotClaimNonFrozenHold,
    CannotSettleNonFrozenHold,
    CannotReleaseNonFrozenHold,
}

/// Claim: a frozen hold becomes claimed by `claim_id` with the claim's
/// lease; a hold already claimed by the same claim is left as it is.
pub open spec fn spec_claim(hold: BudgetHold, claim_id: SpendExecutorClaimId, expires_at: i64, now: i64) -> Result<BudgetHold, BudgetHoldError> {
    if hold.status == BudgetHoldStatus::Frozen {
        Ok(BudgetHold {
            status: BudgetHoldStatus::Claimed,
            executor_claim_id: Some(claim_id),
            expires_at,
            updated_at: now,
            ..hold
        })
    } else if hold.status == BudgetHoldStatus::Claimed && hold.executor_claim_id == Some(claim_id) {
        Ok(hold)
    } else {
        Err(BudgetHoldError::CannotClaimNonFrozenHold)
    }
}

impl BudgetHold {
    pub fn claim(&mut self, claim_id: SpendExecutorClaimId, expires_at: i64) -> (r: Result<(), BudgetHoldError>)
        ensures
            match spec_claim(*old(self), claim_id, expires_at, final(self).updated_at) {
                Ok(h) => r is Ok && *final(self) == h,
                Err(e) => r == Err::<(), BudgetHoldError>(e) && *final(self) == *old(self),
            },
    {
        let now = now_micros();
        self.claim_at(claim_id, expires_at, now)
    }

    pub fn claim_at(&mut self, claim_id: SpendExecutorClaimId, expires_at: i64, now: i64) -> (r: Result<(), BudgetHoldError>)
        ensures
            match spec_claim(*old(self), claim_id, expires_at, now) {
                Ok(h) => r is Ok && *final(self) == h,
                Err(e) => r == Err::<(), BudgetHoldError>(e) && *final(self) == *old(self),
            },
    {
        match self.status {
            BudgetHoldStatus::Frozen => {
                self.status = BudgetHoldStatus::Claimed;
                self.executor_claim_id = Some(claim_id);
                self.expires_at = expires_at;
                self.updated_at = now;
                Ok(())
            },
            BudgetHoldStatus::Claimed => match self.executor_claim_id {
                Some(existing) if existing == claim_id => Ok(()),
                _ => Err(BudgetHoldError::CannotClaimNonFrozenHold),
            },
            _ => Err(BudgetHoldError::CannotClaimNonFrozenHold),
        }
    }

    /// Settle an active hold at `now`.
    pub fn settle_at(&mut self, now: i64) -> (r: Result<(), BudgetHoldError>)
        ensures
            is_active_status(old(self).status) ==> r is Ok && *final(self) == (BudgetHold {
                status: BudgetHoldStatus::Settled,
                updated_at: now,
                ..*old(self)
            }),
            !is_active_status(old(self).status) ==> r == Err::<(), BudgetHoldError>(BudgetHoldError::CannotSettleNonFrozenHold) && *final(self) == *old(self),
    {
        match self.status {
            BudgetHoldStatus::Frozen | BudgetHoldStatus::Claimed => {
                self.status = BudgetHoldStatus::Settled;
                self.updated_at = now;
                Ok(())
            },
            _ => Err(BudgetHoldError::CannotSettleNonFrozenHold),
        }
    }

    pub fn settle(&mut self) -> (r: Result<(), BudgetHoldError>)
        ensures
            is_active_status(old(self).status) ==> r is Ok && *final(self) == (BudgetHold {
                status: BudgetHoldStatus::Settled,
                updated_at: final(self).updated_at,
                ..*old(self)
            }),
            !is_active_status(old(self).status) ==> r == Err::<(), BudgetHoldError>(BudgetHoldError::CannotSettleNonFrozenHold) && *final(self) == *old(self),
    {
        let now = now_micros();
        self.settle_at(now)
    }

    /// Release an active hold at `now`.
    pub fn release_at(&mut self, now: i64) -> (r: Result<(), BudgetHoldError>)
        ensures
            is_active_status(old(self).status) ==> r is Ok && *final(self) == (BudgetHold {
                status: BudgetHoldStatus::Released,
                updated_at: now,
                ..*old(self)
            }),
            !is_active_status(old(self).status) ==> r == Err::<(), BudgetHoldError>(BudgetHoldError::CannotReleaseNonFrozenHold) && *final(self) == *old(self),
    {
        match self.status {
            BudgetHoldStatus::Frozen | BudgetHoldStatus::Claimed => {
                self.status = BudgetHoldStatus::Released;
                self.updated_at = now;
                Ok(())
            },
            _ => Err(BudgetHoldError::CannotReleaseNonFrozenHold),
        }
    }

    pub fn release(&mut self) -> (r: Result<(), BudgetHoldError>)
        ensures
            is_active_status(old(self).status) ==> r is Ok && *final(self) == (BudgetHold {
                status: BudgetHoldStatus::Released,
                updated_at: final(self).updated_at,
                ..*old(self)
            }),
            !is_active_status(old(self).status) ==> r == Err::<(), BudgetHoldError>(BudgetHoldError::CannotReleaseNonFrozenHold) && *final(self) == *old(self),
    {
        let now = now_micros();
        self.release_at(now)
    }
}

} // verus!
