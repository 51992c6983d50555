//! The external-executor claim lifecycle: claiming a spend authorization,
//! reading a claim's state, and finalizing it by settlement, release or
//! reconciliation.
use vstd::prelude::*;

use crate::budget::error::BudgetManagerError;
use crate::budget::manager::BudgetManager;
use crate::budget::model::{BudgetBalance, BudgetHold, BudgetHoldStatus};
use crate::common::{AgentId, PaymentId, SpendExecutorClaimId, UserId};
use crate::spend::error::SpendError;
use crate::spend::manager::{
    claim_order, claim_outcome, executor_claim_validation_outcome, owner_claims, same_decision, validated, SpendManager,
    SpendManagerView,
};
use crate::budget::dto::ReserveBudgetResponse;
use crate::budget::state::{spec_claim_outcome, BudgetStateView};
use crate::spend::model::SpendExecutorClaimRequest;
use vstd::relations::sorted_by;
use crate::spend::model::{
    charge_cents, same_opt_string, PersistedSpendExecutorSettlementReceipt, SpendAuthTokenRecord,
    SpendDecisionRecord, SpendExecutorClaimRecord, SpendExecutorClaimStatus,
    SpendExecutorSettlementReceipt, SpendPaymentValidationRequest, ValidatedSpendAuthorization,
};
use crate::storage::StorageError;
use crate::text::{is_blank, str_eq, str_is_blank, trim, trim_str};

verus! {

/// The executor claim lifecycle across spend, budget and storage.
pub struct ExecutorClaimService;

#[derive(Debug)]
pub struct ClaimExecutorSpendRequest {
    pub authorization: SpendPaymentValidationRequest,
    pub operation_key: String,
}

#[derive(Debug)]
pub struct FinalizeExecutorClaimRequest {
    pub owner_user_id: UserId,
    pub agent_id: AgentId,
    pub operation_key: String,
}

#[derive(Debug)]
pub struct SettleExecutorClaimRequest {
    pub owner_user_id: UserId,
    pub agent_id: AgentId,
    pub operation_key: String,
    pub receipt: SpendExecutorSettlementReceipt,
}

/// What the vendor did for an expired claim.
#[derive(Clone, Copy, Debug, PartialEq, Eq, Structural)]
pub enum ExecutorClaimReconciliationOutcome {
    VendorBilled,
    VendorDidNotBill,
}

impl ExecutorClaimReconciliationOutcome {
    pub fn as_str(self) -> (s: &'static str)
        ensures
            s@ == match self {
                ExecutorClaimReconciliationOutcome::VendorBilled => "vendor_billed"@,
                ExecutorClaimReconciliationOutcome::VendorDidNotBill => "vendor_did_not_bill"@,
            },
    {
        match self {
            ExecutorClaimReconciliationOutcome::VendorBilled => "vendor_billed",
            ExecutorClaimReconciliationOutcome::VendorDidNotBill => "vendor_did_not_bill",
        }
    }
}

#[derive(Debug)]
pub struct ReconcileExecutorClaimRequest {
    pub claim_id: SpendExecutorClaimId,
    pub owner_user_id: UserId,
    pub provider_reference: String,
    pub evidence: String,
    pub outcome: ExecutorClaimReconciliationOutcome,
    pub receipt: Option<SpendExecutorSettlementReceipt>,
}

/// A claim with the decision, token, authorization, hold and balance it
/// stands on.
#[derive(Debug)]
pub struct ExecutorClaimState {
    pub claim: SpendExecutorClaimRecord,
    pub decision: SpendDecisionRecord,
    pub token: SpendAuthTokenRecord,
    pub authorization: ValidatedSpendAuthorization,
    pub budget_hold: BudgetHold,
    pub budget_balance: BudgetBalance,
    pub settlement_receipt: Option<PersistedSpendExecutorSettlementReceipt>,
    pub idempotent_replay: bool,
}

#[derive(Debug)]
pub enum ExecutorClaimServiceError {
    EmptyOperationKey,
    MissingBudgetHold,
    BudgetHoldNotFrozen,
    ExistingClaimBudgetHoldMismatch,
    BudgetHoldAgentMismatch,
    MissingBudgetBalance,
    ClaimDecisionMismatch,
    UnknownExecutorClaim,
    MissingClaimToken,
    MissingClaimDecision,
    ClaimOwnerMismatch,
    MissingClaimBudgetHold,
    ClaimBudgetHoldMismatch,
    MissingClaimBudgetBalance,
    MissingSettlementId,
    MissingSettlementReceipt,
    UnexpectedSettlementReceipt,
    EmptyProviderReference,
    EmptyReconciliationEvidence,
    Spend(SpendError),
    Budget(BudgetManagerError),
    Storage(StorageError),
}

/// How a finalization finds its claim.
#[derive(Debug)]
pub enum ExecutorClaimLocator {
    Operation { agent_id: AgentId, operation_key: String },
    ClaimId(SpendExecutorClaimId),
}

/// Settle under a new settlement id, or release.
#[derive(Clone, Copy, Debug, PartialEq, Eq, Structural)]
pub enum ExecutorFinalizationAction {
    Settle(PaymentId),
    Release,
}

/// Who finalizes: the executor within its lease, or the owner reconciling
/// an expired claim with evidence.
#[derive(Debug)]
pub enum ExecutorFinalizationAuthority {
    Executor,
    Reconciliation { provider_reference: String, evidence: String, reconciled_by_user_id: UserId },
}

/// The finalized records, or those of an earlier identical finalization.
#[derive(Debug)]
pub struct ExecutorFinalizationResult {
    pub claim: SpendExecutorClaimRecord,
    pub token: SpendAuthTokenRecord,
    pub hold: BudgetHold,
    pub balance: BudgetBalance,
    pub idempotent_replay: bool,
    /// The stored settlement receipt, where storage returned one.
    pub receipt: Option<PersistedSpendExecutorSettlementReceipt>,
}

pub open spec fn invalid(r: Result<ExecutorFinalizationResult, StorageError>, message: Seq<char>) -> bool {
    r matches Err(StorageError::InvalidData(m)) && m@ == message
}

/// The claim, token, hold and balance already record this exact
/// finalization.
pub open spec fn already_finalized(
    claim: SpendExecutorClaimRecord,
    token: SpendAuthTokenRecord,
    hold: BudgetHold,
    action: ExecutorFinalizationAction,
) -> bool {
    match action {
        ExecutorFinalizationAction::Settle(_) => {
            &&& token.used_by_payment_id == claim.settlement_id
            &&& token.used_at is Some
            &&& token.revoked_at is None
            &&& hold.status == BudgetHoldStatus::Settled
            &&& hold.executor_claim_id == Some(claim.id)
        },
        ExecutorFinalizationAction::Release => {
            &&& token.revoked_at is Some
            &&& token.used_at is None
            &&& token.used_by_payment_id is None
            &&& hold.status == BudgetHoldStatus::Released
            &&& hold.executor_claim_id == Some(claim.id)
        },
    }
}

/// The claim records the same reconciliation, or none was asked for.
pub open spec fn same_authority(claim: SpendExecutorClaimRecord, authority: ExecutorFinalizationAuthority) -> bool {
    match authority {
        ExecutorFinalizationAuthority::Executor => true,
        ExecutorFinalizationAuthority::Reconciliation { provider_reference, evidence, reconciled_by_user_id } => {
            &&& claim.provider_reference matches Some(p) && p@ == provider_reference@
            &&& claim.reconciliation_evidence matches Some(e) && e@ == evidence@
            &&& claim.reconciled_at is Some
            &&& claim.reconciled_by_user_id == Some(reconciled_by_user_id)
        },
    }
}

/// The budget charge of a receipt's exact cost can be computed: a
/// non-negative amount, a scale of at most 18, and cents that fit an `i64`.
pub open spec fn receipt_charge_computable(receipt: SpendExecutorSettlementReceipt) -> bool {
    let cost = receipt.actual_vendor_cost;
    cost.amount >= 0 && cost.scale <= 18 && charge_cents(cost.amount as int, cost.scale as nat) <= i64::MAX
}

/// Why the charge of a receipt's cost cannot be computed.
pub open spec fn receipt_charge_error(receipt: SpendExecutorSettlementReceipt) -> Seq<char> {
    let cost = receipt.actual_vendor_cost;
    if cost.amount < 0 {
        "actual vendor cost cannot be negative"@
    } else if cost.scale > 18 {
        "actual vendor cost scale cannot exceed 18"@
    } else {
        "actual vendor cost cannot be represented in budget cents"@
    }
}

/// The budget charge of a receipt: its exact cost in cents, rounded up.
pub open spec fn receipt_charge(receipt: SpendExecutorSettlementReceipt) -> int {
    charge_cents(receipt.actual_vendor_cost.amount as int, receipt.actual_vendor_cost.scale as nat)
}

pub open spec fn fits_i64(v: int) -> bool {
    i64::MIN <= v <= i64::MAX
}

/// The balance and receipt amounts a finalization computes fit an `i64`.
pub open spec fn finalization_amounts_fit(
    action: ExecutorFinalizationAction,
    balance: BudgetBalance,
    hold_amount: i64,
    receipt: Option<SpendExecutorSettlementReceipt>,
) -> bool {
    &&& fits_i64(balance.frozen_amount_cents - hold_amount)
    &&& match action {
        ExecutorFinalizationAction::Settle(_) => {
            let charge = receipt_charge(receipt->0);
            &&& fits_i64(balance.consumed_amount_cents + charge)
            &&& fits_i64(balance.remaining_amount_cents + hold_amount - charge)
            &&& fits_i64(charge - hold_amount)
            &&& fits_i64(hold_amount - charge)
        },
        ExecutorFinalizationAction::Release => fits_i64(balance.remaining_amount_cents + hold_amount),
    }
}

/// The stored receipt of a settlement: the hold's amount as the authorized
/// maximum, the receipt's charge, the part of the hold given back and the
/// part charged beyond it.
pub open spec fn settled_receipt(
    claim_id: SpendExecutorClaimId,
    settlement_id: PaymentId,
    hold: BudgetHold,
    receipt: SpendExecutorSettlementReceipt,
    started_at: i64,
) -> PersistedSpendExecutorSettlementReceipt {
    let charge = receipt_charge(receipt);
    PersistedSpendExecutorSettlementReceipt {
        claim_id,
        settlement_id,
        authorized_max_cents: hold.amount_cents,
        budget_charge_cents: charge as i64,
        released_amount_cents: if hold.amount_cents > charge { (hold.amount_cents - charge) as i64 } else { 0 },
        overrun_amount_cents: if charge > hold.amount_cents { (charge - hold.amount_cents) as i64 } else { 0 },
        currency: hold.currency,
        receipt,
        created_at: started_at,
    }
}

/// The planned finalization of a claim at `started_at`, given the records
/// that storage holds for it.
pub open spec fn finalization_outcome(
    owner_user_id: UserId,
    locator: ExecutorClaimLocator,
    action: ExecutorFinalizationAction,
    authority: ExecutorFinalizationAuthority,
    started_at: i64,
    claim: Option<SpendExecutorClaimRecord>,
    token: Option<SpendAuthTokenRecord>,
    hold: Option<BudgetHold>,
    balance: Option<BudgetBalance>,
    receipt: Option<SpendExecutorSettlementReceipt>,
    r: Result<ExecutorFinalizationResult, StorageError>,
) -> bool {
    match claim {
        None => invalid(r, "unknown executor claim"@),
        Some(claim) => if claim.owner_user_id != owner_user_id {
            invalid(r, "executor claim owner does not match"@)
        } else if (locator matches ExecutorClaimLocator::Operation { operation_key, .. } && claim.operation_key@ != operation_key@) {
            invalid(r, "executor claim operation key does not match"@)
        } else if (locator matches ExecutorClaimLocator::Operation { agent_id, .. } && claim.agent_id != agent_id) {
            invalid(r, "executor claim agent does not match"@)
        } else {
            match (token, hold, balance) {
                (None, _, _) => invalid(r, "executor claim token is missing"@),
                (Some(_), None, _) => invalid(r, "executor claim budget hold is missing"@),
                (Some(_), Some(_), None) => invalid(r, "executor claim budget balance is missing"@),
                (Some(token), Some(hold), Some(balance)) => {
                    let status = claim.status;
                    if (action is Settle && status == SpendExecutorClaimStatus::Settled && claim.settlement_id is None) {
                        invalid(r, "settled executor claim has no settlement id"@)
                    } else if action is Settle && status == SpendExecutorClaimStatus::Released {
                        invalid(r, "executor claim has already been released"@)
                    } else if action is Release && status == SpendExecutorClaimStatus::Settled {
                        invalid(r, "executor claim has already been settled"@)
                    } else if status != SpendExecutorClaimStatus::Claimed && already_finalized(claim, token, hold, action) {
                        if !same_authority(claim, authority) {
                            if claim.reconciled_at is Some {
                                invalid(r, "executor claim was reconciled with different evidence"@)
                            } else {
                                invalid(r, "executor claim was finalized without reconciliation"@)
                            }
                        } else {
                            r == Ok::<ExecutorFinalizationResult, StorageError>(ExecutorFinalizationResult {
                                claim, token, hold, balance, idempotent_replay: true, receipt: None,
                            })
                        }
                    } else if status != SpendExecutorClaimStatus::Claimed {
                        invalid(r, "finalized executor claim has inconsistent persisted state"@)
                    } else if authority is Executor && claim.expires_at <= started_at {
                        invalid(r, "executor claim expired and requires reconciliation"@)
                    } else if authority is Reconciliation && claim.expires_at > started_at {
                        invalid(r, "active executor claim does not require reconciliation"@)
                    } else if token.owner_user_id != claim.owner_user_id {
                        invalid(r, "executor claim token owner does not match"@)
                    } else if token.used_at is Some || token.used_by_payment_id is Some {
                        invalid(r, "executor claim token has already been used"@)
                    } else if token.revoked_at is Some {
                        invalid(r, "executor claim token has been revoked"@)
                    } else if hold.status != BudgetHoldStatus::Claimed || hold.executor_claim_id != Some(claim.id)
                        || hold.spend_decision_id != token.spend_decision_id {
                        invalid(r, "executor claim budget hold is not exclusively claimed"@)
                    } else if balance.frozen_amount_cents < hold.amount_cents {
                        invalid(r, "executor claim budget balance is inconsistent"@)
                    } else if action is Settle && receipt is None {
                        invalid(r, "settlement receipt is required"@)
                    } else if action is Release && receipt is Some {
                        invalid(r, "a release takes no settlement receipt"@)
                    } else if action is Settle && !receipt_charge_computable(receipt->0) {
                        invalid(r, receipt_charge_error(receipt->0))
                    } else if !finalization_amounts_fit(action, balance, hold.amount_cents, receipt) {
                        invalid(r, "executor claim budget balance exceeds the representable range"@)
                    } else {
                        let frozen = (balance.frozen_amount_cents - hold.amount_cents) as i64;
                        r matches Ok(result) && !result.idempotent_replay
                            && result.claim.id == claim.id
                            && result.claim.spend_auth_token_id == claim.spend_auth_token_id
                            && result.claim.owner_user_id == claim.owner_user_id
                            && result.claim.agent_id == claim.agent_id
                            && result.claim.operation_key == claim.operation_key
                            && result.claim.lease_profile == claim.lease_profile
                            && result.claim.claimed_at == claim.claimed_at
                            && result.claim.expires_at == claim.expires_at
                            && result.claim.finalized_at == Some(started_at)
                            && match authority {
                                ExecutorFinalizationAuthority::Executor => {
                                    &&& result.claim.provider_reference == claim.provider_reference
                                    &&& result.claim.reconciliation_evidence == claim.reconciliation_evidence
                                    &&& result.claim.reconciled_at == claim.reconciled_at
                                    &&& result.claim.reconciled_by_user_id == claim.reconciled_by_user_id
                                },
                                ExecutorFinalizationAuthority::Reconciliation { provider_reference, evidence, reconciled_by_user_id } => {
                                    &&& result.claim.provider_reference == Some(provider_reference)
                                    &&& result.claim.reconciliation_evidence == Some(evidence)
                                    &&& result.claim.reconciled_at == Some(started_at)
                                    &&& result.claim.reconciled_by_user_id == Some(reconciled_by_user_id)
                                },
                            }
                            && result.hold == (BudgetHold {
                                status: if action is Settle { BudgetHoldStatus::Settled } else { BudgetHoldStatus::Released },
                                updated_at: started_at,
                                ..hold
                            })
                            && match action {
                                ExecutorFinalizationAction::Settle(settlement_id) => {
                                    let charge = receipt_charge(receipt->0);
                                    &&& result.claim.status == SpendExecutorClaimStatus::Settled
                                    &&& result.claim.settlement_id == Some(settlement_id)
                                    &&& result.token == (SpendAuthTokenRecord {
                                        used_at: Some(started_at),
                                        used_by_payment_id: Some(settlement_id),
                                        ..token
                                    })
                                    &&& result.balance == (BudgetBalance {
                                        frozen_amount_cents: frozen,
                                        consumed_amount_cents: (balance.consumed_amount_cents + charge) as i64,
                                        remaining_amount_cents: (balance.remaining_amount_cents + hold.amount_cents - charge) as i64,
                                        ..balance
                                    })
                                    &&& result.receipt == Some(settled_receipt(claim.id, settlement_id, hold, receipt->0, started_at))
                                },
                                ExecutorFinalizationAction::Release => {
                                    &&& result.receipt is None
                                    &&& result.claim.status == SpendExecutorClaimStatus::Released
                                    &&& result.claim.settlement_id is None
                                    &&& result.token == (SpendAuthTokenRecord { revoked_at: Some(started_at), ..token })
                                    &&& result.balance == (BudgetBalance {
                                        frozen_amount_cents: frozen,
                                        remaining_amount_cents: (balance.remaining_amount_cents + hold.amount_cents) as i64,
                                        ..balance
                                    })
                                },
                            }
                    }
                },
            }
        },
    }
}

fn invalid_data(message: &str) -> (e: StorageError)
    ensures
        e matches StorageError::InvalidData(m) && m@ == message@,
{
    StorageError::InvalidData(String::from_str(message))
}

/// Decide the finalization of an executor claim at `started_at` from the
/// records storage holds for it: refuse it, recognize an identical earlier
/// finalization, or give the settled or released records to store. A
/// settlement charges the budget what the executor's `receipt` cost, rounded
/// up to a cent, and gives the rest of the hold back; a release takes no
/// receipt and gives the whole hold back. A recognized replay returns the
/// stored records without a receipt: storage attaches the one it stored.
pub fn plan_executor_finalization(
    owner_user_id: &UserId,
    locator: &ExecutorClaimLocator,
    action: ExecutorFinalizationAction,
    authority: ExecutorFinalizationAuthority,
    started_at: i64,
    claim: Option<SpendExecutorClaimRecord>,
    token: Option<SpendAuthTokenRecord>,
    hold: Option<BudgetHold>,
    balance: Option<BudgetBalance>,
    receipt: Option<SpendExecutorSettlementReceipt>,
) -> (r: Result<ExecutorFinalizationResult, StorageError>)
    ensures
        finalization_outcome(*owner_user_id, *locator, action, authority, started_at, claim, token, hold, balance, receipt, r),
{
    let mut claim = match claim {
        None => return Err(invalid_data("unknown executor claim")),
        Some(c) => c,
    };
    if claim.owner_user_id != *owner_user_id {
        return Err(invalid_data("executor claim owner does not match"));
    }
    match locator {
        ExecutorClaimLocator::Operation { agent_id, operation_key } => {
            if !str_eq(claim.operation_key.as_str(), operation_key.as_str()) {
                return Err(invalid_data("executor claim operation key does not match"));
            }
            if claim.agent_id != *agent_id {
                return Err(invalid_data("executor claim agent does not match"));
            }
        },
        ExecutorClaimLocator::ClaimId(_) => {},
    }
    let mut token = match token {
        None => return Err(invalid_data("executor claim token is missing")),
        Some(t) => t,
    };
    let mut hold = match hold {
        None => return Err(invalid_data("executor claim budget hold is missing")),
        Some(h) => h,
    };
    let mut balance = match balance {
        None => return Err(invalid_data("executor claim budget balance is missing")),
        Some(b) => b,
    };
    let replay = match (action, claim.status) {
        (ExecutorFinalizationAction::Settle(_), SpendExecutorClaimStatus::Settled) => {
            let settlement_id = match claim.settlement_id {
                Some(id) => id,
                None => return Err(invalid_data("settled executor claim has no settlement id")),
            };
            (match token.used_by_payment_id {
                Some(id) => id == settlement_id,
                None => false,
            }) && token.used_at.is_some() && token.revoked_at.is_none()
                && hold.status == BudgetHoldStatus::Settled
                && (match hold.executor_claim_id {
                    Some(id) => id == claim.id,
                    None => false,
                })
        },
        (ExecutorFinalizationAction::Release, SpendExecutorClaimStatus::Released) => {
            token.revoked_at.is_some() && token.used_at.is_none() && token.used_by_payment_id.is_none()
                && hold.status == BudgetHoldStatus::Released
                && (match hold.executor_claim_id {
                    Some(id) => id == claim.id,
                    None => false,
                })
        },
        (ExecutorFinalizationAction::Settle(_), SpendExecutorClaimStatus::Released) => {
            return Err(invalid_data("executor claim has already been released"));
        },
        (ExecutorFinalizationAction::Release, SpendExecutorClaimStatus::Settled) => {
            return Err(invalid_data("executor claim has already been settled"));
        },
        (_, SpendExecutorClaimStatus::Claimed) => false,
    };
    let same = match &authority {
        ExecutorFinalizationAuthority::Executor => true,
        ExecutorFinalizationAuthority::Reconciliation { provider_reference, evidence, reconciled_by_user_id } => {
            (match &claim.provider_reference {
                Some(p) => str_eq(p.as_str(), provider_reference.as_str()),
                None => false,
            }) && (match &claim.reconciliation_evidence {
                Some(e) => str_eq(e.as_str(), evidence.as_str()),
                None => false,
            }) && claim.reconciled_at.is_some() && (match claim.reconciled_by_user_id {
                Some(id) => id == *reconciled_by_user_id,
                None => false,
            })
        },
    };
    if replay && !same {
        if claim.reconciled_at.is_some() {
            return Err(invalid_data("executor claim was reconciled with different evidence"));
        }
        return Err(invalid_data("executor claim was finalized without reconciliation"));
    }
    if replay {
        return Ok(ExecutorFinalizationResult { claim, token, hold, balance, idempotent_replay: true, receipt: None });
    }
    if claim.status != SpendExecutorClaimStatus::Claimed {
        return Err(invalid_data("finalized executor claim has inconsistent persisted state"));
    }
    match &authority {
        ExecutorFinalizationAuthority::Executor => {
            if claim.expires_at <= started_at {
                return Err(invalid_data("executor claim expired and requires reconciliation"));
            }
        },
        ExecutorFinalizationAuthority::Reconciliation { .. } => {
            if claim.expires_at > started_at {
                return Err(invalid_data("active executor claim does not require reconciliation"));
            }
        },
    }
    if token.owner_user_id != claim.owner_user_id {
        return Err(invalid_data("executor claim token owner does not match"));
    }
    if token.used_at.is_some() || token.used_by_payment_id.is_some() {
        return Err(invalid_data("executor claim token has already been used"));
    }
    if token.revoked_at.is_some() {
        return Err(invalid_data("executor claim token has been revoked"));
    }
    let hold_claimed_by_this = match hold.executor_claim_id {
        Some(id) => id == claim.id,
        None => false,
    };
    if hold.status != BudgetHoldStatus::Claimed || !hold_claimed_by_this || hold.spend_decision_id != token.spend_decision_id {
        return Err(invalid_data("executor claim budget hold is not exclusively claimed"));
    }
    if balance.frozen_amount_cents < hold.amount_cents {
        return Err(invalid_data("executor claim budget balance is inconsistent"));
    }
    let charge: i64 = match (action, &receipt) {
        (ExecutorFinalizationAction::Settle(_), None) => return Err(invalid_data("settlement receipt is required")),
        (ExecutorFinalizationAction::Release, Some(_)) => return Err(invalid_data("a release takes no settlement receipt")),
        (ExecutorFinalizationAction::Release, None) => 0,
        (ExecutorFinalizationAction::Settle(_), Some(rc)) => match rc.actual_vendor_cost.conservative_budget_charge_cents() {
            Ok(c) => c,
            Err(m) => return Err(invalid_data(m)),
        },
    };
    let frozen = (balance.frozen_amount_cents as i128) - (hold.amount_cents as i128);
    let (consumed, remaining, over) = match action {
        ExecutorFinalizationAction::Settle(_) => (
            (balance.consumed_amount_cents as i128) + (charge as i128),
            (balance.remaining_amount_cents as i128) + (hold.amount_cents as i128) - (charge as i128),
            (charge as i128) - (hold.amount_cents as i128),
        ),
        ExecutorFinalizationAction::Release => (
            balance.consumed_amount_cents as i128,
            (balance.remaining_amount_cents as i128) + (hold.amount_cents as i128),
            0i128,
        ),
    };
    let under = (hold.amount_cents as i128) - (charge as i128);
    if under < (i64::MIN as i128) || under > (i64::MAX as i128) || frozen < (i64::MIN as i128) || frozen > (i64::MAX as i128) || consumed < (i64::MIN as i128) || consumed > (
    i64::MAX as i128) || remaining < (i64::MIN as i128) || remaining > (i64::MAX as i128) || over < (i64::MIN as i128)
        || over > (i64::MAX as i128) {
        return Err(invalid_data("executor claim budget balance exceeds the representable range"));
    }
    claim.finalized_at = Some(started_at);
    match authority {
        ExecutorFinalizationAuthority::Executor => {},
        ExecutorFinalizationAuthority::Reconciliation { provider_reference, evidence, reconciled_by_user_id } => {
            claim.provider_reference = Some(provider_reference);
            claim.reconciliation_evidence = Some(evidence);
            claim.reconciled_at = Some(started_at);
            claim.reconciled_by_user_id = Some(reconciled_by_user_id);
        },
    }
    hold.updated_at = started_at;
    balance.frozen_amount_cents = frozen as i64;
    balance.consumed_amount_cents = consumed as i64;
    balance.remaining_amount_cents = remaining as i64;
    let stored = match action {
        ExecutorFinalizationAction::Settle(settlement_id) => {
            token.used_at = Some(started_at);
            token.used_by_payment_id = Some(settlement_id);
            claim.status = SpendExecutorClaimStatus::Settled;
            claim.settlement_id = Some(settlement_id);
            hold.status = BudgetHoldStatus::Settled;
            match receipt {
                Some(rc) => Some(PersistedSpendExecutorSettlementReceipt {
                    claim_id: claim.id,
                    settlement_id,
                    authorized_max_cents: hold.amount_cents,
                    budget_charge_cents: charge,
                    released_amount_cents: if hold.amount_cents > charge { under as i64 } else { 0 },
                    overrun_amount_cents: if charge > hold.amount_cents { over as i64 } else { 0 },
                    currency: hold.currency,
                    receipt: rc,
                    created_at: started_at,
                }),
                None => None,
            }
        },
        ExecutorFinalizationAction::Release => {
            token.revoked_at = Some(started_at);
            claim.status = SpendExecutorClaimStatus::Released;
            claim.settlement_id = None;
            hold.status = BudgetHoldStatus::Released;
            None
        },
    };
    Ok(ExecutorFinalizationResult { claim, token, hold, balance, idempotent_replay: false, receipt: stored })
}


/// What assembling a claim's state from these records gives, against spend
/// state `s`.
pub open spec fn claim_state_outcome(
    s: SpendManagerView,
    claim: SpendExecutorClaimRecord,
    authorization: ValidatedSpendAuthorization,
    hold: BudgetHold,
    balance: BudgetBalance,
    receipt: Option<PersistedSpendExecutorSettlementReceipt>,
    idempotent_replay: bool,
    r: Result<ExecutorClaimState, ExecutorClaimServiceError>,
) -> bool {
    match s.token(claim.spend_auth_token_id) {
        None => r matches Err(ExecutorClaimServiceError::MissingClaimToken),
        Some(token) => match s.decision(token.spend_decision_id) {
            None => r matches Err(ExecutorClaimServiceError::MissingClaimDecision),
            Some(d) => if d.owner_user_id != claim.owner_user_id || token.owner_user_id != claim.owner_user_id {
                r matches Err(ExecutorClaimServiceError::ClaimOwnerMismatch)
            } else if hold.spend_decision_id != d.id || hold.executor_claim_id != Some(claim.id) {
                r matches Err(ExecutorClaimServiceError::ClaimBudgetHoldMismatch)
            } else {
                r matches Ok(state) && state.claim == claim && same_decision(state.decision, d)
                    && state.token == token && state.authorization == authorization
                    && state.budget_hold == hold && state.budget_balance == balance
                    && state.settlement_receipt == receipt && state.idempotent_replay == idempotent_replay
            },
        },
    }
}

/// What reading a claim's state from the managers gives.
pub open spec fn current_claim_state_outcome(
    s: SpendManagerView,
    b: BudgetStateView,
    claim: SpendExecutorClaimRecord,
    idempotent_replay: bool,
    r: Result<ExecutorClaimState, ExecutorClaimServiceError>,
) -> bool {
    match s.token(claim.spend_auth_token_id) {
        None => r matches Err(ExecutorClaimServiceError::MissingClaimToken),
        Some(token) => match b.hold_for_decision(token.spend_decision_id) {
            None => r matches Err(ExecutorClaimServiceError::MissingClaimBudgetHold),
            Some(hold) => match b.balance(hold.budget_id) {
                None => r matches Err(ExecutorClaimServiceError::MissingClaimBudgetBalance),
                Some(balance) => claim_state_outcome(s, claim, validated(token), hold, balance, None, idempotent_replay, r),
            },
        },
    }
}

/// The claims among `claims` whose lease ended at or before `now` while
/// still claimed, in order.
pub open spec fn reconciliation_due(claims: Seq<SpendExecutorClaimRecord>, now: i64) -> Seq<SpendExecutorClaimRecord>
    decreases claims.len(),
{
    if claims.len() == 0 {
        Seq::empty()
    } else {
        let rest = reconciliation_due(claims.drop_last(), now);
        let c = claims.last();
        if c.status == SpendExecutorClaimStatus::Claimed && c.expires_at <= now {
            rest.push(c)
        } else {
            rest
        }
    }
}

impl ExecutorClaimService {
    /// Assemble a claim's state from its records, checking that the token,
    /// decision and hold all belong to it.
    pub fn claim_state_from_records(
        &self,
        claim: SpendExecutorClaimRecord,
        authorization: ValidatedSpendAuthorization,
        budget_hold: BudgetHold,
        budget_balance: BudgetBalance,
        settlement_receipt: Option<PersistedSpendExecutorSettlementReceipt>,
        idempotent_replay: bool,
        spend_manager: &SpendManager,
    ) -> (r: Result<ExecutorClaimState, ExecutorClaimServiceError>)
        ensures
            claim_state_outcome(spend_manager@, claim, authorization, budget_hold, budget_balance, settlement_receipt, idempotent_replay, r),
    {
        let token = match spend_manager.auth_token_record(&claim.spend_auth_token_id) {
            Some(t) => t,
            None => return Err(ExecutorClaimServiceError::MissingClaimToken),
        };
        let decision = match spend_manager.decision_record(&token.spend_decision_id) {
            Some(d) => d,
            None => return Err(ExecutorClaimServiceError::MissingClaimDecision),
        };
        if decision.owner_user_id != claim.owner_user_id || token.owner_user_id != claim.owner_user_id {
            return Err(ExecutorClaimServiceError::ClaimOwnerMismatch);
        }
        let hold_claimed_by_this = match budget_hold.executor_claim_id {
            Some(id) => id == claim.id,
            None => false,
        };
        if budget_hold.spend_decision_id != decision.id || !hold_claimed_by_this {
            return Err(ExecutorClaimServiceError::ClaimBudgetHoldMismatch);
        }
        Ok(ExecutorClaimState {
            claim,
            decision,
            token,
            authorization,
            budget_hold,
            budget_balance,
            settlement_receipt,
            idempotent_replay,
        })
    }

    /// Read a claim's state from the managers.
    pub fn claim_state(
        &self,
        claim: SpendExecutorClaimRecord,
        idempotent_replay: bool,
        spend_manager: &SpendManager,
        budget_manager: &BudgetManager,
    ) -> (r: Result<ExecutorClaimState, ExecutorClaimServiceError>)
        requires
            budget_manager.wf(),
        ensures
            current_claim_state_outcome(spend_manager@, budget_manager@, claim, idempotent_replay, r),
    {
        let token = match spend_manager.auth_token_record(&claim.spend_auth_token_id) {
            Some(t) => t,
            None => return Err(ExecutorClaimServiceError::MissingClaimToken),
        };
        let hold = match budget_manager.get_budget_hold_by_spend_decision(&token.spend_decision_id) {
            Some(h) => h,
            None => return Err(ExecutorClaimServiceError::MissingClaimBudgetHold),
        };
        let balance = match budget_manager.get_budget_balance(&hold.budget_id) {
            Some(b) => b,
            None => return Err(ExecutorClaimServiceError::MissingClaimBudgetBalance),
        };
        let authorization = ValidatedSpendAuthorization {
            spend_auth_token_id: token.id,
            owner_user_id: token.owner_user_id,
            spend_decision_id: token.spend_decision_id,
            expires_at: token.expires_at,
        };
        self.claim_state_from_records(claim, authorization, hold, balance, None, idempotent_replay, spend_manager)
    }

    /// The state of one of `owner_user_id`'s claims.
    pub fn get(
        &self,
        claim_id: &SpendExecutorClaimId,
        owner_user_id: &UserId,
        spend_manager: &SpendManager,
        budget_manager: &BudgetManager,
    ) -> (r: Result<ExecutorClaimState, ExecutorClaimServiceError>)
        requires
            budget_manager.wf(),
        ensures
            match spend_manager@.claim(*claim_id) {
                Some(claim) => if claim.owner_user_id == *owner_user_id {
                    current_claim_state_outcome(spend_manager@, budget_manager@, claim, false, r)
                } else {
                    r matches Err(ExecutorClaimServiceError::UnknownExecutorClaim)
                },
                None => r matches Err(ExecutorClaimServiceError::UnknownExecutorClaim),
            },
    {
        let claim = match spend_manager.executor_claim_record(claim_id) {
            Some(c) => c,
            None => return Err(ExecutorClaimServiceError::UnknownExecutorClaim),
        };
        if claim.owner_user_id != *owner_user_id {
            return Err(ExecutorClaimServiceError::UnknownExecutorClaim);
        }
        self.claim_state(claim, false, spend_manager, budget_manager)
    }

    /// The states of `owner_user_id`'s claims whose lease ended at or
    /// before `now` while still claimed, ordered by expiry and then id.
    pub fn list_requiring_reconciliation(
        &self,
        owner_user_id: &UserId,
        now: i64,
        spend_manager: &SpendManager,
        budget_manager: &BudgetManager,
    ) -> (r: Result<Vec<ExecutorClaimState>, ExecutorClaimServiceError>)
        requires
            budget_manager.wf(),
        ensures
            exists|all: Seq<SpendExecutorClaimRecord>| {
                &&& #[trigger] all.to_multiset() == owner_claims(spend_manager@.claims, spend_manager@.claims.len() as int, *owner_user_id).to_multiset()
                &&& sorted_by(all, claim_order())
                &&& match r {
                    Ok(states) => states@.len() == reconciliation_due(all, now).len()
                        && forall|k: int| 0 <= k < states@.len() ==> current_claim_state_outcome(
                            spend_manager@, budget_manager@, reconciliation_due(all, now)[k], false,
                            Ok::<ExecutorClaimState, ExecutorClaimServiceError>(#[trigger] states@[k])),
                    Err(e) => exists|k: int| 0 <= k < reconciliation_due(all, now).len()
                        && current_claim_state_outcome(spend_manager@, budget_manager@, #[trigger] reconciliation_due(all, now)[k], false,
                            Err::<ExecutorClaimState, ExecutorClaimServiceError>(e)),
                }
            },
    {
        let claims = spend_manager.executor_claim_records_for_owner(owner_user_id);
        let ghost all = claims@;
        let mut out: Vec<ExecutorClaimState> = Vec::new();
        let mut i: usize = 0;
        while i < claims.len()
            invariant
                budget_manager.wf(),
                claims@ == all,
                all.to_multiset() == owner_claims(spend_manager@.claims, spend_manager@.claims.len() as int, *owner_user_id).to_multiset(),
                sorted_by(all, claim_order()),
                i <= claims.len(),
                out@.len() == reconciliation_due(all.take(i as int), now).len(),
                forall|k: int| 0 <= k < out@.len() ==> current_claim_state_outcome(
                    spend_manager@, budget_manager@, reconciliation_due(all.take(i as int), now)[k], false,
                    Ok::<ExecutorClaimState, ExecutorClaimServiceError>(#[trigger] out@[k])),
            decreases claims.len() - i,
        {
            proof {
                assert(all.take(i + 1).drop_last() =~= all.take(i as int));
            }
            let c = &claims[i];
            if c.status == SpendExecutorClaimStatus::Claimed && c.expires_at <= now {
                let cc = c.clone();
                let ghost cv = cc;
                let state = self.claim_state(cc, false, spend_manager, budget_manager);
                match state {
                    Ok(st) => out.push(st),
                    Err(e) => {
                        proof {
                            lemma_due_prefix(all, now, i as int);
                            let k = reconciliation_due(all.take(i as int), now).len() as int;
                            assert(reconciliation_due(all.take(i + 1), now)[k] == all[i as int]);
                            assert(reconciliation_due(all, now)[k] == all[i as int]);
                            assert(cv == all[i as int]);
                            assert(current_claim_state_outcome(spend_manager@, budget_manager@, reconciliation_due(all, now)[k], false,
                                Err::<ExecutorClaimState, ExecutorClaimServiceError>(e)));
                            assert(claims@.to_multiset() == owner_claims(spend_manager@.claims, spend_manager@.claims.len() as int, *owner_user_id).to_multiset());
                        }
                        return Err(e);
                    },
                }
            }
            i = i + 1;
        }
        assert(all.take(claims.len() as int) =~= all);
        Ok(out)
    }
}

/// The due claims of a prefix are a prefix of the due claims.
proof fn lemma_due_prefix(all: Seq<SpendExecutorClaimRecord>, now: i64, i: int)
    requires
        0 <= i < all.len(),
    ensures
        reconciliation_due(all.take(i + 1), now).len() <= reconciliation_due(all, now).len(),
        forall|k: int| 0 <= k < reconciliation_due(all.take(i + 1), now).len()
            ==> #[trigger] reconciliation_due(all, now)[k] == reconciliation_due(all.take(i + 1), now)[k],
    decreases all.len() - i,
{
    if i + 1 == all.len() {
        assert(all.take(i + 1) =~= all);
    } else {
        lemma_due_prefix(all, now, i + 1);
        assert(all.take(i + 2).drop_last() =~= all.take(i + 1));
    }
}


/// The evidence a reconciliation records: the provider reference and the
/// evidence, each trimmed.
#[derive(Debug)]
pub struct ReconciliationEvidence {
    pub provider_reference: String,
    pub evidence: String,
}

impl ExecutorClaimService {
    /// Check a reconciliation request: a non-blank provider reference and
    /// evidence, and a receipt exactly when the vendor billed.
    pub fn check_reconciliation(&self, request: &ReconcileExecutorClaimRequest) -> (r: Result<ReconciliationEvidence, ExecutorClaimServiceError>)
        ensures
            is_blank(request.provider_reference@) ==> r matches Err(ExecutorClaimServiceError::EmptyProviderReference),
            !is_blank(request.provider_reference@) && is_blank(request.evidence@)
                ==> r matches Err(ExecutorClaimServiceError::EmptyReconciliationEvidence),
            !is_blank(request.provider_reference@) && !is_blank(request.evidence@) ==> match request.outcome {
                ExecutorClaimReconciliationOutcome::VendorBilled => if request.receipt is None {
                    r matches Err(ExecutorClaimServiceError::MissingSettlementReceipt)
                } else {
                    r matches Ok(e) && e.provider_reference@ == trim(request.provider_reference@) && e.evidence@ == trim(request.evidence@)
                },
                ExecutorClaimReconciliationOutcome::VendorDidNotBill => if request.receipt is Some {
                    r matches Err(ExecutorClaimServiceError::UnexpectedSettlementReceipt)
                } else {
                    r matches Ok(e) && e.provider_reference@ == trim(request.provider_reference@) && e.evidence@ == trim(request.evidence@)
                },
            },
    {
        if str_is_blank(request.provider_reference.as_str()) {
            return Err(ExecutorClaimServiceError::EmptyProviderReference);
        }
        if str_is_blank(request.evidence.as_str()) {
            return Err(ExecutorClaimServiceError::EmptyReconciliationEvidence);
        }
        match request.outcome {
            ExecutorClaimReconciliationOutcome::VendorBilled => {
                if request.receipt.is_none() {
                    return Err(ExecutorClaimServiceError::MissingSettlementReceipt);
                }
            },
            ExecutorClaimReconciliationOutcome::VendorDidNotBill => {
                if request.receipt.is_some() {
                    return Err(ExecutorClaimServiceError::UnexpectedSettlementReceipt);
                }
            },
        }
        Ok(ReconciliationEvidence {
            provider_reference: trim_str(request.provider_reference.as_str()),
            evidence: trim_str(request.evidence.as_str()),
        })
    }

    /// Publish a finalization that storage committed and read back the
    /// claim's state.
    pub fn apply_finalization(
        &self,
        finalization: ExecutorFinalizationResult,
        spend_manager: &mut SpendManager,
        budget_manager: &mut BudgetManager,
    ) -> (r: Result<ExecutorClaimState, ExecutorClaimServiceError>)
        requires
            old(budget_manager).wf(),
        ensures
            final(spend_manager)@ == (SpendManagerView {
                tokens: old(spend_manager)@.tokens.push(finalization.token),
                claims: old(spend_manager)@.claims.push(finalization.claim),
                ..old(spend_manager)@
            }),
            final(budget_manager)@.hold(finalization.hold.id) == Some(finalization.hold),
            final(budget_manager)@.balance(finalization.hold.budget_id)
                == Some(BudgetBalance { budget_id: finalization.hold.budget_id, ..finalization.balance }),
            claim_state_outcome(final(spend_manager)@, finalization.claim, validated(finalization.token), finalization.hold,
                finalization.balance, finalization.receipt, finalization.idempotent_replay, r),
    {
        spend_manager.apply_persisted_executor_finalization(finalization.claim.clone(), finalization.token);
        budget_manager.apply_persisted_finalization(finalization.hold, finalization.balance);
        let token = finalization.token;
        let authorization = ValidatedSpendAuthorization {
            spend_auth_token_id: token.id,
            owner_user_id: token.owner_user_id,
            spend_decision_id: token.spend_decision_id,
            expires_at: token.expires_at,
        };
        self.claim_state_from_records(
            finalization.claim,
            authorization,
            finalization.hold,
            finalization.balance,
            finalization.receipt,
            finalization.idempotent_replay,
            spend_manager,
        )
    }

    /// Claim a spend authorization for one executor at `now`, naming a new
    /// claim `claim_id`: the authorization's frozen hold becomes claimed for
    /// the claim's lease. A repeat of an existing claim returns its state.
    pub fn claim_at(
        &self,
        request: ClaimExecutorSpendRequest,
        claim_id: SpendExecutorClaimId,
        now: i64,
        spend_manager: &mut SpendManager,
        budget_manager: &mut BudgetManager,
    ) -> (r: Result<ExecutorClaimState, ExecutorClaimServiceError>)
        requires
            old(spend_manager).wf(),
            old(budget_manager).wf(),
        ensures
            final(spend_manager).wf(),
            final(budget_manager).wf(),
            trim(request.operation_key@).len() == 0 ==> (r matches Err(ExecutorClaimServiceError::EmptyOperationKey)
                && final(spend_manager)@ == old(spend_manager)@ && final(budget_manager)@ == old(budget_manager)@),
            trim(request.operation_key@).len() > 0 ==> exists|v: Result<(ValidatedSpendAuthorization, Option<SpendExecutorClaimRecord>), SpendError>|
                #[trigger] executor_claim_validation_outcome(old(spend_manager)@, request.authorization, trim(request.operation_key@), now, v)
                && match v {
                    Err(e) => r matches Err(ExecutorClaimServiceError::Spend(e2)) && e2 == e
                        && final(spend_manager)@ == old(spend_manager)@ && final(budget_manager)@ == old(budget_manager)@,
                    Ok((pre, existing)) => match old(budget_manager)@.hold_for_decision(pre.spend_decision_id) {
                        None => r matches Err(ExecutorClaimServiceError::MissingBudgetHold)
                            && final(spend_manager)@ == old(spend_manager)@ && final(budget_manager)@ == old(budget_manager)@,
                        Some(hold) => if existing is None && hold.status != BudgetHoldStatus::Frozen {
                            r matches Err(ExecutorClaimServiceError::BudgetHoldNotFrozen)
                                && final(spend_manager)@ == old(spend_manager)@ && final(budget_manager)@ == old(budget_manager)@
                        } else if (existing matches Some(ex) && hold.executor_claim_id != Some(ex.id)) {
                            r matches Err(ExecutorClaimServiceError::ExistingClaimBudgetHoldMismatch)
                                && final(spend_manager)@ == old(spend_manager)@ && final(budget_manager)@ == old(budget_manager)@
                        } else if !(old(budget_manager)@.budget(hold.budget_id) matches Some(b) && b.agent_id == request.authorization.agent_id) {
                            r matches Err(ExecutorClaimServiceError::BudgetHoldAgentMismatch)
                                && final(spend_manager)@ == old(spend_manager)@ && final(budget_manager)@ == old(budget_manager)@
                        } else {
                            exists|k: String, c: Result<(SpendExecutorClaimRecord, ValidatedSpendAuthorization), SpendError>, s1: SpendManagerView|
                                k@ == trim(request.operation_key@)
                                && #[trigger] claim_outcome(old(spend_manager)@,
                                    (SpendExecutorClaimRequest { authorization: request.authorization, operation_key: k }),
                                    claim_id, now, c, s1)
                                && final(spend_manager)@ == s1
                                && match c {
                                    Err(e) => r matches Err(ExecutorClaimServiceError::Spend(e2)) && e2 == e
                                        && final(budget_manager)@ == old(budget_manager)@,
                                    Ok((claim, a)) => if a.spend_decision_id != pre.spend_decision_id {
                                        r matches Err(ExecutorClaimServiceError::ClaimDecisionMismatch)
                                            && final(budget_manager)@ == old(budget_manager)@
                                    } else if existing is Some {
                                        &&& final(budget_manager)@ == old(budget_manager)@
                                        &&& match old(budget_manager)@.balance(hold.budget_id) {
                                            None => r matches Err(ExecutorClaimServiceError::MissingBudgetBalance),
                                            Some(balance) => claim_state_outcome(s1, claim, a, hold, balance, None, true, r),
                                        }
                                    } else {
                                        exists|cb: Result<ReserveBudgetResponse, BudgetManagerError>|
                                            #[trigger] spec_claim_outcome(old(budget_manager)@, hold.id, claim.id, claim.expires_at, now,
                                                cb, final(budget_manager)@)
                                            && match cb {
                                                Err(e) => r matches Err(ExecutorClaimServiceError::Budget(e2)) && e2 == e,
                                                Ok(resp) => claim_state_outcome(s1, claim, a, resp.hold, resp.balance, None, false, r),
                                            }
                                    },
                                }
                        },
                    },
                },
    {
        let operation_key = trim_str(request.operation_key.as_str());
        if operation_key.as_str().unicode_len() == 0 {
            return Err(ExecutorClaimServiceError::EmptyOperationKey);
        }
        let validation = spend_manager.validate_auth_token_for_executor_claim_at(
            &request.authorization,
            operation_key.as_str(),
            now,
        );
        let ghost v = validation;
        let ghost s0 = spend_manager@;
        let ghost b0 = budget_manager@;
        let (prevalidated, existing) = match validation {
            Ok(v) => v,
            Err(e) => return Err(ExecutorClaimServiceError::Spend(e)),
        };
        let hold = match budget_manager.get_budget_hold_by_spend_decision(&prevalidated.spend_decision_id) {
            Some(h) => h,
            None => return Err(ExecutorClaimServiceError::MissingBudgetHold),
        };
        match &existing {
            None => {
                if hold.status != BudgetHoldStatus::Frozen {
                    return Err(ExecutorClaimServiceError::BudgetHoldNotFrozen);
                }
            },
            Some(ex) => {
                let matches_claim = match hold.executor_claim_id {
                    Some(id) => id == ex.id,
                    None => false,
                };
                if !matches_claim {
                    return Err(ExecutorClaimServiceError::ExistingClaimBudgetHoldMismatch);
                }
            },
        }
        let agent_matches = match budget_manager.get_budget_by_id(&hold.budget_id) {
            Some(b) => b.budget.agent_id == request.authorization.agent_id,
            None => false,
        };
        if !agent_matches {
            return Err(ExecutorClaimServiceError::BudgetHoldAgentMismatch);
        }
        let idempotent_replay = existing.is_some();
        proof {
            assert(executor_claim_validation_outcome(s0, request.authorization, trim(request.operation_key@), now, v));
            assert(b0.hold_for_decision(prevalidated.spend_decision_id) == Some(hold));
        }
        let claim_request = SpendExecutorClaimRequest { authorization: request.authorization, operation_key };
        let ghost claim_request_copy = claim_request;
        let c = spend_manager.claim_auth_token_at(claim_request, claim_id, now);
        let ghost s1 = spend_manager@;
        assert(claim_outcome(s0, claim_request_copy, claim_id, now, c, s1));
        let (claim, authorization) = match c {
            Ok(pair) => pair,
            Err(e) => return Err(ExecutorClaimServiceError::Spend(e)),
        };
        if authorization.spend_decision_id != prevalidated.spend_decision_id {
            return Err(ExecutorClaimServiceError::ClaimDecisionMismatch);
        }
        let (claimed_hold, claimed_balance) = if idempotent_replay {
            match budget_manager.get_budget_balance(&hold.budget_id) {
                Some(balance) => (hold, balance),
                None => return Err(ExecutorClaimServiceError::MissingBudgetBalance),
            }
        } else {
            let cb = budget_manager.claim_budget_at(&hold.id, claim.id, claim.expires_at, now);
            assert(spec_claim_outcome(b0, hold.id, claim.id, claim.expires_at, now, cb, budget_manager@));
            match cb {
                Ok(resp) => (resp.hold, resp.balance),
                Err(e) => return Err(ExecutorClaimServiceError::Budget(e)),
            }
        };
        self.claim_state_from_records(claim, authorization, claimed_hold, claimed_balance, None, idempotent_replay, spend_manager)
    }
}

/// A finalization is final. Planning it again from the records it gave, at
/// any later time, under any new settlement id and with any receipt,
/// recognizes the replay and gives those records back unchanged, so the
/// hold is charged or given back once; planning the opposite finalization is
/// refused.
pub proof fn lemma_finalization_is_idempotent(
    owner_user_id: UserId,
    locator: ExecutorClaimLocator,
    action: ExecutorFinalizationAction,
    authority: ExecutorFinalizationAuthority,
    started_at: i64,
    claim: SpendExecutorClaimRecord,
    token: SpendAuthTokenRecord,
    hold: BudgetHold,
    balance: BudgetBalance,
    receipt: Option<SpendExecutorSettlementReceipt>,
    result: ExecutorFinalizationResult,
    retry: ExecutorFinalizationAction,
    retry_receipt: Option<SpendExecutorSettlementReceipt>,
    retried_at: i64,
    r: Result<ExecutorFinalizationResult, StorageError>,
)
    requires
        finalization_outcome(owner_user_id, locator, action, authority, started_at, Some(claim), Some(token),
            Some(hold), Some(balance), receipt, Ok(result)),
        finalization_outcome(owner_user_id, locator, retry, authority, retried_at, Some(result.claim),
            Some(result.token), Some(result.hold), Some(result.balance), retry_receipt, r),
    ensures
        (retry is Settle) == (action is Settle) ==> r == Ok::<ExecutorFinalizationResult, StorageError>(
            ExecutorFinalizationResult {
                claim: result.claim,
                token: result.token,
                hold: result.hold,
                balance: result.balance,
                idempotent_replay: true,
                receipt: None,
            },
        ),
        action is Release && retry is Settle ==> invalid(r, "executor claim has already been released"@),
        action is Settle && retry is Release ==> invalid(r, "executor claim has already been settled"@),
{
}

} // verus!
