//! The checks and derivations of provider accounting: whether a settlement's
//! stored evidence agrees with itself, what a ledger entry can say of the
//! provider, merchant and purpose, how a correction moves a budget's
//! balance, and how much of a budget's consumption the ledger covers.
use vstd::prelude::*;

use crate::budget::model::{BudgetBalance, BudgetHold};
use crate::common::UserId;
use crate::crypto::{hex_encode, hex_lower, sha256, sha256_digest};
use crate::format::{uuid_string, uuid_text};
use crate::spend::model::{
    charge_cents, PersistedSpendExecutorSettlementReceipt, SpendExecutorClaimRecord, SpendRequest,
};
use crate::text::{chars_of, is_blank, push_str, str_eq, str_is_blank, string_from_chars};
use vstd::utf8::encode_utf8;

verus! {

pub const EVIDENCE_MISMATCH: &'static str = "provider accounting evidence does not match settlement";

pub const ADJUSTMENT_FIELDS_REQUIRED: &'static str = "adjustment requires operation key, reason and evidence";

pub const LEGACY_PROVIDER_ID: &'static str = "provider:legacy:unresolved";

/// The string that the JSON text `text` holds under `field` of its top-level
/// object, as `serde_json` reads it.
pub uninterp spec fn json_string_field(text: Seq<char>, field: Seq<char>) -> Option<Seq<char>>;

/// The string under `field` of the JSON object in `text`.
///
/// Parses `text` with `serde_json::from_str` into a `serde_json::Value` and
/// takes the field when the value is an object whose field is a string.
/// The contract names the result; it states nothing of JSON syntax.
#[verifier::external_body]
fn string_field_of_json(text: &str, field: &str) -> (r: Option<String>)
    ensures
        match r {
            Some(s) => json_string_field(text@, field@) == Some(s@),
            None => json_string_field(text@, field@) is None,
        },
{
    match serde_json::from_str::<serde_json::Value>(text) {
        Ok(serde_json::Value::Object(mut map)) => match map.remove(field) {
            Some(serde_json::Value::String(s)) => Some(s),
            _ => None,
        },
        _ => None,
    }
}

/// What a ledger entry of a provider settlement says beyond its amounts.
#[derive(Debug)]
pub struct SettlementEvidence {
    pub provider: Option<String>,
    pub billing_merchant: Option<String>,
    pub purpose: Option<String>,
    /// The names of the facts that the stored records do not give.
    pub missing_evidence: Vec<&'static str>,
}

/// The stored records of a settlement disagree before the charge is
/// recomputed.
pub open spec fn settlement_records_disagree(
    request: SpendRequest,
    claim: SpendExecutorClaimRecord,
    hold: BudgetHold,
    receipt: PersistedSpendExecutorSettlementReceipt,
) -> bool {
    ||| request.owner_user_id != claim.owner_user_id
    ||| request.agent_id != claim.agent_id
    ||| receipt.authorized_max_cents != hold.amount_cents
    ||| receipt.claim_id != claim.id
    ||| receipt.currency != hold.currency
    ||| receipt.receipt.actual_vendor_cost.currency != hold.currency
}

/// The charge of the receipt's exact cost can be computed: a non-negative
/// amount, a scale of at most 18, and cents that fit an `i64`.
pub open spec fn charge_computable(receipt: PersistedSpendExecutorSettlementReceipt) -> bool {
    let cost = receipt.receipt.actual_vendor_cost;
    cost.amount >= 0 && cost.scale <= 18 && charge_cents(cost.amount as int, cost.scale as nat) <= i64::MAX
}

/// The provider named by the request's scope, unless it is the legacy
/// placeholder; otherwise the provider of the receipt's price model.
pub open spec fn settlement_provider(request: SpendRequest, receipt: PersistedSpendExecutorSettlementReceipt) -> Option<
    Seq<char>,
> {
    match request.execution_scope {
        Some(scope) if scope.provider.id@ != LEGACY_PROVIDER_ID@ => Some(scope.provider.id@),
        _ => json_string_field(receipt.receipt.price_model_snapshot@, "provider"@),
    }
}

/// The billing merchant of the request's scope, else its merchant.
pub open spec fn settlement_merchant(request: SpendRequest) -> Option<Seq<char>> {
    match request.execution_scope {
        Some(scope) => Some(scope.billing_merchant.id@),
        None => match request.merchant {
            Some(m) => Some(m@),
            None => None,
        },
    }
}

/// The request's reason, unless it is blank.
pub open spec fn settlement_purpose(request: SpendRequest) -> Option<Seq<char>> {
    if is_blank(request.reason@) {
        None
    } else {
        Some(request.reason@)
    }
}

pub open spec fn opt_view(s: Option<String>) -> Option<Seq<char>> {
    match s {
        Some(x) => Some(x@),
        None => None,
    }
}

pub open spec fn missing_names(provider: bool, merchant: bool, purpose: bool) -> Seq<Seq<char>> {
    (if provider { seq!["provider"@] } else { Seq::empty() }) + (if merchant {
        seq!["billing_merchant"@]
    } else {
        Seq::empty()
    }) + (if purpose { seq!["purpose"@] } else { Seq::empty() })
}

/// The accounting evidence of a settled claim, from the spend request it was
/// authorized for, its budget hold and its stored receipt.
///
/// Refused when the records disagree, when the receipt's cost cannot be
/// charged in cents, or when the stored charge is not the charge of the
/// cost.
pub fn settlement_evidence(
    request: &SpendRequest,
    claim: &SpendExecutorClaimRecord,
    hold: &BudgetHold,
    receipt: &PersistedSpendExecutorSettlementReceipt,
) -> (r: Result<SettlementEvidence, &'static str>)
    ensures
        settlement_records_disagree(*request, *claim, *hold, *receipt) ==> (r matches Err(m) && m@ == EVIDENCE_MISMATCH@),
        !settlement_records_disagree(*request, *claim, *hold, *receipt) && !charge_computable(*receipt) ==> ({
            let cost = receipt.receipt.actual_vendor_cost;
            r matches Err(m) && m@ == (if cost.amount < 0 {
                "actual vendor cost cannot be negative"@
            } else if cost.scale > 18 {
                "actual vendor cost scale cannot exceed 18"@
            } else {
                "actual vendor cost cannot be represented in budget cents"@
            })
        }),
        !settlement_records_disagree(*request, *claim, *hold, *receipt) && charge_computable(*receipt) ==> {
            let cost = receipt.receipt.actual_vendor_cost;
            if receipt.budget_charge_cents != charge_cents(cost.amount as int, cost.scale as nat) {
                r matches Err(m) && m@ == EVIDENCE_MISMATCH@
            } else {
                r matches Ok(e) && opt_view(e.provider) == settlement_provider(*request, *receipt) && opt_view(
                    e.billing_merchant,
                ) == settlement_merchant(*request) && opt_view(e.purpose) == settlement_purpose(*request)
                    && e.missing_evidence@.map_values(|n: &'static str| n@) == missing_names(
                    settlement_provider(*request, *receipt) is None,
                    settlement_merchant(*request) is None,
                    settlement_purpose(*request) is None,
                )
            }
        },
{
    if request.owner_user_id != claim.owner_user_id || request.agent_id != claim.agent_id || receipt.authorized_max_cents
        != hold.amount_cents || receipt.claim_id != claim.id || receipt.currency != hold.currency
        || receipt.receipt.actual_vendor_cost.currency != hold.currency {
        return Err(EVIDENCE_MISMATCH);
    }
    let charge = match receipt.receipt.actual_vendor_cost.conservative_budget_charge_cents() {
        Ok(c) => c,
        Err(m) => return Err(m),
    };
    if receipt.budget_charge_cents != charge {
        return Err(EVIDENCE_MISMATCH);
    }
    let scoped_provider = match &request.execution_scope {
        Some(scope) => if str_eq(scope.provider.id.as_str(), LEGACY_PROVIDER_ID) {
            None
        } else {
            Some(scope.provider.id.clone())
        },
        None => None,
    };
    let provider = match scoped_provider {
        Some(p) => Some(p),
        None => string_field_of_json(receipt.receipt.price_model_snapshot.as_str(), "provider"),
    };
    Ok(evidence_for_provider(request, provider))
}

/// The accounting evidence of a settlement whose provider is `provider`:
/// the request's billing merchant and purpose, and the names of the facts
/// that are missing.
pub fn evidence_for_provider(request: &SpendRequest, provider: Option<String>) -> (e: SettlementEvidence)
    ensures
        e.provider == provider,
        opt_view(e.billing_merchant) == settlement_merchant(*request),
        opt_view(e.purpose) == settlement_purpose(*request),
        e.missing_evidence@.map_values(|n: &'static str| n@) == missing_names(
            provider is None,
            settlement_merchant(*request) is None,
            settlement_purpose(*request) is None,
        ),
{
    let billing_merchant = match &request.execution_scope {
        Some(scope) => Some(scope.billing_merchant.id.clone()),
        None => match &request.merchant {
            Some(m) => Some(m.clone()),
            None => None,
        },
    };
    let purpose = if str_is_blank(request.reason.as_str()) {
        None
    } else {
        Some(request.reason.clone())
    };
    let mut missing_evidence: Vec<&'static str> = Vec::new();
    if provider.is_none() {
        missing_evidence.push("provider");
    }
    if billing_merchant.is_none() {
        missing_evidence.push("billing_merchant");
    }
    if purpose.is_none() {
        missing_evidence.push("purpose");
    }
    proof {
        assert(missing_evidence@.map_values(|n: &'static str| n@) =~= missing_names(
            provider is None,
            billing_merchant is None,
            purpose is None,
        ));
    }
    SettlementEvidence { provider, billing_merchant, purpose, missing_evidence }
}

/// The source key of a correction: the owner and the SHA-256 of the
/// operation key in lowercase hexadecimal.
pub open spec fn adjustment_source_key_text(owner: UserId, operation_key: Seq<char>) -> Seq<char> {
    source_key_of_digest(owner, sha256_digest(encode_utf8(operation_key)))
}

/// The source key of a correction whose operation key has SHA-256 `sha`.
pub open spec fn source_key_of_digest(owner: UserId, sha: Seq<u8>) -> Seq<char> {
    "adjustment:"@ + uuid_text(owner.0) + ":"@ + hex_lower(sha)
}

/// The ledger source key under which a correction of `operation_key` is
/// recorded once.
pub fn adjustment_source_key(owner: &UserId, operation_key: &str) -> (k: String)
    ensures
        k@ == adjustment_source_key_text(*owner, operation_key@),
{
    let digest = sha256(operation_key.as_bytes());
    adjustment_source_key_of_digest(owner, digest.as_slice())
}

/// The source key of a correction of an operation key whose SHA-256 is
/// `digest`.
pub fn adjustment_source_key_of_digest(owner: &UserId, digest: &[u8]) -> (k: String)
    requires
        digest@.len() < 0x4000_0000,
    ensures
        k@ == source_key_of_digest(*owner, digest@),
{
    let hex = hex_encode(digest);
    let owner_text = uuid_string(owner.0);
    let mut out: Vec<char> = chars_of("adjustment:");
    push_str(&mut out, owner_text.as_str());
    push_str(&mut out, ":");
    let ghost start = out@;
    let mut i: usize = 0;
    while i < hex.len()
        invariant
            i <= hex.len(),
            out@ == start + hex@.take(i as int),
        decreases hex.len() - i,
    {
        out.push(hex[i]);
        proof {
            assert(hex@.take(i + 1) =~= hex@.take(i as int).push(hex@[i as int]));
        }
        i = i + 1;
    }
    assert(hex@.take(hex.len() as int) =~= hex@);
    assert(out@ =~= source_key_of_digest(*owner, digest@));
    string_from_chars(out.as_slice())
}

/// A correction names its operation, its reason and its evidence.
pub fn validate_adjustment_fields(operation_key: &str, reason: &str, evidence: &str) -> (r: Result<(), &'static str>)
    ensures
        (is_blank(operation_key@) || is_blank(reason@) || is_blank(evidence@)) ==> (r matches Err(m) && m@
            == ADJUSTMENT_FIELDS_REQUIRED@),
        !(is_blank(operation_key@) || is_blank(reason@) || is_blank(evidence@)) ==> r is Ok,
{
    if str_is_blank(operation_key) || str_is_blank(reason) || str_is_blank(evidence) {
        Err(ADJUSTMENT_FIELDS_REQUIRED)
    } else {
        Ok(())
    }
}

/// The consumed and remaining amounts of a budget after a correction moves
/// `amount` cents of consumption. Refused when consumption would become
/// negative or an amount would leave the `i64` range.
pub fn adjusted_budget_amounts(balance: &BudgetBalance, amount: i64) -> (r: Result<(i64, i64), &'static str>)
    ensures
        ({
            let consumed = balance.consumed_amount_cents + amount;
            let remaining = balance.remaining_amount_cents - amount;
            if consumed > i64::MAX || consumed < 0 {
                r matches Err(m) && m@ == "invalid adjusted consumption"@
            } else if remaining < i64::MIN || remaining > i64::MAX {
                r matches Err(m) && m@ == "adjustment balance overflow"@
            } else {
                r == Ok::<(i64, i64), &'static str>((consumed as i64, remaining as i64))
            }
        }),
{
    let consumed = match balance.consumed_amount_cents.checked_add(amount) {
        Some(c) if c >= 0 => c,
        _ => return Err("invalid adjusted consumption"),
    };
    let remaining = match balance.remaining_amount_cents.checked_sub(amount) {
        Some(r) => r,
        None => return Err("adjustment balance overflow"),
    };
    Ok((consumed, remaining))
}

pub open spec fn sum_charges(charges: Seq<i64>) -> int
    decreases charges.len(),
{
    if charges.len() == 0 {
        0
    } else {
        sum_charges(charges.drop_last()) + charges.last()
    }
}

/// The budget charges that the ledger records for a budget, and the part of
/// its consumption that no recorded charge covers.
pub fn ledger_coverage(consumed_amount_cents: i64, charges: &Vec<i64>) -> (r: Result<(i64, i64), &'static str>)
    requires
        charges.len() < 0x1_0000_0000,
    ensures
        ({
            let total = sum_charges(charges@);
            if total < i64::MIN || total > i64::MAX {
                r matches Err(m) && m@ == "charge total overflow"@
            } else if consumed_amount_cents - total < i64::MIN || consumed_amount_cents - total > i64::MAX {
                r matches Err(m) && m@ == "coverage difference overflow"@
            } else {
                r == Ok::<(i64, i64), &'static str>((total as i64, (consumed_amount_cents - total) as i64))
            }
        }),
{
    let mut total: i128 = 0;
    let mut i: usize = 0;
    while i < charges.len()
        invariant
            charges.len() < 0x1_0000_0000,
            i <= charges.len(),
            total == sum_charges(charges@.take(i as int)),
            -0x8000_0000_0000_0000 * (i as int) <= total <= 0x7fff_ffff_ffff_ffff * (i as int),
        decreases charges.len() - i,
    {
        proof {
            assert(charges@.take(i + 1).drop_last() =~= charges@.take(i as int));
        }
        total = total + charges[i] as i128;
        i = i + 1;
    }
    assert(charges@.take(charges.len() as int) =~= charges@);
    if total < i64::MIN as i128 || total > i64::MAX as i128 {
        return Err("charge total overflow");
    }
    let total = total as i64;
    match consumed_amount_cents.checked_sub(total) {
        Some(d) => Ok((total, d)),
        None => Err("coverage difference overflow"),
    }
}

} // verus!
