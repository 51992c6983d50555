use hubu_core::accounting::{
    adjusted_budget_amounts, adjustment_source_key, adjustment_source_key_of_digest, evidence_for_provider,
    ledger_coverage, settlement_evidence, validate_adjustment_fields,
    ADJUSTMENT_FIELDS_REQUIRED, EVIDENCE_MISMATCH,
};
use hubu_core::budget::model::{BudgetBalance, BudgetHold, BudgetHoldStatus};
use hubu_core::common::{
    AgentAccountId, AgentId, BudgetHoldId, BudgetId, BudgetVersionId, Currency, PaymentId, SpendAuthTokenId,
    SpendDecisionId, SpendExecutorClaimId, UserId,
};
use hubu_core::executor_contract::{ExecutionScope, ScopeIdentity, EXECUTION_SCOPE_SCHEMA_VERSION};
use hubu_core::spend::model::{
    PersistedSpendExecutorSettlementReceipt, SpendExecutorClaimRecord, SpendExecutorClaimStatus,
    SpendExecutorSettlementReceipt, SpendExecutorVendorCost, SpendRequest,
};

struct Fixture {
    request: SpendRequest,
    claim: SpendExecutorClaimRecord,
    hold: BudgetHold,
    receipt: PersistedSpendExecutorSettlementReceipt,
}

fn fixture() -> Fixture {
    let owner = UserId(0x0000_0000_0000_4000_8000_0000_0000_0123);
    let agent = AgentId(7);
    let claim_id = SpendExecutorClaimId(9);
    let settlement = PaymentId(11);
    let request = SpendRequest {
        amount_cents: 500,
        currency: Currency::Usd,
        owner_user_id: owner,
        agent_id: agent,
        agent_account_id: AgentAccountId(8),
        merchant: Some("vendor.example".to_string()),
        execution_scope: None,
        category: None,
        task_id: None,
        reason: "Generate logo".to_string(),
        lease_profile: "default".to_string(),
    };
    let claim = SpendExecutorClaimRecord {
        id: claim_id,
        spend_auth_token_id: SpendAuthTokenId(3),
        owner_user_id: owner,
        agent_id: agent,
        operation_key: "job-1".to_string(),
        lease_profile: "default".to_string(),
        status: SpendExecutorClaimStatus::Settled,
        claimed_at: 1,
        expires_at: 2,
        finalized_at: Some(2),
        settlement_id: Some(settlement),
        provider_reference: None,
        reconciliation_evidence: None,
        reconciled_at: None,
        reconciled_by_user_id: None,
    };
    let hold = BudgetHold {
        id: BudgetHoldId(4),
        budget_id: BudgetId(5),
        budget_version_id: BudgetVersionId(6),
        spend_decision_id: SpendDecisionId(10),
        amount_cents: 500,
        currency: Currency::Usd,
        status: BudgetHoldStatus::Settled,
        executor_claim_id: Some(claim_id),
        created_at: 1,
        updated_at: 2,
        expires_at: 3,
    };
    let receipt = PersistedSpendExecutorSettlementReceipt {
        claim_id,
        settlement_id: settlement,
        authorized_max_cents: 500,
        budget_charge_cents: 2,
        released_amount_cents: 498,
        overrun_amount_cents: 0,
        currency: Currency::Usd,
        receipt: SpendExecutorSettlementReceipt {
            actual_vendor_cost: SpendExecutorVendorCost { amount: 17, scale: 3, currency: Currency::Usd },
            provider_request_id: "provider-request-17".to_string(),
            price_model_snapshot: r#"{"provider":"provider:openai","model":"image"}"#.to_string(),
            artifact_reference: "artifact://17".to_string(),
        },
        created_at: 2,
    };
    Fixture { request, claim, hold, receipt }
}

#[test]
fn settlement_evidence_takes_provider_from_the_price_model_without_a_scope() {
    let f = fixture();
    let evidence = settlement_evidence(&f.request, &f.claim, &f.hold, &f.receipt).unwrap();
    assert_eq!(evidence.provider.as_deref(), Some("provider:openai"));
    assert_eq!(evidence.billing_merchant.as_deref(), Some("vendor.example"));
    assert_eq!(evidence.purpose.as_deref(), Some("Generate logo"));
    assert!(evidence.missing_evidence.is_empty());
}

#[test]
fn settlement_evidence_prefers_the_scope_and_names_missing_facts() {
    let mut f = fixture();
    let identity = |id: &str| ScopeIdentity { id: id.to_string(), display_name: id.to_string() };
    f.request.execution_scope = Some(ExecutionScope {
        schema_version: EXECUTION_SCOPE_SCHEMA_VERSION,
        provider: identity("provider:google"),
        executor: identity("executor:gongbu:image"),
        capability: identity("capability:image:generate"),
        billing_merchant: identity("merchant:google"),
    });
    let evidence = settlement_evidence(&f.request, &f.claim, &f.hold, &f.receipt).unwrap();
    assert_eq!(evidence.provider.as_deref(), Some("provider:google"));
    assert_eq!(evidence.billing_merchant.as_deref(), Some("merchant:google"));

    let mut bare = fixture();
    bare.request.merchant = None;
    bare.request.reason = "  ".to_string();
    bare.receipt.receipt.price_model_snapshot = "not json".to_string();
    let evidence = settlement_evidence(&bare.request, &bare.claim, &bare.hold, &bare.receipt).unwrap();
    assert_eq!(evidence.provider, None);
    assert_eq!(evidence.missing_evidence, vec!["provider", "billing_merchant", "purpose"]);
}

#[test]
fn settlement_evidence_refuses_disagreeing_records_and_wrong_charges() {
    let mut f = fixture();
    f.receipt.authorized_max_cents = 499;
    assert_eq!(settlement_evidence(&f.request, &f.claim, &f.hold, &f.receipt).err(), Some(EVIDENCE_MISMATCH));

    let mut f = fixture();
    f.receipt.budget_charge_cents = 1;
    assert_eq!(settlement_evidence(&f.request, &f.claim, &f.hold, &f.receipt).err(), Some(EVIDENCE_MISMATCH));

    let mut f = fixture();
    f.receipt.receipt.actual_vendor_cost.amount = -1;
    assert_eq!(
        settlement_evidence(&f.request, &f.claim, &f.hold, &f.receipt).err(),
        Some("actual vendor cost cannot be negative")
    );
}

#[test]
fn adjustments_need_all_fields_and_keep_consumption_non_negative() {
    assert_eq!(validate_adjustment_fields("op", "reason", " "), Err(ADJUSTMENT_FIELDS_REQUIRED));
    assert_eq!(validate_adjustment_fields("op", "reason", "evidence"), Ok(()));
    let balance = BudgetBalance {
        budget_id: BudgetId(1),
        consumed_amount_cents: 10,
        frozen_amount_cents: 0,
        remaining_amount_cents: 90,
    };
    assert_eq!(adjusted_budget_amounts(&balance, 5), Ok((15, 85)));
    assert_eq!(adjusted_budget_amounts(&balance, -10), Ok((0, 100)));
    assert_eq!(adjusted_budget_amounts(&balance, -11), Err("invalid adjusted consumption"));
}

#[test]
fn adjustment_source_key_hashes_the_operation_key() {
    let key = adjustment_source_key(&UserId(0x0000_0000_0000_4000_8000_0000_0000_0123), "abc");
    assert_eq!(
        key,
        "adjustment:00000000-0000-4000-8000-000000000123:ba7816bf8f01cfea414140de5dae2223b00361a396177a9cb410ff61f20015ad"
    );
}

#[test]
fn ledger_coverage_reports_unaccounted_consumption() {
    assert_eq!(ledger_coverage(100, &vec![30, 20]), Ok((50, 50)));
    assert_eq!(ledger_coverage(0, &vec![]), Ok((0, 0)));
    assert_eq!(ledger_coverage(0, &vec![i64::MAX, 1]), Err("charge total overflow"));
    assert_eq!(ledger_coverage(i64::MIN, &vec![1]), Err("coverage difference overflow"));
}

#[test]
fn evidence_for_a_provider_names_only_the_missing_facts() {
    let mut f = fixture();
    let found = evidence_for_provider(&f.request, Some("provider:flux".to_string()));
    assert_eq!(found.provider.as_deref(), Some("provider:flux"));
    assert_eq!(found.billing_merchant.as_deref(), Some("vendor.example"));
    assert!(found.missing_evidence.is_empty());

    f.request.merchant = None;
    f.request.reason = "   ".to_string();
    let missing = evidence_for_provider(&f.request, None);
    assert_eq!(missing.provider, None);
    assert_eq!(missing.purpose, None);
    assert_eq!(missing.missing_evidence, vec!["provider", "billing_merchant", "purpose"]);
}

#[test]
fn adjustment_source_key_renders_the_digest_in_lowercase_hex() {
    let key = adjustment_source_key_of_digest(&UserId(0x0000_0000_0000_4000_8000_0000_0000_0123), &[0x00, 0xab, 0x0f]);
    assert_eq!(key, "adjustment:00000000-0000-4000-8000-000000000123:00ab0f");
}
