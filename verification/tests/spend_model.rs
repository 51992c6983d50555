use hubu_core::common::{AgentAccountId, AgentId, Currency, UserId};
use hubu_core::executor_contract::{ExecutionScope, ScopeIdentity, EXECUTION_SCOPE_SCHEMA_VERSION};
use hubu_core::spend::model::{
    is_legacy_scope_for_merchant, legacy_scope_matches_digest, parse_vendor_cost_currency, settlement_receipt_from_fields, ReceiptShapeError, SpendExecutorVendorCost,
    SpendRequest,
};

fn request(task_id: Option<&str>, reason: &str) -> SpendRequest {
    SpendRequest {
        amount_cents: 500,
        currency: Currency::Usd,
        owner_user_id: UserId(0x0000_0000_0000_4000_8000_0000_0000_0123),
        agent_id: AgentId::new(),
        agent_account_id: AgentAccountId::new(),
        merchant: Some("vendor.example".to_string()),
        execution_scope: None,
        category: None,
        task_id: task_id.map(str::to_string),
        reason: reason.to_string(),
        lease_profile: "default".to_string(),
    }
}

#[test]
fn legacy_persisted_reason_maps_from_task_id_for_replay() {
    let legacy = request(Some("Generate logo"), "");
    let mut replay = legacy.clone();
    replay.reason = "Generate logo".to_string();
    assert!(legacy.replay_equivalent(&replay));
}

#[test]
fn independent_task_and_reason_are_both_replay_bound() {
    let request = request(Some("linear:HUB-73"), "Generate logo");
    let mut changed_task = request.clone();
    changed_task.task_id = Some("linear:HUB-74".to_string());
    let mut changed_reason = request.clone();
    changed_reason.reason = "Generate a different logo".to_string();
    assert!(!request.replay_equivalent(&changed_task));
    assert!(!request.replay_equivalent(&changed_reason));
}

#[test]
fn conservative_budget_conversion_covers_fractional_cent_boundaries() {
    let cost = |amount, scale| SpendExecutorVendorCost { amount, scale, currency: Currency::Usd };

    assert_eq!(cost(1, 3).conservative_budget_charge_cents(), Ok(1));
    assert_eq!(cost(10, 3).conservative_budget_charge_cents(), Ok(1));
    assert_eq!(cost(11, 3).conservative_budget_charge_cents(), Ok(2));
    assert_eq!(cost(25_000, 3).conservative_budget_charge_cents(), Ok(2_500));
    assert_eq!(cost(25_001, 3).conservative_budget_charge_cents(), Ok(2_501));
    assert!(cost(1, 19).conservative_budget_charge_cents().is_err());
    assert!(cost(i64::MAX, 0).conservative_budget_charge_cents().is_err());
}

#[test]
fn conversion_refuses_negative_costs_and_keeps_whole_cents() {
    let cost = |amount, scale| SpendExecutorVendorCost { amount, scale, currency: Currency::Usd };
    assert_eq!(cost(-1, 2).conservative_budget_charge_cents(), Err("actual vendor cost cannot be negative"));
    assert_eq!(cost(1, 19).conservative_budget_charge_cents(), Err("actual vendor cost scale cannot exceed 18"));
    assert_eq!(cost(7, 0).conservative_budget_charge_cents(), Ok(700));
    assert_eq!(cost(7, 1).conservative_budget_charge_cents(), Ok(70));
    assert_eq!(cost(7, 2).conservative_budget_charge_cents(), Ok(7));
    assert_eq!(cost(1, 18).conservative_budget_charge_cents(), Ok(1));
    assert_eq!(cost(i64::MAX, 18).conservative_budget_charge_cents(), Ok(923));
}

#[test]
fn legacy_v43_receipt_maps_cents_to_exact_scale_two() {
    let receipt = settlement_receipt_from_fields(
        None,
        Some(17),
        "provider-request-17".to_string(),
        r#"{"provider":"provider","model":"model","currency":"usd","nested":{"frozen":true}}"#.to_string(),
        "artifact://17".to_string(),
    )
    .unwrap();

    assert_eq!(receipt.actual_vendor_cost, SpendExecutorVendorCost { amount: 17, scale: 2, currency: Currency::Usd });
    assert!(receipt.price_model_snapshot.contains(r#""nested":{"frozen":true}"#));
    assert_eq!(receipt.actual_vendor_cost.amount, 17);
}

#[test]
fn precise_receipt_rejects_mixed_legacy_and_exact_cost_fields() {
    let mixed = settlement_receipt_from_fields(
        Some(SpendExecutorVendorCost { amount: 17, scale: 3, currency: Currency::Usd }),
        Some(2),
        "provider-request-17".to_string(),
        r#"{"provider":"provider","model":"model","currency":"usd"}"#.to_string(),
        "artifact://17".to_string(),
    );
    assert!(mixed.is_err());
    assert!(matches!(mixed, Err(ReceiptShapeError::MixedCostFields)));
}

#[test]
fn precise_receipt_accepts_uppercase_iso_currency_and_serializes_canonically() {
    let currency = parse_vendor_cost_currency("USD").unwrap();
    let receipt = settlement_receipt_from_fields(
        Some(SpendExecutorVendorCost { amount: 17, scale: 3, currency }),
        None,
        "provider-request-17".to_string(),
        r#"{"provider":"provider","model":"model","currency":"USD"}"#.to_string(),
        "artifact://17".to_string(),
    )
    .unwrap();
    assert_eq!(receipt.actual_vendor_cost.currency, Currency::Usd);
    assert_eq!(receipt.actual_vendor_cost.currency.as_str(), "usd");
}

#[test]
fn receipt_without_cost_and_unknown_currency_are_refused() {
    let missing = settlement_receipt_from_fields(
        None,
        None,
        "provider-request-17".to_string(),
        "{}".to_string(),
        "artifact://17".to_string(),
    );
    assert!(matches!(missing, Err(ReceiptShapeError::MissingCost)));
    assert_eq!(parse_vendor_cost_currency("uSd"), Ok(Currency::Usd));
    assert_eq!(parse_vendor_cost_currency("eur"), Err("unsupported actual vendor cost currency `eur`".to_string()));
}

fn identity(id: &str, display_name: &str) -> ScopeIdentity {
    ScopeIdentity { id: id.to_string(), display_name: display_name.to_string() }
}

fn legacy_scope(merchant_id: &str, merchant: &str) -> ExecutionScope {
    ExecutionScope {
        schema_version: EXECUTION_SCOPE_SCHEMA_VERSION,
        provider: identity("provider:legacy:unresolved", "Legacy unresolved provider"),
        executor: identity("executor:legacy:unresolved", "Legacy unresolved executor"),
        capability: identity("capability:legacy:unresolved", "Legacy unresolved capability"),
        billing_merchant: identity(merchant_id, merchant),
    }
}

#[test]
fn legacy_scope_is_named_by_the_merchant_digest() {
    let digest = [0x01u8; 32];
    let scope = legacy_scope("merchant:legacy:0101010101010101", "Acme Cafe");
    assert!(legacy_scope_matches_digest(&scope, "Acme Cafe", &digest));
    assert!(!legacy_scope_matches_digest(&scope, "Acme", &digest));
    assert!(!legacy_scope_matches_digest(&scope, "Acme Cafe", &[0x02u8; 32]));

    let sha = <sha2::Sha256 as sha2::Digest>::digest("Acme Cafe".as_bytes());
    let hex: String = sha.iter().map(|b| format!("{b:02x}")).collect();
    let real = legacy_scope(&format!("merchant:legacy:{}", &hex[..16]), "Acme Cafe");
    assert!(is_legacy_scope_for_merchant(&real, "  Acme Cafe "));
    assert!(!is_legacy_scope_for_merchant(&scope, "Acme Cafe"));
}
