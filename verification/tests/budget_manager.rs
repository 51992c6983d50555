use hubu_core::budget::model::{fingerprint_of_digest, initial_budget_request_fingerprint, request_fingerprint_text};
use chrono::{Duration, TimeZone, Utc};
use hubu_core::budget::dto::{BudgetWithBalance, CreateSingleBudgetRequest, ReserveBudgetRequest};
use hubu_core::budget::error::BudgetManagerError;
use hubu_core::budget::manager::BudgetManager;
use hubu_core::budget::model::{
    BudgetAdministrativeState, BudgetAvailability, BudgetBalance, BudgetHold, BudgetHoldStatus, BudgetVersion,
};
use hubu_core::budget::state::BudgetVersionProvenance;
use hubu_core::common::{AgentId, BudgetId, BudgetVersionId, Currency, SpendDecisionId, SpendExecutorClaimId, TimePeriod};

fn micros(year: i32, month: u32, day: u32) -> i64 {
    Utc.with_ymd_and_hms(year, month, day, 0, 0, 0).unwrap().timestamp_micros()
}

fn now() -> i64 {
    Utc::now().timestamp_micros()
}

fn minutes(n: i64) -> i64 {
    Duration::minutes(n).num_microseconds().unwrap()
}

fn hours(n: i64) -> i64 {
    Duration::hours(n).num_microseconds().unwrap()
}

fn days(n: i64) -> i64 {
    Duration::days(n).num_microseconds().unwrap()
}

fn timestamp() -> i64 {
    micros(2026, 6, 1)
}

fn active_period() -> TimePeriod {
    TimePeriod::new(now() - hours(1), Some(now() + hours(1))).unwrap()
}

fn period(start_year: i32, start_month: u32, start_day: u32, end_year: i32, end_month: u32, end_day: u32) -> TimePeriod {
    TimePeriod::new(micros(start_year, start_month, start_day), Some(micros(end_year, end_month, end_day))).unwrap()
}

fn create_single_budget(manager: &mut BudgetManager, request: CreateSingleBudgetRequest) -> Result<BudgetWithBalance, BudgetManagerError> {
    let created = manager.create_single_budget_with_provenance(request, BudgetVersionProvenance::default())?;
    Ok(BudgetWithBalance { budget: created.budget, version: created.version, balance: created.balance })
}

fn create_isolated_budget(
    agent_id: AgentId,
    amount_limit_cents: i64,
    currency: Currency,
    period: TimePeriod,
    provenance: &BudgetVersionProvenance,
) -> Result<BudgetWithBalance, BudgetManagerError> {
    let created = BudgetManager::new().create_single_budget_with_provenance(
        CreateSingleBudgetRequest { agent_id, amount_limit_cents, currency, period },
        provenance.clone(),
    )?;
    Ok(BudgetWithBalance { budget: created.budget, version: created.version, balance: created.balance })
}

fn create_agent_budget(manager: &mut BudgetManager, amount_cents: i64) -> BudgetWithBalance {
    create_single_budget(
        manager,
        CreateSingleBudgetRequest {
            agent_id: AgentId::new(),
            amount_limit_cents: amount_cents,
            currency: Currency::Usd,
            period: active_period(),
        },
    )
    .expect("budget should be created")
}

fn hydrate(snapshots: &[BudgetWithBalance]) -> Result<BudgetManager, BudgetManagerError> {
    BudgetManager::from_records(
        snapshots.iter().map(|snapshot| snapshot.budget).collect(),
        snapshots.iter().map(|snapshot| snapshot.version.clone()).collect(),
        snapshots.iter().map(|snapshot| snapshot.balance).collect(),
        vec![],
    )
}

#[test]
fn create_single_budget_initializes_balance() {
    let mut manager = BudgetManager::new();

    let created = create_agent_budget(&mut manager, 10_000);

    assert_eq!(created.budget.current_version_id, created.version.id);
    assert_eq!(created.version.budget_id, created.budget.id);
    assert_eq!(created.version.revision, 1);
    assert!(created.version.predecessor_version_id.is_none());
    assert_eq!(created.version.amount_limit_cents, 10_000);
    assert!(!created.version.actor.is_empty());
    assert!(!created.version.source.is_empty());
    assert!(created.version.request_fingerprint.starts_with("sha256:"));
    assert_eq!(created.balance.budget_id, created.budget.id);
    assert_eq!(created.balance.consumed_amount_cents, 0);
    assert_eq!(created.balance.frozen_amount_cents, 0);
    assert_eq!(created.balance.remaining_amount_cents, 10_000);
    assert!(manager.get_budget_by_id(&created.budget.id).is_some());
}

#[test]
fn hydration_selects_latest_version_and_attributes_new_hold_to_it() {
    let mut original_manager = BudgetManager::new();
    let created = create_agent_budget(&mut original_manager, 10_000);
    let second_version = BudgetVersion {
        id: BudgetVersionId::new(),
        budget_id: created.budget.id,
        revision: 2,
        predecessor_version_id: Some(created.version.id),
        amount_limit_cents: 20_000,
        effective_at: now(),
        actor: "test:budget-owner".to_string(),
        source: "manager-hydration-test".to_string(),
        reason: Some("test current-version selection".to_string()),
        request_fingerprint: "sha256:test-revision-2".to_string(),
        created_at: now(),
    };
    let mut logical_budget = created.budget;
    logical_budget.current_version_id = second_version.id;
    let balance = BudgetBalance {
        budget_id: logical_budget.id,
        consumed_amount_cents: 0,
        frozen_amount_cents: 0,
        remaining_amount_cents: 20_000,
    };

    let mut hydrated = BudgetManager::from_records(
        vec![logical_budget],
        vec![created.version, second_version.clone()],
        vec![balance],
        vec![],
    )
    .expect("version chain should hydrate");
    let resolved = hydrated.get_budget_by_id(&logical_budget.id).expect("logical budget should resolve");
    assert_eq!(resolved.version.id, second_version.id);

    let reservation = hydrated
        .reserve_budget(ReserveBudgetRequest {
            budget_id: logical_budget.id,
            spend_decision_id: SpendDecisionId::new(),
            amount_cents: 15_000,
            currency: Currency::Usd,
            expires_at: now() + minutes(5),
        })
        .expect("current version limit should authorize the hold");
    assert_eq!(reservation.hold.budget_version_id, second_version.id);
}

#[test]
fn budget_version_history_is_sorted_and_scoped_to_one_logical_budget() {
    let mut original_manager = BudgetManager::new();
    let created = create_agent_budget(&mut original_manager, 10_000);
    let unrelated = create_agent_budget(&mut original_manager, 5_000);
    let second_version = BudgetVersion {
        id: BudgetVersionId::new(),
        budget_id: created.budget.id,
        revision: 2,
        predecessor_version_id: Some(created.version.id),
        amount_limit_cents: 20_000,
        effective_at: now(),
        actor: "test:budget-owner".to_string(),
        source: "manager-history-test".to_string(),
        reason: Some("test ordered history".to_string()),
        request_fingerprint: "sha256:test-history-revision-2".to_string(),
        created_at: now(),
    };
    let mut logical_budget = created.budget;
    logical_budget.current_version_id = second_version.id;
    let logical_budget_id = logical_budget.id;

    let hydrated = BudgetManager::from_records(
        vec![unrelated.budget, logical_budget],
        vec![second_version.clone(), unrelated.version, created.version.clone()],
        vec![
            unrelated.balance,
            BudgetBalance {
                budget_id: logical_budget_id,
                consumed_amount_cents: 0,
                frozen_amount_cents: 0,
                remaining_amount_cents: 20_000,
            },
        ],
        vec![],
    )
    .expect("version graph should hydrate from unordered records");

    let versions = hydrated.get_budget_versions_by_budget_id(&logical_budget_id);
    assert_eq!(versions.len(), 2);
    assert_eq!(versions[0].id, created.version.id);
    assert_eq!(versions[0].revision, 1);
    assert_eq!(versions[1].id, second_version.id);
    assert_eq!(versions[1].revision, 2);
    assert!(versions.iter().all(|version| version.budget_id == logical_budget_id));
    assert!(hydrated.get_budget_versions_by_budget_id(&BudgetId::new()).is_empty());
}

#[test]
fn hydration_rejects_balance_that_does_not_derive_from_current_version() {
    let mut manager = BudgetManager::new();
    let created = create_agent_budget(&mut manager, 10_000);
    let invalid_balance = BudgetBalance {
        budget_id: created.budget.id,
        consumed_amount_cents: 1_000,
        frozen_amount_cents: 0,
        remaining_amount_cents: 10_000,
    };

    let error = BudgetManager::from_records(vec![created.budget], vec![created.version], vec![invalid_balance], vec![])
        .err()
        .expect("cached remaining must be exhaustively validated");

    assert!(matches!(error, BudgetManagerError::InvalidPersistedState(_)));
}

#[test]
fn hydration_rejects_non_revoked_overlap_independent_of_input_order() {
    let agent_id = AgentId::new();
    let start = timestamp();
    let provenance = BudgetVersionProvenance::default();
    let first = create_isolated_budget(
        agent_id,
        1_000,
        Currency::Usd,
        TimePeriod::new(start, Some(start + hours(2))).unwrap(),
        &provenance,
    )
    .unwrap();
    let second = create_isolated_budget(
        agent_id,
        1_000,
        Currency::Usd,
        TimePeriod::new(start + hours(1), Some(start + hours(3))).unwrap(),
        &provenance,
    )
    .unwrap();

    for snapshots in [vec![first.clone(), second.clone()], vec![second.clone(), first.clone()]] {
        let error = hydrate(&snapshots).err().expect("overlap must fail in either input order");
        let message = error.describe();
        assert!(message.contains(&first.budget.id.to_uuid_string()));
        assert!(message.contains(&second.budget.id.to_uuid_string()));
        assert!(message.contains("overlap"));
    }
}

#[test]
fn hydration_allows_adjacent_and_revoked_overlapping_budgets() {
    let agent_id = AgentId::new();
    let start = timestamp();
    let boundary = start + hours(1);
    let provenance = BudgetVersionProvenance::default();
    let first = create_isolated_budget(agent_id, 1_000, Currency::Usd, TimePeriod::new(start, Some(boundary)).unwrap(), &provenance)
        .unwrap();
    let second = create_isolated_budget(
        agent_id,
        1_000,
        Currency::Usd,
        TimePeriod::new(boundary, Some(boundary + hours(1))).unwrap(),
        &provenance,
    )
    .unwrap();

    hydrate(&[first.clone(), second.clone()]).ok().expect("half-open adjacent budgets must hydrate");

    let mut revoked_overlap = create_isolated_budget(agent_id, 1_000, Currency::Usd, first.budget.period, &provenance).unwrap();
    revoked_overlap.budget.administrative_state = BudgetAdministrativeState::Revoked;
    hydrate(&[first, revoked_overlap]).ok().expect("an administratively revoked overlap must hydrate");
}

#[test]
fn revoke_budget_marks_budget_inactive() {
    let mut manager = BudgetManager::new();
    let created = create_agent_budget(&mut manager, 10_000);

    let revoked = manager.revoke_budget(&created.budget.id).expect("active budget without holds should revoke");

    assert_eq!(revoked.budget.administrative_state, BudgetAdministrativeState::Revoked);
    assert_eq!(
        manager
            .get_evaluated_budget_by_id(&created.budget.id, now())
            .unwrap()
            .expect("budget should remain available")
            .availability,
        BudgetAvailability::Revoked
    );
}

#[test]
fn revoke_budget_allows_outstanding_holds_to_finalize() {
    let mut manager = BudgetManager::new();
    let created = create_agent_budget(&mut manager, 10_000);
    let reservation = manager
        .reserve_budget(ReserveBudgetRequest {
            budget_id: created.budget.id,
            spend_decision_id: SpendDecisionId::new(),
            amount_cents: 1_000,
            currency: Currency::Usd,
            expires_at: now() + minutes(5),
        })
        .expect("budget should reserve");

    let revoked = manager.revoke_budget(&created.budget.id).expect("budget with frozen holds may revoke");
    assert_eq!(revoked.budget.administrative_state, BudgetAdministrativeState::Revoked);

    let settled = manager.settle_budget(&reservation.hold.id).expect("the outstanding hold should still settle");
    assert_eq!(settled.balance.consumed_amount_cents, 1_000);
    assert_eq!(
        manager.get_evaluated_budget_by_id(&created.budget.id, now()).unwrap().unwrap().availability,
        BudgetAvailability::Revoked
    );
}

#[test]
fn revoked_budget_does_not_block_replacement_period() {
    let mut manager = BudgetManager::new();
    let agent_id = AgentId::new();
    let created = create_single_budget(
        &mut manager,
        CreateSingleBudgetRequest {
            agent_id,
            amount_limit_cents: 10_000,
            currency: Currency::Usd,
            period: period(2026, 6, 1, 2026, 7, 1),
        },
    )
    .expect("first budget should be created");

    manager.revoke_budget(&created.budget.id).expect("budget should revoke");
    create_single_budget(
        &mut manager,
        CreateSingleBudgetRequest {
            agent_id,
            amount_limit_cents: 20_000,
            currency: Currency::Usd,
            period: period(2026, 6, 15, 2026, 7, 1),
        },
    )
    .expect("revoked budget should not block overlapping replacement");
}

#[test]
fn reservation_uses_effective_availability_at_exact_boundaries() {
    let start = timestamp();
    let end = start + hours(1);

    let mut scheduled_manager = BudgetManager::new();
    let scheduled = create_single_budget(
        &mut scheduled_manager,
        CreateSingleBudgetRequest {
            agent_id: AgentId::new(),
            amount_limit_cents: 1_000,
            currency: Currency::Usd,
            period: TimePeriod::new(start, Some(end)).unwrap(),
        },
    )
    .unwrap();
    let request = |budget_id| ReserveBudgetRequest {
        budget_id,
        spend_decision_id: SpendDecisionId::new(),
        amount_cents: 100,
        currency: Currency::Usd,
        expires_at: end + hours(1),
    };
    assert!(matches!(
        scheduled_manager.reserve_budget_at(request(scheduled.budget.id), start - 1),
        Err(BudgetManagerError::BudgetUnavailable(BudgetAvailability::Scheduled))
    ));
    scheduled_manager
        .reserve_budget_at(request(scheduled.budget.id), start)
        .expect("the half-open period starts exactly at starting_at");

    let expired = scheduled_manager
        .reserve_budget_at(request(scheduled.budget.id), end)
        .err()
        .expect("the half-open period ends exactly at ending_before");
    assert!(matches!(expired, BudgetManagerError::BudgetUnavailable(BudgetAvailability::Expired)));

    let remaining = scheduled_manager.get_budget_balance(&scheduled.budget.id).unwrap().remaining_amount_cents;
    scheduled_manager
        .reserve_budget_at(
            ReserveBudgetRequest { amount_cents: remaining, ..request(scheduled.budget.id) },
            start + minutes(1),
        )
        .unwrap();
    assert!(matches!(
        scheduled_manager.reserve_budget_at(request(scheduled.budget.id), start + minutes(2)),
        Err(BudgetManagerError::BudgetUnavailable(BudgetAvailability::Exhausted))
    ));

    scheduled_manager.revoke_budget_at(&scheduled.budget.id, start + minutes(3)).unwrap();
    assert!(matches!(
        scheduled_manager.reserve_budget_at(request(scheduled.budget.id), start + minutes(4)),
        Err(BudgetManagerError::BudgetUnavailable(BudgetAvailability::Revoked))
    ));
}

#[test]
fn adjacent_period_selection_switches_exactly_at_the_shared_boundary() {
    let mut manager = BudgetManager::new();
    let agent_id = AgentId::new();
    let budgets: Vec<_> = (0..2)
        .map(|day| {
            create_single_budget(
                &mut manager,
                CreateSingleBudgetRequest {
                    agent_id,
                    amount_limit_cents: 1_000,
                    currency: Currency::Usd,
                    period: TimePeriod::new(timestamp() + days(day), Some(timestamp() + days(day + 1))).unwrap(),
                },
            )
            .unwrap()
        })
        .collect();
    let boundary = budgets[1].budget.period.starting_at;

    assert_eq!(
        manager.available_budget_id_for_agent_at(&agent_id, Currency::Usd, boundary - 1).unwrap(),
        Some(budgets[0].budget.id)
    );
    assert_eq!(
        manager.available_budget_id_for_agent_at(&agent_id, Currency::Usd, boundary).unwrap(),
        Some(budgets[1].budget.id)
    );
}

#[test]
fn hold_release_and_expiry_after_budget_end_do_not_reactivate_it() {
    let start = timestamp();
    let end = start + hours(1);
    let mut manager = BudgetManager::new();
    let created = create_single_budget(
        &mut manager,
        CreateSingleBudgetRequest {
            agent_id: AgentId::new(),
            amount_limit_cents: 1_000,
            currency: Currency::Usd,
            period: TimePeriod::new(start, Some(end)).unwrap(),
        },
    )
    .unwrap();
    let original_updated_at = created.budget.updated_at;
    let first = manager
        .reserve_budget_at(
            ReserveBudgetRequest {
                budget_id: created.budget.id,
                spend_decision_id: SpendDecisionId::new(),
                amount_cents: 400,
                currency: Currency::Usd,
                expires_at: end + minutes(1),
            },
            start,
        )
        .unwrap();
    manager.release_budget(&first.hold.id).unwrap();
    assert_eq!(
        manager.get_evaluated_budget_by_id(&created.budget.id, end).unwrap().unwrap().availability,
        BudgetAvailability::Expired
    );

    let second = manager
        .reserve_budget_at(
            ReserveBudgetRequest {
                budget_id: created.budget.id,
                spend_decision_id: SpendDecisionId::new(),
                amount_cents: 400,
                currency: Currency::Usd,
                expires_at: end,
            },
            start + minutes(1),
        )
        .unwrap();
    let expired = manager.expire_overdue_budget_holds(end).unwrap();
    assert_eq!(expired[0].hold.id, second.hold.id);
    let snapshot = manager.get_budget_by_id(&created.budget.id).unwrap();
    assert_eq!(snapshot.budget.updated_at, original_updated_at);
    assert_eq!(snapshot.availability_at(end).unwrap(), BudgetAvailability::Expired);
}

#[test]
fn create_single_budget_rejects_overlap_for_same_agent_and_currency() {
    let mut manager = BudgetManager::new();
    let agent_id = AgentId::new();

    create_single_budget(
        &mut manager,
        CreateSingleBudgetRequest {
            agent_id,
            amount_limit_cents: 10_000,
            currency: Currency::Usd,
            period: period(2026, 6, 1, 2026, 7, 1),
        },
    )
    .expect("first budget should be created");

    let error = create_single_budget(
        &mut manager,
        CreateSingleBudgetRequest {
            agent_id,
            amount_limit_cents: 10_000,
            currency: Currency::Usd,
            period: period(2026, 6, 15, 2026, 7, 15),
        },
    )
    .err()
    .expect("overlapping budget should be rejected");

    assert!(matches!(error, BudgetManagerError::OverlappingBudgetPeriod));
}

#[test]
fn create_single_budget_allows_adjacent_half_open_periods() {
    let mut manager = BudgetManager::new();
    let agent_id = AgentId::new();

    create_single_budget(
        &mut manager,
        CreateSingleBudgetRequest {
            agent_id,
            amount_limit_cents: 10_000,
            currency: Currency::Usd,
            period: period(2026, 6, 1, 2026, 7, 1),
        },
    )
    .expect("first budget should be created");

    create_single_budget(
        &mut manager,
        CreateSingleBudgetRequest {
            agent_id,
            amount_limit_cents: 10_000,
            currency: Currency::Usd,
            period: period(2026, 7, 1, 2026, 8, 1),
        },
    )
    .expect("adjacent budget should be created");
}

#[test]
fn create_single_budget_rejects_overlap_with_open_ended_period() {
    let mut manager = BudgetManager::new();
    let agent_id = AgentId::new();
    let open_ended_period = TimePeriod::new(micros(2026, 6, 1), None).unwrap();

    create_single_budget(
        &mut manager,
        CreateSingleBudgetRequest {
            agent_id,
            amount_limit_cents: 10_000,
            currency: Currency::Usd,
            period: open_ended_period,
        },
    )
    .expect("open-ended budget should be created");

    let error = create_single_budget(
        &mut manager,
        CreateSingleBudgetRequest {
            agent_id,
            amount_limit_cents: 10_000,
            currency: Currency::Usd,
            period: period(2026, 7, 1, 2026, 8, 1),
        },
    )
    .err()
    .expect("overlap with open-ended budget should be rejected");

    assert!(matches!(error, BudgetManagerError::OverlappingBudgetPeriod));
}

#[test]
fn reserve_budget_freezes_amount_and_reduces_remaining() {
    let mut manager = BudgetManager::new();
    let created = create_agent_budget(&mut manager, 10_000);

    let response = manager
        .reserve_budget(ReserveBudgetRequest {
            budget_id: created.budget.id,
            spend_decision_id: SpendDecisionId::new(),
            amount_cents: 3_000,
            currency: Currency::Usd,
            expires_at: now() + minutes(5),
        })
        .expect("budget should be reserved");

    assert!(matches!(response.hold.status, BudgetHoldStatus::Frozen));
    assert_eq!(response.hold.budget_version_id, created.version.id);
    assert_eq!(response.balance.frozen_amount_cents, 3_000);
    assert_eq!(response.balance.remaining_amount_cents, 7_000);
    assert_eq!(response.balance.consumed_amount_cents, 0);
}

#[test]
fn claimed_budget_hold_uses_claim_lease_and_does_not_auto_release() {
    let mut manager = BudgetManager::new();
    let created = create_agent_budget(&mut manager, 10_000);
    let authorization_expires_at = now() + minutes(5);
    let reservation = manager
        .reserve_budget(ReserveBudgetRequest {
            budget_id: created.budget.id,
            spend_decision_id: SpendDecisionId::new(),
            amount_cents: 3_000,
            currency: Currency::Usd,
            expires_at: authorization_expires_at,
        })
        .expect("budget should reserve");
    let claim_id = SpendExecutorClaimId::new();
    let claim_expires_at = now() + minutes(30);

    let claimed = manager
        .claim_budget(&reservation.hold.id, claim_id, claim_expires_at)
        .expect("hold should enter claimed state");
    assert!(matches!(claimed.hold.status, BudgetHoldStatus::Claimed));
    assert_eq!(claimed.hold.executor_claim_id, Some(claim_id));
    assert_eq!(claimed.hold.expires_at, claim_expires_at);

    let expired = manager
        .expire_overdue_budget_holds(authorization_expires_at + Duration::seconds(1).num_microseconds().unwrap())
        .expect("expiry reconciliation should succeed");
    assert!(expired.is_empty());
    assert!(matches!(
        manager.get_budget_hold(&reservation.hold.id).expect("claimed hold should remain"),
        BudgetHold { status: BudgetHoldStatus::Claimed, .. }
    ));
}

#[test]
fn reserve_budget_rejects_duplicate_spend_decision() {
    let mut manager = BudgetManager::new();
    let created = create_agent_budget(&mut manager, 10_000);
    let spend_decision_id = SpendDecisionId::new();

    manager
        .reserve_budget(ReserveBudgetRequest {
            budget_id: created.budget.id,
            spend_decision_id,
            amount_cents: 3_000,
            currency: Currency::Usd,
            expires_at: now() + minutes(5),
        })
        .expect("first reservation should succeed");

    let error = manager
        .reserve_budget(ReserveBudgetRequest {
            budget_id: created.budget.id,
            spend_decision_id,
            amount_cents: 3_000,
            currency: Currency::Usd,
            expires_at: now() + minutes(5),
        })
        .err()
        .expect("duplicate reservation should fail");

    assert!(matches!(error, BudgetManagerError::DuplicateSpendDecisionHold));
}

#[test]
fn reserve_budget_rejects_overspend() {
    let mut manager = BudgetManager::new();
    let created = create_agent_budget(&mut manager, 10_000);

    let error = manager
        .reserve_budget(ReserveBudgetRequest {
            budget_id: created.budget.id,
            spend_decision_id: SpendDecisionId::new(),
            amount_cents: 10_001,
            currency: Currency::Usd,
            expires_at: now() + minutes(5),
        })
        .err()
        .expect("overspend should fail");

    assert!(matches!(error, BudgetManagerError::InsufficientRemainingBudget));
}

#[test]
fn settle_budget_moves_frozen_amount_to_consumed() {
    let mut manager = BudgetManager::new();
    let created = create_agent_budget(&mut manager, 10_000);
    let reservation = manager
        .reserve_budget(ReserveBudgetRequest {
            budget_id: created.budget.id,
            spend_decision_id: SpendDecisionId::new(),
            amount_cents: 3_000,
            currency: Currency::Usd,
            expires_at: now() + minutes(5),
        })
        .expect("budget should be reserved");

    let response = manager.settle_budget(&reservation.hold.id).expect("hold should settle");

    assert!(matches!(response.hold.status, BudgetHoldStatus::Settled));
    assert_eq!(response.balance.frozen_amount_cents, 0);
    assert_eq!(response.balance.consumed_amount_cents, 3_000);
    assert_eq!(response.balance.remaining_amount_cents, 7_000);
}

#[test]
fn fully_reserved_budget_is_immediately_and_still_exhausted_after_settlement() {
    let mut manager = BudgetManager::new();
    let created = create_agent_budget(&mut manager, 1_000);
    let budget_id = created.budget.id;
    let reservation = manager
        .reserve_budget(ReserveBudgetRequest {
            budget_id,
            spend_decision_id: SpendDecisionId::new(),
            amount_cents: 1_000,
            currency: Currency::Usd,
            expires_at: now() + minutes(5),
        })
        .expect("budget should be reserved");

    let reserved = manager.get_budget_by_id(&budget_id).expect("budget should exist");
    assert_eq!(reserved.availability_at(now()).unwrap(), BudgetAvailability::Exhausted);
    assert_eq!(reserved.balance.remaining_amount_cents, 0);
    assert_eq!(reserved.balance.frozen_amount_cents, 1_000);

    manager.settle_budget(&reservation.hold.id).expect("hold should settle");
    let settled = manager.get_budget_by_id(&budget_id).expect("budget should exist");
    assert_eq!(settled.availability_at(now()).unwrap(), BudgetAvailability::Exhausted);
    assert_eq!(settled.balance.remaining_amount_cents, 0);
    assert_eq!(settled.balance.frozen_amount_cents, 0);
}

#[test]
fn released_full_reservation_restores_active_budget() {
    let mut manager = BudgetManager::new();
    let created = create_agent_budget(&mut manager, 1_000);
    let budget_id = created.budget.id;
    let reservation = manager
        .reserve_budget(ReserveBudgetRequest {
            budget_id,
            spend_decision_id: SpendDecisionId::new(),
            amount_cents: 1_000,
            currency: Currency::Usd,
            expires_at: now() + minutes(5),
        })
        .expect("budget should be reserved");

    manager.release_budget(&reservation.hold.id).expect("hold should release");
    let released = manager.get_budget_by_id(&budget_id).expect("budget should exist");
    assert_eq!(released.availability_at(now()).unwrap(), BudgetAvailability::Active);
    assert_eq!(released.balance.remaining_amount_cents, 1_000);
    assert_eq!(released.balance.frozen_amount_cents, 0);
}

#[test]
fn exhausted_budget_blocks_new_overlapping_budget() {
    let mut manager = BudgetManager::new();
    let agent_id = AgentId::new();
    let created = create_single_budget(
        &mut manager,
        CreateSingleBudgetRequest { agent_id, amount_limit_cents: 1_000, currency: Currency::Usd, period: active_period() },
    )
    .expect("budget should be created");
    let reservation = manager
        .reserve_budget(ReserveBudgetRequest {
            budget_id: created.budget.id,
            spend_decision_id: SpendDecisionId::new(),
            amount_cents: 1_000,
            currency: Currency::Usd,
            expires_at: now() + minutes(5),
        })
        .expect("budget should be reserved");
    manager.settle_budget(&reservation.hold.id).expect("hold should settle");

    let error = create_single_budget(
        &mut manager,
        CreateSingleBudgetRequest { agent_id, amount_limit_cents: 2_000, currency: Currency::Usd, period: active_period() },
    )
    .err()
    .expect("exhausted budget may be increased and must block overlap");

    assert!(matches!(error, BudgetManagerError::OverlappingBudgetPeriod));
}

#[test]
fn settle_budget_rejects_expired_hold_without_consuming_balance() {
    let mut manager = BudgetManager::new();
    let created = create_agent_budget(&mut manager, 10_000);
    let reservation = manager
        .reserve_budget(ReserveBudgetRequest {
            budget_id: created.budget.id,
            spend_decision_id: SpendDecisionId::new(),
            amount_cents: 3_000,
            currency: Currency::Usd,
            expires_at: now() - minutes(1),
        })
        .expect("budget should be reserved");

    let error = manager.settle_budget(&reservation.hold.id).err().expect("expired hold should not settle");
    let balance = manager.get_budget_balance(&created.budget.id).expect("balance should exist");
    let hold = manager.get_budget_hold(&reservation.hold.id).expect("hold should exist");

    assert!(matches!(error, BudgetManagerError::ExpiredBudgetHold));
    assert!(matches!(hold.status, BudgetHoldStatus::Frozen));
    assert_eq!(balance.frozen_amount_cents, 3_000);
    assert_eq!(balance.consumed_amount_cents, 0);
    assert_eq!(balance.remaining_amount_cents, 7_000);
}

#[test]
fn release_budget_moves_frozen_amount_to_remaining() {
    let mut manager = BudgetManager::new();
    let created = create_agent_budget(&mut manager, 10_000);
    let reservation = manager
        .reserve_budget(ReserveBudgetRequest {
            budget_id: created.budget.id,
            spend_decision_id: SpendDecisionId::new(),
            amount_cents: 3_000,
            currency: Currency::Usd,
            expires_at: now() + minutes(5),
        })
        .expect("budget should be reserved");

    let response = manager.release_budget(&reservation.hold.id).expect("hold should release");

    assert!(matches!(response.hold.status, BudgetHoldStatus::Released));
    assert_eq!(response.balance.frozen_amount_cents, 0);
    assert_eq!(response.balance.consumed_amount_cents, 0);
    assert_eq!(response.balance.remaining_amount_cents, 10_000);
}

#[test]
fn manager_expire_overdue_budget_holds_returns_frozen_amount_to_remaining() {
    let mut manager = BudgetManager::new();
    let created = create_agent_budget(&mut manager, 10_000);
    let reservation = manager
        .reserve_budget(ReserveBudgetRequest {
            budget_id: created.budget.id,
            spend_decision_id: SpendDecisionId::new(),
            amount_cents: 3_000,
            currency: Currency::Usd,
            expires_at: now() + minutes(5),
        })
        .expect("budget should be reserved");

    let expired = manager
        .expire_overdue_budget_holds(reservation.hold.expires_at + Duration::seconds(1).num_microseconds().unwrap())
        .expect("overdue hold should expire");
    let balance = manager.get_budget_balance(&created.budget.id).expect("balance should exist");

    assert_eq!(expired.len(), 1);
    assert!(matches!(expired[0].hold.status, BudgetHoldStatus::Expired));
    assert_eq!(expired[0].balance.frozen_amount_cents, 0);
    assert_eq!(expired[0].balance.remaining_amount_cents, 10_000);
    assert_eq!(balance.frozen_amount_cents, 0);
    assert_eq!(balance.consumed_amount_cents, 0);
    assert_eq!(balance.remaining_amount_cents, 10_000);
}

#[test]
fn initial_fingerprint_hashes_the_canonical_request_text() {
    let agent = AgentId(0x0000_0000_0000_4000_8000_0000_0000_0abc);
    let text = request_fingerprint_text(
        &agent,
        1_000,
        Currency::Usd,
        "2026-01-01T00:00:00+00:00",
        Some("2026-02-01T00:00:00+00:00"),
    );
    assert_eq!(
        text,
        "agent_id=00000000-0000-4000-8000-000000000abc\namount_limit_cents=1000\ncurrency=usd\nstarting_at=2026-01-01T00:00:00+00:00\nending_before=2026-02-01T00:00:00+00:00"
    );
    assert_eq!(
        request_fingerprint_text(&agent, -5, Currency::Usd, "start", None),
        "agent_id=00000000-0000-4000-8000-000000000abc\namount_limit_cents=-5\ncurrency=usd\nstarting_at=start\nending_before="
    );
    assert_eq!(fingerprint_of_digest(&[0xde, 0xad, 0x01]), "sha256:dead01");

    let period = TimePeriod::new(micros(2026, 1, 1), Some(micros(2026, 2, 1))).unwrap();
    let digest = <sha2::Sha256 as sha2::Digest>::digest(text.as_bytes());
    let expected: String = digest.iter().map(|b| format!("{b:02x}")).collect();
    assert_eq!(
        initial_budget_request_fingerprint(&agent, 1_000, Currency::Usd, &period),
        format!("sha256:{expected}")
    );
}

#[test]
fn expiring_twice_at_the_same_instant_expires_nothing_more() {
    let mut manager = BudgetManager::new();
    let created = create_agent_budget(&mut manager, 10_000);
    let reservation = manager
        .reserve_budget(ReserveBudgetRequest {
            budget_id: created.budget.id,
            spend_decision_id: SpendDecisionId::new(),
            amount_cents: 3_000,
            currency: Currency::Usd,
            expires_at: now() + minutes(5),
        })
        .expect("budget should be reserved");
    let at = reservation.hold.expires_at;

    let first = manager.expire_overdue_budget_holds(at).expect("overdue hold should expire");
    let after_first = manager.get_budget_balance(&created.budget.id).unwrap();
    let second = manager.expire_overdue_budget_holds(at).expect("a second pass should succeed");
    let after_second = manager.get_budget_balance(&created.budget.id).unwrap();

    assert_eq!(first.len(), 1);
    assert!(second.is_empty());
    assert_eq!(after_first.remaining_amount_cents, 10_000);
    assert_eq!(after_second.remaining_amount_cents, after_first.remaining_amount_cents);
    assert_eq!(after_second.frozen_amount_cents, after_first.frozen_amount_cents);
    assert!(matches!(
        manager.get_budget_hold(&reservation.hold.id).unwrap().status,
        BudgetHoldStatus::Expired
    ));
}

#[test]
fn hydration_names_the_kind_of_a_reused_identifier() {
    let created = create_isolated_budget(
        AgentId::new(),
        1_000,
        Currency::Usd,
        active_period(),
        &BudgetVersionProvenance::default(),
    )
    .unwrap();

    let error = hydrate(&[created.clone(), created.clone()]).err().expect("a repeated record must fail");
    match error {
        BudgetManagerError::InvalidPersistedState(message) => assert_eq!(message, "duplicate budget version id"),
        other => panic!("expected an invalid persisted state, got {other:?}"),
    }

    let twice_budget = BudgetManager::from_records(
        vec![created.budget, created.budget],
        vec![created.version.clone()],
        vec![created.balance],
        vec![],
    );
    match twice_budget.err().expect("a repeated budget must fail") {
        BudgetManagerError::InvalidPersistedState(message) => assert_eq!(message, "duplicate budget id"),
        other => panic!("expected an invalid persisted state, got {other:?}"),
    }

    let without_version = BudgetManager::from_records(vec![created.budget], vec![], vec![created.balance], vec![]);
    match without_version.err().expect("a budget without its version must fail") {
        BudgetManagerError::InvalidPersistedState(message) => assert_eq!(
            message,
            format!("budget {} has no current version", created.budget.id.to_uuid_string())
        ),
        other => panic!("expected an invalid persisted state, got {other:?}"),
    }

    let mut blank_actor = created.version.clone();
    blank_actor.actor = "   ".to_string();
    let bad_metadata = BudgetManager::from_records(
        vec![created.budget, created.budget],
        vec![blank_actor.clone(), blank_actor],
        vec![created.balance],
        vec![],
    );
    match bad_metadata.err().expect("blank provenance must fail") {
        BudgetManagerError::InvalidPersistedState(message) => assert_eq!(
            message,
            format!("budget version {} has invalid immutable metadata", created.version.id.to_uuid_string())
        ),
        other => panic!("expected an invalid persisted state, got {other:?}"),
    }

    let twice_balance = BudgetManager::from_records(
        vec![created.budget],
        vec![created.version.clone()],
        vec![created.balance, created.balance],
        vec![],
    );
    match twice_balance.err().expect("a repeated balance must fail") {
        BudgetManagerError::InvalidPersistedState(message) => assert_eq!(message, "duplicate logical budget balance"),
        other => panic!("expected an invalid persisted state, got {other:?}"),
    }
}
