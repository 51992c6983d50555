use chrono::{Duration, Utc};
use hubu_core::common::{Currency, TimePeriod, UserId};
use hubu_core::spending_target::{
    CreateSpendingTargetRequest, SpendingTargetError, SpendingTargetManager, SpendingTargetStatus,
};

fn request(user_id: UserId, starting_at: i64) -> CreateSpendingTargetRequest {
    let thirty_days = Duration::days(30).num_microseconds().unwrap();
    CreateSpendingTargetRequest {
        owner_user_id: user_id,
        target_amount_cents: 10_000,
        currency: Currency::Usd,
        period: TimePeriod::new(starting_at, Some(starting_at + thirty_days)).expect("period should be valid"),
    }
}

fn now() -> i64 {
    Utc::now().timestamp_micros()
}

#[test]
fn creates_and_lists_a_user_spending_target() {
    let mut manager = SpendingTargetManager::new();
    let user_id = UserId::new();
    let created = manager.create_target(request(user_id, now())).expect("target should create");

    let targets = manager.get_targets_by_user_id(&user_id);
    assert_eq!(targets.len(), 1);
    assert_eq!(targets[0].id, created.id);
    assert_eq!(targets[0].target_amount_cents, 10_000);
}

#[test]
fn rejects_overlapping_targets_for_the_same_user_and_currency() {
    let mut manager = SpendingTargetManager::new();
    let user_id = UserId::new();
    let starting_at = now();
    manager.create_target(request(user_id, starting_at)).expect("first target should create");

    let one_day = Duration::days(1).num_microseconds().unwrap();
    let error = manager
        .create_target(request(user_id, starting_at + one_day))
        .err()
        .expect("overlapping target should fail");
    assert_eq!(error, SpendingTargetError::OverlappingTargetPeriod);
}

#[test]
fn revoked_target_does_not_block_replacement() {
    let mut manager = SpendingTargetManager::new();
    let user_id = UserId::new();
    let starting_at = now();
    let created = manager.create_target(request(user_id, starting_at)).expect("target should create");
    manager.revoke_target(&created.id).expect("target should revoke");

    manager.create_target(request(user_id, starting_at)).expect("replacement target should create");
}

#[test]
fn target_errors_cover_amount_unknown_and_repeated_revocation() {
    let mut manager = SpendingTargetManager::new();
    let user_id = UserId::new();
    let mut zero = request(user_id, now());
    zero.target_amount_cents = 0;
    assert_eq!(manager.create_target(zero).err(), Some(SpendingTargetError::AmountMustBePositive));

    let created = manager.create_target(request(user_id, now())).expect("target should create");
    let revoked = manager.revoke_target(&created.id).expect("target should revoke");
    assert_eq!(revoked.status, SpendingTargetStatus::Revoked);
    assert_eq!(manager.revoke_target(&created.id).err(), Some(SpendingTargetError::TargetNotActive));

    let other = SpendingTargetManager::new();
    assert!(other.get_targets_by_user_id(&user_id).is_empty());
    let mut other = other;
    assert_eq!(other.revoke_target(&created.id).err(), Some(SpendingTargetError::UnknownTarget));

    let other_user = UserId::new();
    manager.create_target(request(other_user, now())).expect("another user's target does not overlap");
    assert_eq!(manager.get_targets_by_user_id(&user_id).len(), 1);
}
