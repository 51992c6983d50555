//! Advisory spending targets: a user's intended spend per currency and
//! period, separate from enforced budgets.
use vstd::prelude::*;

use crate::common::{
    now_micros, periods_overlap, spec_periods_overlap, Currency, SpendingTargetId, TimePeriod, UserId,
};
use crate::lookup::{last_match, lemma_last_match_at, lemma_last_match_facts, lemma_last_match_none, lemma_last_match_push, lemma_last_match_update};

verus! {

#[derive(Clone, Copy, Debug, PartialEq, Eq, Structural)]
pub struct SpendingTarget {
    pub id: SpendingTargetId,
    pub owner_user_id: UserId,
    pub target_amount_cents: i64,
    pub currency: Currency,
    pub period: TimePeriod,
    pub status: SpendingTargetStatus,
    pub created_at: i64,
    pub updated_at: i64,
}

#[derive(Clone, Copy, Debug, PartialEq, Eq, Structural)]
pub enum SpendingTargetStatus {
    Active,
    Revoked,
}

#[derive(Clone, Copy, Debug)]
pub struct CreateSpendingTargetRequest {
    pub owner_user_id: UserId,
    pub target_amount_cents: i64,
    pub currency: Currency,
    pub period: TimePeriod,
}

#[derive(Clone, Copy, Debug, PartialEq, Eq, Structural)]
pub enum SpendingTargetError {
    AmountMustBePositive,
    OverlappingTargetPeriod,
    UnknownTarget,
    TargetNotActive,
}

pub open spec fn target_is(id: SpendingTargetId) -> spec_fn(SpendingTarget) -> bool {
    |t: SpendingTarget| t.id == id
}

/// The current record of target `id`: the last one recorded under it.
pub open spec fn current_target(targets: Seq<SpendingTarget>, id: SpendingTargetId) -> Option<SpendingTarget> {
    match last_match(targets, target_is(id)) {
        Some(i) => Some(targets[i]),
        None => None,
    }
}

/// Record `k` is the current record of its target.
pub open spec fn is_current(targets: Seq<SpendingTarget>, k: int) -> bool {
    0 <= k < targets.len() && last_match(targets, target_is(targets[k].id)) == Some(k)
}

/// An active target of the same owner and currency overlaps `request`.
pub open spec fn blocks(targets: Seq<SpendingTarget>, k: int, request: CreateSpendingTargetRequest) -> bool {
    &&& is_current(targets, k)
    &&& targets[k].owner_user_id == request.owner_user_id
    &&& targets[k].currency == request.currency
    &&& targets[k].status == SpendingTargetStatus::Active
    &&& spec_periods_overlap(targets[k].period, request.period)
}

/// The current records of the targets recorded for `user` among the first
/// `n` records, in the order they were recorded.
pub open spec fn user_targets(targets: Seq<SpendingTarget>, n: int, user: UserId) -> Seq<SpendingTarget>
    decreases n,
{
    if n <= 0 {
        Seq::empty()
    } else {
        let rest = user_targets(targets, n - 1, user);
        if targets[n - 1].owner_user_id == user {
            rest.push(current_target(targets, targets[n - 1].id)->0)
        } else {
            rest
        }
    }
}

pub struct SpendingTargetManager {
    targets: Vec<SpendingTarget>,
}

impl View for SpendingTargetManager {
    type V = Seq<SpendingTarget>;

    closed spec fn view(&self) -> Seq<SpendingTarget> {
        self.targets@
    }
}

impl SpendingTargetManager {
    pub fn new() -> (m: Self)
        ensures
            m@.len() == 0,
    {
        SpendingTargetManager { targets: Vec::new() }
    }

    pub fn from_records(targets: Vec<SpendingTarget>) -> (m: Self)
        ensures
            m@ == targets@,
    {
        SpendingTargetManager { targets }
    }

    fn position(&self, id: SpendingTargetId) -> (r: Option<usize>)
        ensures
            match r {
                Some(i) => i < self@.len() && last_match(self@, target_is(id)) == Some(i as int),
                None => last_match(self@, target_is(id)) is None,
            },
    {
        let mut i: usize = self.targets.len();
        while i > 0
            invariant
                i <= self.targets.len(),
                forall|j: int| i <= j < self@.len() ==> !target_is(id)(#[trigger] self@[j]),
            decreases i,
        {
            i = i - 1;
            if self.targets[i].id == id {
                proof { lemma_last_match_at(self@, target_is(id), i as int); }
                return Some(i);
            }
        }
        proof { lemma_last_match_none(self@, target_is(id)); }
        None
    }

    /// Record a new active target named `id`, created at `now`, unless its
    /// amount is not positive or an active target of the same owner and
    /// currency overlaps its period.
    pub fn create_target_with_id(
        &mut self,
        request: CreateSpendingTargetRequest,
        id: SpendingTargetId,
        now: i64,
    ) -> (r: Result<SpendingTarget, SpendingTargetError>)
        ensures
            ({
                let s = old(self)@;
                if request.target_amount_cents <= 0 {
                    r == Err::<SpendingTarget, SpendingTargetError>(SpendingTargetError::AmountMustBePositive) && final(self)@ == s
                } else if exists|k: int| #[trigger] blocks(s, k, request) {
                    r == Err::<SpendingTarget, SpendingTargetError>(SpendingTargetError::OverlappingTargetPeriod) && final(self)@ == s
                } else {
                    let target = SpendingTarget {
                        id,
                        owner_user_id: request.owner_user_id,
                        target_amount_cents: request.target_amount_cents,
                        currency: request.currency,
                        period: request.period,
                        status: SpendingTargetStatus::Active,
                        created_at: now,
                        updated_at: now,
                    };
                    r == Ok::<SpendingTarget, SpendingTargetError>(target) && final(self)@ == s.push(target)
                }
            }),
    {
        if request.target_amount_cents <= 0 {
            return Err(SpendingTargetError::AmountMustBePositive);
        }
        let mut k: usize = 0;
        while k < self.targets.len()
            invariant
                self@ == old(self)@,
                request.target_amount_cents > 0,
                k <= self.targets.len(),
                forall|j: int| 0 <= j < k ==> !#[trigger] blocks(self@, j, request),
            decreases self.targets.len() - k,
        {
            let t = self.targets[k];
            let current = match self.position(t.id) {
                Some(p) => p == k,
                None => false,
            };
            if current && t.owner_user_id == request.owner_user_id && t.currency == request.currency
                && t.status == SpendingTargetStatus::Active && periods_overlap(&t.period, &request.period) {
                assert(blocks(old(self)@, k as int, request));
                return Err(SpendingTargetError::OverlappingTargetPeriod);
            }
            k = k + 1;
        }
        let target = SpendingTarget {
            id,
            owner_user_id: request.owner_user_id,
            target_amount_cents: request.target_amount_cents,
            currency: request.currency,
            period: request.period,
            status: SpendingTargetStatus::Active,
            created_at: now,
            updated_at: now,
        };
        self.targets.push(target);
        Ok(target)
    }

    /// Record a new active target under a fresh identifier, now.
    pub fn create_target(&mut self, request: CreateSpendingTargetRequest) -> (r: Result<SpendingTarget, SpendingTargetError>)
        ensures
            request.target_amount_cents <= 0 ==> r == Err::<SpendingTarget, SpendingTargetError>(SpendingTargetError::AmountMustBePositive)
                && final(self)@ == old(self)@,
            request.target_amount_cents > 0 && (exists|k: int| #[trigger] blocks(old(self)@, k, request))
                ==> r == Err::<SpendingTarget, SpendingTargetError>(SpendingTargetError::OverlappingTargetPeriod) && final(self)@ == old(self)@,
            request.target_amount_cents > 0 && !(exists|k: int| #[trigger] blocks(old(self)@, k, request)) ==> (r matches Ok(target)
                && target.owner_user_id == request.owner_user_id
                && target.target_amount_cents == request.target_amount_cents
                && target.currency == request.currency
                && target.period == request.period
                && target.status == SpendingTargetStatus::Active
                && target.created_at == target.updated_at
                && final(self)@ == old(self)@.push(target)),
    {
        let id = SpendingTargetId::new();
        let now = now_micros();
        self.create_target_with_id(request, id, now)
    }

    /// The current records of `user_id`'s targets, in the order they were
    /// recorded.
    pub fn get_targets_by_user_id(&self, user_id: &UserId) -> (r: Vec<SpendingTarget>)
        ensures
            r@ == user_targets(self@, self@.len() as int, *user_id),
    {
        let mut out: Vec<SpendingTarget> = Vec::new();
        let mut i: usize = 0;
        while i < self.targets.len()
            invariant
                i <= self.targets.len(),
                out@ == user_targets(self@, i as int, *user_id),
            decreases self.targets.len() - i,
        {
            if self.targets[i].owner_user_id == *user_id {
                let id = self.targets[i].id;
                proof {
                    lemma_last_match_facts(self@, target_is(id));
                    assert(target_is(id)(self@[i as int]));
                }
                match self.position(id) {
                    Some(p) => out.push(self.targets[p]),
                    None => {},
                }
            }
            i = i + 1;
        }
        out
    }

    /// Revoke an active target at `now`.
    pub fn revoke_target_at(&mut self, target_id: &SpendingTargetId, now: i64) -> (r: Result<SpendingTarget, SpendingTargetError>)
        ensures
            match last_match(old(self)@, target_is(*target_id)) {
                None => r == Err::<SpendingTarget, SpendingTargetError>(SpendingTargetError::UnknownTarget) && final(self)@ == old(self)@,
                Some(i) => if old(self)@[i].status != SpendingTargetStatus::Active {
                    r == Err::<SpendingTarget, SpendingTargetError>(SpendingTargetError::TargetNotActive) && final(self)@ == old(self)@
                } else {
                    let revoked = SpendingTarget { status: SpendingTargetStatus::Revoked, updated_at: now, ..old(self)@[i] };
                    r == Ok::<SpendingTarget, SpendingTargetError>(revoked) && final(self)@ == old(self)@.update(i, revoked)
                },
            },
    {
        let i = match self.position(*target_id) {
            Some(i) => i,
            None => return Err(SpendingTargetError::UnknownTarget),
        };
        let target = self.targets[i];
        if target.status != SpendingTargetStatus::Active {
            return Err(SpendingTargetError::TargetNotActive);
        }
        let revoked = SpendingTarget { status: SpendingTargetStatus::Revoked, updated_at: now, ..target };
        self.targets.set(i, revoked);
        Ok(revoked)
    }

    /// Revoke an active target now.
    pub fn revoke_target(&mut self, target_id: &SpendingTargetId) -> (r: Result<SpendingTarget, SpendingTargetError>)
        ensures
            match last_match(old(self)@, target_is(*target_id)) {
                None => r == Err::<SpendingTarget, SpendingTargetError>(SpendingTargetError::UnknownTarget) && final(self)@ == old(self)@,
                Some(i) => if old(self)@[i].status != SpendingTargetStatus::Active {
                    r == Err::<SpendingTarget, SpendingTargetError>(SpendingTargetError::TargetNotActive) && final(self)@ == old(self)@
                } else {
                    r matches Ok(revoked) && revoked == (SpendingTarget { status: SpendingTargetStatus::Revoked, updated_at: revoked.updated_at, ..old(self)@[i] })
                        && final(self)@ == old(self)@.update(i, revoked)
                },
            },
    {
        let now = now_micros();
        self.revoke_target_at(target_id, now)
    }
}


impl Default for SpendingTargetManager {
    fn default() -> (m: Self)
        ensures
            m@.len() == 0,
    {
        SpendingTargetManager::new()
    }
}

} // verus!
