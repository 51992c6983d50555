//! Identifiers, money, time and user context shared by every module.
//!
//! Identifiers are random 128-bit values (version 4 UUIDs). Instants are
//! microseconds since the Unix epoch, in UTC.
use vstd::prelude::*;

use crate::format::{uuid_string, uuid_text};

verus! {

/// The 128 bits of a random (version 4) UUID of the RFC 4122 variant: the
/// version field, bits 76 to 79, holds 4, and the variant field, bits 62 and
/// 63, holds binary 10.
pub open spec fn is_random_uuid(v: u128) -> bool {
    &&& (v as int / 0x1000_0000_0000_0000_0000) % 16 == 4
    &&& (v as int / 0x4000_0000_0000_0000) % 4 == 2
}

/// Draw a fresh random 128-bit identifier.
///
/// Calls `uuid::Uuid::new_v4` and returns its 128 bits. The source masks
/// random bits so that the version field holds 4 and the variant field
/// binary 10; that is all the contract states, since the other 122 bits come
/// from the operating system's random source.
#[verifier::external_body]
pub(crate) fn random_identifier() -> (id: u128)
    ensures
        is_random_uuid(id),
{
    uuid::Uuid::new_v4().as_u128()
}

/// The current wall-clock instant in microseconds since the Unix epoch.
///
/// Calls `chrono::Utc::now` and returns its `timestamp_micros`. The value
/// depends on the clock, so nothing is promised about it.
#[verifier::external_body]
pub(crate) fn now_micros() -> (now: i64) {
    chrono::Utc::now().timestamp_micros()
}

/// What `chrono::DateTime::to_rfc3339` renders for the instant.
pub uninterp spec fn spec_rfc3339(instant: i64) -> Seq<char>;

/// RFC 3339 rendering of an instant given in microseconds.
///
/// Calls `chrono::DateTime::from_timestamp_micros` and `to_rfc3339`. The
/// contract only names the rendering of this argument; an instant outside
/// chrono's range renders as the empty string.
#[verifier::external_body]
pub(crate) fn rfc3339(instant: i64) -> (s: String)
    ensures
        s@ == spec_rfc3339(instant),
{
    match chrono::DateTime::from_timestamp_micros(instant) {
        Some(time) => time.to_rfc3339(),
        None => String::new(),
    }
}

/// What `uuid::Uuid::parse_str` gives for `text`, as 128 bits.
pub uninterp spec fn uuid_parse_result(text: Seq<char>) -> Option<u128>;

/// Parse a UUID written as text.
///
/// Calls `uuid::Uuid::parse_str` and takes `as_u128` of the result. The
/// contract names the result, and states that the hyphenated lowercase
/// rendering of a value parses back to that value: the parser reads the 32
/// hexadecimal digits of a 36-character hyphenated UUID in order, most
/// significant first. Which other texts parse is not stated.
#[verifier::external_body]
pub(crate) fn parse_uuid(text: &str) -> (r: Option<u128>)
    ensures
        r == uuid_parse_result(text@),
        forall|v: u128| #[trigger] uuid_text(v) == text@ ==> r == Some(v),
{
    match uuid::Uuid::parse_str(text) {
        Ok(uuid) => Some(uuid.as_u128()),
        Err(_) => None,
    }
}

pub const MICROS_PER_SECOND: i64 = 1_000_000;

/// `instant + seconds`, saturating at the ends of the representable range.
pub open spec fn spec_after_seconds(instant: i64, seconds: i64) -> int {
    let sum = instant + seconds * 1_000_000;
    if sum > i64::MAX {
        i64::MAX as int
    } else if sum < i64::MIN {
        i64::MIN as int
    } else {
        sum
    }
}

pub fn after_seconds(instant: i64, seconds: i64) -> (r: i64)
    ensures
        r == spec_after_seconds(instant, seconds),
{
    assert(-10_000_000_000_000_000_000_000_000int <= (seconds as int) * 1_000_000int <= 10_000_000_000_000_000_000_000_000int);
    let micros = (seconds as i128) * (MICROS_PER_SECOND as i128);
    let sum = (instant as i128) + micros;
    if sum > (i64::MAX as i128) {
        i64::MAX
    } else if sum < (i64::MIN as i128) {
        i64::MIN
    } else {
        sum as i64
    }
}

#[derive(Clone, Copy, Debug, PartialEq, Eq, Hash, Structural)]
pub struct UserId(pub u128);

impl UserId {
    /// A fresh random identifier: a version 4 UUID.
    pub fn new() -> (id: Self)
        ensures
            is_random_uuid(id.0),
    {
        UserId(random_identifier())
    }

    /// The hyphenated lowercase UUID text of this identifier.
    pub fn to_uuid_string(&self) -> (s: String)
        ensures
            s@ == uuid_text(self.0),
    {
        uuid_string(self.0)
    }
}

#[derive(Clone, Copy, Debug, PartialEq, Eq, Hash, Structural)]
pub struct AgentId(pub u128);

impl AgentId {
    /// A fresh random identifier: a version 4 UUID.
    pub fn new() -> (id: Self)
        ensures
            is_random_uuid(id.0),
    {
        AgentId(random_identifier())
    }

    /// The hyphenated lowercase UUID text of this identifier.
    pub fn to_uuid_string(&self) -> (s: String)
        ensures
            s@ == uuid_text(self.0),
    {
        uuid_string(self.0)
    }
}

#[derive(Clone, Copy, Debug, PartialEq, Eq, Hash, Structural)]
pub struct AgentAccountId(pub u128);

impl AgentAccountId {
    /// A fresh random identifier: a version 4 UUID.
    pub fn new() -> (id: Self)
        ensures
            is_random_uuid(id.0),
    {
        AgentAccountId(random_identifier())
    }

    /// The hyphenated lowercase UUID text of this identifier.
    pub fn to_uuid_string(&self) -> (s: String)
        ensures
            s@ == uuid_text(self.0),
    {
        uuid_string(self.0)
    }
}

#[derive(Clone, Copy, Debug, PartialEq, Eq, Hash, Structural)]
pub struct AgentVersionId(pub u128);

impl AgentVersionId {
    /// A fresh random identifier: a version 4 UUID.
    pub fn new() -> (id: Self)
        ensures
            is_random_uuid(id.0),
    {
        AgentVersionId(random_identifier())
    }

    /// The hyphenated lowercase UUID text of this identifier.
    pub fn to_uuid_string(&self) -> (s: String)
        ensures
            s@ == uuid_text(self.0),
    {
        uuid_string(self.0)
    }
}

#[derive(Clone, Copy, Debug, PartialEq, Eq, Hash, Structural)]
pub struct AgentSessionId(pub u128);

impl AgentSessionId {
    /// A fresh random identifier: a version 4 UUID.
    pub fn new() -> (id: Self)
        ensures
            is_random_uuid(id.0),
    {
        AgentSessionId(random_identifier())
    }

    /// The hyphenated lowercase UUID text of this identifier.
    pub fn to_uuid_string(&self) -> (s: String)
        ensures
            s@ == uuid_text(self.0),
    {
        uuid_string(self.0)
    }
}

#[derive(Clone, Copy, Debug, PartialEq, Eq, Hash, Structural)]
pub struct BudgetId(pub u128);

impl BudgetId {
    /// A fresh random identifier: a version 4 UUID.
    pub fn new() -> (id: Self)
        ensures
            is_random_uuid(id.0),
    {
        BudgetId(random_identifier())
    }

    /// The hyphenated lowercase UUID text of this identifier.
    pub fn to_uuid_string(&self) -> (s: String)
        ensures
            s@ == uuid_text(self.0),
    {
        uuid_string(self.0)
    }
}

#[derive(Clone, Copy, Debug, PartialEq, Eq, Hash, Structural)]
pub struct BudgetVersionId(pub u128);

impl BudgetVersionId {
    /// A fresh random identifier: a version 4 UUID.
    pub fn new() -> (id: Self)
        ensures
            is_random_uuid(id.0),
    {
        BudgetVersionId(random_identifier())
    }

    /// The hyphenated lowercase UUID text of this identifier.
    pub fn to_uuid_string(&self) -> (s: String)
        ensures
            s@ == uuid_text(self.0),
    {
        uuid_string(self.0)
    }
}

#[derive(Clone, Copy, Debug, PartialEq, Eq, Hash, Structural)]
pub struct BudgetHoldId(pub u128);

impl BudgetHoldId {
    /// A fresh random identifier: a version 4 UUID.
    pub fn new() -> (id: Self)
        ensures
            is_random_uuid(id.0),
    {
        BudgetHoldId(random_identifier())
    }

    /// The hyphenated lowercase UUID text of this identifier.
    pub fn to_uuid_string(&self) -> (s: String)
        ensures
            s@ == uuid_text(self.0),
    {
        uuid_string(self.0)
    }
}

#[derive(Clone, Copy, Debug, PartialEq, Eq, Hash, Structural)]
pub struct SpendDecisionId(pub u128);

impl SpendDecisionId {
    /// A fresh random identifier: a version 4 UUID.
    pub fn new() -> (id: Self)
        ensures
            is_random_uuid(id.0),
    {
        SpendDecisionId(random_identifier())
    }

    /// The hyphenated lowercase UUID text of this identifier.
    pub fn to_uuid_string(&self) -> (s: String)
        ensures
            s@ == uuid_text(self.0),
    {
        uuid_string(self.0)
    }
}

#[derive(Clone, Copy, Debug, PartialEq, Eq, Hash, Structural)]
pub struct SpendAuthTokenId(pub u128);

impl SpendAuthTokenId {
    /// A fresh random identifier: a version 4 UUID.
    pub fn new() -> (id: Self)
        ensures
            is_random_uuid(id.0),
    {
        SpendAuthTokenId(random_identifier())
    }

    /// The hyphenated lowercase UUID text of this identifier.
    pub fn to_uuid_string(&self) -> (s: String)
        ensures
            s@ == uuid_text(self.0),
    {
        uuid_string(self.0)
    }
}

#[derive(Clone, Copy, Debug, PartialEq, Eq, Hash, Structural)]
pub struct SpendExecutorClaimId(pub u128);

impl SpendExecutorClaimId {
    /// A fresh random identifier: a version 4 UUID.
    pub fn new() -> (id: Self)
        ensures
            is_random_uuid(id.0),
    {
        SpendExecutorClaimId(random_identifier())
    }

    /// The hyphenated lowercase UUID text of this identifier.
    pub fn to_uuid_string(&self) -> (s: String)
        ensures
            s@ == uuid_text(self.0),
    {
        uuid_string(self.0)
    }
}

#[derive(Clone, Copy, Debug, PartialEq, Eq, Hash, Structural)]
pub struct PaymentId(pub u128);

impl PaymentId {
    /// A fresh random identifier: a version 4 UUID.
    pub fn new() -> (id: Self)
        ensures
            is_random_uuid(id.0),
    {
        PaymentId(random_identifier())
    }

    /// The hyphenated lowercase UUID text of this identifier.
    pub fn to_uuid_string(&self) -> (s: String)
        ensures
            s@ == uuid_text(self.0),
    {
        uuid_string(self.0)
    }
}

#[derive(Clone, Copy, Debug, PartialEq, Eq, Hash, Structural)]
pub struct SpendingTargetId(pub u128);

impl SpendingTargetId {
    /// A fresh random identifier: a version 4 UUID.
    pub fn new() -> (id: Self)
        ensures
            is_random_uuid(id.0),
    {
        SpendingTargetId(random_identifier())
    }

    /// The hyphenated lowercase UUID text of this identifier.
    pub fn to_uuid_string(&self) -> (s: String)
        ensures
            s@ == uuid_text(self.0),
    {
        uuid_string(self.0)
    }
}

/// ISO 4217 currency of an amount in minor units.
#[derive(Clone, Copy, Debug, PartialEq, Eq, Hash, Structural)]
pub enum Currency {
    Usd,
}

impl Currency {
    pub fn as_str(&self) -> (s: &'static str)
        ensures
            s@ == "usd"@,
    {
        proof {
            reveal_strlit("usd");
        }
        "usd"
    }
}

/// Amount of a payment intent, in the smallest unit of its asset.
pub type Amount = u64;

/// A half-open interval of instants: `starting_at` is included and
/// `ending_before`, when present, is excluded. A missing end is open-ended.
#[derive(Clone, Copy, Debug, PartialEq, Eq, Structural)]
pub struct TimePeriod {
    pub starting_at: i64,
    pub ending_before: Option<i64>,
}

#[derive(Clone, Copy, Debug, PartialEq, Eq, Structural)]
pub enum TimePeriodError {
    EndNotAfterStart,
}

impl TimePeriod {
    /// A period, refused when it ends at or before its start.
    pub fn new(starting_at: i64, ending_before: Option<i64>) -> (r: Result<TimePeriod, TimePeriodError>)
        ensures
            match ending_before {
                Some(end) if end <= starting_at => r == Err::<TimePeriod, TimePeriodError>(TimePeriodError::EndNotAfterStart),
                _ => r == Ok::<TimePeriod, TimePeriodError>(TimePeriod { starting_at, ending_before }),
            },
    {
        match ending_before {
            Some(end) if end <= starting_at => Err(TimePeriodError::EndNotAfterStart),
            _ => Ok(TimePeriod { starting_at, ending_before }),
        }
    }

    /// The period contains `instant`.
    pub open spec fn spec_contains(self, instant: i64) -> bool {
        &&& self.starting_at <= instant
        &&& match self.ending_before {
            Some(end) => instant < end,
            None => true,
        }
    }
}

/// Two half-open periods share at least one instant.
pub open spec fn spec_periods_overlap(left: TimePeriod, right: TimePeriod) -> bool {
    &&& match right.ending_before {
        Some(end) => left.starting_at < end,
        None => true,
    }
    &&& match left.ending_before {
        Some(end) => right.starting_at < end,
        None => true,
    }
}

/// Whether two half-open periods overlap.
pub fn periods_overlap(left: &TimePeriod, right: &TimePeriod) -> (r: bool)
    ensures
        r == spec_periods_overlap(*left, *right),
{
    let left_starts_before_right_ends = match right.ending_before {
        Some(end) => left.starting_at < end,
        None => true,
    };
    let right_starts_before_left_ends = match left.ending_before {
        Some(end) => right.starting_at < end,
        None => true,
    };
    left_starts_before_right_ends && right_starts_before_left_ends
}

/// The user on whose behalf a request is handled.
#[derive(Clone, Copy, Debug, PartialEq, Eq, Structural)]
pub struct UserContext {
    pub user_id: UserId,
}

impl UserContext {
    pub fn new(user_id: UserId) -> (c: Self)
        ensures
            c.user_id == user_id,
    {
        UserContext { user_id }
    }
}

} // verus!
