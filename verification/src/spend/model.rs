use vstd::prelude::*;

use crate::common::{
    AgentAccountId, AgentId, Currency, PaymentId, SpendAuthTokenId, SpendDecisionId,
    SpendExecutorClaimId, UserId,
};
use crate::crypto::{hex_encode, hex_lower, sha256, sha256_digest};
use crate::executor_contract::{
    clone_optional_scope, optional_scopes_equal, same_optional_scope, ExecutionScope,
    EXECUTION_SCOPE_SCHEMA_VERSION,
};
use crate::policy::model::Evaluation;
use crate::text::{
    chars_of, eq_ignore_ascii_case, push_str, str_eq, str_eq_ignore_ascii_case, string_from_chars, trim, trim_str,
};
use vstd::utf8::encode_utf8;

verus! {

/// Equality of optional strings by their characters.
pub open spec fn same_opt_string(a: Option<String>, b: Option<String>) -> bool {
    match (a, b) {
        (None, None) => true,
        (Some(x), Some(y)) => x@ == y@,
        _ => false,
    }
}

pub fn opt_strings_equal(a: &Option<String>, b: &Option<String>) -> (r: bool)
    ensures
        r == same_opt_string(*a, *b),
{
    match (a, b) {
        (None, None) => true,
        (Some(x), Some(y)) => *x == *y,
        _ => false,
    }
}

pub fn clone_opt_string(a: &Option<String>) -> (r: Option<String>)
    ensures
        r == *a,
{
    match a {
        None => None,
        Some(s) => Some(s.clone()),
    }
}

/// A structured request to spend `amount_cents` minor units.
#[derive(Debug)]
pub struct SpendRequest {
    pub amount_cents: i64,
    pub currency: Currency,
    pub owner_user_id: UserId,
    pub agent_id: AgentId,
    pub agent_account_id: AgentAccountId,
    pub merchant: Option<String>,
    pub execution_scope: Option<ExecutionScope>,
    pub category: Option<String>,
    pub task_id: Option<String>,
    pub reason: String,
    pub lease_profile: String,
}

impl Clone for SpendRequest {
    fn clone(&self) -> (r: Self)
        ensures
            r == *self,
    {
        SpendRequest {
            amount_cents: self.amount_cents,
            currency: self.currency,
            owner_user_id: self.owner_user_id,
            agent_id: self.agent_id,
            agent_account_id: self.agent_account_id,
            merchant: clone_opt_string(&self.merchant),
            execution_scope: clone_optional_scope(&self.execution_scope),
            category: clone_opt_string(&self.category),
            task_id: clone_opt_string(&self.task_id),
            reason: self.reason.clone(),
            lease_profile: self.lease_profile.clone(),
        }
    }
}

/// The reason a request is bound to: its own, or its task id where a request
/// persisted before reasons existed carries none.
pub open spec fn normalized_reason(r: SpendRequest) -> Seq<char> {
    if r.reason@.len() == 0 {
        match r.task_id {
            Some(task) => task@,
            None => Seq::empty(),
        }
    } else {
        r.reason@
    }
}

/// Two requests agree on every field but the execution scope, comparing
/// reasons after legacy normalization.
pub open spec fn same_except_scope(a: SpendRequest, b: SpendRequest) -> bool {
    &&& a.amount_cents == b.amount_cents
    &&& a.currency == b.currency
    &&& a.owner_user_id == b.owner_user_id
    &&& a.agent_id == b.agent_id
    &&& a.agent_account_id == b.agent_account_id
    &&& same_opt_string(a.merchant, b.merchant)
    &&& same_opt_string(a.category, b.category)
    &&& same_opt_string(a.task_id, b.task_id)
    &&& normalized_reason(a) == normalized_reason(b)
    &&& a.lease_profile@ == b.lease_profile@
}

/// The placeholder scope that older records derive from a bare merchant.
pub open spec fn spec_is_legacy_scope_for_merchant(scope: ExecutionScope, merchant: Seq<char>) -> bool {
    let merchant = trim(merchant);
    is_legacy_scope_with_digest(scope, merchant, sha256_digest(encode_utf8(merchant)))
}

/// `scope` is the legacy placeholder for the (trimmed) `merchant` whose
/// SHA-256 is `sha`.
pub open spec fn is_legacy_scope_with_digest(scope: ExecutionScope, merchant: Seq<char>, sha: Seq<u8>) -> bool {
    let digest = hex_lower(sha);
    &&& scope.schema_version == EXECUTION_SCOPE_SCHEMA_VERSION
    &&& scope.provider.id@ == "provider:legacy:unresolved"@
    &&& scope.provider.display_name@ == "Legacy unresolved provider"@
    &&& scope.executor.id@ == "executor:legacy:unresolved"@
    &&& scope.executor.display_name@ == "Legacy unresolved executor"@
    &&& scope.capability.id@ == "capability:legacy:unresolved"@
    &&& scope.capability.display_name@ == "Legacy unresolved capability"@
    &&& scope.billing_merchant.id@ == "merchant:legacy:"@ + digest.take(16)
    &&& scope.billing_merchant.display_name@ == merchant
}

/// The request carries a legacy placeholder scope derived from its merchant.
pub open spec fn has_legacy_scope(r: SpendRequest) -> bool {
    match (r.merchant, r.execution_scope) {
        (Some(m), Some(scope)) => spec_is_legacy_scope_for_merchant(scope, m@),
        _ => false,
    }
}

/// A retry describes the same immutable spend as a recorded request: equal
/// fields (reasons normalized), and equal scopes, or a missing scope on one
/// side where the other holds the legacy placeholder for its merchant.
pub open spec fn spec_replay_equivalent(a: SpendRequest, b: SpendRequest) -> bool {
    &&& same_except_scope(a, b)
    &&& {
        ||| same_optional_scope(a.execution_scope, b.execution_scope)
        ||| (a.execution_scope is None && has_legacy_scope(b))
        ||| (b.execution_scope is None && has_legacy_scope(a))
    }
}

impl SpendRequest {
    pub fn replay_equivalent(&self, other: &Self) -> (r: bool)
        ensures
            r == spec_replay_equivalent(*self, *other),
    {
        let a = self.with_legacy_reason();
        let b = other.with_legacy_reason();
        let same_fields = a.amount_cents == b.amount_cents && a.currency == b.currency
            && a.owner_user_id == b.owner_user_id && a.agent_id == b.agent_id
            && a.agent_account_id == b.agent_account_id
            && opt_strings_equal(&a.merchant, &b.merchant)
            && opt_strings_equal(&a.category, &b.category)
            && opt_strings_equal(&a.task_id, &b.task_id) && a.reason == b.reason
            && a.lease_profile == b.lease_profile;
        if !same_fields {
            return false;
        }
        if optional_scopes_equal(&a.execution_scope, &b.execution_scope) {
            return true;
        }
        match (&a.execution_scope, &b.execution_scope) {
            (None, Some(_)) => request_has_legacy_scope(&b),
            (Some(_), None) => request_has_legacy_scope(&a),
            _ => false,
        }
    }

    /// A copy whose empty reason is replaced by its task id.
    pub fn with_legacy_reason(&self) -> (r: Self)
        ensures
            r.reason@ == normalized_reason(*self),
            same_except_scope(r, *self),
            r.execution_scope == self.execution_scope,
            r.merchant == self.merchant,
    {
        let mut normalized = self.clone();
        normalized.normalize_legacy_reason();
        normalized
    }

    /// Replace an empty reason by the task id, or keep it empty.
    pub fn normalize_legacy_reason(&mut self)
        ensures
            final(self).reason@ == normalized_reason(*old(self)),
            final(self).amount_cents == old(self).amount_cents,
            final(self).currency == old(self).currency,
            final(self).owner_user_id == old(self).owner_user_id,
            final(self).agent_id == old(self).agent_id,
            final(self).agent_account_id == old(self).agent_account_id,
            final(self).merchant == old(self).merchant,
            final(self).execution_scope == old(self).execution_scope,
            final(self).category == old(self).category,
            final(self).task_id == old(self).task_id,
            final(self).lease_profile == old(self).lease_profile,
    {
        if self.reason.as_str().is_empty() {
            self.reason = match &self.task_id {
                Some(task) => task.clone(),
                None => String::new(),
            };
        }
    }
}

fn request_has_legacy_scope(r: &SpendRequest) -> (b: bool)
    ensures
        b == has_legacy_scope(*r),
{
    match (&r.merchant, &r.execution_scope) {
        (Some(m), Some(scope)) => is_legacy_scope_for_merchant(scope, m.as_str()),
        _ => false,
    }
}

fn literal_equals(s: &String, lit: &str) -> (r: bool)
    ensures
        r == (s@ == lit@),
{
    *s == lit.to_owned()
}

/// Whether `scope` is the legacy placeholder that older records derived from
/// `merchant`.
pub fn is_legacy_scope_for_merchant(scope: &ExecutionScope, merchant: &str) -> (r: bool)
    ensures
        r == spec_is_legacy_scope_for_merchant(*scope, merchant@),
{
    let merchant = trim_str(merchant);
    let bytes = merchant.as_str().as_bytes();
    let digest = sha256(bytes);
    legacy_scope_matches_digest(scope, merchant.as_str(), digest.as_slice())
}

/// Whether `scope` is the legacy placeholder for the trimmed `merchant`
/// whose SHA-256 is `digest`.
pub fn legacy_scope_matches_digest(scope: &ExecutionScope, merchant: &str, digest: &[u8]) -> (r: bool)
    requires
        digest@.len() == 32,
    ensures
        r == is_legacy_scope_with_digest(*scope, merchant@, digest@),
{
    let hex = hex_encode(digest);
    let mut expected: Vec<char> = chars_of("merchant:legacy:");
    let mut i: usize = 0;
    while i < 16
        invariant
            hex@.len() == 64,
            i <= 16,
            expected@ == "merchant:legacy:"@ + hex@.take(i as int),
        decreases 16 - i,
    {
        expected.push(hex[i]);
        proof {
            assert(hex@.take(i + 1) =~= hex@.take(i as int).push(hex@[i as int]));
        }
        i = i + 1;
    }
    let expected_id = string_from_chars(expected.as_slice());
    scope.schema_version == EXECUTION_SCOPE_SCHEMA_VERSION
        && literal_equals(&scope.provider.id, "provider:legacy:unresolved")
        && literal_equals(&scope.provider.display_name, "Legacy unresolved provider")
        && literal_equals(&scope.executor.id, "executor:legacy:unresolved")
        && literal_equals(&scope.executor.display_name, "Legacy unresolved executor")
        && literal_equals(&scope.capability.id, "capability:legacy:unresolved")
        && literal_equals(&scope.capability.display_name, "Legacy unresolved capability")
        && scope.billing_merchant.id == expected_id
        && str_eq(scope.billing_merchant.display_name.as_str(), merchant)
}


/// The name of the lease profile used when a request names none.
pub fn default_lease_profile() -> (name: String)
    ensures
        name@ == "default"@,
{
    String::from_str("default")
}

/// How long an executor may hold a claim under one lease profile.
#[derive(Clone, Copy, Debug, PartialEq, Eq, Structural)]
pub struct LeaseProfile {
    pub claim_ttl_seconds: i64,
}

/// Authorization and claim lease durations, with named lease profiles.
///
/// Profile names are unique.
#[derive(Debug)]
pub struct LeaseConfig {
    pub authorization_ttl_seconds: i64,
    pub default_lease_profile: String,
    pub lease_profiles: Vec<(String, LeaseProfile)>,
}

/// The profile named `name` in `profiles`, if any.
pub open spec fn profile_named(profiles: Seq<(String, LeaseProfile)>, name: Seq<char>) -> Option<LeaseProfile> {
    if exists|i: int| 0 <= i < profiles.len() && (#[trigger] profiles[i]).0@ == name {
        let i = choose|i: int| 0 <= i < profiles.len() && (#[trigger] profiles[i]).0@ == name;
        Some(profiles[i].1)
    } else {
        None
    }
}

/// No two profiles share a name.
pub open spec fn profile_names_unique(profiles: Seq<(String, LeaseProfile)>) -> bool {
    forall|i: int, j: int| 0 <= i < profiles.len() && 0 <= j < profiles.len() && i != j
        ==> (#[trigger] profiles[i]).0@ != (#[trigger] profiles[j]).0@
}

/// Every profile has a non-blank name and a positive claim lease.
pub open spec fn profiles_well_formed(profiles: Seq<(String, LeaseProfile)>) -> bool {
    forall|i: int| 0 <= i < profiles.len() ==> {
        &&& !crate::text::is_blank((#[trigger] profiles[i]).0@)
        &&& profiles[i].1.claim_ttl_seconds > 0
    }
}

impl LeaseConfig {
    /// The validity that [`LeaseConfig::validate`] checks.
    pub open spec fn valid(&self) -> bool {
        &&& self.authorization_ttl_seconds > 0
        &&& profile_named(self.lease_profiles@, self.default_lease_profile@) is Some
        &&& profiles_well_formed(self.lease_profiles@)
    }

    /// Five-minute authorizations and a `default` profile with a
    /// fifteen-minute claim lease.
    pub fn default_config() -> (c: Self)
        ensures
            c.authorization_ttl_seconds == 300,
            c.default_lease_profile@ == "default"@,
            c.lease_profiles@.len() == 1,
            c.lease_profiles@[0].0@ == "default"@,
            c.lease_profiles@[0].1 == (LeaseProfile { claim_ttl_seconds: 900 }),
    {
        let mut profiles: Vec<(String, LeaseProfile)> = Vec::new();
        profiles.push((default_lease_profile(), LeaseProfile { claim_ttl_seconds: 900 }));
        LeaseConfig {
            authorization_ttl_seconds: 300,
            default_lease_profile: default_lease_profile(),
            lease_profiles: profiles,
        }
    }

    fn position_of(&self, name: &str) -> (r: Option<usize>)
        ensures
            match r {
                Some(i) => i < self.lease_profiles@.len() && self.lease_profiles@[i as int].0@ == name@
                    && forall|j: int| 0 <= j < i ==> (#[trigger] self.lease_profiles@[j]).0@ != name@,
                None => forall|j: int| 0 <= j < self.lease_profiles@.len() ==> (#[trigger] self.lease_profiles@[j]).0@ != name@,
            },
    {
        let mut i: usize = 0;
        while i < self.lease_profiles.len()
            invariant
                i <= self.lease_profiles.len(),
                forall|j: int| 0 <= j < i ==> (#[trigger] self.lease_profiles@[j]).0@ != name@,
            decreases self.lease_profiles.len() - i,
        {
            if crate::text::str_eq(self.lease_profiles[i].0.as_str(), name) {
                return Some(i);
            }
            i = i + 1;
        }
        None
    }

    /// Check the configuration: a positive authorization lease, a
    /// configured default profile, and non-blank profile names with
    /// positive claim leases.
    pub fn validate(&self) -> (r: Result<(), String>)
        ensures
            r is Ok <==> self.valid(),
            self.authorization_ttl_seconds <= 0 ==> (r matches Err(m) && m@ == "authorization_ttl_seconds must be positive"@),
            self.authorization_ttl_seconds > 0 && profile_named(self.lease_profiles@, self.default_lease_profile@) is None
                ==> (r matches Err(m) && m@ == "default lease profile `"@ + self.default_lease_profile@ + "` is not configured"@),
    {
        if self.authorization_ttl_seconds <= 0 {
            return Err(String::from_str("authorization_ttl_seconds must be positive"));
        }
        match self.position_of(self.default_lease_profile.as_str()) {
            Some(i) => {
                assert(self.lease_profiles@[i as int].0@ == self.default_lease_profile@);
            },
            None => {
                let mut text: Vec<char> = Vec::new();
                crate::text::push_str(&mut text, "default lease profile `");
                crate::text::push_str(&mut text, self.default_lease_profile.as_str());
                crate::text::push_str(&mut text, "` is not configured");
                return Err(string_from_chars(text.as_slice()));
            },
        }
        let mut i: usize = 0;
        while i < self.lease_profiles.len()
            invariant
                self.authorization_ttl_seconds > 0,
                profile_named(self.lease_profiles@, self.default_lease_profile@) is Some,
                i <= self.lease_profiles.len(),
                forall|j: int| 0 <= j < i ==> {
                    &&& !crate::text::is_blank((#[trigger] self.lease_profiles@[j]).0@)
                    &&& self.lease_profiles@[j].1.claim_ttl_seconds > 0
                },
            decreases self.lease_profiles.len() - i,
        {
            let name = &self.lease_profiles[i].0;
            if crate::text::str_is_blank(name.as_str()) {
                return Err(String::from_str("lease profile names cannot be empty"));
            }
            if self.lease_profiles[i].1.claim_ttl_seconds <= 0 {
                let mut text: Vec<char> = Vec::new();
                crate::text::push_str(&mut text, "lease profile `");
                crate::text::push_str(&mut text, name.as_str());
                crate::text::push_str(&mut text, "` claim_ttl_seconds must be positive");
                return Err(string_from_chars(text.as_slice()));
            }
            i = i + 1;
        }
        Ok(())
    }

    /// The profile named `name`.
    pub fn lease_profile(&self, name: &str) -> (r: Option<LeaseProfile>)
        requires
            profile_names_unique(self.lease_profiles@),
        ensures
            r == profile_named(self.lease_profiles@, name@),
    {
        match self.position_of(name) {
            Some(i) => {
                proof {
                    let k = choose|k: int| 0 <= k < self.lease_profiles@.len() && (#[trigger] self.lease_profiles@[k]).0@ == name@;
                    if k != i {
                        assert((self.lease_profiles@[k]).0@ != (self.lease_profiles@[i as int]).0@);
                    }
                }
                Some(self.lease_profiles[i].1)
            },
            None => None,
        }
    }
}

impl Default for LeaseConfig {
    fn default() -> (c: Self)
        ensures
            c.authorization_ttl_seconds == 300,
            c.default_lease_profile@ == "default"@,
            c.lease_profiles@.len() == 1,
            c.lease_profiles@[0].0@ == "default"@,
            c.lease_profiles@[0].1 == (LeaseProfile { claim_ttl_seconds: 900 }),
    {
        LeaseConfig::default_config()
    }
}

/// Immutable log of one evaluated spend decision.
#[derive(Debug)]
pub struct SpendDecisionRecord {
    pub id: SpendDecisionId,
    pub owner_user_id: UserId,
    pub operation_key: String,
    pub revision: u64,
    pub actor: String,
    pub request: SpendRequest,
    pub evaluation: Evaluation,
    pub created_at: i64,
}

impl Clone for SpendDecisionRecord {
    fn clone(&self) -> (r: Self)
        ensures
            r.id == self.id,
            r.owner_user_id == self.owner_user_id,
            r.operation_key == self.operation_key,
            r.revision == self.revision,
            r.actor == self.actor,
            r.request == self.request,
            r.evaluation.decision == self.evaluation.decision,
            r.evaluation.reasons@ == self.evaluation.reasons@,
            r.evaluation.policy_id == self.evaluation.policy_id,
            r.evaluation.policy_version == self.evaluation.policy_version,
            r.evaluation.rule_results@ == self.evaluation.rule_results@,
            r.created_at == self.created_at,
    {
        SpendDecisionRecord {
            id: self.id,
            owner_user_id: self.owner_user_id,
            operation_key: self.operation_key.clone(),
            revision: self.revision,
            actor: self.actor.clone(),
            request: self.request.clone(),
            evaluation: self.evaluation.clone(),
            created_at: self.created_at,
        }
    }
}

/// The auth token issued for one allowed spend decision.
#[derive(Clone, Copy, Debug, PartialEq, Eq, Structural)]
pub struct SpendAuthTokenRecord {
    pub id: SpendAuthTokenId,
    pub owner_user_id: UserId,
    pub spend_decision_id: SpendDecisionId,
    pub expires_at: i64,
    pub claim_ttl_seconds: i64,
    pub used_at: Option<i64>,
    pub used_by_payment_id: Option<PaymentId>,
    pub revoked_at: Option<i64>,
}

#[derive(Clone, Copy, Debug, PartialEq, Eq, Structural)]
pub enum SpendRetryAction {
    ReuseOperationKey,
    ReplayExactly,
    CreateNewOperation,
}

impl SpendRetryAction {
    /// The snake_case name used on the wire.
    pub fn as_str(&self) -> (s: &'static str)
        ensures
            s@ == retry_action_name(*self),
    {
        match self {
            SpendRetryAction::ReuseOperationKey => "reuse_operation_key",
            SpendRetryAction::ReplayExactly => "replay_exactly",
            SpendRetryAction::CreateNewOperation => "create_new_operation",
        }
    }
}

pub open spec fn retry_action_name(a: SpendRetryAction) -> Seq<char> {
    match a {
        SpendRetryAction::ReuseOperationKey => "reuse_operation_key"@,
        SpendRetryAction::ReplayExactly => "replay_exactly"@,
        SpendRetryAction::CreateNewOperation => "create_new_operation"@,
    }
}

/// What a caller should do with its operation key next.
#[derive(Debug)]
pub struct SpendRetryGuidance {
    pub action: SpendRetryAction,
    pub operation_key: String,
    pub message: String,
}

impl Clone for SpendRetryGuidance {
    fn clone(&self) -> (r: Self)
        ensures
            r == *self,
    {
        SpendRetryGuidance { action: self.action, operation_key: self.operation_key.clone(), message: self.message.clone() }
    }
}

#[derive(Clone, Copy, Debug, PartialEq, Eq, Structural)]
pub enum SpendAuthorizationDecision {
    PendingApproval,
    Denied,
    Allowed,
}

impl SpendAuthorizationDecision {
    /// The snake_case name used on the wire.
    pub fn as_str(&self) -> (s: &'static str)
        ensures
            s@ == authorization_decision_name(*self),
    {
        match self {
            SpendAuthorizationDecision::PendingApproval => "pending_approval",
            SpendAuthorizationDecision::Denied => "denied",
            SpendAuthorizationDecision::Allowed => "allowed",
        }
    }
}

pub open spec fn authorization_decision_name(d: SpendAuthorizationDecision) -> Seq<char> {
    match d {
        SpendAuthorizationDecision::PendingApproval => "pending_approval"@,
        SpendAuthorizationDecision::Denied => "denied"@,
        SpendAuthorizationDecision::Allowed => "allowed"@,
    }
}

/// One attempt made under an operation key, as the audit trail records it.
#[derive(Debug)]
pub struct SpendAttemptAuditRecord {
    pub revision: u64,
    pub request: SpendRequest,
    pub actor: String,
    pub submitted_at: i64,
    pub decision_id: Option<SpendDecisionId>,
    pub final_decision: SpendAuthorizationDecision,
    pub decided_at: i64,
    pub reasons: Vec<String>,
}

/// The identifier and expiry of an issued auth token.
#[derive(Clone, Copy, Debug, PartialEq, Eq, Structural)]
pub struct IssuedSpendAuthToken {
    pub id: SpendAuthTokenId,
    pub expires_at: i64,
}

/// The outcome of evaluating one spend request under an operation key.
#[derive(Debug)]
pub struct SpendEvaluationResponse {
    pub operation_key: String,
    pub decision_id: SpendDecisionId,
    pub evaluation: Evaluation,
    pub auth_token: Option<IssuedSpendAuthToken>,
    pub idempotent_replay: bool,
    pub revision: u64,
    pub retry_guidance: SpendRetryGuidance,
    pub attempt_history: Vec<SpendAttemptAuditRecord>,
}

/// A payment that presents an auth token, with the spend it claims.
#[derive(Debug)]
pub struct SpendPaymentValidationRequest {
    pub spend_auth_token_id: SpendAuthTokenId,
    pub owner_user_id: UserId,
    pub agent_id: AgentId,
    pub agent_account_id: AgentAccountId,
    pub amount_cents: i64,
    pub currency: Currency,
    pub merchant: Option<String>,
    pub execution_scope: Option<ExecutionScope>,
    pub task_id: Option<String>,
}

/// An auth token that a payment or claim may use.
#[derive(Clone, Copy, Debug, PartialEq, Eq, Structural)]
pub struct ValidatedSpendAuthorization {
    pub spend_auth_token_id: SpendAuthTokenId,
    pub owner_user_id: UserId,
    pub spend_decision_id: SpendDecisionId,
    pub expires_at: i64,
}

#[derive(Clone, Copy, Debug, PartialEq, Eq, Structural)]
pub enum SpendExecutorClaimStatus {
    Claimed,
    Settled,
    Released,
}

/// An executor's exclusive claim on one auth token.
#[derive(Debug)]
pub struct SpendExecutorClaimRecord {
    pub id: SpendExecutorClaimId,
    pub spend_auth_token_id: SpendAuthTokenId,
    pub owner_user_id: UserId,
    pub agent_id: AgentId,
    pub operation_key: String,
    pub lease_profile: String,
    pub status: SpendExecutorClaimStatus,
    pub claimed_at: i64,
    pub expires_at: i64,
    pub finalized_at: Option<i64>,
    pub settlement_id: Option<PaymentId>,
    pub provider_reference: Option<String>,
    pub reconciliation_evidence: Option<String>,
    pub reconciled_at: Option<i64>,
    pub reconciled_by_user_id: Option<UserId>,
}

impl Clone for SpendExecutorClaimRecord {
    fn clone(&self) -> (r: Self)
        ensures
            r == *self,
    {
        SpendExecutorClaimRecord {
            id: self.id,
            spend_auth_token_id: self.spend_auth_token_id,
            owner_user_id: self.owner_user_id,
            agent_id: self.agent_id,
            operation_key: self.operation_key.clone(),
            lease_profile: self.lease_profile.clone(),
            status: self.status,
            claimed_at: self.claimed_at,
            expires_at: self.expires_at,
            finalized_at: self.finalized_at,
            settlement_id: self.settlement_id,
            provider_reference: clone_opt_string(&self.provider_reference),
            reconciliation_evidence: clone_opt_string(&self.reconciliation_evidence),
            reconciled_at: self.reconciled_at,
            reconciled_by_user_id: self.reconciled_by_user_id,
        }
    }
}

/// The provider's price model that a settlement was computed under.
#[derive(Debug)]
pub struct SpendExecutorPriceModelSnapshot {
    pub provider: String,
    pub model: String,
    pub unit_price_cents: i64,
    pub pricing_unit: String,
    pub currency: Currency,
}

pub const MAX_VENDOR_COST_DECIMAL_SCALE: u32 = 18;

/// `10` to the power `n`.
pub open spec fn pow10(n: nat) -> int
    decreases n,
{
    if n == 0 {
        1
    } else {
        10 * pow10((n - 1) as nat)
    }
}

/// Exact provider cost: `amount * 10^-scale` major currency units.
#[derive(Clone, Copy, Debug, PartialEq, Eq, Structural)]
pub struct SpendExecutorVendorCost {
    pub amount: i64,
    pub scale: u32,
    pub currency: Currency,
}

/// The cost in cents, rounded up to a whole cent.
pub open spec fn charge_cents(amount: int, scale: nat) -> int {
    if scale <= 2 {
        amount * pow10((2 - scale) as nat)
    } else {
        let d = pow10((scale - 2) as nat);
        amount / d + if amount % d == 0 { 0int } else { 1int }
    }
}

proof fn lemma_pow10_positive(n: nat)
    ensures
        pow10(n) >= 1,
    decreases n,
{
    if n > 0 {
        lemma_pow10_positive((n - 1) as nat);
    }
}

impl SpendExecutorVendorCost {
    /// The budget charge in cents, rounded toward positive infinity so an
    /// externally billed cost is never understated.
    pub fn conservative_budget_charge_cents(&self) -> (r: Result<i64, &'static str>)
        ensures
            self.amount < 0 ==> (r matches Err(m) && m@ == "actual vendor cost cannot be negative"@),
            self.amount >= 0 && self.scale > 18 ==> (r matches Err(m) && m@ == "actual vendor cost scale cannot exceed 18"@),
            self.amount >= 0 && self.scale <= 18 ==> match r {
                Ok(c) => c == charge_cents(self.amount as int, self.scale as nat),
                Err(m) => charge_cents(self.amount as int, self.scale as nat) > i64::MAX
                    && m@ == "actual vendor cost cannot be represented in budget cents"@,
            },
    {
        if self.amount < 0 {
            return Err("actual vendor cost cannot be negative");
        }
        if self.scale > MAX_VENDOR_COST_DECIMAL_SCALE {
            return Err("actual vendor cost scale cannot exceed 18");
        }
        if self.scale <= 2 {
            let multiplier: i64 = if self.scale == 0 { 100 } else if self.scale == 1 { 10 } else { 1 };
            assert(multiplier == pow10((2 - self.scale) as nat)) by {
                reveal_with_fuel(pow10, 3);
            }
            return match self.amount.checked_mul(multiplier) {
                Some(c) => Ok(c),
                None => Err("actual vendor cost cannot be represented in budget cents"),
            };
        }
        let mut divisor: i64 = 1;
        let mut k: u32 = 0;
        while k < self.scale - 2
            invariant
                2 < self.scale <= 18,
                k <= self.scale - 2,
                divisor == pow10(k as nat),
                1 <= divisor <= 10000000000000000,
            decreases self.scale - 2 - k,
        {
            assert(pow10((k + 1) as nat) == 10 * pow10(k as nat));
            assert(k <= 15);
            proof { lemma_pow10_bound(k as nat); }
            assert(divisor <= 1000000000000000);
            assert(divisor * 10 <= 10000000000000000);
            divisor = divisor * 10;
            k = k + 1;
        }
        proof { lemma_pow10_positive(k as nat); }
        let quotient = self.amount / divisor;
        if self.amount % divisor == 0 {
            Ok(quotient)
        } else {
            assert(quotient <= self.amount) by (nonlinear_arith)
                requires
                    quotient == self.amount / divisor,
                    divisor >= 1,
                    self.amount >= 0;
            assert(quotient < i64::MAX) by (nonlinear_arith)
                requires
                    quotient == self.amount / divisor,
                    divisor >= 10,
                    self.amount >= 0;
            Ok(quotient + 1)
        }
    }
}

proof fn lemma_pow10_bound(k: nat)
    requires
        k <= 15,
    ensures
        pow10(k) <= 1000000000000000,
    decreases k,
{
    reveal_with_fuel(pow10, 16);
    if k > 0 {
        lemma_pow10_bound((k - 1) as nat);
    }
}

/// A settlement receipt as an executor reports it. The price model is
/// kept as the JSON text that was reported.
#[derive(Debug)]
pub struct SpendExecutorSettlementReceipt {
    pub actual_vendor_cost: SpendExecutorVendorCost,
    pub provider_request_id: String,
    pub price_model_snapshot: String,
    pub artifact_reference: String,
}

/// Why receipt fields do not form a settlement receipt.
#[derive(Clone, Copy, Debug, PartialEq, Eq, Structural)]
pub enum ReceiptShapeError {
    /// Both the exact cost and the legacy cents were reported.
    MixedCostFields,
    /// Neither the exact cost nor the legacy cents was reported.
    MissingCost,
}

/// The exact cost that legacy cents stand for: the same amount at scale 2.
pub open spec fn legacy_cents_cost(cents: i64) -> SpendExecutorVendorCost {
    SpendExecutorVendorCost { amount: cents, scale: 2, currency: Currency::Usd }
}

/// A settlement receipt from its reported fields. An executor reports either
/// the exact cost or, as older executors did, the cost in cents; cents become
/// an exact cost at scale 2. Reporting both, or neither, is refused.
pub fn settlement_receipt_from_fields(
    actual_vendor_cost: Option<SpendExecutorVendorCost>,
    actual_vendor_cost_cents: Option<i64>,
    provider_request_id: String,
    price_model_snapshot: String,
    artifact_reference: String,
) -> (r: Result<SpendExecutorSettlementReceipt, ReceiptShapeError>)
    ensures
        match (actual_vendor_cost, actual_vendor_cost_cents) {
            (Some(cost), None) => r matches Ok(x) && x.actual_vendor_cost == cost
                && x.provider_request_id == provider_request_id && x.price_model_snapshot == price_model_snapshot
                && x.artifact_reference == artifact_reference,
            (None, Some(cents)) => r matches Ok(x) && x.actual_vendor_cost == legacy_cents_cost(cents)
                && x.provider_request_id == provider_request_id && x.price_model_snapshot == price_model_snapshot
                && x.artifact_reference == artifact_reference,
            (Some(_), Some(_)) => r == Err::<SpendExecutorSettlementReceipt, ReceiptShapeError>(
                ReceiptShapeError::MixedCostFields,
            ),
            (None, None) => r == Err::<SpendExecutorSettlementReceipt, ReceiptShapeError>(
                ReceiptShapeError::MissingCost,
            ),
        },
{
    let cost = match (actual_vendor_cost, actual_vendor_cost_cents) {
        (Some(cost), None) => cost,
        (None, Some(cents)) => SpendExecutorVendorCost { amount: cents, scale: 2, currency: Currency::Usd },
        (Some(_), Some(_)) => return Err(ReceiptShapeError::MixedCostFields),
        (None, None) => return Err(ReceiptShapeError::MissingCost),
    };
    Ok(SpendExecutorSettlementReceipt {
        actual_vendor_cost: cost,
        provider_request_id,
        price_model_snapshot,
        artifact_reference,
    })
}

/// The message refusing a vendor cost currency.
pub open spec fn unsupported_currency_text(code: Seq<char>) -> Seq<char> {
    "unsupported actual vendor cost currency `"@ + code + "`"@
}

/// The currency of an actual vendor cost, whose code is accepted in any
/// ASCII case.
pub fn parse_vendor_cost_currency(code: &str) -> (r: Result<Currency, String>)
    ensures
        eq_ignore_ascii_case(code@, "usd"@) ==> r == Ok::<Currency, String>(Currency::Usd),
        !eq_ignore_ascii_case(code@, "usd"@) ==> (r matches Err(m) && m@ == unsupported_currency_text(code@)),
{
    if str_eq_ignore_ascii_case(code, "usd") {
        Ok(Currency::Usd)
    } else {
        let mut out: Vec<char> = Vec::new();
        push_str(&mut out, "unsupported actual vendor cost currency `");
        push_str(&mut out, code);
        push_str(&mut out, "`");
        Err(string_from_chars(out.as_slice()))
    }
}

/// A settlement receipt as it was stored, with the amounts it moved.
#[derive(Debug)]
pub struct PersistedSpendExecutorSettlementReceipt {
    pub claim_id: SpendExecutorClaimId,
    pub settlement_id: PaymentId,
    pub authorized_max_cents: i64,
    pub budget_charge_cents: i64,
    pub released_amount_cents: i64,
    pub overrun_amount_cents: i64,
    pub currency: Currency,
    pub receipt: SpendExecutorSettlementReceipt,
    pub created_at: i64,
}

/// A claim request: the authorization it presents and its operation key.
#[derive(Debug)]
pub struct SpendExecutorClaimRequest {
    pub authorization: SpendPaymentValidationRequest,
    pub operation_key: String,
}

/// The identity an executor presents to act on a claim.
#[derive(Debug)]
pub struct SpendExecutorClaimValidationRequest {
    pub owner_user_id: UserId,
    pub agent_id: AgentId,
    pub operation_key: String,
}

} // verus!
