//! Versioned, transport-neutral contract shared across the executor boundary.
use vstd::prelude::*;

use crate::text::{chars_of, eq_ignore_ascii_case, str_eq_ignore_ascii_case, trim, trim_str};

verus! {

pub const EXECUTOR_CONTRACT: &'static str = "hubu-spend-executor-v4";

pub const EXECUTION_SCOPE_SCHEMA_VERSION: u32 = 1;

pub const AUTHORIZATION_SCOPE_SCHEMA_VERSION: u32 = 1;

/// Operator-facing selector: each part names a scope identity by its stable
/// id or, ignoring ASCII case, by its display name.
#[derive(Debug)]
pub struct ExecutionScopeSelector {
    pub schema_version: u32,
    pub provider: String,
    pub executor: String,
    pub capability: String,
    pub billing_merchant: String,
}

#[derive(Debug, PartialEq, Eq)]
pub struct ScopeIdentity {
    pub id: String,
    pub display_name: String,
}

impl Clone for ScopeIdentity {
    fn clone(&self) -> (r: Self)
        ensures
            r == *self,
    {
        ScopeIdentity { id: self.id.clone(), display_name: self.display_name.clone() }
    }
}

impl ScopeIdentity {
    /// Field-wise equality of the characters of both strings.
    pub open spec fn same_as(self, other: ScopeIdentity) -> bool {
        self.id@ == other.id@ && self.display_name@ == other.display_name@
    }

    pub fn equals(&self, other: &ScopeIdentity) -> (r: bool)
        ensures
            r == self.same_as(*other),
    {
        self.id == other.id && self.display_name == other.display_name
    }
}

/// The exact provider, executor, capability and billing merchant of one
/// governed execution.
#[derive(Debug, PartialEq, Eq)]
pub struct ExecutionScope {
    pub schema_version: u32,
    pub provider: ScopeIdentity,
    pub executor: ScopeIdentity,
    pub capability: ScopeIdentity,
    pub billing_merchant: ScopeIdentity,
}

impl Clone for ExecutionScope {
    fn clone(&self) -> (r: Self)
        ensures
            r == *self,
    {
        ExecutionScope {
            schema_version: self.schema_version,
            provider: self.provider.clone(),
            executor: self.executor.clone(),
            capability: self.capability.clone(),
            billing_merchant: self.billing_merchant.clone(),
        }
    }
}

impl ExecutionScope {
    pub open spec fn same_as(self, other: ExecutionScope) -> bool {
        &&& self.schema_version == other.schema_version
        &&& self.provider.same_as(other.provider)
        &&& self.executor.same_as(other.executor)
        &&& self.capability.same_as(other.capability)
        &&& self.billing_merchant.same_as(other.billing_merchant)
    }

    pub fn equals(&self, other: &ExecutionScope) -> (r: bool)
        ensures
            r == self.same_as(*other),
    {
        self.schema_version == other.schema_version && self.provider.equals(&other.provider)
            && self.executor.equals(&other.executor) && self.capability.equals(&other.capability)
            && self.billing_merchant.equals(&other.billing_merchant)
    }
}

/// Equality of two optional scopes, comparing strings by their characters.
pub open spec fn same_optional_scope(a: Option<ExecutionScope>, b: Option<ExecutionScope>) -> bool {
    match (a, b) {
        (None, None) => true,
        (Some(x), Some(y)) => x.same_as(y),
        _ => false,
    }
}

pub fn optional_scopes_equal(a: &Option<ExecutionScope>, b: &Option<ExecutionScope>) -> (r: bool)
    ensures
        r == same_optional_scope(*a, *b),
{
    match (a, b) {
        (None, None) => true,
        (Some(x), Some(y)) => x.equals(y),
        _ => false,
    }
}

pub fn clone_optional_scope(a: &Option<ExecutionScope>) -> (r: Option<ExecutionScope>)
    ensures
        r == *a,
{
    match a {
        None => None,
        Some(scope) => Some(scope.clone()),
    }
}

#[derive(Debug)]
pub struct AuthorizationAmount {
    pub amount_minor: i64,
    pub currency: String,
}

#[derive(Debug)]
pub struct AuthorizationTask {
    pub task_id: String,
    pub reason: String,
    pub semantics: String,
}

#[derive(Debug)]
pub struct AuthorizationWorkload {
    pub workload_type: String,
    pub profile: String,
}

#[derive(Debug)]
pub struct AuthorizationExpiryGuidance {
    pub authorization_ttl_seconds: i64,
    pub claim_ttl_seconds: i64,
    pub guidance: String,
}

/// Exact operator-owned scope that must be used to issue a token for one
/// planned execution. Display names are descriptive; stable ids carry
/// authority through [`ExecutionScope`].
#[derive(Debug)]
pub struct AuthorizationScope {
    pub schema_version: u32,
    pub executor_contract: String,
    pub account_id: String,
    pub agent_id: String,
    pub operation_key: String,
    pub authorization: AuthorizationAmount,
    pub execution_scope: ExecutionScope,
    pub task: AuthorizationTask,
    pub workload: AuthorizationWorkload,
    pub expiry: AuthorizationExpiryGuidance,
}

#[derive(Clone, Copy, Debug, PartialEq, Eq, Structural)]
pub enum ScopeResolutionError {
    UnsupportedSchema(u32),
    Unknown,
    Ambiguous,
}

/// The identity is named by the trimmed selector: by its id exactly, or by
/// its display name ignoring ASCII case.
pub open spec fn spec_identity_matches(identity: ScopeIdentity, selector: Seq<char>) -> bool {
    identity.id@ == trim(selector) || eq_ignore_ascii_case(identity.display_name@, trim(selector))
}

pub open spec fn spec_scope_matches(scope: ExecutionScope, selector: ExecutionScopeSelector) -> bool {
    &&& spec_identity_matches(scope.provider, selector.provider@)
    &&& spec_identity_matches(scope.executor, selector.executor@)
    &&& spec_identity_matches(scope.capability, selector.capability@)
    &&& spec_identity_matches(scope.billing_merchant, selector.billing_merchant@)
}

pub open spec fn scope_selected(selector: ExecutionScopeSelector) -> spec_fn(ExecutionScope) -> bool {
    |scope: ExecutionScope| spec_scope_matches(scope, selector)
}

/// The catalog entries that the selector names, in catalog order.
pub open spec fn spec_matching_scopes(
    selector: ExecutionScopeSelector,
    catalog: Seq<ExecutionScope>,
) -> Seq<ExecutionScope> {
    catalog.filter(scope_selected(selector))
}

/// What resolving `selector` against `catalog` gives: the one entry it
/// names, or why there is none.
pub open spec fn resolution_outcome(
    selector: ExecutionScopeSelector,
    catalog: Seq<ExecutionScope>,
    r: Result<ExecutionScope, ScopeResolutionError>,
) -> bool {
    &&& selector.schema_version != EXECUTION_SCOPE_SCHEMA_VERSION ==> r == Err::<ExecutionScope, ScopeResolutionError>(
        ScopeResolutionError::UnsupportedSchema(selector.schema_version),
    )
    &&& selector.schema_version == EXECUTION_SCOPE_SCHEMA_VERSION ==> {
        let matches = spec_matching_scopes(selector, catalog);
        &&& matches.len() == 0 ==> r == Err::<ExecutionScope, ScopeResolutionError>(ScopeResolutionError::Unknown)
        &&& matches.len() == 1 ==> r == Ok::<ExecutionScope, ScopeResolutionError>(matches[0])
        &&& matches.len() > 1 ==> r == Err::<ExecutionScope, ScopeResolutionError>(ScopeResolutionError::Ambiguous)
    }
}

pub fn identity_matches(identity: &ScopeIdentity, selector: &str) -> (r: bool)
    ensures
        r == spec_identity_matches(*identity, selector@),
{
    let selector = trim_str(selector);
    identity.id == selector || str_eq_ignore_ascii_case(identity.display_name.as_str(), selector.as_str())
}

fn scope_matches(scope: &ExecutionScope, selector: &ExecutionScopeSelector) -> (r: bool)
    ensures
        r == spec_scope_matches(*scope, *selector),
{
    identity_matches(&scope.provider, selector.provider.as_str())
        && identity_matches(&scope.executor, selector.executor.as_str())
        && identity_matches(&scope.capability, selector.capability.as_str())
        && identity_matches(&scope.billing_merchant, selector.billing_merchant.as_str())
}

/// Resolve a selector against the operator catalog: exactly one entry must
/// match.
pub fn resolve_execution_scope(
    selector: &ExecutionScopeSelector,
    catalog: &[ExecutionScope],
) -> (r: Result<ExecutionScope, ScopeResolutionError>)
    ensures
        resolution_outcome(*selector, catalog@, r),
{
    if selector.schema_version != EXECUTION_SCOPE_SCHEMA_VERSION {
        return Err(ScopeResolutionError::UnsupportedSchema(selector.schema_version));
    }
    let ghost pred = scope_selected(*selector);
    let mut found: Option<usize> = None;
    let mut count: usize = 0;
    let mut i: usize = 0;
    while i < catalog.len()
        invariant
            i <= catalog.len(),
            pred == scope_selected(*selector),
            selector.schema_version == EXECUTION_SCOPE_SCHEMA_VERSION,
            count as int == catalog@.take(i as int).filter(pred).len(),
            count <= 1,
            found is Some <==> count == 1,
            count == 1 ==> found->0 < i && catalog@.take(i as int).filter(pred)[0] == catalog@[found->0 as int],
        decreases catalog.len() - i,
    {
        let matched = scope_matches(&catalog[i], selector);
        proof {
            let s = catalog@.take(i as int);
            let t = catalog@.take(i + 1);
            assert(t.drop_last() =~= s);
            assert(t.last() == catalog@[i as int]);
            reveal_with_fuel(Seq::<_>::filter, 1);
            assert(t.filter(pred) == if pred(catalog@[i as int]) { s.filter(pred).push(catalog@[i as int]) } else { s.filter(pred) });
        }
        if matched {
            if count == 1 {
                proof {
                    catalog@.lemma_filter_take_len(pred, i + 1);
                }
                return Err(ScopeResolutionError::Ambiguous);
            }
            found = Some(i);
            count = 1;
        }
        i = i + 1;
    }
    assert(catalog@.take(catalog.len() as int) =~= catalog@);
    match found {
        None => Err(ScopeResolutionError::Unknown),
        Some(index) => Ok(catalog[index].clone()),
    }
}

/// How many entries a filter keeps: none when no entry answers, the one
/// entry that answers when it keeps one, and two distinct answering entries
/// when it keeps more.
proof fn lemma_filter_count<A>(s: Seq<A>, p: spec_fn(A) -> bool)
    ensures
        s.filter(p).len() == 0 ==> forall|i: int| 0 <= i < s.len() ==> !p(#[trigger] s[i]),
        s.filter(p).len() == 1 ==> exists|i: int| 0 <= i < s.len() && p(#[trigger] s[i]) && s.filter(p)[0] == s[i]
            && forall|j: int| 0 <= j < s.len() && j != i ==> !p(#[trigger] s[j]),
        s.filter(p).len() >= 2 ==> exists|i: int, j: int| 0 <= i < j < s.len() && p(#[trigger] s[i]) && p(#[trigger] s[j]),
    decreases s.len(),
{
    reveal_with_fuel(Seq::<_>::filter, 1);
    if s.len() > 0 {
        let d = s.drop_last();
        lemma_filter_count(d, p);
        let n = d.len() as int;
        assert forall|k: int| 0 <= k < n implies #[trigger] s[k] == d[k] by {}
        assert(s[n] == s.last());
        if p(s.last()) {
            if d.filter(p).len() == 1 {
                let i = choose|i: int| 0 <= i < d.len() && p(#[trigger] d[i]) && d.filter(p)[0] == d[i]
                    && forall|j: int| 0 <= j < d.len() && j != i ==> !p(#[trigger] d[j]);
                assert(p(s[i]) && p(s[n]));
            } else if d.filter(p).len() >= 2 {
                let (i, j) = choose|i: int, j: int| 0 <= i < j < d.len() && p(#[trigger] d[i]) && p(#[trigger] d[j]);
                assert(p(s[i]) && p(s[j]));
            } else {
                assert(s.filter(p)[0] == s[n]);
                assert forall|j: int| 0 <= j < s.len() && j != n implies !p(#[trigger] s[j]) by {
                    assert(s[j] == d[j]);
                }
            }
        } else {
            assert(s.filter(p) == d.filter(p));
            if d.filter(p).len() == 1 {
                let i = choose|i: int| 0 <= i < d.len() && p(#[trigger] d[i]) && d.filter(p)[0] == d[i]
                    && forall|j: int| 0 <= j < d.len() && j != i ==> !p(#[trigger] d[j]);
                assert(p(s[i]));
                assert forall|j: int| 0 <= j < s.len() && j != i implies !p(#[trigger] s[j]) by {
                    if j < n {
                        assert(s[j] == d[j]);
                    }
                }
            } else if d.filter(p).len() >= 2 {
                let (i, j) = choose|i: int, j: int| 0 <= i < j < d.len() && p(#[trigger] d[i]) && p(#[trigger] d[j]);
                assert(p(s[i]) && p(s[j]));
            } else {
                assert forall|j: int| 0 <= j < s.len() implies !p(#[trigger] s[j]) by {
                    if j < n {
                        assert(s[j] == d[j]);
                    }
                }
            }
        }
    }
}

/// A resolved scope is the one catalog entry whose provider, executor,
/// capability and billing merchant are each named by the selector (by id,
/// or by display name ignoring ASCII case, after trimming the selector);
/// the selector is unknown when no entry is so named, and ambiguous only
/// when two entries are.
pub proof fn lemma_resolution_names_every_part(
    selector: ExecutionScopeSelector,
    catalog: Seq<ExecutionScope>,
    r: Result<ExecutionScope, ScopeResolutionError>,
)
    requires
        resolution_outcome(selector, catalog, r),
        selector.schema_version == EXECUTION_SCOPE_SCHEMA_VERSION,
    ensures
        ({
            let named = |scope: ExecutionScope| {
                &&& (scope.provider.id@ == trim(selector.provider@)
                    || eq_ignore_ascii_case(scope.provider.display_name@, trim(selector.provider@)))
                &&& (scope.executor.id@ == trim(selector.executor@)
                    || eq_ignore_ascii_case(scope.executor.display_name@, trim(selector.executor@)))
                &&& (scope.capability.id@ == trim(selector.capability@)
                    || eq_ignore_ascii_case(scope.capability.display_name@, trim(selector.capability@)))
                &&& (scope.billing_merchant.id@ == trim(selector.billing_merchant@)
                    || eq_ignore_ascii_case(scope.billing_merchant.display_name@, trim(selector.billing_merchant@)))
            };
            &&& r matches Ok(found) ==> named(found) && exists|i: int| 0 <= i < catalog.len() && #[trigger] catalog[i] == found
                && forall|j: int| 0 <= j < catalog.len() && j != i ==> !named(#[trigger] catalog[j])
            &&& r matches Err(ScopeResolutionError::Unknown) ==> forall|i: int| 0 <= i < catalog.len() ==> !named(#[trigger] catalog[i])
            &&& r matches Err(ScopeResolutionError::Ambiguous) ==> exists|i: int, j: int| 0 <= i < j < catalog.len()
                && named(#[trigger] catalog[i]) && named(#[trigger] catalog[j])
            &&& r is Ok || r matches Err(ScopeResolutionError::Unknown) || r matches Err(ScopeResolutionError::Ambiguous)
        }),
{
    lemma_filter_count(catalog, scope_selected(selector));
}

} // verus!
