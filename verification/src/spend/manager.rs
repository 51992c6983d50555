//! Spend decisions, the auth tokens issued for allowed ones, and executor
//! claims on those tokens.
use vstd::prelude::*;

use crate::common::{
    now_micros, after_seconds, spec_after_seconds, AgentId, PaymentId, SpendAuthTokenId, SpendDecisionId,
    SpendExecutorClaimId, UserContext, UserId,
};
use crate::executor_contract::{optional_scopes_equal, same_optional_scope, ExecutionScope};
use crate::format::uuid_text;
use crate::lookup::{current_count, 
    last_match, lemma_last_match_at, lemma_last_match_facts, lemma_last_match_none,
    lemma_last_match_push, lemma_last_match_update,
};
use crate::policy::engine::{evaluate_policy, spec_evaluation_of, spec_policy_error, spec_policy_fault};
use crate::policy::model::{Effect, Evaluation, Policy};
use crate::spend::error::SpendError;
use crate::spend::model::{
    opt_strings_equal, profile_named, profile_names_unique, same_opt_string, spec_replay_equivalent, IssuedSpendAuthToken,
    LeaseConfig, SpendAuthTokenRecord, SpendDecisionRecord, SpendEvaluationResponse,
    SpendExecutorClaimRecord, SpendExecutorClaimRequest, SpendExecutorClaimStatus,
    SpendExecutorClaimValidationRequest, SpendPaymentValidationRequest, SpendRequest,
    SpendRetryAction, SpendRetryGuidance, ValidatedSpendAuthorization,
};
use crate::text::{str_eq, trim, trim_str};
use vstd::relations::sorted_by;

verus! {

pub open spec fn decision_is(id: SpendDecisionId) -> spec_fn(SpendDecisionRecord) -> bool {
    |d: SpendDecisionRecord| d.id == id
}

pub open spec fn decision_id_of() -> spec_fn(SpendDecisionRecord) -> SpendDecisionId {
    |d: SpendDecisionRecord| d.id
}

pub open spec fn token_id_of() -> spec_fn(SpendAuthTokenRecord) -> SpendAuthTokenId {
    |t: SpendAuthTokenRecord| t.id
}

pub open spec fn token_is(id: SpendAuthTokenId) -> spec_fn(SpendAuthTokenRecord) -> bool {
    |t: SpendAuthTokenRecord| t.id == id
}

pub open spec fn token_of_decision(id: SpendDecisionId) -> spec_fn(SpendAuthTokenRecord) -> bool {
    |t: SpendAuthTokenRecord| t.spend_decision_id == id
}

pub open spec fn claim_is(id: SpendExecutorClaimId) -> spec_fn(SpendExecutorClaimRecord) -> bool {
    |c: SpendExecutorClaimRecord| c.id == id
}

pub open spec fn claim_of_token(id: SpendAuthTokenId) -> spec_fn(SpendExecutorClaimRecord) -> bool {
    |c: SpendExecutorClaimRecord| c.spend_auth_token_id == id
}

pub open spec fn claim_of_operation(agent: AgentId, key: Seq<char>) -> spec_fn(SpendExecutorClaimRecord) -> bool {
    |c: SpendExecutorClaimRecord| c.agent_id == agent && c.operation_key@ == key
}

/// The decisions, tokens and claims of a spend manager, each in the order
/// they were recorded, and its lease configuration.
pub struct SpendManagerView {
    pub decisions: Seq<SpendDecisionRecord>,
    pub tokens: Seq<SpendAuthTokenRecord>,
    pub claims: Seq<SpendExecutorClaimRecord>,
    pub config: LeaseConfig,
}

impl SpendManagerView {
    pub open spec fn decision(self, id: SpendDecisionId) -> Option<SpendDecisionRecord> {
        match last_match(self.decisions, decision_is(id)) {
            Some(i) => Some(self.decisions[i]),
            None => None,
        }
    }

    pub open spec fn token(self, id: SpendAuthTokenId) -> Option<SpendAuthTokenRecord> {
        match last_match(self.tokens, token_is(id)) {
            Some(i) => Some(self.tokens[i]),
            None => None,
        }
    }

    /// The token issued for decision `id`.
    pub open spec fn token_for_decision(self, id: SpendDecisionId) -> Option<SpendAuthTokenRecord> {
        match last_match(self.tokens, token_of_decision(id)) {
            Some(i) => self.token(self.tokens[i].id),
            None => None,
        }
    }

    pub open spec fn claim(self, id: SpendExecutorClaimId) -> Option<SpendExecutorClaimRecord> {
        match last_match(self.claims, claim_is(id)) {
            Some(i) => Some(self.claims[i]),
            None => None,
        }
    }

    /// The claim made on token `id`.
    pub open spec fn claim_for_token(self, id: SpendAuthTokenId) -> Option<SpendExecutorClaimRecord> {
        match last_match(self.claims, claim_of_token(id)) {
            Some(i) => self.claim(self.claims[i].id),
            None => None,
        }
    }

    /// The claim made under one agent's operation key.
    pub open spec fn claim_for_operation(self, agent: AgentId, key: Seq<char>) -> Option<SpendExecutorClaimRecord> {
        match last_match(self.claims, claim_of_operation(agent, key)) {
            Some(i) => self.claim(self.claims[i].id),
            None => None,
        }
    }

    /// How many decisions were recorded under one agent's operation key.
    pub open spec fn operation_count(self, agent: AgentId, key: Seq<char>) -> nat {
        operation_count(self.decisions, agent, key)
    }
}

/// How many of `decisions` were recorded under one agent's operation key.
pub open spec fn operation_count(decisions: Seq<SpendDecisionRecord>, agent: AgentId, key: Seq<char>) -> nat
    decreases decisions.len(),
{
    if decisions.len() == 0 {
        0
    } else {
        let d = decisions.last();
        operation_count(decisions.drop_last(), agent, key)
            + if d.request.agent_id == agent && d.operation_key@ == key { 1nat } else { 0nat }
    }
}

/// Two evaluations with the same contents.
pub open spec fn same_evaluation(a: Evaluation, b: Evaluation) -> bool {
    &&& a.policy_id == b.policy_id
    &&& a.policy_version == b.policy_version
    &&& a.decision == b.decision
    &&& a.reasons@ == b.reasons@
    &&& a.rule_results@ == b.rule_results@
}

/// Two decision records with the same contents.
pub open spec fn same_decision(a: SpendDecisionRecord, b: SpendDecisionRecord) -> bool {
    &&& a.id == b.id
    &&& a.owner_user_id == b.owner_user_id
    &&& a.operation_key == b.operation_key
    &&& a.revision == b.revision
    &&& a.actor == b.actor
    &&& a.request == b.request
    &&& same_evaluation(a.evaluation, b.evaluation)
    &&& a.created_at == b.created_at
}

/// Spend decisions, the auth tokens issued for allowed ones, and the
/// executor claims on those tokens.
pub struct SpendManager {
    decisions: Vec<SpendDecisionRecord>,
    tokens: Vec<SpendAuthTokenRecord>,
    claims: Vec<SpendExecutorClaimRecord>,
    config: LeaseConfig,
}

impl View for SpendManager {
    type V = SpendManagerView;

    closed spec fn view(&self) -> SpendManagerView {
        SpendManagerView {
            decisions: self.decisions@,
            tokens: self.tokens@,
            claims: self.claims@,
            config: self.config,
        }
    }
}

impl SpendManager {
    /// The lease configuration is usable: its profile names are unique.
    pub open spec fn wf(&self) -> bool {
        profile_names_unique(self@.config.lease_profiles@)
    }

    /// An empty manager with the default lease configuration.
    pub fn new() -> (m: Self)
        ensures
            m.wf(),
            m@.decisions.len() == 0,
            m@.tokens.len() == 0,
            m@.claims.len() == 0,
            m@.config.authorization_ttl_seconds == 300,
            m@.config.default_lease_profile@ == "default"@,
            m@.config.lease_profiles@.len() == 1,
            m@.config.lease_profiles@[0].0@ == "default"@,
            m@.config.lease_profiles@[0].1.claim_ttl_seconds == 900,
    {
        SpendManager {
            decisions: Vec::new(),
            tokens: Vec::new(),
            claims: Vec::new(),
            config: LeaseConfig::default_config(),
        }
    }

    /// Load stored decisions and tokens under the default lease
    /// configuration.
    pub fn from_records(decisions: Vec<SpendDecisionRecord>, tokens: Vec<SpendAuthTokenRecord>) -> (m: Self)
        ensures
            m.wf(),
            m@.decisions == decisions@,
            m@.tokens == tokens@,
            m@.claims.len() == 0,
            m@.config.authorization_ttl_seconds == 300,
            m@.config.lease_profiles@.len() == 1,
            m@.config.lease_profiles@[0].0@ == "default"@,
            m@.config.lease_profiles@[0].1.claim_ttl_seconds == 900,
    {
        SpendManager { decisions, tokens, claims: Vec::new(), config: LeaseConfig::default_config() }
    }

    /// Load stored decisions, tokens and claims under `config`.
    pub fn from_records_with_claims(
        decisions: Vec<SpendDecisionRecord>,
        tokens: Vec<SpendAuthTokenRecord>,
        claims: Vec<SpendExecutorClaimRecord>,
        config: LeaseConfig,
    ) -> (m: Self)
        requires
            profile_names_unique(config.lease_profiles@),
        ensures
            m.wf(),
            m@ == (SpendManagerView { decisions: decisions@, tokens: tokens@, claims: claims@, config }),
    {
        SpendManager { decisions, tokens, claims, config }
    }

    fn decision_pos(&self, id: SpendDecisionId) -> (r: Option<usize>)
        ensures
            match r {
                Some(i) => i < self@.decisions.len() && last_match(self@.decisions, decision_is(id)) == Some(i as int),
                None => last_match(self@.decisions, decision_is(id)) is None,
            },
    {
        let mut i: usize = self.decisions.len();
        while i > 0
            invariant
                i <= self.decisions.len(),
                forall|j: int| i <= j < self.decisions@.len() ==> !decision_is(id)(#[trigger] self.decisions@[j]),
            decreases i,
        {
            i = i - 1;
            if self.decisions[i].id == id {
                proof { lemma_last_match_at(self@.decisions, decision_is(id), i as int); }
                return Some(i);
            }
        }
        proof { lemma_last_match_none(self@.decisions, decision_is(id)); }
        None
    }

    fn token_pos(&self, id: SpendAuthTokenId) -> (r: Option<usize>)
        ensures
            match r {
                Some(i) => i < self@.tokens.len() && last_match(self@.tokens, token_is(id)) == Some(i as int),
                None => last_match(self@.tokens, token_is(id)) is None,
            },
    {
        let mut i: usize = self.tokens.len();
        while i > 0
            invariant
                i <= self.tokens.len(),
                forall|j: int| i <= j < self.tokens@.len() ==> !token_is(id)(#[trigger] self.tokens@[j]),
            decreases i,
        {
            i = i - 1;
            if self.tokens[i].id == id {
                proof { lemma_last_match_at(self@.tokens, token_is(id), i as int); }
                return Some(i);
            }
        }
        proof { lemma_last_match_none(self@.tokens, token_is(id)); }
        None
    }

    fn token_pos_for_decision(&self, id: SpendDecisionId) -> (r: Option<usize>)
        ensures
            match r {
                Some(i) => i < self@.tokens.len() && last_match(self@.tokens, token_of_decision(id)) == Some(i as int),
                None => last_match(self@.tokens, token_of_decision(id)) is None,
            },
    {
        let mut i: usize = self.tokens.len();
        while i > 0
            invariant
                i <= self.tokens.len(),
                forall|j: int| i <= j < self.tokens@.len() ==> !token_of_decision(id)(#[trigger] self.tokens@[j]),
            decreases i,
        {
            i = i - 1;
            if self.tokens[i].spend_decision_id == id {
                proof { lemma_last_match_at(self@.tokens, token_of_decision(id), i as int); }
                return Some(i);
            }
        }
        proof { lemma_last_match_none(self@.tokens, token_of_decision(id)); }
        None
    }

    fn claim_pos(&self, id: SpendExecutorClaimId) -> (r: Option<usize>)
        ensures
            match r {
                Some(i) => i < self@.claims.len() && last_match(self@.claims, claim_is(id)) == Some(i as int),
                None => last_match(self@.claims, claim_is(id)) is None,
            },
    {
        let mut i: usize = self.claims.len();
        while i > 0
            invariant
                i <= self.claims.len(),
                forall|j: int| i <= j < self.claims@.len() ==> !claim_is(id)(#[trigger] self.claims@[j]),
            decreases i,
        {
            i = i - 1;
            if self.claims[i].id == id {
                proof { lemma_last_match_at(self@.claims, claim_is(id), i as int); }
                return Some(i);
            }
        }
        proof { lemma_last_match_none(self@.claims, claim_is(id)); }
        None
    }

    fn claim_pos_for_token(&self, id: SpendAuthTokenId) -> (r: Option<usize>)
        ensures
            match r {
                Some(i) => i < self@.claims.len() && last_match(self@.claims, claim_of_token(id)) == Some(i as int),
                None => last_match(self@.claims, claim_of_token(id)) is None,
            },
    {
        let mut i: usize = self.claims.len();
        while i > 0
            invariant
                i <= self.claims.len(),
                forall|j: int| i <= j < self.claims@.len() ==> !claim_of_token(id)(#[trigger] self.claims@[j]),
            decreases i,
        {
            i = i - 1;
            if self.claims[i].spend_auth_token_id == id {
                proof { lemma_last_match_at(self@.claims, claim_of_token(id), i as int); }
                return Some(i);
            }
        }
        proof { lemma_last_match_none(self@.claims, claim_of_token(id)); }
        None
    }

    fn claim_pos_for_operation(&self, agent: AgentId, key: &str) -> (r: Option<usize>)
        ensures
            match r {
                Some(i) => i < self@.claims.len() && last_match(self@.claims, claim_of_operation(agent, key@)) == Some(i as int),
                None => last_match(self@.claims, claim_of_operation(agent, key@)) is None,
            },
    {
        let mut i: usize = self.claims.len();
        while i > 0
            invariant
                i <= self.claims.len(),
                forall|j: int| i <= j < self.claims@.len() ==> !claim_of_operation(agent, key@)(#[trigger] self.claims@[j]),
            decreases i,
        {
            i = i - 1;
            if self.claims[i].agent_id == agent && str_eq(self.claims[i].operation_key.as_str(), key) {
                proof { lemma_last_match_at(self@.claims, claim_of_operation(agent, key@), i as int); }
                return Some(i);
            }
        }
        proof { lemma_last_match_none(self@.claims, claim_of_operation(agent, key@)); }
        None
    }

    /// How many decisions the manager holds, one per decision id.
    pub fn decision_count(&self) -> (n: usize)
        ensures
            n == current_count(self@.decisions, decision_id_of(), self@.decisions.len() as int),
    {
        let mut n: usize = 0;
        let mut i: usize = 0;
        while i < self.decisions.len()
            invariant
                i <= self.decisions.len(),
                n == current_count(self@.decisions, decision_id_of(), i as int),
                n <= i,
            decreases self.decisions.len() - i,
        {
            let mut replaced = false;
            let mut j: usize = i + 1;
            while j < self.decisions.len()
                invariant
                    i < j <= self.decisions.len(),
                    replaced == exists|k: int| i < k < j && (#[trigger] self@.decisions[k]).id == self@.decisions[i as int].id,
                decreases self.decisions.len() - j,
            {
                if self.decisions[j].id == self.decisions[i].id {
                    replaced = true;
                }
                j = j + 1;
            }
            if !replaced {
                n = n + 1;
            }
            proof {
                if replaced {
                    let k = choose|k: int| i < k < j && (#[trigger] self@.decisions[k]).id == self@.decisions[i as int].id;
                    assert(decision_id_of()(self@.decisions[k]) == decision_id_of()(self@.decisions[i as int]));
                }
            }
            i = i + 1;
        }
        n
    }

    /// How many tokens the manager holds, one per token id.
    pub fn token_count(&self) -> (n: usize)
        ensures
            n == current_count(self@.tokens, token_id_of(), self@.tokens.len() as int),
    {
        let mut n: usize = 0;
        let mut i: usize = 0;
        while i < self.tokens.len()
            invariant
                i <= self.tokens.len(),
                n == current_count(self@.tokens, token_id_of(), i as int),
                n <= i,
            decreases self.tokens.len() - i,
        {
            let mut replaced = false;
            let mut j: usize = i + 1;
            while j < self.tokens.len()
                invariant
                    i < j <= self.tokens.len(),
                    replaced == exists|k: int| i < k < j && (#[trigger] self@.tokens[k]).id == self@.tokens[i as int].id,
                decreases self.tokens.len() - j,
            {
                if self.tokens[j].id == self.tokens[i].id {
                    replaced = true;
                }
                j = j + 1;
            }
            if !replaced {
                n = n + 1;
            }
            proof {
                if replaced {
                    let k = choose|k: int| i < k < j && (#[trigger] self@.tokens[k]).id == self@.tokens[i as int].id;
                    assert(token_id_of()(self@.tokens[k]) == token_id_of()(self@.tokens[i as int]));
                }
            }
            i = i + 1;
        }
        n
    }

    /// The recorded decision `decision_id`.
    pub fn decision_record(&self, decision_id: &SpendDecisionId) -> (r: Option<SpendDecisionRecord>)
        ensures
            match self@.decision(*decision_id) {
                None => r is None,
                Some(d) => r matches Some(x) && same_decision(x, d),
            },
    {
        match self.decision_pos(*decision_id) {
            Some(i) => Some(self.decisions[i].clone()),
            None => None,
        }
    }

    /// The token `token_id`.
    pub fn auth_token_record(&self, token_id: &SpendAuthTokenId) -> (r: Option<SpendAuthTokenRecord>)
        ensures
            r == self@.token(*token_id),
    {
        match self.token_pos(*token_id) {
            Some(i) => Some(self.tokens[i]),
            None => None,
        }
    }

    /// The claim `claim_id`.
    pub fn executor_claim_record(&self, claim_id: &SpendExecutorClaimId) -> (r: Option<SpendExecutorClaimRecord>)
        ensures
            r == self@.claim(*claim_id),
    {
        match self.claim_pos(*claim_id) {
            Some(i) => Some(self.claims[i].clone()),
            None => None,
        }
    }

    /// The claim made under one agent's operation key.
    pub fn executor_claim_for_operation(&self, agent_id: &AgentId, operation_key: &str) -> (r: Option<SpendExecutorClaimRecord>)
        ensures
            r == self@.claim_for_operation(*agent_id, operation_key@),
    {
        match self.claim_pos_for_operation(*agent_id, operation_key) {
            Some(i) => {
                let id = self.claims[i].id;
                self.executor_claim_record(&id)
            },
            None => None,
        }
    }

    /// Publish a claim and its token as storage finalized them.
    pub fn apply_persisted_executor_finalization(&mut self, claim: SpendExecutorClaimRecord, token: SpendAuthTokenRecord)
        ensures
            final(self)@.decisions == old(self)@.decisions,
            final(self)@.config == old(self)@.config,
            final(self)@.tokens == old(self)@.tokens.push(token),
            final(self)@.claims == old(self)@.claims.push(claim),
    {
        self.tokens.push(token);
        self.claims.push(claim);
    }
}


/// Decision `k` of `s` was recorded under one agent's operation key and
/// the current record under its id replays `request`.
pub open spec fn replays_at(s: SpendManagerView, agent: AgentId, key: Seq<char>, request: SpendRequest, k: int) -> bool {
    &&& 0 <= k < s.decisions.len()
    &&& s.decisions[k].request.agent_id == agent
    &&& s.decisions[k].operation_key@ == key
    &&& s.decision(s.decisions[k].id) matches Some(d)
    &&& spec_replay_equivalent(d.request, request)
}

/// The position of the earliest of the first `n` decisions that replays
/// `request` under one agent's operation key.
pub open spec fn first_replay_within(s: SpendManagerView, agent: AgentId, key: Seq<char>, request: SpendRequest, n: int) -> Option<int>
    decreases n,
{
    if n <= 0 {
        None
    } else {
        match first_replay_within(s, agent, key, request, n - 1) {
            Some(k) => Some(k),
            None => if replays_at(s, agent, key, request, n - 1) { Some(n - 1) } else { None },
        }
    }
}

/// The earliest decision under one agent's operation key that replays
/// `request`, if any.
pub open spec fn first_replay(s: SpendManagerView, agent: AgentId, key: Seq<char>, request: SpendRequest) -> Option<SpendDecisionRecord> {
    match first_replay_within(s, agent, key, request, s.decisions.len() as int) {
        Some(k) => s.decision(s.decisions[k].id),
        None => None,
    }
}

/// Once a prefix holds the earliest replay, every longer prefix does.
pub proof fn lemma_first_replay_stable(s: SpendManagerView, agent: AgentId, key: Seq<char>, request: SpendRequest, m: int, n: int)
    requires
        first_replay_within(s, agent, key, request, m) is Some,
        m <= n,
    ensures
        first_replay_within(s, agent, key, request, n) == first_replay_within(s, agent, key, request, m),
    decreases n - m,
{
    if m < n {
        lemma_first_replay_stable(s, agent, key, request, m, n - 1);
    }
}

/// No prefix replay exactly when no position of the prefix replays.
pub proof fn lemma_first_replay_none(s: SpendManagerView, agent: AgentId, key: Seq<char>, request: SpendRequest, n: int)
    ensures
        first_replay_within(s, agent, key, request, n) is None
            <==> forall|j: int| 0 <= j < n ==> !#[trigger] replays_at(s, agent, key, request, j),
    decreases n,
{
    if n > 0 {
        lemma_first_replay_none(s, agent, key, request, n - 1);
        if first_replay_within(s, agent, key, request, n - 1) is Some {
            let k = first_replay_within(s, agent, key, request, n - 1)->0;
            lemma_first_replay_facts(s, agent, key, request, n - 1);
        }
    }
}

/// The earliest replay replays, and no earlier position does.
pub proof fn lemma_first_replay_facts(s: SpendManagerView, agent: AgentId, key: Seq<char>, request: SpendRequest, n: int)
    ensures
        first_replay_within(s, agent, key, request, n) matches Some(k) ==> 0 <= k < n
            && replays_at(s, agent, key, request, k)
            && forall|j: int| 0 <= j < k ==> !#[trigger] replays_at(s, agent, key, request, j),
    decreases n,
{
    if n > 0 {
        lemma_first_replay_facts(s, agent, key, request, n - 1);
        lemma_first_replay_none(s, agent, key, request, n - 1);
    }
}

pub open spec fn replay_message() -> Seq<char> {
    "replay this exact immutable scope to recover the original result"@
}

/// The token a decision's token record announces.
pub open spec fn issued(t: Option<SpendAuthTokenRecord>) -> Option<IssuedSpendAuthToken> {
    match t {
        Some(t) => Some(IssuedSpendAuthToken { id: t.id, expires_at: t.expires_at }),
        None => None,
    }
}

/// What evaluating `request` under `operation_key` does to spend state `s`:
/// the result `r` and the state `t` after it. A new decision is named
/// `decision_id`, a token issued for it `token_id`, both created at `now`.
pub open spec fn spec_evaluate_outcome(
    s: SpendManagerView,
    user: UserContext,
    operation_key: Seq<char>,
    request: SpendRequest,
    policy: Policy,
    revision_and_actor: Option<(u64, Seq<char>)>,
    decision_id: SpendDecisionId,
    token_id: SpendAuthTokenId,
    now: i64,
    r: Result<SpendEvaluationResponse, SpendError>,
    t: SpendManagerView,
) -> bool {
    let key = trim(operation_key);
    if key.len() == 0 {
        r matches Err(SpendError::EmptyOperationKey) && t == s
    } else if request.owner_user_id != user.user_id || policy.owner_user_id != user.user_id {
        r matches Err(SpendError::UserScopeMismatch) && t == s
    } else if first_replay(s, request.agent_id, key, request) is Some {
        let d = first_replay(s, request.agent_id, key, request)->0;
        &&& t == s
        &&& r matches Ok(resp)
        &&& resp.operation_key == d.operation_key
        &&& resp.decision_id == d.id
        &&& same_evaluation(resp.evaluation, d.evaluation)
        &&& resp.auth_token == issued(s.token_for_decision(d.id))
        &&& resp.idempotent_replay
        &&& resp.revision == d.revision
        &&& resp.retry_guidance.action == SpendRetryAction::ReplayExactly
        &&& resp.retry_guidance.operation_key == d.operation_key
        &&& resp.retry_guidance.message@ == replay_message()
        &&& resp.attempt_history@.len() == 0
    } else if profile_named(s.config.lease_profiles@, request.lease_profile@) is None {
        r matches Err(SpendError::UnknownLeaseProfile(name)) && name@ == request.lease_profile@ && t == s
    } else if spec_policy_fault(policy) is Some {
        r matches Err(SpendError::PolicyValidation { source }) && spec_policy_error(source, spec_policy_fault(policy)->0)
            && t == s
    } else {
        let profile = profile_named(s.config.lease_profiles@, request.lease_profile@)->0;
        let revision: int = match revision_and_actor {
            Some((rev, _)) => rev as int,
            None => (s.operation_count(request.agent_id, key) + 1) as int,
        };
        let actor = match revision_and_actor {
            Some((_, a)) => a,
            None => uuid_text(user.user_id.0),
        };
        let record = t.decisions.last();
        let expires_at = spec_after_seconds(now, s.config.authorization_ttl_seconds) as i64;
        let token = SpendAuthTokenRecord {
            id: token_id,
            owner_user_id: user.user_id,
            spend_decision_id: decision_id,
            expires_at,
            claim_ttl_seconds: profile.claim_ttl_seconds,
            used_at: None,
            used_by_payment_id: None,
            revoked_at: None,
        };
        &&& t.decisions == s.decisions.push(record)
        &&& record.id == decision_id
        &&& record.owner_user_id == user.user_id
        &&& record.operation_key@ == key
        &&& record.revision == revision
        &&& record.actor@ == actor
        &&& record.request == request
        &&& spec_evaluation_of(policy, request, record.evaluation)
        &&& record.created_at == now
        &&& t.claims == s.claims
        &&& t.config == s.config
        &&& t.tokens == if record.evaluation.decision == Effect::Allow { s.tokens.push(token) } else { s.tokens }
        &&& r matches Ok(resp)
        &&& resp.operation_key@ == key
        &&& resp.decision_id == decision_id
        &&& same_evaluation(resp.evaluation, record.evaluation)
        &&& resp.auth_token == if record.evaluation.decision == Effect::Allow {
            Some(IssuedSpendAuthToken { id: token_id, expires_at })
        } else {
            None
        }
        &&& !resp.idempotent_replay
        &&& resp.revision == revision
        &&& resp.retry_guidance.action == SpendRetryAction::ReplayExactly
        &&& resp.retry_guidance.operation_key@ == key
        &&& resp.retry_guidance.message@ == replay_message()
        &&& resp.attempt_history@.len() == 0
    }
}

proof fn lemma_operation_count_bound(decisions: Seq<SpendDecisionRecord>, agent: AgentId, key: Seq<char>)
    ensures
        operation_count(decisions, agent, key) <= decisions.len(),
    decreases decisions.len(),
{
    if decisions.len() > 0 {
        lemma_operation_count_bound(decisions.drop_last(), agent, key);
    }
}

impl SpendManager {
    /// Find the earliest decision under one agent's operation key that
    /// replays `request`.
    fn find_replay(&self, agent: AgentId, key: &str, request: &SpendRequest) -> (r: Option<usize>)
        ensures
            match r {
                Some(i) => i < self@.decisions.len() && self@.decision(self@.decisions[i as int].id) is Some
                    && first_replay(self@, agent, key@, *request) == self@.decision(self@.decisions[i as int].id),
                None => first_replay(self@, agent, key@, *request) is None,
            },
    {
        let mut k: usize = 0;
        while k < self.decisions.len()
            invariant
                k <= self.decisions.len(),
                first_replay_within(self@, agent, key@, *request, k as int) is None,
            decreases self.decisions.len() - k,
        {
            let d = &self.decisions[k];
            if d.request.agent_id == agent && str_eq(d.operation_key.as_str(), key) {
                match self.decision_pos(d.id) {
                    Some(p) => {
                        if self.decisions[p].request.replay_equivalent(request) {
                            proof {
                                assert(replays_at(self@, agent, key@, *request, k as int));
                                assert(first_replay_within(self@, agent, key@, *request, k + 1) == Some(k as int));
                                lemma_first_replay_stable(self@, agent, key@, *request, k + 1, self@.decisions.len() as int);
                            }
                            return Some(k);
                        }
                    },
                    None => {},
                }
            }
            k = k + 1;
        }
        None
    }

    /// How many decisions are recorded under one agent's operation key.
    fn count_operation(&self, agent: AgentId, key: &str) -> (r: u64)
        requires
            self@.decisions.len() < u64::MAX,
        ensures
            r == self@.operation_count(agent, key@),
    {
        let mut count: u64 = 0;
        let mut i: usize = 0;
        while i < self.decisions.len()
            invariant
                self@.decisions.len() < u64::MAX,
                i <= self.decisions.len(),
                count == operation_count(self@.decisions.take(i as int), agent, key@),
            decreases self.decisions.len() - i,
        {
            proof {
                assert(self@.decisions.take(i + 1).drop_last() =~= self@.decisions.take(i as int));
                lemma_operation_count_bound(self@.decisions.take(i as int), agent, key@);
            }
            if self.decisions[i].request.agent_id == agent && str_eq(self.decisions[i].operation_key.as_str(), key) {
                count = count + 1;
            }
            i = i + 1;
        }
        assert(self@.decisions.take(self.decisions.len() as int) =~= self@.decisions);
        count
    }

    /// Evaluate `request` under `operation_key`: replay the decision
    /// already recorded for the same immutable scope, or record a new
    /// decision named `decision_id`, created at `now`, and issue the token
    /// `token_id` when the policy allows the spend.
    pub fn evaluate_spend_with_revision(
        &mut self,
        user: &UserContext,
        operation_key: &str,
        request: SpendRequest,
        policy: &Policy,
        revision_and_actor: Option<(u64, String)>,
        decision_id: SpendDecisionId,
        token_id: SpendAuthTokenId,
        now: i64,
    ) -> (r: Result<SpendEvaluationResponse, SpendError>)
        requires
            old(self).wf(),
            old(self)@.decisions.len() < u64::MAX,
        ensures
            final(self).wf(),
            spec_evaluate_outcome(
                old(self)@,
                *user,
                operation_key@,
                request,
                *policy,
                match revision_and_actor {
                    Some((rev, a)) => Some((rev, a@)),
                    None => None,
                },
                decision_id,
                token_id,
                now,
                r,
                final(self)@,
            ),
    {
        let key = trim_str(operation_key);
        if key.as_str().unicode_len() == 0 {
            return Err(SpendError::EmptyOperationKey);
        }
        if request.owner_user_id != user.user_id || policy.owner_user_id != user.user_id {
            return Err(SpendError::UserScopeMismatch);
        }
        match self.find_replay(request.agent_id, key.as_str(), &request) {
            Some(k) => {
                let id = self.decisions[k].id;
                let p = match self.decision_pos(id) {
                    Some(p) => p,
                    None => return Err(SpendError::MissingSpendDecision),
                };
                let decision = &self.decisions[p];
                let auth_token = match self.token_pos_for_decision(decision.id) {
                    Some(ti) => {
                        let tid = self.tokens[ti].id;
                        match self.token_pos(tid) {
                            Some(tj) => Some(IssuedSpendAuthToken { id: self.tokens[tj].id, expires_at: self.tokens[tj].expires_at }),
                            None => None,
                        }
                    },
                    None => None,
                };
                return Ok(SpendEvaluationResponse {
                    operation_key: decision.operation_key.clone(),
                    decision_id: decision.id,
                    evaluation: decision.evaluation.clone(),
                    auth_token,
                    idempotent_replay: true,
                    revision: decision.revision,
                    retry_guidance: SpendRetryGuidance {
                        action: SpendRetryAction::ReplayExactly,
                        operation_key: decision.operation_key.clone(),
                        message: String::from_str("replay this exact immutable scope to recover the original result"),
                    },
                    attempt_history: Vec::new(),
                });
            },
            None => {},
        }
        let profile = match self.config.lease_profile(request.lease_profile.as_str()) {
            Some(p) => p,
            None => return Err(SpendError::UnknownLeaseProfile(request.lease_profile.clone())),
        };
        let evaluation = match evaluate_policy(&request, policy) {
            Ok(e) => e,
            Err(e) => return Err(SpendError::PolicyValidation { source: e }),
        };
        let revision: u64 = match &revision_and_actor {
            Some((rev, _)) => *rev,
            None => {
                let count = self.count_operation(request.agent_id, key.as_str());
                proof { lemma_operation_count_bound(self@.decisions, request.agent_id, key@); }
                count + 1
            },
        };
        let actor = match revision_and_actor {
            Some((_, a)) => a,
            None => user.user_id.to_uuid_string(),
        };
        let allowed = evaluation.decision == Effect::Allow;
        let response_evaluation = evaluation.clone();
        let record = SpendDecisionRecord {
            id: decision_id,
            owner_user_id: user.user_id,
            operation_key: key.clone(),
            revision,
            actor,
            request,
            evaluation,
            created_at: now,
        };
        self.decisions.push(record);
        let auth_token = if allowed {
            let expires_at = after_seconds(now, self.config.authorization_ttl_seconds);
            self.tokens.push(SpendAuthTokenRecord {
                id: token_id,
                owner_user_id: user.user_id,
                spend_decision_id: decision_id,
                expires_at,
                claim_ttl_seconds: profile.claim_ttl_seconds,
                used_at: None,
                used_by_payment_id: None,
                revoked_at: None,
            });
            Some(IssuedSpendAuthToken { id: token_id, expires_at })
        } else {
            None
        };
        Ok(SpendEvaluationResponse {
            operation_key: key.clone(),
            decision_id,
            evaluation: response_evaluation,
            auth_token,
            idempotent_replay: false,
            revision,
            retry_guidance: SpendRetryGuidance {
                action: SpendRetryAction::ReplayExactly,
                operation_key: key,
                message: String::from_str("replay this exact immutable scope to recover the original result"),
            },
            attempt_history: Vec::new(),
        })
    }
}


/// The payment names exactly the spend that was authorized. A request
/// recorded with a merchant and no execution scope also accepts a payment
/// whose scope differs, provided the merchant matches.
pub open spec fn spec_payment_matches(payment: SpendPaymentValidationRequest, spend: SpendRequest) -> bool {
    let scope_ok = same_optional_scope(payment.execution_scope, spend.execution_scope)
        || (spend.execution_scope is None && spend.merchant is Some && same_opt_string(payment.merchant, spend.merchant));
    &&& payment.agent_id == spend.agent_id
    &&& payment.agent_account_id == spend.agent_account_id
    &&& payment.amount_cents == spend.amount_cents
    &&& payment.currency == spend.currency
    &&& same_opt_string(payment.merchant, spend.merchant)
    &&& scope_ok
    &&& same_opt_string(payment.task_id, spend.task_id)
}

/// Whether a payment names exactly the spend that was authorized.
pub fn payment_matches_authorized_spend(payment: &SpendPaymentValidationRequest, spend: &SpendRequest) -> (r: bool)
    ensures
        r == spec_payment_matches(*payment, *spend),
{
    let scope_ok = optional_scopes_equal(&payment.execution_scope, &spend.execution_scope)
        || (spend.execution_scope.is_none() && spend.merchant.is_some()
            && opt_strings_equal(&payment.merchant, &spend.merchant));
    payment.agent_id == spend.agent_id && payment.agent_account_id == spend.agent_account_id
        && payment.amount_cents == spend.amount_cents && payment.currency == spend.currency
        && opt_strings_equal(&payment.merchant, &spend.merchant) && scope_ok
        && opt_strings_equal(&payment.task_id, &spend.task_id)
}

/// The authorization a token grants.
pub open spec fn validated(t: SpendAuthTokenRecord) -> ValidatedSpendAuthorization {
    ValidatedSpendAuthorization {
        spend_auth_token_id: t.id,
        owner_user_id: t.owner_user_id,
        spend_decision_id: t.spend_decision_id,
        expires_at: t.expires_at,
    }
}

/// What checking a request against its token's decision gives. With
/// `allow_finalized`, a used or revoked token still answers.
pub open spec fn scope_outcome(
    s: SpendManagerView,
    request: SpendPaymentValidationRequest,
    allow_finalized: bool,
    r: Result<ValidatedSpendAuthorization, SpendError>,
) -> bool {
    match s.token(request.spend_auth_token_id) {
        None => r matches Err(SpendError::UnknownSpendAuthToken),
        Some(t) => if !allow_finalized && t.revoked_at is Some {
            r matches Err(SpendError::RevokedSpendAuthToken)
        } else if !allow_finalized && t.used_at is Some {
            r matches Err(SpendError::UsedSpendAuthToken)
        } else {
            match s.decision(t.spend_decision_id) {
                None => r matches Err(SpendError::MissingSpendDecision),
                Some(d) => if d.evaluation.decision != Effect::Allow {
                    r matches Err(SpendError::SpendDecisionNotAllowed)
                } else if request.owner_user_id != d.owner_user_id {
                    r matches Err(SpendError::UserScopeMismatch)
                } else if !spec_payment_matches(request, d.request) {
                    r matches Err(SpendError::PaymentRequestMismatch)
                } else {
                    r == Ok::<ValidatedSpendAuthorization, SpendError>(validated(t))
                },
            }
        },
    }
}

/// What validating a payment's token at `now` gives.
pub open spec fn payment_outcome(
    s: SpendManagerView,
    request: SpendPaymentValidationRequest,
    now: i64,
    r: Result<ValidatedSpendAuthorization, SpendError>,
) -> bool {
    match s.token(request.spend_auth_token_id) {
        None => r matches Err(SpendError::UnknownSpendAuthToken),
        Some(t) => if t.revoked_at is Some {
            r matches Err(SpendError::RevokedSpendAuthToken)
        } else if t.used_at is Some {
            r matches Err(SpendError::UsedSpendAuthToken)
        } else if last_match(s.claims, claim_of_token(request.spend_auth_token_id)) is Some {
            r matches Err(SpendError::SpendAuthTokenAlreadyClaimed)
        } else if t.expires_at <= now {
            r matches Err(SpendError::ExpiredSpendAuthToken)
        } else {
            scope_outcome(s, request, false, r)
        },
    }
}

impl SpendManager {
    /// Check a request against its token's decision.
    fn validate_authorization_scope(&self, request: &SpendPaymentValidationRequest, allow_finalized: bool) -> (r: Result<ValidatedSpendAuthorization, SpendError>)
        ensures
            scope_outcome(self@, *request, allow_finalized, r),
    {
        let ti = match self.token_pos(request.spend_auth_token_id) {
            Some(i) => i,
            None => return Err(SpendError::UnknownSpendAuthToken),
        };
        let token = self.tokens[ti];
        if !allow_finalized && token.revoked_at.is_some() {
            return Err(SpendError::RevokedSpendAuthToken);
        }
        if !allow_finalized && token.used_at.is_some() {
            return Err(SpendError::UsedSpendAuthToken);
        }
        let di = match self.decision_pos(token.spend_decision_id) {
            Some(i) => i,
            None => return Err(SpendError::MissingSpendDecision),
        };
        let decision = &self.decisions[di];
        if decision.evaluation.decision != Effect::Allow {
            return Err(SpendError::SpendDecisionNotAllowed);
        }
        if request.owner_user_id != decision.owner_user_id {
            return Err(SpendError::UserScopeMismatch);
        }
        if !payment_matches_authorized_spend(request, &decision.request) {
            return Err(SpendError::PaymentRequestMismatch);
        }
        Ok(ValidatedSpendAuthorization {
            spend_auth_token_id: token.id,
            owner_user_id: token.owner_user_id,
            spend_decision_id: token.spend_decision_id,
            expires_at: token.expires_at,
        })
    }

    /// Validate the token a payment presents at `now`: it must be live,
    /// unused, unclaimed, unexpired and issued for an allowed decision that
    /// the payment matches exactly.
    pub fn validate_auth_token_for_payment_at(&self, request: &SpendPaymentValidationRequest, now: i64) -> (r: Result<ValidatedSpendAuthorization, SpendError>)
        ensures
            payment_outcome(self@, *request, now, r),
    {
        let ti = match self.token_pos(request.spend_auth_token_id) {
            Some(i) => i,
            None => return Err(SpendError::UnknownSpendAuthToken),
        };
        let token = self.tokens[ti];
        if token.revoked_at.is_some() {
            return Err(SpendError::RevokedSpendAuthToken);
        }
        if token.used_at.is_some() {
            return Err(SpendError::UsedSpendAuthToken);
        }
        if self.claim_pos_for_token(request.spend_auth_token_id).is_some() {
            return Err(SpendError::SpendAuthTokenAlreadyClaimed);
        }
        if token.expires_at <= now {
            return Err(SpendError::ExpiredSpendAuthToken);
        }
        self.validate_authorization_scope(request, false)
    }

    /// Validate the token a payment presents, now.
    pub fn validate_auth_token_for_payment(&self, request: &SpendPaymentValidationRequest) -> (r: Result<ValidatedSpendAuthorization, SpendError>)
        ensures
            exists|now: i64| #[trigger] payment_outcome(self@, *request, now, r),
    {
        let now = now_micros();
        let r = self.validate_auth_token_for_payment_at(request, now);
        assert(payment_outcome(self@, *request, now, r));
        r
    }
}


/// What validating an executor's claim request at `now` gives: the
/// authorization and the claim already made under the operation key or on
/// the token, if any.
pub open spec fn executor_claim_validation_outcome(
    s: SpendManagerView,
    authorization: SpendPaymentValidationRequest,
    operation_key: Seq<char>,
    now: i64,
    r: Result<(ValidatedSpendAuthorization, Option<SpendExecutorClaimRecord>), SpendError>,
) -> bool {
    match s.claim_for_operation(authorization.agent_id, operation_key) {
        Some(claim) => if claim.spend_auth_token_id != authorization.spend_auth_token_id {
            r matches Err(SpendError::OperationKeyConflict)
        } else {
            exists|v: Result<ValidatedSpendAuthorization, SpendError>| #[trigger] scope_outcome(s, authorization, true, v)
                && match v {
                    Ok(a) => r == Ok::<(ValidatedSpendAuthorization, Option<SpendExecutorClaimRecord>), SpendError>((a, Some(claim))),
                    Err(e) => r matches Err(e2) && e2 == e,
                }
        },
        None => match last_match(s.claims, claim_of_token(authorization.spend_auth_token_id)) {
            Some(i) => {
                let claim = s.claim(s.claims[i].id)->0;
                if claim.operation_key@ != operation_key {
                    r matches Err(SpendError::SpendAuthTokenAlreadyClaimed)
                } else if claim.status == SpendExecutorClaimStatus::Claimed && claim.expires_at <= now {
                    r matches Err(SpendError::ExpiredExecutorClaim)
                } else {
                    exists|v: Result<ValidatedSpendAuthorization, SpendError>| #[trigger] scope_outcome(s, authorization, true, v)
                        && match v {
                            Ok(a) => r == Ok::<(ValidatedSpendAuthorization, Option<SpendExecutorClaimRecord>), SpendError>((a, Some(claim))),
                            Err(e) => r matches Err(e2) && e2 == e,
                        }
                }
            },
            None => exists|v: Result<ValidatedSpendAuthorization, SpendError>| #[trigger] payment_outcome(s, authorization, now, v)
                && match v {
                    Err(e) => r matches Err(e2) && e2 == e,
                    Ok(a) => match s.decision(a.spend_decision_id) {
                        None => r matches Err(SpendError::MissingSpendDecision),
                        Some(d) => if d.operation_key@ != operation_key {
                            r matches Err(SpendError::OperationKeyConflict)
                        } else {
                            r == Ok::<(ValidatedSpendAuthorization, Option<SpendExecutorClaimRecord>), SpendError>((a, None))
                        },
                    },
                },
        },
    }
}

impl SpendManager {
    /// Validate an executor's claim request at `now`.
    pub fn validate_auth_token_for_executor_claim_at(
        &self,
        authorization: &SpendPaymentValidationRequest,
        operation_key: &str,
        now: i64,
    ) -> (r: Result<(ValidatedSpendAuthorization, Option<SpendExecutorClaimRecord>), SpendError>)
        ensures
            executor_claim_validation_outcome(self@, *authorization, operation_key@, now, r),
    {
        match self.executor_claim_for_operation(&authorization.agent_id, operation_key) {
            Some(claim) => {
                if claim.spend_auth_token_id != authorization.spend_auth_token_id {
                    return Err(SpendError::OperationKeyConflict);
                }
                let v = self.validate_authorization_scope(authorization, true);
                return match v {
                    Ok(a) => Ok((a, Some(claim))),
                    Err(e) => Err(e),
                };
            },
            None => {},
        }
        match self.claim_pos_for_token(authorization.spend_auth_token_id) {
            Some(i) => {
                let id = self.claims[i].id;
                proof {
                    lemma_last_match_facts(self@.claims, claim_is(id));
                    assert(claim_is(id)(self@.claims[i as int]));
                }
                let claim = match self.executor_claim_record(&id) {
                    Some(c) => c,
                    None => return Err(SpendError::UnknownExecutorClaim),
                };
                if !str_eq(claim.operation_key.as_str(), operation_key) {
                    return Err(SpendError::SpendAuthTokenAlreadyClaimed);
                }
                if claim.status == SpendExecutorClaimStatus::Claimed && claim.expires_at <= now {
                    return Err(SpendError::ExpiredExecutorClaim);
                }
                let v = self.validate_authorization_scope(authorization, true);
                return match v {
                    Ok(a) => Ok((a, Some(claim))),
                    Err(e) => Err(e),
                };
            },
            None => {},
        }
        let v = self.validate_auth_token_for_payment_at(authorization, now);
        let a = match v {
            Ok(a) => a,
            Err(e) => return Err(e),
        };
        let di = match self.decision_pos(a.spend_decision_id) {
            Some(i) => i,
            None => return Err(SpendError::MissingSpendDecision),
        };
        if !str_eq(self.decisions[di].operation_key.as_str(), operation_key) {
            return Err(SpendError::OperationKeyConflict);
        }
        Ok((a, None))
    }

    /// Validate an executor's claim request, now.
    pub fn validate_auth_token_for_executor_claim(
        &self,
        authorization: &SpendPaymentValidationRequest,
        operation_key: &str,
    ) -> (r: Result<(ValidatedSpendAuthorization, Option<SpendExecutorClaimRecord>), SpendError>)
        ensures
            exists|now: i64| #[trigger] executor_claim_validation_outcome(self@, *authorization, operation_key@, now, r),
    {
        let now = now_micros();
        let r = self.validate_auth_token_for_executor_claim_at(authorization, operation_key, now);
        assert(executor_claim_validation_outcome(self@, *authorization, operation_key@, now, r));
        r
    }
}


/// What claiming a token at `now` does: an existing claim under the same
/// operation key is returned as it is; otherwise a new claim named
/// `claim_id` takes the token for its claim lease.
pub open spec fn claim_outcome(
    s: SpendManagerView,
    request: SpendExecutorClaimRequest,
    claim_id: SpendExecutorClaimId,
    now: i64,
    r: Result<(SpendExecutorClaimRecord, ValidatedSpendAuthorization), SpendError>,
    t: SpendManagerView,
) -> bool {
    exists|v: Result<(ValidatedSpendAuthorization, Option<SpendExecutorClaimRecord>), SpendError>|
        #[trigger] executor_claim_validation_outcome(s, request.authorization, request.operation_key@, now, v)
        && match v {
            Err(e) => r matches Err(e2) && e2 == e && t == s,
            Ok((a, Some(existing))) => r == Ok::<(SpendExecutorClaimRecord, ValidatedSpendAuthorization), SpendError>((existing, a)) && t == s,
            Ok((a, None)) => match s.decision(a.spend_decision_id) {
                None => r matches Err(SpendError::MissingSpendDecision) && t == s,
                Some(d) => match s.token(request.authorization.spend_auth_token_id) {
                    None => r matches Err(SpendError::UnknownSpendAuthToken) && t == s,
                    Some(token) => {
                        let claim = SpendExecutorClaimRecord {
                            id: claim_id,
                            spend_auth_token_id: request.authorization.spend_auth_token_id,
                            owner_user_id: request.authorization.owner_user_id,
                            agent_id: request.authorization.agent_id,
                            operation_key: request.operation_key,
                            lease_profile: d.request.lease_profile,
                            status: SpendExecutorClaimStatus::Claimed,
                            claimed_at: now,
                            expires_at: spec_after_seconds(now, token.claim_ttl_seconds) as i64,
                            finalized_at: None,
                            settlement_id: None,
                            provider_reference: None,
                            reconciliation_evidence: None,
                            reconciled_at: None,
                            reconciled_by_user_id: None,
                        };
                        &&& r == Ok::<(SpendExecutorClaimRecord, ValidatedSpendAuthorization), SpendError>((claim, a))
                        &&& t == SpendManagerView { claims: s.claims.push(claim), ..s }
                    },
                },
            },
        }
}

/// What checking an executor's claim before it acts at `now` gives.
pub open spec fn claim_check_outcome(
    s: SpendManagerView,
    request: SpendExecutorClaimValidationRequest,
    now: i64,
    r: Result<SpendExecutorClaimRecord, SpendError>,
) -> bool {
    match s.claim_for_operation(request.agent_id, request.operation_key@) {
        None => r matches Err(SpendError::UnknownExecutorClaim),
        Some(claim) => if claim.owner_user_id != request.owner_user_id {
            r matches Err(SpendError::UserScopeMismatch)
        } else if claim.agent_id != request.agent_id || claim.operation_key@ != request.operation_key@ {
            r matches Err(SpendError::ExecutorClaimOperationMismatch)
        } else if claim.status != SpendExecutorClaimStatus::Claimed {
            r matches Err(SpendError::FinalizedExecutorClaim)
        } else if claim.expires_at <= now {
            r matches Err(SpendError::ExpiredExecutorClaim)
        } else {
            match s.token(claim.spend_auth_token_id) {
                None => r matches Err(SpendError::UnknownSpendAuthToken),
                Some(token) => if token.revoked_at is Some {
                    r matches Err(SpendError::RevokedSpendAuthToken)
                } else if token.used_at is Some {
                    r matches Err(SpendError::UsedSpendAuthToken)
                } else {
                    r == Ok::<SpendExecutorClaimRecord, SpendError>(claim)
                },
            }
        },
    }
}

/// What marking token `token_id` used by `payment_id` at `now` does.
pub open spec fn mark_used_outcome(
    s: SpendManagerView,
    token_id: SpendAuthTokenId,
    payment_id: PaymentId,
    now: i64,
    r: Result<(), SpendError>,
    t: SpendManagerView,
) -> bool {
    if last_match(s.claims, claim_of_token(token_id)) is Some {
        r matches Err(SpendError::SpendAuthTokenAlreadyClaimed) && t == s
    } else {
        match last_match(s.tokens, token_is(token_id)) {
            None => r matches Err(SpendError::UnknownSpendAuthToken) && t == s,
            Some(i) => if s.tokens[i].used_at is Some {
                r matches Err(SpendError::UsedSpendAuthToken) && t == s
            } else {
                &&& r is Ok
                &&& t == SpendManagerView {
                    tokens: s.tokens.update(i, SpendAuthTokenRecord {
                        used_at: Some(now),
                        used_by_payment_id: Some(payment_id),
                        ..s.tokens[i]
                    }),
                    ..s
                }
            },
        }
    }
}

/// What withdrawing the token of decision `decision_id` does: the token
/// issued for it, and any other record under that token's id, are gone;
/// nothing else changes.
pub open spec fn token_discarded(s: SpendManagerView, decision_id: SpendDecisionId, t: SpendManagerView) -> bool {
    &&& t.decisions == s.decisions
    &&& t.claims == s.claims
    &&& t.config == s.config
    &&& t.tokens == match last_match(s.tokens, token_of_decision(decision_id)) {
        Some(i) => tokens_without(s.tokens, decision_id, s.tokens[i].id),
        None => s.tokens,
    }
}

/// `tokens` without those issued for decision `decision_id` or named `token_id`.
pub open spec fn tokens_without(tokens: Seq<SpendAuthTokenRecord>, decision_id: SpendDecisionId, token_id: SpendAuthTokenId) -> Seq<SpendAuthTokenRecord>
    decreases tokens.len(),
{
    if tokens.len() == 0 {
        Seq::empty()
    } else {
        let rest = tokens_without(tokens.drop_last(), decision_id, token_id);
        let x = tokens.last();
        if x.spend_decision_id == decision_id || x.id == token_id {
            rest
        } else {
            rest.push(x)
        }
    }
}

impl SpendManager {
    /// Take the token a claim request presents for one executor at `now`,
    /// naming a new claim `claim_id`; repeat claims under the same
    /// operation key return the claim already made.
    pub fn claim_auth_token_at(
        &mut self,
        request: SpendExecutorClaimRequest,
        claim_id: SpendExecutorClaimId,
        now: i64,
    ) -> (r: Result<(SpendExecutorClaimRecord, ValidatedSpendAuthorization), SpendError>)
        requires
            old(self).wf(),
        ensures
            final(self).wf(),
            claim_outcome(old(self)@, request, claim_id, now, r, final(self)@),
    {
        let v = self.validate_auth_token_for_executor_claim_at(&request.authorization, request.operation_key.as_str(), now);
        let a = match v {
            Err(e) => return Err(e),
            Ok((a, Some(existing))) => return Ok((existing, a)),
            Ok((a, None)) => a,
        };
        let di = match self.decision_pos(a.spend_decision_id) {
            Some(i) => i,
            None => return Err(SpendError::MissingSpendDecision),
        };
        let lease_profile = self.decisions[di].request.lease_profile.clone();
        let ti = match self.token_pos(request.authorization.spend_auth_token_id) {
            Some(i) => i,
            None => return Err(SpendError::UnknownSpendAuthToken),
        };
        let claim_ttl_seconds = self.tokens[ti].claim_ttl_seconds;
        let claim = SpendExecutorClaimRecord {
            id: claim_id,
            spend_auth_token_id: request.authorization.spend_auth_token_id,
            owner_user_id: request.authorization.owner_user_id,
            agent_id: request.authorization.agent_id,
            operation_key: request.operation_key,
            lease_profile,
            status: SpendExecutorClaimStatus::Claimed,
            claimed_at: now,
            expires_at: after_seconds(now, claim_ttl_seconds),
            finalized_at: None,
            settlement_id: None,
            provider_reference: None,
            reconciliation_evidence: None,
            reconciled_at: None,
            reconciled_by_user_id: None,
        };
        let stored = claim.clone();
        self.claims.push(stored);
        Ok((claim, a))
    }

    /// Take the token a claim request presents, now, under a fresh claim id.
    pub fn claim_auth_token(&mut self, request: SpendExecutorClaimRequest) -> (r: Result<(SpendExecutorClaimRecord, ValidatedSpendAuthorization), SpendError>)
        requires
            old(self).wf(),
        ensures
            final(self).wf(),
            exists|claim_id: SpendExecutorClaimId, now: i64| #[trigger] claim_outcome(old(self)@, request, claim_id, now, r, final(self)@),
    {
        let claim_id = SpendExecutorClaimId::new();
        let now = now_micros();
        let ghost request_copy = request;
        let r = self.claim_auth_token_at(request, claim_id, now);
        assert(claim_outcome(old(self)@, request_copy, claim_id, now, r, self@));
        r
    }

    /// Check that an executor may still act on its claim at `now`.
    pub fn validate_executor_claim_at(&self, request: &SpendExecutorClaimValidationRequest, now: i64) -> (r: Result<SpendExecutorClaimRecord, SpendError>)
        ensures
            claim_check_outcome(self@, *request, now, r),
    {
        let claim = match self.executor_claim_for_operation(&request.agent_id, request.operation_key.as_str()) {
            Some(c) => c,
            None => return Err(SpendError::UnknownExecutorClaim),
        };
        if claim.owner_user_id != request.owner_user_id {
            return Err(SpendError::UserScopeMismatch);
        }
        if claim.agent_id != request.agent_id || !str_eq(claim.operation_key.as_str(), request.operation_key.as_str()) {
            return Err(SpendError::ExecutorClaimOperationMismatch);
        }
        if claim.status != SpendExecutorClaimStatus::Claimed {
            return Err(SpendError::FinalizedExecutorClaim);
        }
        if claim.expires_at <= now {
            return Err(SpendError::ExpiredExecutorClaim);
        }
        let ti = match self.token_pos(claim.spend_auth_token_id) {
            Some(i) => i,
            None => return Err(SpendError::UnknownSpendAuthToken),
        };
        if self.tokens[ti].revoked_at.is_some() {
            return Err(SpendError::RevokedSpendAuthToken);
        }
        if self.tokens[ti].used_at.is_some() {
            return Err(SpendError::UsedSpendAuthToken);
        }
        Ok(claim)
    }

    /// Check that an executor may still act on its claim, now.
    pub fn validate_executor_claim(&self, request: &SpendExecutorClaimValidationRequest) -> (r: Result<SpendExecutorClaimRecord, SpendError>)
        ensures
            exists|now: i64| #[trigger] claim_check_outcome(self@, *request, now, r),
    {
        let now = now_micros();
        let r = self.validate_executor_claim_at(request, now);
        assert(claim_check_outcome(self@, *request, now, r));
        r
    }

    /// Record that payment `payment_id` used an unclaimed token at `now`.
    pub fn mark_auth_token_used_at(&mut self, token_id: &SpendAuthTokenId, payment_id: PaymentId, now: i64) -> (r: Result<(), SpendError>)
        requires
            old(self).wf(),
        ensures
            final(self).wf(),
            mark_used_outcome(old(self)@, *token_id, payment_id, now, r, final(self)@),
    {
        if self.claim_pos_for_token(*token_id).is_some() {
            return Err(SpendError::SpendAuthTokenAlreadyClaimed);
        }
        let i = match self.token_pos(*token_id) {
            Some(i) => i,
            None => return Err(SpendError::UnknownSpendAuthToken),
        };
        let token = self.tokens[i];
        if token.used_at.is_some() {
            return Err(SpendError::UsedSpendAuthToken);
        }
        self.tokens.set(i, SpendAuthTokenRecord { used_at: Some(now), used_by_payment_id: Some(payment_id), ..token });
        Ok(())
    }

    /// Record that payment `payment_id` used an unclaimed token, now.
    pub fn mark_auth_token_used(&mut self, token_id: &SpendAuthTokenId, payment_id: PaymentId) -> (r: Result<(), SpendError>)
        requires
            old(self).wf(),
        ensures
            final(self).wf(),
            exists|now: i64| #[trigger] mark_used_outcome(old(self)@, *token_id, payment_id, now, r, final(self)@),
    {
        let now = now_micros();
        let r = self.mark_auth_token_used_at(token_id, payment_id, now);
        assert(mark_used_outcome(old(self)@, *token_id, payment_id, now, r, self@));
        r
    }

    /// Withdraw the token issued for a decision that will not be spent.
    pub fn discard_auth_token_for_decision(&mut self, decision_id: &SpendDecisionId)
        requires
            old(self).wf(),
        ensures
            final(self).wf(),
            token_discarded(old(self)@, *decision_id, final(self)@),
    {
        let ti = match self.token_pos_for_decision(*decision_id) {
            Some(i) => i,
            None => return,
        };
        let token_id = self.tokens[ti].id;
        let mut kept: Vec<SpendAuthTokenRecord> = Vec::new();
        let mut i: usize = 0;
        while i < self.tokens.len()
            invariant
                i <= self.tokens.len(),
                kept@ == tokens_without(self@.tokens.take(i as int), *decision_id, token_id),
            decreases self.tokens.len() - i,
        {
            proof {
                assert(self@.tokens.take(i + 1).drop_last() =~= self@.tokens.take(i as int));
            }
            let x = self.tokens[i];
            if !(x.spend_decision_id == *decision_id || x.id == token_id) {
                kept.push(x);
            }
            i = i + 1;
        }
        assert(self@.tokens.take(self.tokens.len() as int) =~= self@.tokens);
        self.tokens = kept;
    }

    /// Whether a decision under one agent's operation key replays `request`.
    pub fn has_decision_for_scope(&self, agent_id: &AgentId, operation_key: &str, request: &SpendRequest) -> (r: bool)
        ensures
            r == first_replay(self@, *agent_id, operation_key@, *request) is Some,
    {
        self.find_replay(*agent_id, operation_key, request).is_some()
    }

    /// Issue the auth token of a decision that a human approved, with
    /// identifier `token_id`, at `now`. A decision that already has a token
    /// gets it back.
    pub fn issue_auth_token_for_approved_decision_at(
        &mut self,
        decision_id: &SpendDecisionId,
        token_id: SpendAuthTokenId,
        now: i64,
    ) -> (r: Result<IssuedSpendAuthToken, SpendError>)
        requires
            old(self).wf(),
        ensures
            final(self).wf(),
            issue_token_outcome(old(self)@, *decision_id, token_id, now, r, final(self)@),
    {
        let p = match self.decision_pos(*decision_id) {
            Some(p) => p,
            None => return Err(SpendError::MissingSpendDecision),
        };
        if self.decisions[p].evaluation.decision != Effect::NeedsApproval {
            return Err(SpendError::SpendDecisionNotAllowed);
        }
        match self.token_pos_for_decision(*decision_id) {
            Some(i) => {
                let id = self.tokens[i].id;
                match self.token_pos(id) {
                    Some(k) => {
                        return Ok(IssuedSpendAuthToken { id: self.tokens[k].id, expires_at: self.tokens[k].expires_at });
                    },
                    None => {
                        proof {
                            lemma_last_match_facts(self@.tokens, token_is(id));
                            assert(token_is(id)(self@.tokens[i as int]));
                        }
                        return Err(SpendError::MissingSpendDecision);
                    },
                }
            },
            None => {},
        }
        let profile = match self.config.lease_profile(self.decisions[p].request.lease_profile.as_str()) {
            Some(profile) => profile,
            None => return Err(SpendError::UnknownLeaseProfile(self.decisions[p].request.lease_profile.clone())),
        };
        if self.token_pos(token_id).is_some() {
            return Err(SpendError::IdentifierCollision);
        }
        let expires_at = after_seconds(now, self.config.authorization_ttl_seconds);
        let owner = self.decisions[p].owner_user_id;
        self.tokens.push(SpendAuthTokenRecord {
            id: token_id,
            owner_user_id: owner,
            spend_decision_id: *decision_id,
            expires_at,
            claim_ttl_seconds: profile.claim_ttl_seconds,
            used_at: None,
            used_by_payment_id: None,
            revoked_at: None,
        });
        Ok(IssuedSpendAuthToken { id: token_id, expires_at })
    }

    /// Issue the auth token of a decision that a human approved, now, under
    /// a fresh identifier.
    pub fn issue_auth_token_for_approved_decision(&mut self, decision_id: &SpendDecisionId) -> (r: Result<
        IssuedSpendAuthToken,
        SpendError,
    >)
        requires
            old(self).wf(),
        ensures
            final(self).wf(),
            exists|token_id: SpendAuthTokenId, now: i64| #[trigger] issue_token_outcome(
                old(self)@,
                *decision_id,
                token_id,
                now,
                r,
                final(self)@,
            ),
    {
        let token_id = SpendAuthTokenId::new();
        let now = now_micros();
        let r = self.issue_auth_token_for_approved_decision_at(decision_id, token_id, now);
        assert(issue_token_outcome(old(self)@, *decision_id, token_id, now, r, self@));
        r
    }

    /// The lease profile of the latest decision under one agent's operation key.
    pub fn lease_profile_for_operation(&self, agent_id: &AgentId, operation_key: &str) -> (r: Option<String>)
        ensures
            match last_match(self@.decisions, decision_of_operation(*agent_id, operation_key@)) {
                None => r is None,
                Some(i) => match self@.decision(self@.decisions[i].id) {
                    None => r is None,
                    Some(d) => r matches Some(p) && p@ == d.request.lease_profile@,
                },
            },
    {
        let mut i: usize = self.decisions.len();
        while i > 0
            invariant
                i <= self.decisions.len(),
                forall|j: int| i <= j < self.decisions@.len() ==> !decision_of_operation(*agent_id, operation_key@)(#[trigger] self.decisions@[j]),
            decreases i,
        {
            i = i - 1;
            if self.decisions[i].request.agent_id == *agent_id && str_eq(self.decisions[i].operation_key.as_str(), operation_key) {
                proof { lemma_last_match_at(self@.decisions, decision_of_operation(*agent_id, operation_key@), i as int); }
                let id = self.decisions[i].id;
                return match self.decision_pos(id) {
                    Some(p) => Some(self.decisions[p].request.lease_profile.clone()),
                    None => None,
                };
            }
        }
        proof { lemma_last_match_none(self@.decisions, decision_of_operation(*agent_id, operation_key@)); }
        None
    }

    /// Evaluate `request` under `operation_key` now, naming a new decision
    /// and any token it issues freshly.
    pub fn evaluate_spend(
        &mut self,
        user: &UserContext,
        operation_key: &str,
        request: SpendRequest,
        policy: &Policy,
    ) -> (r: Result<SpendEvaluationResponse, SpendError>)
        requires
            old(self).wf(),
            old(self)@.decisions.len() < u64::MAX,
        ensures
            final(self).wf(),
            exists|decision_id: SpendDecisionId, token_id: SpendAuthTokenId, now: i64| #[trigger] spec_evaluate_outcome(
                old(self)@, *user, operation_key@, request, *policy, None, decision_id, token_id, now, r, final(self)@),
    {
        let decision_id = SpendDecisionId::new();
        let token_id = SpendAuthTokenId::new();
        let now = now_micros();
        let ghost request_copy = request;
        let r = self.evaluate_spend_with_revision(user, operation_key, request, policy, None, decision_id, token_id, now);
        assert(spec_evaluate_outcome(old(self)@, *user, operation_key@, request_copy, *policy, None, decision_id, token_id, now, r, self@));
        r
    }

    /// Evaluate `request` as revision `revision` of its operation key,
    /// recorded for `actor`, now.
    pub fn evaluate_spend_at_revision(
        &mut self,
        user: &UserContext,
        operation_key: &str,
        request: SpendRequest,
        policy: &Policy,
        revision: u64,
        actor: &str,
    ) -> (r: Result<SpendEvaluationResponse, SpendError>)
        requires
            old(self).wf(),
            old(self)@.decisions.len() < u64::MAX,
        ensures
            final(self).wf(),
            exists|decision_id: SpendDecisionId, token_id: SpendAuthTokenId, now: i64| #[trigger] spec_evaluate_outcome(
                old(self)@, *user, operation_key@, request, *policy, Some((revision, actor@)), decision_id, token_id, now, r, final(self)@),
    {
        let decision_id = SpendDecisionId::new();
        let token_id = SpendAuthTokenId::new();
        let now = now_micros();
        let ghost request_copy = request;
        let actor_text = String::from_str(actor);
        let r = self.evaluate_spend_with_revision(user, operation_key, request, policy, Some((revision, actor_text)), decision_id, token_id, now);
        assert(spec_evaluate_outcome(old(self)@, *user, operation_key@, request_copy, *policy, Some((revision, actor@)), decision_id, token_id, now, r, self@));
        r
    }
}

/// What issuing the token of human-approved decision `decision_id` with
/// identifier `token_id` at `now` does.
pub open spec fn issue_token_outcome(
    s: SpendManagerView,
    decision_id: SpendDecisionId,
    token_id: SpendAuthTokenId,
    now: i64,
    r: Result<IssuedSpendAuthToken, SpendError>,
    t: SpendManagerView,
) -> bool {
    match s.decision(decision_id) {
        None => r matches Err(SpendError::MissingSpendDecision) && t == s,
        Some(d) => if d.evaluation.decision != Effect::NeedsApproval {
            r matches Err(SpendError::SpendDecisionNotAllowed) && t == s
        } else if s.token_for_decision(decision_id) is Some {
            r == Ok::<IssuedSpendAuthToken, SpendError>(issued(s.token_for_decision(decision_id))->0)
                && t == s
        } else if profile_named(s.config.lease_profiles@, d.request.lease_profile@) is None {
            r matches Err(SpendError::UnknownLeaseProfile(name)) && name@ == d.request.lease_profile@
                && t == s
        } else if s.token(token_id) is Some {
            r matches Err(SpendError::IdentifierCollision) && t == s
        } else {
            let expires_at = spec_after_seconds(now, s.config.authorization_ttl_seconds) as i64;
            let token = SpendAuthTokenRecord {
                id: token_id,
                owner_user_id: d.owner_user_id,
                spend_decision_id: decision_id,
                expires_at,
                claim_ttl_seconds: profile_named(s.config.lease_profiles@, d.request.lease_profile@)->0.claim_ttl_seconds,
                used_at: None,
                used_by_payment_id: None,
                revoked_at: None,
            };
            &&& r == Ok::<IssuedSpendAuthToken, SpendError>(IssuedSpendAuthToken { id: token_id, expires_at })
            &&& t.tokens == s.tokens.push(token)
            &&& t.decisions == s.decisions
            &&& t.claims == s.claims
            &&& t.config == s.config
        },
    }
}

pub open spec fn decision_of_operation(agent: AgentId, key: Seq<char>) -> spec_fn(SpendDecisionRecord) -> bool {
    |d: SpendDecisionRecord| d.request.agent_id == agent && d.operation_key@ == key
}


/// Among the first `n` claims, the current record of each claim of `owner`,
/// in the order they were recorded.
pub open spec fn owner_claims(claims: Seq<SpendExecutorClaimRecord>, n: int, owner: UserId) -> Seq<SpendExecutorClaimRecord>
    decreases n,
{
    if n <= 0 {
        Seq::empty()
    } else {
        let rest = owner_claims(claims, n - 1, owner);
        let c = claims[n - 1];
        if c.owner_user_id == owner && last_match(claims, claim_is(c.id)) == Some(n - 1) {
            rest.push(c)
        } else {
            rest
        }
    }
}

/// Claims ordered by lease expiry, then by identifier.
pub open spec fn claim_order() -> spec_fn(SpendExecutorClaimRecord, SpendExecutorClaimRecord) -> bool {
    |a: SpendExecutorClaimRecord, b: SpendExecutorClaimRecord|
        a.expires_at < b.expires_at || (a.expires_at == b.expires_at && a.id.0 <= b.id.0)
}

impl SpendManager {
    /// The claims of one owner, ordered by lease expiry and then by id.
    pub fn executor_claim_records_for_owner(&self, owner_user_id: &UserId) -> (r: Vec<SpendExecutorClaimRecord>)
        ensures
            r@.to_multiset() == owner_claims(self@.claims, self@.claims.len() as int, *owner_user_id).to_multiset(),
            sorted_by(r@, claim_order()),
    {
        broadcast use vstd::seq_lib::group_to_multiset_ensures;
        let mut out: Vec<SpendExecutorClaimRecord> = Vec::new();
        let mut i: usize = 0;
        while i < self.claims.len()
            invariant
                i <= self.claims.len(),
                out@.to_multiset() == owner_claims(self@.claims, i as int, *owner_user_id).to_multiset(),
                sorted_by(out@, claim_order()),
            decreases self.claims.len() - i,
        {
            let id = self.claims[i].id;
            let live = match self.claim_pos(id) {
                Some(p) => p == i,
                None => false,
            };
            if self.claims[i].owner_user_id == *owner_user_id && live {
                let c = self.claims[i].clone();
                let mut p: usize = 0;
                while p < out.len() && (out[p].expires_at < c.expires_at
                    || (out[p].expires_at == c.expires_at && out[p].id.0 <= c.id.0))
                    invariant
                        p <= out.len(),
                        forall|k: int| 0 <= k < p ==> claim_order()(#[trigger] out@[k], c),
                    decreases out.len() - p,
                {
                    p = p + 1;
                }
                let ghost before = out@;
                proof {
                    assert forall|k: int| p <= k < before.len() implies !claim_order()(#[trigger] before[k], c) by {
                        if k > p {
                            assert(claim_order()(before[p as int], before[k]));
                        }
                    }
                }
                out.insert(p, c);
                proof {
                    assert(out@ == before.insert(p as int, c));
                    vstd::seq_lib::to_multiset_insert(before, p as int, c);
                    let prev = owner_claims(self@.claims, i as int, *owner_user_id);
                    assert(owner_claims(self@.claims, i + 1, *owner_user_id) == prev.push(c));
                    vstd::seq_lib::to_multiset_build(prev, c);
                    assert forall|a: int, b: int| 0 <= a < b < out@.len() implies #[trigger] claim_order()(out@[a], out@[b]) by {
                        if b < p {
                            assert(claim_order()(before[a], before[b]));
                        } else if b == p {
                        } else if a < p {
                            assert(out@[b] == before[b - 1]);
                            assert(!claim_order()(before[b - 1], c));
                        } else if a == p {
                            assert(out@[b] == before[b - 1]);
                            assert(!claim_order()(before[b - 1], c));
                        } else {
                            assert(claim_order()(before[a - 1], before[b - 1]));
                        }
                    }
                }
            } else {
                assert(owner_claims(self@.claims, i + 1, *owner_user_id) == owner_claims(self@.claims, i as int, *owner_user_id));
            }
            i = i + 1;
        }
        out
    }
}

/// The snake_case name of an effect.
pub fn effect_name(effect: Effect) -> (s: &'static str)
    ensures
        s@ == match effect {
            Effect::Allow => "allow"@,
            Effect::Deny => "deny"@,
            Effect::NeedsApproval => "needs_approval"@,
        },
{
    match effect {
        Effect::Allow => "allow",
        Effect::Deny => "deny",
        Effect::NeedsApproval => "needs_approval",
    }
}


impl Default for SpendManager {
    fn default() -> (m: Self)
        ensures
            m.wf(),
            m@.decisions.len() == 0,
            m@.tokens.len() == 0,
            m@.claims.len() == 0,
    {
        SpendManager::new()
    }
}

} // verus!
