//! Agent registration: connecting the stable identity of an agent to the
//! exact version it runs, giving the identity an account, and recording a
//! session for each connection.
//!
//! The identity fingerprint resolves the logical agent within its owner's
//! agents; the version fingerprint resolves a version within that agent's
//! lineage. Identity, version and account are reused when they match; every
//! successful registration records a fresh session.
use vstd::prelude::*;

use crate::common::{
    now_micros, AgentAccountId, AgentId, AgentSessionId, AgentVersionId, UserId,
};
use crate::format::{public_id, public_suffix};
use crate::keyed::{
    find_key, has_key, key_index, keys_unique, lemma_find_at, lemma_find_some, lemma_prefix_collision, lemma_push,
};
use crate::spend::model::{clone_opt_string, opt_strings_equal, same_opt_string};
use crate::storage::StorageError;
use crate::text::str_eq;

verus! {

#[derive(Clone, Copy, Debug, PartialEq, Eq, Structural)]
pub enum AgentType {
    InteractiveAgent,
    AutonomousAgent,
}

#[derive(Clone, Copy, Debug, PartialEq, Eq, Structural)]
pub enum AgentStatus {
    Active,
    Suspended,
}

#[derive(Clone, Copy, Debug, PartialEq, Eq, Structural)]
pub enum AccountStatus {
    Active,
    Suspended,
}

#[derive(Clone, Copy, Debug, PartialEq, Eq, Structural)]
pub enum RuntimeEnvironment {
    Development,
    Staging,
    Production,
}

/// Where an agent's code comes from.
#[derive(Debug, PartialEq, Eq)]
pub struct CodeReference {
    pub repository_url: Option<String>,
    pub commit_sha: Option<String>,
}

/// The model an agent version runs on.
#[derive(Debug, PartialEq, Eq)]
pub struct ModelIdentity {
    pub provider: String,
    pub model: String,
    pub version: Option<String>,
}

/// The runtime an agent version runs in.
#[derive(Debug, PartialEq, Eq)]
pub struct RuntimeIdentity {
    pub runtime_provider: String,
    pub environment: RuntimeEnvironment,
}

/// The logical identity of an agent.
#[derive(Debug, PartialEq, Eq)]
pub struct AgentIdentity {
    pub id: AgentId,
    pub pub_id: String,
    pub fingerprint: String,
    pub display_name: String,
    pub description: Option<String>,
    pub owner_user_id: UserId,
    pub agent_type: AgentType,
    pub agent_status: AgentStatus,
    pub created_at: i64,
    pub updated_at: i64,
}

/// One runnable version in an agent's lineage.
#[derive(Debug, PartialEq, Eq)]
pub struct AgentVersion {
    pub id: AgentVersionId,
    pub pub_id: String,
    pub agent_id: AgentId,
    pub fingerprint: String,
    pub code_ref: Option<CodeReference>,
    pub model: Option<ModelIdentity>,
    pub runtime: Option<RuntimeIdentity>,
    pub created_at: i64,
}

/// The single account of an agent.
#[derive(Debug, PartialEq, Eq)]
pub struct AgentAccount {
    pub id: AgentAccountId,
    pub pub_id: String,
    pub agent_id: AgentId,
    pub owner_user_id: UserId,
    pub account_status: AccountStatus,
    pub created_at: i64,
    pub updated_at: i64,
}

/// One connection of an agent.
#[derive(Debug, PartialEq, Eq)]
pub struct AgentSession {
    pub id: AgentSessionId,
    pub pub_id: String,
    pub agent_id: AgentId,
    pub owner_user_id: UserId,
    pub mcp_client_name: Option<String>,
    pub mcp_client_version: Option<String>,
    pub created_at: i64,
}

/// What registering or resuming an agent connection needs.
#[derive(Debug)]
pub struct RegisterAgentRequest {
    pub display_name: String,
    pub description: Option<String>,
    pub owner_user_id: UserId,
    pub agent_type: AgentType,
    pub identity_fingerprint: String,
    pub version_fingerprint: String,
    pub code_ref: Option<CodeReference>,
    pub model: Option<ModelIdentity>,
    pub runtime: Option<RuntimeIdentity>,
    pub mcp_client_name: Option<String>,
    pub mcp_client_version: Option<String>,
}

/// The identity, version, account and new session of a registration.
#[derive(Debug)]
pub struct RegisterAgentResponse {
    pub agent: AgentIdentity,
    pub version: AgentVersion,
    pub account: AgentAccount,
    pub session: AgentSession,
}

#[derive(Debug, PartialEq, Eq)]
pub enum RegistrationError {
    MissingFingerprint,
    IdentityConflict,
    VersionConflict,
    SuspendedAgent,
    SuspendedAccount,
    Storage(StorageError),
    /// A freshly drawn random identifier already names a stored record.
    IdentifierCollision,
}

/// The identifiers that a registration gives to the records it creates.
#[derive(Clone, Copy, Debug, PartialEq, Eq, Structural)]
pub struct RegistrationIds {
    pub agent_id: AgentId,
    pub version_id: AgentVersionId,
    pub account_id: AgentAccountId,
    pub session_id: AgentSessionId,
}

impl Clone for CodeReference {
    fn clone(&self) -> (r: Self)
        ensures
            r == *self,
    {
        CodeReference {
            repository_url: clone_opt_string(&self.repository_url),
            commit_sha: clone_opt_string(&self.commit_sha),
        }
    }
}

impl Clone for ModelIdentity {
    fn clone(&self) -> (r: Self)
        ensures
            r == *self,
    {
        ModelIdentity {
            provider: self.provider.clone(),
            model: self.model.clone(),
            version: clone_opt_string(&self.version),
        }
    }
}

impl Clone for RuntimeIdentity {
    fn clone(&self) -> (r: Self)
        ensures
            r == *self,
    {
        RuntimeIdentity { runtime_provider: self.runtime_provider.clone(), environment: self.environment }
    }
}

impl Clone for AgentIdentity {
    fn clone(&self) -> (r: Self)
        ensures
            r == *self,
    {
        AgentIdentity {
            id: self.id,
            pub_id: self.pub_id.clone(),
            fingerprint: self.fingerprint.clone(),
            display_name: self.display_name.clone(),
            description: clone_opt_string(&self.description),
            owner_user_id: self.owner_user_id,
            agent_type: self.agent_type,
            agent_status: self.agent_status,
            created_at: self.created_at,
            updated_at: self.updated_at,
        }
    }
}

fn clone_code_ref(a: &Option<CodeReference>) -> (r: Option<CodeReference>)
    ensures
        r == *a,
{
    match a {
        Some(x) => Some(x.clone()),
        None => None,
    }
}

fn clone_model(a: &Option<ModelIdentity>) -> (r: Option<ModelIdentity>)
    ensures
        r == *a,
{
    match a {
        Some(x) => Some(x.clone()),
        None => None,
    }
}

fn clone_runtime(a: &Option<RuntimeIdentity>) -> (r: Option<RuntimeIdentity>)
    ensures
        r == *a,
{
    match a {
        Some(x) => Some(x.clone()),
        None => None,
    }
}

impl Clone for AgentVersion {
    fn clone(&self) -> (r: Self)
        ensures
            r == *self,
    {
        AgentVersion {
            id: self.id,
            pub_id: self.pub_id.clone(),
            agent_id: self.agent_id,
            fingerprint: self.fingerprint.clone(),
            code_ref: clone_code_ref(&self.code_ref),
            model: clone_model(&self.model),
            runtime: clone_runtime(&self.runtime),
            created_at: self.created_at,
        }
    }
}

impl Clone for AgentAccount {
    fn clone(&self) -> (r: Self)
        ensures
            r == *self,
    {
        AgentAccount {
            id: self.id,
            pub_id: self.pub_id.clone(),
            agent_id: self.agent_id,
            owner_user_id: self.owner_user_id,
            account_status: self.account_status,
            created_at: self.created_at,
            updated_at: self.updated_at,
        }
    }
}

impl Clone for AgentSession {
    fn clone(&self) -> (r: Self)
        ensures
            r == *self,
    {
        AgentSession {
            id: self.id,
            pub_id: self.pub_id.clone(),
            agent_id: self.agent_id,
            owner_user_id: self.owner_user_id,
            mcp_client_name: clone_opt_string(&self.mcp_client_name),
            mcp_client_version: clone_opt_string(&self.mcp_client_version),
            created_at: self.created_at,
        }
    }
}

pub open spec fn same_code_ref(a: Option<CodeReference>, b: Option<CodeReference>) -> bool {
    match (a, b) {
        (None, None) => true,
        (Some(x), Some(y)) => same_opt_string(x.repository_url, y.repository_url) && same_opt_string(
            x.commit_sha,
            y.commit_sha,
        ),
        _ => false,
    }
}

pub open spec fn same_model(a: Option<ModelIdentity>, b: Option<ModelIdentity>) -> bool {
    match (a, b) {
        (None, None) => true,
        (Some(x), Some(y)) => x.provider@ == y.provider@ && x.model@ == y.model@ && same_opt_string(
            x.version,
            y.version,
        ),
        _ => false,
    }
}

pub open spec fn same_runtime(a: Option<RuntimeIdentity>, b: Option<RuntimeIdentity>) -> bool {
    match (a, b) {
        (None, None) => true,
        (Some(x), Some(y)) => x.runtime_provider@ == y.runtime_provider@ && x.environment == y.environment,
        _ => false,
    }
}

/// An existing version matches the code, model and runtime of a request.
pub open spec fn same_configuration(version: AgentVersion, request: RegisterAgentRequest) -> bool {
    &&& same_code_ref(version.code_ref, request.code_ref)
    &&& same_model(version.model, request.model)
    &&& same_runtime(version.runtime, request.runtime)
}

fn code_refs_equal(a: &Option<CodeReference>, b: &Option<CodeReference>) -> (r: bool)
    ensures
        r == same_code_ref(*a, *b),
{
    match (a, b) {
        (None, None) => true,
        (Some(x), Some(y)) => opt_strings_equal(&x.repository_url, &y.repository_url) && opt_strings_equal(
            &x.commit_sha,
            &y.commit_sha,
        ),
        _ => false,
    }
}

fn models_equal(a: &Option<ModelIdentity>, b: &Option<ModelIdentity>) -> (r: bool)
    ensures
        r == same_model(*a, *b),
{
    match (a, b) {
        (None, None) => true,
        (Some(x), Some(y)) => x.provider == y.provider && x.model == y.model && opt_strings_equal(
            &x.version,
            &y.version,
        ),
        _ => false,
    }
}

fn runtimes_equal(a: &Option<RuntimeIdentity>, b: &Option<RuntimeIdentity>) -> (r: bool)
    ensures
        r == same_runtime(*a, *b),
{
    match (a, b) {
        (None, None) => true,
        (Some(x), Some(y)) => x.runtime_provider == y.runtime_provider && x.environment == y.environment,
        _ => false,
    }
}

pub open spec fn agent_key() -> spec_fn(AgentIdentity) -> (UserId, Seq<char>) {
    |a: AgentIdentity| (a.owner_user_id, a.fingerprint@)
}

pub open spec fn agent_id_key() -> spec_fn(AgentIdentity) -> AgentId {
    |a: AgentIdentity| a.id
}

pub open spec fn agent_pub_key() -> spec_fn(AgentIdentity) -> Seq<char> {
    |a: AgentIdentity| a.pub_id@
}

pub open spec fn version_key() -> spec_fn(AgentVersion) -> (AgentId, Seq<char>) {
    |v: AgentVersion| (v.agent_id, v.fingerprint@)
}

pub open spec fn version_id_key() -> spec_fn(AgentVersion) -> AgentVersionId {
    |v: AgentVersion| v.id
}

pub open spec fn account_agent_key() -> spec_fn(AgentAccount) -> AgentId {
    |a: AgentAccount| a.agent_id
}

pub open spec fn account_id_key() -> spec_fn(AgentAccount) -> AgentAccountId {
    |a: AgentAccount| a.id
}

pub open spec fn session_id_key() -> spec_fn(AgentSession) -> AgentSessionId {
    |s: AgentSession| s.id
}

/// The records of a registration manager, in the order they were created.
pub struct RegistrationView {
    pub agents: Seq<AgentIdentity>,
    pub versions: Seq<AgentVersion>,
    pub accounts: Seq<AgentAccount>,
    pub sessions: Seq<AgentSession>,
}

/// The public identifier of a new agent.
pub open spec fn agent_pub_id(id: AgentId) -> Seq<char> {
    "agt"@ + seq!['_'] + public_suffix(id.0)
}

/// The identity a request resolves to, if one is stored.
pub open spec fn existing_agent(v: RegistrationView, request: RegisterAgentRequest) -> Option<AgentIdentity> {
    find_key(v.agents, agent_key(), (request.owner_user_id, request.identity_fingerprint@))
}

/// The agent a registration resolves: the stored identity, or the new one.
pub open spec fn resolved_agent_id(v: RegistrationView, request: RegisterAgentRequest, ids: RegistrationIds) -> AgentId {
    match existing_agent(v, request) {
        Some(a) => a.id,
        None => ids.agent_id,
    }
}

pub open spec fn existing_version(v: RegistrationView, request: RegisterAgentRequest, ids: RegistrationIds) -> Option<
    AgentVersion,
> {
    find_key(v.versions, version_key(), (resolved_agent_id(v, request, ids), request.version_fingerprint@))
}

pub open spec fn existing_account(v: RegistrationView, request: RegisterAgentRequest, ids: RegistrationIds) -> Option<
    AgentAccount,
> {
    find_key(v.accounts, account_agent_key(), resolved_agent_id(v, request, ids))
}

/// Why a registration fails, checked in order, or `None` when it succeeds.
pub open spec fn registration_refusal(v: RegistrationView, request: RegisterAgentRequest, ids: RegistrationIds) -> Option<
    RegistrationError,
> {
    if request.identity_fingerprint@.len() == 0 || request.version_fingerprint@.len() == 0 {
        Some(RegistrationError::MissingFingerprint)
    } else if existing_agent(v, request) matches Some(a) && a.agent_type != request.agent_type {
        Some(RegistrationError::IdentityConflict)
    } else if existing_agent(v, request) is None && (has_key(v.agents, agent_id_key(), ids.agent_id) || has_key(
        v.agents,
        agent_pub_key(),
        agent_pub_id(ids.agent_id),
    )) {
        Some(RegistrationError::IdentifierCollision)
    } else if existing_version(v, request, ids) matches Some(x) && !same_configuration(x, request) {
        Some(RegistrationError::VersionConflict)
    } else if existing_version(v, request, ids) is None && has_key(v.versions, version_id_key(), ids.version_id) {
        Some(RegistrationError::IdentifierCollision)
    } else if existing_account(v, request, ids) is None && has_key(v.accounts, account_id_key(), ids.account_id) {
        Some(RegistrationError::IdentifierCollision)
    } else if has_key(v.sessions, session_id_key(), ids.session_id) {
        Some(RegistrationError::IdentifierCollision)
    } else {
        None
    }
}

/// `a` is the new identity of a request.
pub open spec fn new_agent(request: RegisterAgentRequest, id: AgentId, now: i64, a: AgentIdentity) -> bool {
    &&& a.id == id
    &&& a.pub_id@ == agent_pub_id(id)
    &&& a.fingerprint == request.identity_fingerprint
    &&& a.display_name == request.display_name
    &&& a.description == request.description
    &&& a.owner_user_id == request.owner_user_id
    &&& a.agent_type == request.agent_type
    &&& a.agent_status == AgentStatus::Active
    &&& a.created_at == now
    &&& a.updated_at == now
}

/// `v` is the new version of a request for `agent`.
pub open spec fn new_version(
    request: RegisterAgentRequest,
    agent: AgentId,
    id: AgentVersionId,
    now: i64,
    v: AgentVersion,
) -> bool {
    &&& v.id == id
    &&& v.pub_id@ == "agv"@ + seq!['_'] + public_suffix(id.0)
    &&& v.agent_id == agent
    &&& v.fingerprint == request.version_fingerprint
    &&& v.code_ref == request.code_ref
    &&& v.model == request.model
    &&& v.runtime == request.runtime
    &&& v.created_at == now
}

/// `a` is the new account of `agent`.
pub open spec fn new_account(agent: AgentIdentity, id: AgentAccountId, now: i64, a: AgentAccount) -> bool {
    &&& a.id == id
    &&& a.pub_id@ == "aga"@ + seq!['_'] + public_suffix(id.0)
    &&& a.agent_id == agent.id
    &&& a.owner_user_id == agent.owner_user_id
    &&& a.account_status == AccountStatus::Active
    &&& a.created_at == now
    &&& a.updated_at == now
}

/// `s` is the new session of a request for `agent`.
pub open spec fn new_session(
    request: RegisterAgentRequest,
    agent: AgentIdentity,
    id: AgentSessionId,
    now: i64,
    s: AgentSession,
) -> bool {
    &&& s.id == id
    &&& s.pub_id@ == "ags"@ + seq!['_'] + public_suffix(id.0)
    &&& s.agent_id == agent.id
    &&& s.owner_user_id == agent.owner_user_id
    &&& s.mcp_client_name == request.mcp_client_name
    &&& s.mcp_client_version == request.mcp_client_version
    &&& s.created_at == now
}

/// A successful registration: stored records are reused, missing ones are
/// created and recorded, and a new session is recorded.
pub open spec fn registered(
    v: RegistrationView,
    request: RegisterAgentRequest,
    ids: RegistrationIds,
    now: i64,
    response: RegisterAgentResponse,
    w: RegistrationView,
) -> bool {
    &&& match existing_agent(v, request) {
        Some(a) => response.agent == a && w.agents == v.agents,
        None => new_agent(request, ids.agent_id, now, response.agent) && w.agents == v.agents.push(response.agent),
    }
    &&& match existing_version(v, request, ids) {
        Some(x) => response.version == x && w.versions == v.versions,
        None => new_version(request, response.agent.id, ids.version_id, now, response.version) && w.versions
            == v.versions.push(response.version),
    }
    &&& match existing_account(v, request, ids) {
        Some(x) => response.account == x && w.accounts == v.accounts,
        None => new_account(response.agent, ids.account_id, now, response.account) && w.accounts
            == v.accounts.push(response.account),
    }
    &&& new_session(request, response.agent, ids.session_id, now, response.session)
    &&& w.sessions == v.sessions.push(response.session)
}

/// The outcome of registering `request` with identifiers `ids` at `now`.
pub open spec fn registration_outcome(
    v: RegistrationView,
    request: RegisterAgentRequest,
    ids: RegistrationIds,
    now: i64,
    r: Result<RegisterAgentResponse, RegistrationError>,
    w: RegistrationView,
) -> bool {
    match registration_refusal(v, request, ids) {
        Some(e) => r == Err::<RegisterAgentResponse, RegistrationError>(e) && w == v,
        None => r matches Ok(response) && registered(v, request, ids, now, response, w),
    }
}

/// Agents, versions, accounts and sessions of registered connections.
pub struct RegistrationManager {
    agents: Vec<AgentIdentity>,
    versions: Vec<AgentVersion>,
    accounts: Vec<AgentAccount>,
    sessions: Vec<AgentSession>,
}

impl View for RegistrationManager {
    type V = RegistrationView;

    closed spec fn view(&self) -> RegistrationView {
        RegistrationView {
            agents: self.agents@,
            versions: self.versions@,
            accounts: self.accounts@,
            sessions: self.sessions@,
        }
    }
}

/// Every lookup key names at most one record.
pub open spec fn registration_keys_unique(v: RegistrationView) -> bool {
    &&& keys_unique(v.agents, agent_key())
    &&& keys_unique(v.agents, agent_id_key())
    &&& keys_unique(v.agents, agent_pub_key())
    &&& keys_unique(v.versions, version_key())
    &&& keys_unique(v.versions, version_id_key())
    &&& keys_unique(v.accounts, account_agent_key())
    &&& keys_unique(v.accounts, account_id_key())
    &&& keys_unique(v.sessions, session_id_key())
}

impl RegistrationManager {
    pub open spec fn wf(&self) -> bool {
        registration_keys_unique(self@)
    }

    /// A manager with no records.
    pub fn new() -> (m: Self)
        ensures
            m.wf(),
            m@.agents.len() == 0,
            m@.versions.len() == 0,
            m@.accounts.len() == 0,
            m@.sessions.len() == 0,
    {
        RegistrationManager { agents: Vec::new(), versions: Vec::new(), accounts: Vec::new(), sessions: Vec::new() }
    }

    fn agent_position(&self, owner: UserId, fingerprint: &str) -> (r: Option<usize>)
        requires
            self.wf(),
        ensures
            match r {
                Some(i) => i < self@.agents.len() && existing_agent_at(self@, owner, fingerprint@) == Some(self@.agents[i as int]),
                None => existing_agent_at(self@, owner, fingerprint@) is None,
            },
    {
        let mut i: usize = 0;
        while i < self.agents.len()
            invariant
                i <= self.agents.len(),
                self.wf(),
                forall|j: int| 0 <= j < i ==> agent_key()(#[trigger] self@.agents[j]) != (owner, fingerprint@),
            decreases self.agents.len() - i,
        {
            if self.agents[i].owner_user_id == owner && str_eq(self.agents[i].fingerprint.as_str(), fingerprint) {
                proof {
                    assert(agent_key()(self@.agents[i as int]) == (owner, fingerprint@));
                    lemma_find_at(self@.agents, agent_key(), i as int);
                }
                return Some(i);
            }
            i = i + 1;
        }
        proof {
            if has_key(self@.agents, agent_key(), (owner, fingerprint@)) {
                lemma_find_some(self@.agents, agent_key(), (owner, fingerprint@));
            }
        }
        None
    }

    fn agent_id_taken(&self, id: AgentId) -> (r: bool)
        ensures
            r == has_key(self@.agents, agent_id_key(), id),
    {
        let mut i: usize = 0;
        while i < self.agents.len()
            invariant
                i <= self.agents.len(),
                forall|j: int| 0 <= j < i ==> agent_id_key()(#[trigger] self@.agents[j]) != id,
            decreases self.agents.len() - i,
        {
            if self.agents[i].id == id {
                assert(agent_id_key()(self@.agents[i as int]) == id);
                return true;
            }
            i = i + 1;
        }
        false
    }

    fn agent_pub_id_taken(&self, pub_id: &str) -> (r: bool)
        ensures
            r == has_key(self@.agents, agent_pub_key(), pub_id@),
    {
        let mut i: usize = 0;
        while i < self.agents.len()
            invariant
                i <= self.agents.len(),
                forall|j: int| 0 <= j < i ==> agent_pub_key()(#[trigger] self@.agents[j]) != pub_id@,
            decreases self.agents.len() - i,
        {
            if str_eq(self.agents[i].pub_id.as_str(), pub_id) {
                assert(agent_pub_key()(self@.agents[i as int]) == pub_id@);
                return true;
            }
            i = i + 1;
        }
        false
    }

    fn version_position(&self, agent: AgentId, fingerprint: &str) -> (r: Option<usize>)
        requires
            self.wf(),
        ensures
            match r {
                Some(i) => i < self@.versions.len() && find_key(self@.versions, version_key(), (agent, fingerprint@))
                    == Some(self@.versions[i as int]),
                None => find_key(self@.versions, version_key(), (agent, fingerprint@)) is None,
            },
    {
        let mut i: usize = 0;
        while i < self.versions.len()
            invariant
                i <= self.versions.len(),
                self.wf(),
                forall|j: int| 0 <= j < i ==> version_key()(#[trigger] self@.versions[j]) != (agent, fingerprint@),
            decreases self.versions.len() - i,
        {
            if self.versions[i].agent_id == agent && str_eq(self.versions[i].fingerprint.as_str(), fingerprint) {
                proof {
                    assert(version_key()(self@.versions[i as int]) == (agent, fingerprint@));
                    lemma_find_at(self@.versions, version_key(), i as int);
                }
                return Some(i);
            }
            i = i + 1;
        }
        proof {
            if has_key(self@.versions, version_key(), (agent, fingerprint@)) {
                lemma_find_some(self@.versions, version_key(), (agent, fingerprint@));
            }
        }
        None
    }

    fn version_id_taken(&self, id: AgentVersionId) -> (r: bool)
        ensures
            r == has_key(self@.versions, version_id_key(), id),
    {
        let mut i: usize = 0;
        while i < self.versions.len()
            invariant
                i <= self.versions.len(),
                forall|j: int| 0 <= j < i ==> version_id_key()(#[trigger] self@.versions[j]) != id,
            decreases self.versions.len() - i,
        {
            if self.versions[i].id == id {
                assert(version_id_key()(self@.versions[i as int]) == id);
                return true;
            }
            i = i + 1;
        }
        false
    }

    fn account_position(&self, agent: AgentId) -> (r: Option<usize>)
        requires
            self.wf(),
        ensures
            match r {
                Some(i) => i < self@.accounts.len() && find_key(self@.accounts, account_agent_key(), agent) == Some(
                    self@.accounts[i as int],
                ),
                None => find_key(self@.accounts, account_agent_key(), agent) is None,
            },
    {
        let mut i: usize = 0;
        while i < self.accounts.len()
            invariant
                i <= self.accounts.len(),
                self.wf(),
                forall|j: int| 0 <= j < i ==> account_agent_key()(#[trigger] self@.accounts[j]) != agent,
            decreases self.accounts.len() - i,
        {
            if self.accounts[i].agent_id == agent {
                proof {
                    assert(account_agent_key()(self@.accounts[i as int]) == agent);
                    lemma_find_at(self@.accounts, account_agent_key(), i as int);
                }
                return Some(i);
            }
            i = i + 1;
        }
        proof {
            if has_key(self@.accounts, account_agent_key(), agent) {
                lemma_find_some(self@.accounts, account_agent_key(), agent);
            }
        }
        None
    }

    fn account_id_taken(&self, id: AgentAccountId) -> (r: bool)
        ensures
            r == has_key(self@.accounts, account_id_key(), id),
    {
        let mut i: usize = 0;
        while i < self.accounts.len()
            invariant
                i <= self.accounts.len(),
                forall|j: int| 0 <= j < i ==> account_id_key()(#[trigger] self@.accounts[j]) != id,
            decreases self.accounts.len() - i,
        {
            if self.accounts[i].id == id {
                assert(account_id_key()(self@.accounts[i as int]) == id);
                return true;
            }
            i = i + 1;
        }
        false
    }

    fn session_id_taken(&self, id: AgentSessionId) -> (r: bool)
        ensures
            r == has_key(self@.sessions, session_id_key(), id),
    {
        let mut i: usize = 0;
        while i < self.sessions.len()
            invariant
                i <= self.sessions.len(),
                forall|j: int| 0 <= j < i ==> session_id_key()(#[trigger] self@.sessions[j]) != id,
            decreases self.sessions.len() - i,
        {
            if self.sessions[i].id == id {
                assert(session_id_key()(self@.sessions[i as int]) == id);
                return true;
            }
            i = i + 1;
        }
        false
    }
}

/// The message refusing stored registration records that collide.
pub const STORED_REGISTRATIONS_INCONSISTENT: &'static str = "stored registration records are inconsistent";

fn inconsistent_registrations() -> (e: RegistrationError)
    ensures
        e matches RegistrationError::Storage(StorageError::InvalidData(m)) && m@ == STORED_REGISTRATIONS_INCONSISTENT@,
{
    RegistrationError::Storage(StorageError::InvalidData(String::from_str(STORED_REGISTRATIONS_INCONSISTENT)))
}

impl RegistrationManager {
    /// A manager over stored agents, versions, accounts and sessions;
    /// records that share a lookup key are refused.
    #[verifier::rlimit(40)]
    pub fn from_records(
        agents: Vec<AgentIdentity>,
        versions: Vec<AgentVersion>,
        accounts: Vec<AgentAccount>,
        sessions: Vec<AgentSession>,
    ) -> (r: Result<Self, RegistrationError>)
        ensures
            ({
                let records = RegistrationView { agents: agents@, versions: versions@, accounts: accounts@, sessions: sessions@ };
                match r {
                    Ok(m) => m.wf() && m@ == records,
                    Err(e) => !registration_keys_unique(records)
                        && (e matches RegistrationError::Storage(StorageError::InvalidData(text))
                        && text@ == STORED_REGISTRATIONS_INCONSISTENT@),
                }
            }),
    {
        let mut m = RegistrationManager::new();
        let mut i: usize = 0;
        while i < agents.len()
            invariant
                m.wf(),
                i <= agents.len(),
                m@.agents == agents@.take(i as int),
                m@.versions.len() == 0,
                m@.accounts.len() == 0,
                m@.sessions.len() == 0,
            decreases agents.len() - i,
        {
            let agent = agents[i].clone();
            assert(agents@[i as int] == agent);
            assert(agents@.take(i as int) =~= m@.agents);
            let existing = m.agent_position(agent.owner_user_id, agent.fingerprint.as_str());
            if existing.is_some() || m.agent_id_taken(agent.id) || m.agent_pub_id_taken(agent.pub_id.as_str()) {
                proof {
                    if existing.is_some() {
                        lemma_prefix_collision(agents@, agent_key(), i as int);
                    } else if has_key(m@.agents, agent_id_key(), agent.id) {
                        lemma_prefix_collision(agents@, agent_id_key(), i as int);
                    } else {
                        lemma_prefix_collision(agents@, agent_pub_key(), i as int);
                    }
                }
                return Err(inconsistent_registrations());
            }
            proof {
                lemma_push(m@.agents, agent_key(), agent);
                lemma_push(m@.agents, agent_id_key(), agent);
                lemma_push(m@.agents, agent_pub_key(), agent);
            }
            m.agents.push(agent);
            assert(agents@.take(i + 1) =~= agents@.take(i as int).push(agents@[i as int]));
            i = i + 1;
        }
        assert(agents@.take(agents.len() as int) =~= agents@);
        let mut i: usize = 0;
        while i < versions.len()
            invariant
                m.wf(),
                i <= versions.len(),
                m@.agents == agents@,
                m@.versions == versions@.take(i as int),
                m@.accounts.len() == 0,
                m@.sessions.len() == 0,
            decreases versions.len() - i,
        {
            let version = versions[i].clone();
            assert(versions@[i as int] == version);
            let existing = m.version_position(version.agent_id, version.fingerprint.as_str());
            if existing.is_some() || m.version_id_taken(version.id) {
                proof {
                    if existing.is_some() {
                        lemma_prefix_collision(versions@, version_key(), i as int);
                    } else {
                        lemma_prefix_collision(versions@, version_id_key(), i as int);
                    }
                }
                return Err(inconsistent_registrations());
            }
            proof {
                lemma_push(m@.versions, version_key(), version);
                lemma_push(m@.versions, version_id_key(), version);
            }
            m.versions.push(version);
            assert(versions@.take(i + 1) =~= versions@.take(i as int).push(versions@[i as int]));
            i = i + 1;
        }
        assert(versions@.take(versions.len() as int) =~= versions@);
        let mut i: usize = 0;
        while i < accounts.len()
            invariant
                m.wf(),
                i <= accounts.len(),
                m@.agents == agents@,
                m@.versions == versions@,
                m@.accounts == accounts@.take(i as int),
                m@.sessions.len() == 0,
            decreases accounts.len() - i,
        {
            let account = accounts[i].clone();
            assert(accounts@[i as int] == account);
            let existing = m.account_position(account.agent_id);
            if existing.is_some() || m.account_id_taken(account.id) {
                proof {
                    if existing.is_some() {
                        lemma_prefix_collision(accounts@, account_agent_key(), i as int);
                    } else {
                        lemma_prefix_collision(accounts@, account_id_key(), i as int);
                    }
                }
                return Err(inconsistent_registrations());
            }
            proof {
                lemma_push(m@.accounts, account_agent_key(), account);
                lemma_push(m@.accounts, account_id_key(), account);
            }
            m.accounts.push(account);
            assert(accounts@.take(i + 1) =~= accounts@.take(i as int).push(accounts@[i as int]));
            i = i + 1;
        }
        assert(accounts@.take(accounts.len() as int) =~= accounts@);
        let mut i: usize = 0;
        while i < sessions.len()
            invariant
                m.wf(),
                i <= sessions.len(),
                m@.agents == agents@,
                m@.versions == versions@,
                m@.accounts == accounts@,
                m@.sessions == sessions@.take(i as int),
            decreases sessions.len() - i,
        {
            let session = sessions[i].clone();
            assert(sessions@[i as int] == session);
            if m.session_id_taken(session.id) {
                proof {
                    lemma_prefix_collision(sessions@, session_id_key(), i as int);
                }
                return Err(inconsistent_registrations());
            }
            proof {
                lemma_push(m@.sessions, session_id_key(), session);
            }
            m.sessions.push(session);
            assert(sessions@.take(i + 1) =~= sessions@.take(i as int).push(sessions@[i as int]));
            i = i + 1;
        }
        assert(sessions@.take(sessions.len() as int) =~= sessions@);
        Ok(m)
    }
}

/// The identity stored for an owner and identity fingerprint.
pub open spec fn existing_agent_at(v: RegistrationView, owner: UserId, fingerprint: Seq<char>) -> Option<AgentIdentity> {
    find_key(v.agents, agent_key(), (owner, fingerprint))
}

impl RegistrationManager {
    /// Register an agent connection with identifiers `ids` at `now`.
    ///
    /// Identity, version and account are reused when stored and created
    /// otherwise; a new session is recorded each time. A registration that
    /// fails changes nothing.
    #[verifier::rlimit(40)]
    pub fn register_agent_at(&mut self, request: RegisterAgentRequest, ids: RegistrationIds, now: i64) -> (r: Result<
        RegisterAgentResponse,
        RegistrationError,
    >)
        requires
            old(self).wf(),
        ensures
            final(self).wf(),
            registration_outcome(old(self)@, request, ids, now, r, final(self)@),
    {
        if request.identity_fingerprint.as_str().unicode_len() == 0
            || request.version_fingerprint.as_str().unicode_len() == 0 {
            return Err(RegistrationError::MissingFingerprint);
        }
        let ghost v = self@;
        let agent_pos = self.agent_position(request.owner_user_id, request.identity_fingerprint.as_str());
        let (agent, agent_is_new) = match agent_pos {
            Some(i) => {
                if self.agents[i].agent_type != request.agent_type {
                    return Err(RegistrationError::IdentityConflict);
                }
                (self.agents[i].clone(), false)
            },
            None => {
                let pub_id = public_id("agt", ids.agent_id.0);
                if self.agent_id_taken(ids.agent_id) || self.agent_pub_id_taken(pub_id.as_str()) {
                    return Err(RegistrationError::IdentifierCollision);
                }
                (
                    AgentIdentity {
                        id: ids.agent_id,
                        pub_id,
                        fingerprint: request.identity_fingerprint.clone(),
                        display_name: request.display_name.clone(),
                        description: clone_opt_string(&request.description),
                        owner_user_id: request.owner_user_id,
                        agent_type: request.agent_type,
                        agent_status: AgentStatus::Active,
                        created_at: now,
                        updated_at: now,
                    },
                    true,
                )
            },
        };
        assert(agent.id == resolved_agent_id(v, request, ids));
        let version_pos = self.version_position(agent.id, request.version_fingerprint.as_str());
        let (version, version_is_new) = match version_pos {
            Some(i) => {
                let same = code_refs_equal(&self.versions[i].code_ref, &request.code_ref) && models_equal(
                    &self.versions[i].model,
                    &request.model,
                ) && runtimes_equal(&self.versions[i].runtime, &request.runtime);
                if !same {
                    return Err(RegistrationError::VersionConflict);
                }
                (self.versions[i].clone(), false)
            },
            None => {
                if self.version_id_taken(ids.version_id) {
                    return Err(RegistrationError::IdentifierCollision);
                }
                (
                    AgentVersion {
                        id: ids.version_id,
                        pub_id: public_id("agv", ids.version_id.0),
                        agent_id: agent.id,
                        fingerprint: request.version_fingerprint.clone(),
                        code_ref: clone_code_ref(&request.code_ref),
                        model: clone_model(&request.model),
                        runtime: clone_runtime(&request.runtime),
                        created_at: now,
                    },
                    true,
                )
            },
        };
        let account_pos = self.account_position(agent.id);
        let (account, account_is_new) = match account_pos {
            Some(i) => (self.accounts[i].clone(), false),
            None => {
                if self.account_id_taken(ids.account_id) {
                    return Err(RegistrationError::IdentifierCollision);
                }
                (
                    AgentAccount {
                        id: ids.account_id,
                        pub_id: public_id("aga", ids.account_id.0),
                        agent_id: agent.id,
                        owner_user_id: agent.owner_user_id,
                        account_status: AccountStatus::Active,
                        created_at: now,
                        updated_at: now,
                    },
                    true,
                )
            },
        };
        if self.session_id_taken(ids.session_id) {
            return Err(RegistrationError::IdentifierCollision);
        }
        let session = AgentSession {
            id: ids.session_id,
            pub_id: public_id("ags", ids.session_id.0),
            agent_id: agent.id,
            owner_user_id: agent.owner_user_id,
            mcp_client_name: clone_opt_string(&request.mcp_client_name),
            mcp_client_version: clone_opt_string(&request.mcp_client_version),
            created_at: now,
        };
        proof {
            assert(registration_refusal(v, request, ids) is None);
        }
        if agent_is_new {
            proof {
                lemma_push(self@.agents, agent_key(), agent);
                lemma_push(self@.agents, agent_id_key(), agent);
                lemma_push(self@.agents, agent_pub_key(), agent);
            }
            self.agents.push(agent.clone());
        }
        if version_is_new {
            proof {
                lemma_push(self@.versions, version_key(), version);
                lemma_push(self@.versions, version_id_key(), version);
            }
            self.versions.push(version.clone());
        }
        if account_is_new {
            proof {
                lemma_push(self@.accounts, account_agent_key(), account);
                lemma_push(self@.accounts, account_id_key(), account);
            }
            self.accounts.push(account.clone());
        }
        proof {
            lemma_push(self@.sessions, session_id_key(), session);
        }
        self.sessions.push(session.clone());
        Ok(RegisterAgentResponse { agent, version, account, session })
    }

    /// Register an agent connection now, under fresh identifiers.
    pub fn register_agent(&mut self, request: RegisterAgentRequest) -> (r: Result<RegisterAgentResponse, RegistrationError>)
        requires
            old(self).wf(),
        ensures
            final(self).wf(),
            exists|ids: RegistrationIds, now: i64| #[trigger] registration_outcome(
                old(self)@,
                request,
                ids,
                now,
                r,
                final(self)@,
            ),
    {
        let ids = RegistrationIds {
            agent_id: AgentId::new(),
            version_id: AgentVersionId::new(),
            account_id: AgentAccountId::new(),
            session_id: AgentSessionId::new(),
        };
        let now = now_micros();
        let ghost request_copy = request;
        let r = self.register_agent_at(request, ids, now);
        assert(registration_outcome(old(self)@, request_copy, ids, now, r, self@));
        r
    }

    /// The agent whose public identifier is `pub_id`.
    pub fn agent_id_for_pub_id(&self, pub_id: &str) -> (r: Result<Option<AgentId>, RegistrationError>)
        requires
            self.wf(),
        ensures
            r == Ok::<Option<AgentId>, RegistrationError>(
                match find_key(self@.agents, agent_pub_key(), pub_id@) {
                    Some(a) => Some(a.id),
                    None => None,
                },
            ),
    {
        let mut i: usize = 0;
        while i < self.agents.len()
            invariant
                self.wf(),
                i <= self.agents.len(),
                forall|j: int| 0 <= j < i ==> agent_pub_key()(#[trigger] self@.agents[j]) != pub_id@,
            decreases self.agents.len() - i,
        {
            if str_eq(self.agents[i].pub_id.as_str(), pub_id) {
                proof {
                    assert(agent_pub_key()(self@.agents[i as int]) == pub_id@);
                    lemma_find_at(self@.agents, agent_pub_key(), i as int);
                }
                return Ok(Some(self.agents[i].id));
            }
            i = i + 1;
        }
        proof {
            if has_key(self@.agents, agent_pub_key(), pub_id@) {
                lemma_find_some(self@.agents, agent_pub_key(), pub_id@);
            }
        }
        Ok(None)
    }

    /// The agent `agent_id`.
    pub fn agent_for_id(&self, agent_id: &AgentId) -> (r: Result<Option<AgentIdentity>, RegistrationError>)
        requires
            self.wf(),
        ensures
            r == Ok::<Option<AgentIdentity>, RegistrationError>(find_key(self@.agents, agent_id_key(), *agent_id)),
    {
        let mut i: usize = 0;
        while i < self.agents.len()
            invariant
                self.wf(),
                i <= self.agents.len(),
                forall|j: int| 0 <= j < i ==> agent_id_key()(#[trigger] self@.agents[j]) != *agent_id,
            decreases self.agents.len() - i,
        {
            if self.agents[i].id == *agent_id {
                proof {
                    assert(agent_id_key()(self@.agents[i as int]) == *agent_id);
                    lemma_find_at(self@.agents, agent_id_key(), i as int);
                }
                return Ok(Some(self.agents[i].clone()));
            }
            i = i + 1;
        }
        proof {
            if has_key(self@.agents, agent_id_key(), *agent_id) {
                lemma_find_some(self@.agents, agent_id_key(), *agent_id);
            }
        }
        Ok(None)
    }

    /// The version `version_id`.
    pub fn version_for_id(&self, version_id: &AgentVersionId) -> (r: Result<Option<AgentVersion>, RegistrationError>)
        requires
            self.wf(),
        ensures
            r == Ok::<Option<AgentVersion>, RegistrationError>(find_key(self@.versions, version_id_key(), *version_id)),
    {
        let mut i: usize = 0;
        while i < self.versions.len()
            invariant
                self.wf(),
                i <= self.versions.len(),
                forall|j: int| 0 <= j < i ==> version_id_key()(#[trigger] self@.versions[j]) != *version_id,
            decreases self.versions.len() - i,
        {
            if self.versions[i].id == *version_id {
                proof {
                    assert(version_id_key()(self@.versions[i as int]) == *version_id);
                    lemma_find_at(self@.versions, version_id_key(), i as int);
                }
                return Ok(Some(self.versions[i].clone()));
            }
            i = i + 1;
        }
        proof {
            if has_key(self@.versions, version_id_key(), *version_id) {
                lemma_find_some(self@.versions, version_id_key(), *version_id);
            }
        }
        Ok(None)
    }

    /// The account of agent `agent_id`.
    pub fn account_for_agent(&self, agent_id: &AgentId) -> (r: Result<Option<AgentAccount>, RegistrationError>)
        requires
            self.wf(),
        ensures
            r == Ok::<Option<AgentAccount>, RegistrationError>(find_key(self@.accounts, account_agent_key(), *agent_id)),
    {
        match self.account_position(*agent_id) {
            Some(i) => Ok(Some(self.accounts[i].clone())),
            None => Ok(None),
        }
    }

    /// The session `session_id`.
    pub fn session_for_id(&self, session_id: &AgentSessionId) -> (r: Result<Option<AgentSession>, RegistrationError>)
        requires
            self.wf(),
        ensures
            r == Ok::<Option<AgentSession>, RegistrationError>(find_key(self@.sessions, session_id_key(), *session_id)),
    {
        let mut i: usize = 0;
        while i < self.sessions.len()
            invariant
                self.wf(),
                i <= self.sessions.len(),
                forall|j: int| 0 <= j < i ==> session_id_key()(#[trigger] self@.sessions[j]) != *session_id,
            decreases self.sessions.len() - i,
        {
            if self.sessions[i].id == *session_id {
                proof {
                    assert(session_id_key()(self@.sessions[i as int]) == *session_id);
                    lemma_find_at(self@.sessions, session_id_key(), i as int);
                }
                return Ok(Some(self.sessions[i].clone()));
            }
            i = i + 1;
        }
        proof {
            if has_key(self@.sessions, session_id_key(), *session_id) {
                lemma_find_some(self@.sessions, session_id_key(), *session_id);
            }
        }
        Ok(None)
    }
}

impl Default for RegistrationManager {
    fn default() -> (m: Self)
        ensures
            m.wf(),
            m@.agents.len() == 0,
            m@.versions.len() == 0,
            m@.accounts.len() == 0,
            m@.sessions.len() == 0,
    {
        RegistrationManager::new()
    }
}

/// Registering the same request again reuses the identity, version and
/// account that the first registration resolved, and records one more
/// session; it can only be refused when the new session's identifier is
/// already taken.
pub proof fn lemma_registration_reuses_identity_version_and_account(
    v: RegistrationView,
    request: RegisterAgentRequest,
    first_ids: RegistrationIds,
    first_now: i64,
    first: RegisterAgentResponse,
    w: RegistrationView,
    second_ids: RegistrationIds,
    second_now: i64,
    second: Result<RegisterAgentResponse, RegistrationError>,
    u: RegistrationView,
)
    requires
        registration_keys_unique(v),
        registration_keys_unique(w),
        registration_outcome(v, request, first_ids, first_now, Ok(first), w),
        registration_outcome(w, request, second_ids, second_now, second, u),
    ensures
        registration_refusal(w, request, second_ids) == (if has_key(w.sessions, session_id_key(), second_ids.session_id) {
            Some(RegistrationError::IdentifierCollision)
        } else {
            None::<RegistrationError>
        }),
        second matches Ok(again) ==> {
            &&& again.agent == first.agent
            &&& again.version == first.version
            &&& again.account == first.account
            &&& again.session.id == second_ids.session_id
            &&& u.agents == w.agents
            &&& u.versions == w.versions
            &&& u.accounts == w.accounts
            &&& u.sessions == w.sessions.push(again.session)
        },
{
    match existing_agent(v, request) {
        Some(a) => {},
        None => {
            lemma_find_at(w.agents, agent_key(), v.agents.len() as int);
        },
    }
    assert(existing_agent(w, request) == Some(first.agent));
    assert(resolved_agent_id(w, request, second_ids) == first.agent.id);
    assert(resolved_agent_id(v, request, first_ids) == first.agent.id);
    match existing_version(v, request, first_ids) {
        Some(x) => {},
        None => {
            lemma_find_at(w.versions, version_key(), v.versions.len() as int);
        },
    }
    assert(existing_version(w, request, second_ids) == Some(first.version));
    assert(same_configuration(first.version, request));
    match existing_account(v, request, first_ids) {
        Some(x) => {},
        None => {
            lemma_find_at(w.accounts, account_agent_key(), v.accounts.len() as int);
        },
    }
    assert(existing_account(w, request, second_ids) == Some(first.account));
}

/// Registering the same identity again with a version fingerprint that its
/// agent has no version under reuses the identity and the account, and
/// records a new version and a new session; it can only be refused when a
/// new record's identifier is already taken.
pub proof fn lemma_new_version_reuses_identity_and_account(
    v: RegistrationView,
    request: RegisterAgentRequest,
    first_ids: RegistrationIds,
    first_now: i64,
    first: RegisterAgentResponse,
    w: RegistrationView,
    request2: RegisterAgentRequest,
    second_ids: RegistrationIds,
    second_now: i64,
    second: Result<RegisterAgentResponse, RegistrationError>,
    u: RegistrationView,
)
    requires
        registration_keys_unique(v),
        registration_keys_unique(w),
        registration_outcome(v, request, first_ids, first_now, Ok(first), w),
        request2.owner_user_id == request.owner_user_id,
        request2.identity_fingerprint@ == request.identity_fingerprint@,
        request2.agent_type == request.agent_type,
        request2.version_fingerprint@.len() > 0,
        !has_key(w.versions, version_key(), (first.agent.id, request2.version_fingerprint@)),
        registration_outcome(w, request2, second_ids, second_now, second, u),
    ensures
        registration_refusal(w, request2, second_ids) == (if has_key(w.versions, version_id_key(), second_ids.version_id)
            || has_key(w.sessions, session_id_key(), second_ids.session_id) {
            Some(RegistrationError::IdentifierCollision)
        } else {
            None::<RegistrationError>
        }),
        second matches Ok(again) ==> {
            &&& again.agent == first.agent
            &&& again.account == first.account
            &&& again.version.id == second_ids.version_id
            &&& again.version.agent_id == first.agent.id
            &&& again.version.fingerprint == request2.version_fingerprint
            &&& again.session.id == second_ids.session_id
            &&& u.agents == w.agents
            &&& u.accounts == w.accounts
            &&& u.versions == w.versions.push(again.version)
            &&& u.sessions == w.sessions.push(again.session)
        },
{
    match existing_agent(v, request) {
        Some(a) => {},
        None => {
            lemma_find_at(w.agents, agent_key(), v.agents.len() as int);
        },
    }
    assert(existing_agent(w, request) == Some(first.agent));
    assert(existing_agent(w, request2) == Some(first.agent));
    assert(resolved_agent_id(w, request2, second_ids) == first.agent.id);
    assert(resolved_agent_id(v, request, first_ids) == first.agent.id);
    assert(existing_version(w, request2, second_ids) is None);
    match existing_account(v, request, first_ids) {
        Some(x) => {},
        None => {
            lemma_find_at(w.accounts, account_agent_key(), v.accounts.len() as int);
        },
    }
    assert(existing_account(w, request2, second_ids) == Some(first.account));
}

/// A successful registration answers with a version that carries exactly
/// the request's version fingerprint, code reference (repository and
/// commit), model and runtime, whether the version was stored before or is
/// new; a stored version under the fingerprint whose code reference differs
/// from the request's is never reused.
pub proof fn lemma_registered_version_has_the_requested_configuration(
    v: RegistrationView,
    request: RegisterAgentRequest,
    ids: RegistrationIds,
    now: i64,
    r: Result<RegisterAgentResponse, RegistrationError>,
    w: RegistrationView,
)
    requires
        registration_outcome(v, request, ids, now, r, w),
    ensures
        r matches Ok(resp) ==> {
            &&& resp.version.fingerprint@ == request.version_fingerprint@
            &&& match (resp.version.code_ref, request.code_ref) {
                (None, None) => true,
                (Some(x), Some(y)) => (match (x.repository_url, y.repository_url) {
                    (None, None) => true,
                    (Some(p), Some(q)) => p@ == q@,
                    _ => false,
                }) && (match (x.commit_sha, y.commit_sha) {
                    (None, None) => true,
                    (Some(p), Some(q)) => p@ == q@,
                    _ => false,
                }),
                _ => false,
            }
            &&& match (resp.version.model, request.model) {
                (None, None) => true,
                (Some(x), Some(y)) => x.provider@ == y.provider@ && x.model@ == y.model@ && (match (x.version, y.version) {
                    (None, None) => true,
                    (Some(p), Some(q)) => p@ == q@,
                    _ => false,
                }),
                _ => false,
            }
            &&& match (resp.version.runtime, request.runtime) {
                (None, None) => true,
                (Some(x), Some(y)) => x.runtime_provider@ == y.runtime_provider@ && x.environment == y.environment,
                _ => false,
            }
        },
{
    if let Ok(resp) = r {
        match existing_version(v, request, ids) {
            Some(x) => {
                let k = (resolved_agent_id(v, request, ids), request.version_fingerprint@);
                lemma_find_some(v.versions, version_key(), k);
            },
            None => {},
        }
    }
}

/// Registering a stored identity and type again, with a version
/// fingerprint that names a stored version whose code reference differs
/// from the request's in repository or commit, is refused as a version
/// conflict and changes nothing.
pub proof fn lemma_changed_code_reference_is_a_version_conflict(
    v: RegistrationView,
    request: RegisterAgentRequest,
    ids: RegistrationIds,
    now: i64,
    r: Result<RegisterAgentResponse, RegistrationError>,
    w: RegistrationView,
)
    requires
        registration_outcome(v, request, ids, now, r, w),
        request.identity_fingerprint@.len() > 0,
        request.version_fingerprint@.len() > 0,
        existing_agent(v, request) matches Some(a) && a.agent_type == request.agent_type,
        existing_version(v, request, ids) is Some,
        !match (existing_version(v, request, ids)->0.code_ref, request.code_ref) {
            (None, None) => true,
            (Some(x), Some(y)) => (match (x.repository_url, y.repository_url) {
                (None, None) => true,
                (Some(p), Some(q)) => p@ == q@,
                _ => false,
            }) && (match (x.commit_sha, y.commit_sha) {
                (None, None) => true,
                (Some(p), Some(q)) => p@ == q@,
                _ => false,
            }),
            _ => false,
        },
    ensures
        r == Err::<RegisterAgentResponse, RegistrationError>(RegistrationError::VersionConflict),
        w == v,
{
}

} // verus!
