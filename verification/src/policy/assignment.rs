//! Where a policy applies: as its owner's default, or as the override of one
//! agent; and how that scope is stored as a type and an identifier.
use vstd::prelude::*;

use crate::common::{parse_uuid, uuid_parse_result, AgentId, UserId};
use crate::format::{uuid_string, uuid_text};
use crate::policy::model::Policy;
use crate::storage::StorageError;
use crate::text::{push_str, str_eq, string_from_chars};

verus! {

#[derive(Clone, Copy, Debug, PartialEq, Eq, Hash, Structural)]
pub enum PolicyAssignmentScope {
    UserDefault,
    AgentOverride(AgentId),
}

/// A policy assigned to an owner for one scope.
#[derive(Debug)]
pub struct PolicyAssignmentRecord {
    pub owner_user_id: UserId,
    pub scope: PolicyAssignmentScope,
    pub policy: Policy,
    pub created_at: i64,
    pub updated_at: i64,
}

pub open spec fn scope_type_text(scope: PolicyAssignmentScope) -> Seq<char> {
    match scope {
        PolicyAssignmentScope::UserDefault => "user_default"@,
        PolicyAssignmentScope::AgentOverride(_) => "agent_override"@,
    }
}

pub open spec fn scope_id_text(scope: PolicyAssignmentScope) -> Seq<char> {
    match scope {
        PolicyAssignmentScope::UserDefault => "default"@,
        PolicyAssignmentScope::AgentOverride(agent) => uuid_text(agent.0),
    }
}

/// The override scope of the agent whose stored identifier `scope_id`
/// parsed as `parsed`, or the message refusing an identifier that did not
/// parse.
pub open spec fn override_from_parsed(scope_id: Seq<char>, parsed: Option<u128>) -> Result<PolicyAssignmentScope, Seq<char>> {
    match parsed {
        Some(v) => Ok(PolicyAssignmentScope::AgentOverride(AgentId(v))),
        None => Err("invalid agent id `"@ + scope_id + "`"@),
    }
}

/// The scope that stored parts describe, or the message refusing them.
pub open spec fn scope_from_parts(scope_type: Seq<char>, scope_id: Seq<char>) -> Result<PolicyAssignmentScope, Seq<char>> {
    if scope_type == "user_default"@ {
        Ok(PolicyAssignmentScope::UserDefault)
    } else if scope_type == "agent_override"@ {
        override_from_parsed(scope_id, uuid_parse_result(scope_id))
    } else {
        Err("unknown policy assignment scope `"@ + scope_type + "`"@)
    }
}

impl PolicyAssignmentScope {
    /// The stored name of the scope's type.
    pub fn scope_type(&self) -> (s: &'static str)
        ensures
            s@ == scope_type_text(*self),
    {
        match self {
            PolicyAssignmentScope::UserDefault => "user_default",
            PolicyAssignmentScope::AgentOverride(_) => "agent_override",
        }
    }

    /// The stored identifier of the scope: `default`, or the agent's UUID.
    pub fn scope_id(&self) -> (s: String)
        ensures
            s@ == scope_id_text(*self),
    {
        match self {
            PolicyAssignmentScope::UserDefault => String::from_str("default"),
            PolicyAssignmentScope::AgentOverride(agent) => uuid_string(agent.0),
        }
    }

    /// The UUID of the overridden agent, if any.
    pub fn agent_id(&self) -> (s: Option<String>)
        ensures
            match *self {
                PolicyAssignmentScope::UserDefault => s is None,
                PolicyAssignmentScope::AgentOverride(agent) => s matches Some(t) && t@ == uuid_text(agent.0),
            },
    {
        match self {
            PolicyAssignmentScope::UserDefault => None,
            PolicyAssignmentScope::AgentOverride(agent) => Some(uuid_string(agent.0)),
        }
    }

    /// The override scope of the agent whose stored identifier `scope_id`
    /// parsed as `parsed`; an identifier that did not parse is refused.
    pub fn override_from_parsed(scope_id: &str, parsed: Option<u128>) -> (r: Result<Self, StorageError>)
        ensures
            match override_from_parsed(scope_id@, parsed) {
                Ok(scope) => r == Ok::<Self, StorageError>(scope),
                Err(m) => r matches Err(StorageError::InvalidData(text)) && text@ == m,
            },
    {
        match parsed {
            Some(v) => Ok(PolicyAssignmentScope::AgentOverride(AgentId(v))),
            None => {
                let mut out: Vec<char> = Vec::new();
                push_str(&mut out, "invalid agent id `");
                push_str(&mut out, scope_id);
                push_str(&mut out, "`");
                Err(StorageError::InvalidData(string_from_chars(out.as_slice())))
            },
        }
    }

    /// The scope that stored parts describe.
    pub fn from_parts(scope_type: &str, scope_id: &str) -> (r: Result<Self, StorageError>)
        ensures
            match scope_from_parts(scope_type@, scope_id@) {
                Ok(scope) => r == Ok::<Self, StorageError>(scope),
                Err(m) => r matches Err(StorageError::InvalidData(text)) && text@ == m,
            },
            forall|agent: AgentId| scope_type@ == "agent_override"@ && #[trigger] uuid_text(agent.0) == scope_id@
                ==> r == Ok::<Self, StorageError>(PolicyAssignmentScope::AgentOverride(agent)),
    {
        if str_eq(scope_type, "user_default") {
            proof {
                reveal_strlit("user_default");
                reveal_strlit("agent_override");
                assert("user_default"@[0] != "agent_override"@[0]);
            }
            return Ok(PolicyAssignmentScope::UserDefault);
        }
        if str_eq(scope_type, "agent_override") {
            return Self::override_from_parsed(scope_id, parse_uuid(scope_id));
        }
        let mut out: Vec<char> = Vec::new();
        push_str(&mut out, "unknown policy assignment scope `");
        push_str(&mut out, scope_type);
        push_str(&mut out, "`");
        Err(StorageError::InvalidData(string_from_chars(out.as_slice())))
    }
}

} // verus!
