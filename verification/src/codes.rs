//! The text codes that stored records use for statuses, and their parsers.
//! Each parser gives back exactly the status whose code it reads.
use vstd::prelude::*;

use crate::budget::model::{BudgetHoldStatus, BudgetStatus};
use crate::registration::{AccountStatus, AgentStatus, AgentType};
use crate::spend::model::SpendExecutorClaimStatus;
use crate::spending_target::SpendingTargetStatus;
use crate::text::str_eq;
use crate::user::UserStatus;

verus! {

pub open spec fn budget_status_code(status: BudgetStatus) -> Seq<char> {
    match status {
        BudgetStatus::Active => "active"@,
        BudgetStatus::Exhausted => "exhausted"@,
        BudgetStatus::Expired => "expired"@,
        BudgetStatus::Revoked => "revoked"@,
    }
}

pub open spec fn budget_hold_status_code(status: BudgetHoldStatus) -> Seq<char> {
    match status {
        BudgetHoldStatus::Frozen => "frozen"@,
        BudgetHoldStatus::Claimed => "claimed"@,
        BudgetHoldStatus::Settled => "settled"@,
        BudgetHoldStatus::Released => "released"@,
        BudgetHoldStatus::Expired => "expired"@,
    }
}

pub open spec fn executor_claim_status_code(status: SpendExecutorClaimStatus) -> Seq<char> {
    match status {
        SpendExecutorClaimStatus::Claimed => "claimed"@,
        SpendExecutorClaimStatus::Settled => "settled"@,
        SpendExecutorClaimStatus::Released => "released"@,
    }
}

pub open spec fn spending_target_status_code(status: SpendingTargetStatus) -> Seq<char> {
    match status {
        SpendingTargetStatus::Active => "active"@,
        SpendingTargetStatus::Revoked => "revoked"@,
    }
}

pub fn budget_status(status: &BudgetStatus) -> (code: &'static str)
    ensures
        code@ == budget_status_code(*status),
{
    match status {
        BudgetStatus::Active => "active",
        BudgetStatus::Exhausted => "exhausted",
        BudgetStatus::Expired => "expired",
        BudgetStatus::Revoked => "revoked",
    }
}

pub fn budget_hold_status(status: &BudgetHoldStatus) -> (code: &'static str)
    ensures
        code@ == budget_hold_status_code(*status),
{
    match status {
        BudgetHoldStatus::Frozen => "frozen",
        BudgetHoldStatus::Claimed => "claimed",
        BudgetHoldStatus::Settled => "settled",
        BudgetHoldStatus::Released => "released",
        BudgetHoldStatus::Expired => "expired",
    }
}

pub fn executor_claim_status(status: &SpendExecutorClaimStatus) -> (code: &'static str)
    ensures
        code@ == executor_claim_status_code(*status),
{
    match status {
        SpendExecutorClaimStatus::Claimed => "claimed",
        SpendExecutorClaimStatus::Settled => "settled",
        SpendExecutorClaimStatus::Released => "released",
    }
}

pub fn spending_target_status(status: SpendingTargetStatus) -> (code: &'static str)
    ensures
        code@ == spending_target_status_code(status),
{
    match status {
        SpendingTargetStatus::Active => "active",
        SpendingTargetStatus::Revoked => "revoked",
    }
}

/// The budget status whose code is `value`.
pub fn parse_budget_status(value: &str) -> (r: Option<BudgetStatus>)
    ensures
        forall|s: BudgetStatus| r == Some(s) <==> #[trigger] budget_status_code(s) == value@,
{
    proof { reveal_codes(); }
    if str_eq(value, "active") {
        Some(BudgetStatus::Active)
    } else if str_eq(value, "exhausted") {
        Some(BudgetStatus::Exhausted)
    } else if str_eq(value, "expired") {
        Some(BudgetStatus::Expired)
    } else if str_eq(value, "revoked") {
        Some(BudgetStatus::Revoked)
    } else {
        None
    }
}

/// The hold status whose code is `value`.
pub fn parse_budget_hold_status(value: &str) -> (r: Option<BudgetHoldStatus>)
    ensures
        forall|s: BudgetHoldStatus| r == Some(s) <==> #[trigger] budget_hold_status_code(s) == value@,
{
    proof { reveal_codes(); }
    if str_eq(value, "frozen") {
        Some(BudgetHoldStatus::Frozen)
    } else if str_eq(value, "claimed") {
        Some(BudgetHoldStatus::Claimed)
    } else if str_eq(value, "settled") {
        Some(BudgetHoldStatus::Settled)
    } else if str_eq(value, "released") {
        Some(BudgetHoldStatus::Released)
    } else if str_eq(value, "expired") {
        Some(BudgetHoldStatus::Expired)
    } else {
        None
    }
}

/// The executor claim status whose code is `value`.
pub fn parse_executor_claim_status(value: &str) -> (r: Option<SpendExecutorClaimStatus>)
    ensures
        forall|s: SpendExecutorClaimStatus| r == Some(s) <==> #[trigger] executor_claim_status_code(s) == value@,
{
    proof { reveal_codes(); }
    if str_eq(value, "claimed") {
        Some(SpendExecutorClaimStatus::Claimed)
    } else if str_eq(value, "settled") {
        Some(SpendExecutorClaimStatus::Settled)
    } else if str_eq(value, "released") {
        Some(SpendExecutorClaimStatus::Released)
    } else {
        None
    }
}

/// The spending target status whose code is `value`.
pub fn parse_spending_target_status(value: &str) -> (r: Option<SpendingTargetStatus>)
    ensures
        forall|s: SpendingTargetStatus| r == Some(s) <==> #[trigger] spending_target_status_code(s) == value@,
{
    proof { reveal_codes(); }
    if str_eq(value, "active") {
        Some(SpendingTargetStatus::Active)
    } else if str_eq(value, "revoked") {
        Some(SpendingTargetStatus::Revoked)
    } else {
        None
    }
}

pub open spec fn user_status_code(status: UserStatus) -> Seq<char> {
    match status {
        UserStatus::Active => "active"@,
        UserStatus::Suspended => "suspended"@,
    }
}

pub open spec fn agent_type_code(kind: AgentType) -> Seq<char> {
    match kind {
        AgentType::InteractiveAgent => "interactive_agent"@,
        AgentType::AutonomousAgent => "autonomous_agent"@,
    }
}

pub open spec fn agent_status_code(status: AgentStatus) -> Seq<char> {
    match status {
        AgentStatus::Active => "active"@,
        AgentStatus::Suspended => "suspended"@,
    }
}

pub open spec fn account_status_code(status: AccountStatus) -> Seq<char> {
    match status {
        AccountStatus::Active => "active"@,
        AccountStatus::Suspended => "suspended"@,
    }
}

pub fn user_status(status: &UserStatus) -> (code: &'static str)
    ensures
        code@ == user_status_code(*status),
{
    match status {
        UserStatus::Active => "active",
        UserStatus::Suspended => "suspended",
    }
}

pub fn agent_type(kind: &AgentType) -> (code: &'static str)
    ensures
        code@ == agent_type_code(*kind),
{
    match kind {
        AgentType::InteractiveAgent => "interactive_agent",
        AgentType::AutonomousAgent => "autonomous_agent",
    }
}

pub fn agent_status(status: &AgentStatus) -> (code: &'static str)
    ensures
        code@ == agent_status_code(*status),
{
    match status {
        AgentStatus::Active => "active",
        AgentStatus::Suspended => "suspended",
    }
}

pub fn account_status(status: &AccountStatus) -> (code: &'static str)
    ensures
        code@ == account_status_code(*status),
{
    match status {
        AccountStatus::Active => "active",
        AccountStatus::Suspended => "suspended",
    }
}

/// The user status whose code is `value`.
pub fn parse_user_status(value: &str) -> (r: Option<UserStatus>)
    ensures
        forall|s: UserStatus| r == Some(s) <==> #[trigger] user_status_code(s) == value@,
{
    proof { reveal_codes(); }
    if str_eq(value, "active") {
        Some(UserStatus::Active)
    } else if str_eq(value, "suspended") {
        Some(UserStatus::Suspended)
    } else {
        None
    }
}

/// The agent type whose code is `value`.
pub fn parse_agent_type(value: &str) -> (r: Option<AgentType>)
    ensures
        forall|t: AgentType| r == Some(t) <==> #[trigger] agent_type_code(t) == value@,
{
    proof { reveal_codes(); }
    if str_eq(value, "interactive_agent") {
        Some(AgentType::InteractiveAgent)
    } else if str_eq(value, "autonomous_agent") {
        Some(AgentType::AutonomousAgent)
    } else {
        None
    }
}

/// The agent status whose code is `value`.
pub fn parse_agent_status(value: &str) -> (r: Option<AgentStatus>)
    ensures
        forall|s: AgentStatus| r == Some(s) <==> #[trigger] agent_status_code(s) == value@,
{
    proof { reveal_codes(); }
    if str_eq(value, "active") {
        Some(AgentStatus::Active)
    } else if str_eq(value, "suspended") {
        Some(AgentStatus::Suspended)
    } else {
        None
    }
}

/// The account status whose code is `value`.
pub fn parse_account_status(value: &str) -> (r: Option<AccountStatus>)
    ensures
        forall|s: AccountStatus| r == Some(s) <==> #[trigger] account_status_code(s) == value@,
{
    proof { reveal_codes(); }
    if str_eq(value, "active") {
        Some(AccountStatus::Active)
    } else if str_eq(value, "suspended") {
        Some(AccountStatus::Suspended)
    } else {
        None
    }
}

proof fn reveal_codes()
    ensures
        "active"@ == seq!['a', 'c', 't', 'i', 'v', 'e'],
        "exhausted"@ == seq!['e', 'x', 'h', 'a', 'u', 's', 't', 'e', 'd'],
        "expired"@ == seq!['e', 'x', 'p', 'i', 'r', 'e', 'd'],
        "revoked"@ == seq!['r', 'e', 'v', 'o', 'k', 'e', 'd'],
        "frozen"@ == seq!['f', 'r', 'o', 'z', 'e', 'n'],
        "claimed"@ == seq!['c', 'l', 'a', 'i', 'm', 'e', 'd'],
        "settled"@ == seq!['s', 'e', 't', 't', 'l', 'e', 'd'],
        "released"@ == seq!['r', 'e', 'l', 'e', 'a', 's', 'e', 'd'],
        "suspended"@ == seq!['s', 'u', 's', 'p', 'e', 'n', 'd', 'e', 'd'],
        "interactive_agent"@ == seq!['i', 'n', 't', 'e', 'r', 'a', 'c', 't', 'i', 'v', 'e', '_', 'a', 'g', 'e', 'n', 't'],
        "autonomous_agent"@ == seq!['a', 'u', 't', 'o', 'n', 'o', 'm', 'o', 'u', 's', '_', 'a', 'g', 'e', 'n', 't'],
{
    reveal_strlit("active");
    reveal_strlit("exhausted");
    reveal_strlit("expired");
    reveal_strlit("revoked");
    reveal_strlit("frozen");
    reveal_strlit("claimed");
    reveal_strlit("settled");
    reveal_strlit("released");
    reveal_strlit("suspended");
    reveal_strlit("interactive_agent");
    reveal_strlit("autonomous_agent");
}

/// Every status code reads back as the status that wrote it.
pub proof fn lemma_status_codes_round_trip(
    budget: BudgetStatus,
    hold: BudgetHoldStatus,
    claim: SpendExecutorClaimStatus,
    target: SpendingTargetStatus,
    user: UserStatus,
    kind: AgentType,
    agent: AgentStatus,
    account: AccountStatus,
)
    ensures
        forall|s: BudgetStatus| budget_status_code(s) == budget_status_code(budget) ==> s == budget,
        forall|s: BudgetHoldStatus| budget_hold_status_code(s) == budget_hold_status_code(hold) ==> s == hold,
        forall|s: SpendExecutorClaimStatus| executor_claim_status_code(s) == executor_claim_status_code(claim) ==> s == claim,
        forall|s: SpendingTargetStatus| spending_target_status_code(s) == spending_target_status_code(target) ==> s == target,
        forall|s: UserStatus| user_status_code(s) == user_status_code(user) ==> s == user,
        forall|t: AgentType| agent_type_code(t) == agent_type_code(kind) ==> t == kind,
        forall|s: AgentStatus| agent_status_code(s) == agent_status_code(agent) ==> s == agent,
        forall|s: AccountStatus| account_status_code(s) == account_status_code(account) ==> s == account,
{
    reveal_codes();
}

} // verus!
