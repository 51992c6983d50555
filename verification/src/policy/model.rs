use vstd::prelude::*;

use crate::common::UserId;
use crate::policy::condition::{spec_eval, spec_eval_defined, Condition};
use crate::spend::model::{clone_opt_string, SpendRequest};

verus! {

/// A human-authored policy version. Every rule is evaluated and
/// `default_effect` applies when no rule matches.
#[derive(Debug)]
pub struct Policy {
    pub id: String,
    pub version: String,
    pub owner_user_id: UserId,
    pub rules: Vec<Rule>,
    pub default_effect: Effect,
}

/// One declarative rule: when `when` holds, `effect` contributes to the final
/// decision and `reason` appears in the evaluation trace.
#[derive(Debug)]
pub struct Rule {
    pub id: String,
    pub effect: Effect,
    pub when: Condition,
    pub reason: String,
}

/// The result of evaluating one rule against one spend request.
#[derive(Debug)]
pub struct RuleResult {
    pub rule_id: String,
    pub matched: bool,
    pub effect: Option<Effect>,
    pub reason: Option<String>,
}

impl Clone for RuleResult {
    fn clone(&self) -> (r: Self)
        ensures
            r == *self,
    {
        RuleResult {
            rule_id: self.rule_id.clone(),
            matched: self.matched,
            effect: self.effect,
            reason: clone_opt_string(&self.reason),
        }
    }
}

/// The auditable output of policy evaluation: the merged decision, the
/// reasons of the matched rules, and every rule result.
#[derive(Debug)]
pub struct Evaluation {
    pub policy_id: String,
    pub policy_version: String,
    pub decision: Effect,
    pub reasons: Vec<String>,
    pub rule_results: Vec<RuleResult>,
}

pub fn clone_strings(v: &Vec<String>) -> (r: Vec<String>)
    ensures
        r@ == v@,
{
    let mut out: Vec<String> = Vec::new();
    let mut i: usize = 0;
    while i < v.len()
        invariant
            i <= v.len(),
            out@ == v@.take(i as int),
        decreases v.len() - i,
    {
        out.push(v[i].clone());
        proof {
            assert(v@.take(i + 1) =~= v@.take(i as int).push(v@[i as int]));
        }
        i = i + 1;
    }
    assert(v@.take(v.len() as int) =~= v@);
    out
}

fn clone_rule_results(v: &Vec<RuleResult>) -> (r: Vec<RuleResult>)
    ensures
        r@ == v@,
{
    let mut out: Vec<RuleResult> = Vec::new();
    let mut i: usize = 0;
    while i < v.len()
        invariant
            i <= v.len(),
            out@ == v@.take(i as int),
        decreases v.len() - i,
    {
        out.push(v[i].clone());
        proof {
            assert(v@.take(i + 1) =~= v@.take(i as int).push(v@[i as int]));
        }
        i = i + 1;
    }
    assert(v@.take(v.len() as int) =~= v@);
    out
}

impl Clone for Evaluation {
    fn clone(&self) -> (r: Self)
        ensures
            r.policy_id == self.policy_id,
            r.policy_version == self.policy_version,
            r.decision == self.decision,
            r.reasons@ == self.reasons@,
            r.rule_results@ == self.rule_results@,
    {
        Evaluation {
            policy_id: self.policy_id.clone(),
            policy_version: self.policy_version.clone(),
            decision: self.decision,
            reasons: clone_strings(&self.reasons),
            rule_results: clone_rule_results(&self.rule_results),
        }
    }
}

/// A rule effect and final decision value.
#[derive(Clone, Copy, Debug, PartialEq, Eq, Structural)]
pub enum Effect {
    Allow,
    Deny,
    NeedsApproval,
}

/// `result` is what evaluating `rule` against `request` gives.
pub open spec fn spec_rule_result(rule: Rule, request: SpendRequest, result: RuleResult) -> bool {
    let matched = spec_eval(rule.when, request);
    &&& result.rule_id@ == rule.id@
    &&& result.matched == matched
    &&& result.effect == (if matched { Some(rule.effect) } else { None::<Effect> })
    &&& match result.reason {
        Some(reason) => matched && reason@ == rule.reason@,
        None => !matched,
    }
}

impl Rule {
    pub fn evaluate(&self, request: &SpendRequest) -> (result: RuleResult)
        requires
            spec_eval_defined(self.when, *request),
        ensures
            spec_rule_result(*self, *request, result),
    {
        let matched = self.when.eval(request);
        RuleResult {
            rule_id: self.id.clone(),
            matched,
            effect: if matched { Some(self.effect) } else { None },
            reason: if matched { Some(self.reason.clone()) } else { None },
        }
    }
}

} // verus!
