use vstd::prelude::*;

use crate::policy::condition::{
    lemma_valid_condition_defined, spec_condition_fault, spec_eval, spec_eval_defined, spec_fault_error,
    ConditionFault,
};
use crate::policy::error::PolicyValidationError;
use crate::policy::model::{spec_rule_result, Effect, Evaluation, Policy, Rule, RuleResult};
use crate::spend::model::SpendRequest;
use crate::text::{is_blank, str_is_blank};

verus! {

/// The first fault that policy validation reports.
pub enum PolicyFault {
    EmptyPolicyId,
    EmptyPolicyVersion,
    EmptyRuleId,
    EmptyRuleReason(Seq<char>),
    Condition(ConditionFault, Seq<char>),
}

pub open spec fn spec_rule_fault(rule: Rule) -> Option<PolicyFault> {
    if is_blank(rule.id@) {
        Some(PolicyFault::EmptyRuleId)
    } else if is_blank(rule.reason@) {
        Some(PolicyFault::EmptyRuleReason(rule.id@))
    } else {
        match spec_condition_fault(rule.when) {
            Some(f) => Some(PolicyFault::Condition(f, rule.id@)),
            None => None,
        }
    }
}

pub open spec fn spec_rules_fault(rules: Seq<Rule>) -> Option<PolicyFault>
    decreases rules.len(),
{
    if rules.len() == 0 {
        None
    } else {
        match spec_rule_fault(rules[0]) {
            Some(f) => Some(f),
            None => spec_rules_fault(rules.drop_first()),
        }
    }
}

/// The first fault of a policy: blank id or version, then the first faulty
/// rule in order.
pub open spec fn spec_policy_fault(policy: Policy) -> Option<PolicyFault> {
    if is_blank(policy.id@) {
        Some(PolicyFault::EmptyPolicyId)
    } else if is_blank(policy.version@) {
        Some(PolicyFault::EmptyPolicyVersion)
    } else {
        spec_rules_fault(policy.rules@)
    }
}

/// `e` is the validation error that reports fault `f`.
pub open spec fn spec_policy_error(e: PolicyValidationError, f: PolicyFault) -> bool {
    match f {
        PolicyFault::EmptyPolicyId => e is EmptyPolicyId,
        PolicyFault::EmptyPolicyVersion => e is EmptyPolicyVersion,
        PolicyFault::EmptyRuleId => e is EmptyRuleId,
        PolicyFault::EmptyRuleReason(id) => e matches PolicyValidationError::EmptyRuleReason {
            rule_id,
        } && rule_id@ == id,
        PolicyFault::Condition(cf, id) => spec_fault_error(e, cf, id),
    }
}

/// Validate a policy before it is used for spend evaluation: ids, versions
/// and reasons must not be blank, groups not empty, values of the field's
/// kind, and ordered operators only on the amount.
#[verifier::loop_isolation(false)]
pub fn validate_policy(policy: &Policy) -> (r: Result<(), PolicyValidationError>)
    ensures
        match spec_policy_fault(*policy) {
            None => r is Ok,
            Some(f) => r matches Err(e) && spec_policy_error(e, f),
        },
{
    if str_is_blank(policy.id.as_str()) {
        return Err(PolicyValidationError::EmptyPolicyId);
    }
    if str_is_blank(policy.version.as_str()) {
        return Err(PolicyValidationError::EmptyPolicyVersion);
    }
    let rules = &policy.rules;
    let mut i: usize = 0;
    assert(rules@.skip(0) =~= rules@);
    while i < rules.len()
        invariant
            i <= rules.len(),
            spec_rules_fault(rules@) == spec_rules_fault(rules@.skip(i as int)),
        decreases rules.len() - i,
    {
        proof {
            assert(rules@.skip(i as int)[0] == rules@[i as int]);
            assert(rules@.skip(i as int).drop_first() =~= rules@.skip(i + 1));
        }
        let rule = &rules[i];
        if str_is_blank(rule.id.as_str()) {
            return Err(PolicyValidationError::EmptyRuleId);
        }
        if str_is_blank(rule.reason.as_str()) {
            return Err(PolicyValidationError::EmptyRuleReason { rule_id: rule.id.clone() });
        }
        match rule.when.validate(rule.id.as_str()) {
            Err(e) => return Err(e),
            Ok(()) => {},
        }
        i = i + 1;
    }
    Ok(())
}

/// Rules without faults compare only values of one kind, for every request.
pub proof fn lemma_valid_rules_defined(rules: Seq<Rule>, request: SpendRequest)
    requires
        spec_rules_fault(rules) is None,
    ensures
        forall|i: int| 0 <= i < rules.len() ==> spec_eval_defined(#[trigger] rules[i].when, request),
    decreases rules.len(),
{
    if rules.len() > 0 {
        lemma_valid_rules_defined(rules.drop_first(), request);
        lemma_valid_condition_defined(rules[0].when, request);
        assert forall|i: int| 0 <= i < rules.len() implies spec_eval_defined(#[trigger] rules[i].when, request) by {
            if i > 0 {
                assert(rules[i] == rules.drop_first()[i - 1]);
            }
        }
    }
}

/// Some result carries effect `e`.
pub open spec fn spec_has_effect(results: Seq<RuleResult>, e: Effect) -> bool {
    exists|i: int| 0 <= i < results.len() && results[i].effect == Some(e)
}

/// Fixed precedence: deny > needs_approval > allow > the policy default.
pub open spec fn spec_final_decision(default: Effect, results: Seq<RuleResult>) -> Effect {
    if spec_has_effect(results, Effect::Deny) {
        Effect::Deny
    } else if spec_has_effect(results, Effect::NeedsApproval) {
        Effect::NeedsApproval
    } else if spec_has_effect(results, Effect::Allow) {
        Effect::Allow
    } else {
        default
    }
}

pub open spec fn spec_merge(current: Effect, effect: Effect) -> Effect {
    if current == Effect::Deny || effect == Effect::Deny {
        Effect::Deny
    } else if current == Effect::NeedsApproval || effect == Effect::NeedsApproval {
        Effect::NeedsApproval
    } else {
        Effect::Allow
    }
}

/// Merge two matched effects: deny wins everything, needs_approval wins
/// allow, and two allows stay allow.
pub fn merge_effects(current: Effect, effect: Effect) -> (r: Effect)
    ensures
        r == spec_merge(current, effect),
{
    match (current, effect) {
        (_, Effect::Deny) | (Effect::Deny, _) => Effect::Deny,
        (_, Effect::NeedsApproval) | (Effect::NeedsApproval, _) => Effect::NeedsApproval,
        (Effect::Allow, Effect::Allow) => Effect::Allow,
    }
}

/// Merging is commutative, associative and idempotent, so the merged
/// decision does not depend on the order of the rules.
pub proof fn lemma_merge_effects_order_free(a: Effect, b: Effect, c: Effect)
    ensures
        spec_merge(a, b) == spec_merge(b, a),
        spec_merge(spec_merge(a, b), c) == spec_merge(a, spec_merge(b, c)),
        spec_merge(a, a) == a,
{
}

/// The decision of the matched rules, or the policy default when none
/// matched.
pub fn final_decision(default: Effect, results: &Vec<RuleResult>) -> (r: Effect)
    ensures
        r == spec_final_decision(default, results@),
{
    let mut decision: Option<Effect> = None;
    let mut i: usize = 0;
    while i < results.len()
        invariant
            i <= results.len(),
            decision is None <==> (forall|j: int| 0 <= j < i ==> results@[j].effect is None),
            decision == Some(Effect::Deny) <==> spec_has_effect(results@.take(i as int), Effect::Deny),
            decision == Some(Effect::NeedsApproval) <==> (!spec_has_effect(results@.take(i as int), Effect::Deny)
                && spec_has_effect(results@.take(i as int), Effect::NeedsApproval)),
            decision == Some(Effect::Allow) <==> (!spec_has_effect(results@.take(i as int), Effect::Deny)
                && !spec_has_effect(results@.take(i as int), Effect::NeedsApproval)
                && spec_has_effect(results@.take(i as int), Effect::Allow)),
        decreases results.len() - i,
    {
        let ghost prev = results@.take(i as int);
        let ghost next = results@.take(i + 1);
        proof {
            assert(next =~= prev.push(results@[i as int]));
            assert forall|e: Effect| spec_has_effect(next, e) <==> (spec_has_effect(prev, e)
                || results@[i as int].effect == Some(e)) by {
                if spec_has_effect(next, e) {
                    let j = choose|j: int| 0 <= j < next.len() && next[j].effect == Some(e);
                    if j < i {
                        assert(prev[j] == next[j]);
                    }
                }
                if spec_has_effect(prev, e) {
                    let j = choose|j: int| 0 <= j < prev.len() && prev[j].effect == Some(e);
                    assert(next[j] == prev[j]);
                }
                if results@[i as int].effect == Some(e) {
                    assert(next[i as int] == results@[i as int]);
                }
            }
            assert forall|e: Effect| #[trigger] spec_has_effect(prev, e) implies decision is Some by {
                if spec_has_effect(prev, e) {
                    let j = choose|j: int| 0 <= j < prev.len() && prev[j].effect == Some(e);
                    assert(results@[j].effect is Some);
                }
            }
        }
        match results[i].effect {
            None => {},
            Some(effect) => {
                decision = Some(
                    match decision {
                        None => effect,
                        Some(current) => merge_effects(current, effect),
                    },
                );
            },
        }
        i = i + 1;
    }
    proof {
        assert(results@.take(results.len() as int) =~= results@);
        if decision is None {
            assert forall|e: Effect| !spec_has_effect(results@, e) by {
                if spec_has_effect(results@, e) {
                    let j = choose|j: int| 0 <= j < results@.len() && results@[j].effect == Some(e);
                    assert(results@[j].effect is None);
                }
            }
        }
    }
    match decision {
        Some(effect) => effect,
        None => default,
    }
}

/// Evaluate every rule, in order.
pub fn evaluate_rules(request: &SpendRequest, rules: &Vec<Rule>) -> (results: Vec<RuleResult>)
    requires
        forall|i: int| 0 <= i < rules.len() ==> spec_eval_defined(#[trigger] rules@[i].when, *request),
    ensures
        results@.len() == rules@.len(),
        forall|i: int| 0 <= i < rules.len() ==> spec_rule_result(rules@[i], *request, #[trigger] results@[i]),
{
    let mut results: Vec<RuleResult> = Vec::new();
    let mut i: usize = 0;
    while i < rules.len()
        invariant
            i <= rules.len(),
            forall|k: int| 0 <= k < rules.len() ==> spec_eval_defined(#[trigger] rules@[k].when, *request),
            results@.len() == i,
            forall|k: int| 0 <= k < i ==> spec_rule_result(rules@[k], *request, #[trigger] results@[k]),
        decreases rules.len() - i,
    {
        let result = rules[i].evaluate(request);
        results.push(result);
        i = i + 1;
    }
    results
}

/// The reasons of the matched results, in order.
pub open spec fn spec_reasons(results: Seq<RuleResult>) -> Seq<Seq<char>>
    decreases results.len(),
{
    if results.len() == 0 {
        Seq::empty()
    } else {
        let rest = spec_reasons(results.drop_last());
        match results.last().reason {
            Some(reason) => rest.push(reason@),
            None => rest,
        }
    }
}

pub open spec fn strings_view(v: Seq<String>) -> Seq<Seq<char>> {
    v.map_values(|s: String| s@)
}

fn matched_reasons(results: &Vec<RuleResult>) -> (reasons: Vec<String>)
    ensures
        strings_view(reasons@) == spec_reasons(results@),
{
    let mut reasons: Vec<String> = Vec::new();
    let mut i: usize = 0;
    while i < results.len()
        invariant
            i <= results.len(),
            strings_view(reasons@) == spec_reasons(results@.take(i as int)),
        decreases results.len() - i,
    {
        proof {
            assert(results@.take(i + 1).drop_last() =~= results@.take(i as int));
        }
        match &results[i].reason {
            Some(reason) => {
                let ghost before = reasons@;
                reasons.push(reason.clone());
                proof {
                    assert(strings_view(reasons@) =~= strings_view(before).push(reason@));
                }
            },
            None => {},
        }
        i = i + 1;
    }
    assert(results@.take(results.len() as int) =~= results@);
    reasons
}

/// `evaluation` is the outcome of evaluating a valid `policy` against
/// `request`.
pub open spec fn spec_evaluation_of(policy: Policy, request: SpendRequest, evaluation: Evaluation) -> bool {
    &&& evaluation.policy_id@ == policy.id@
    &&& evaluation.policy_version@ == policy.version@
    &&& evaluation.rule_results@.len() == policy.rules@.len()
    &&& forall|i: int| 0 <= i < policy.rules@.len() ==> spec_rule_result(policy.rules@[i], request, #[trigger] evaluation.rule_results@[i])
    &&& evaluation.decision == spec_final_decision(policy.default_effect, evaluation.rule_results@)
    &&& strings_view(evaluation.reasons@) == spec_reasons(evaluation.rule_results@)
}

/// Evaluate a spend request against a policy and return the decision trace.
///
/// The policy is validated first; an invalid policy returns the validation
/// error and the request is not evaluated.
pub fn evaluate_policy(request: &SpendRequest, policy: &Policy) -> (r: Result<Evaluation, PolicyValidationError>)
    ensures
        match spec_policy_fault(*policy) {
            None => r matches Ok(evaluation) && spec_evaluation_of(*policy, *request, evaluation),
            Some(f) => r matches Err(e) && spec_policy_error(e, f),
        },
{
    match validate_policy(policy) {
        Err(e) => return Err(e),
        Ok(()) => {},
    }
    proof {
        lemma_valid_rules_defined(policy.rules@, *request);
    }
    let rule_results = evaluate_rules(request, &policy.rules);
    let decision = final_decision(policy.default_effect, &rule_results);
    let reasons = matched_reasons(&rule_results);
    Ok(Evaluation {
        policy_id: policy.id.clone(),
        policy_version: policy.version.clone(),
        decision,
        reasons,
        rule_results,
    })
}

/// The decision of an evaluation is fixed by the rules whose conditions
/// the request meets: deny if any of them denies, else needs approval if
/// any asks for it, else allow if any allows, else the policy's default.
pub proof fn lemma_decision_follows_matched_rules(policy: Policy, request: SpendRequest, evaluation: Evaluation)
    requires
        spec_evaluation_of(policy, request, evaluation),
    ensures
        evaluation.decision == (if exists|i: int| 0 <= i < policy.rules@.len() && spec_eval(#[trigger] policy.rules@[i].when, request)
            && policy.rules@[i].effect == Effect::Deny {
            Effect::Deny
        } else if exists|i: int| 0 <= i < policy.rules@.len() && spec_eval(#[trigger] policy.rules@[i].when, request)
            && policy.rules@[i].effect == Effect::NeedsApproval {
            Effect::NeedsApproval
        } else if exists|i: int| 0 <= i < policy.rules@.len() && spec_eval(#[trigger] policy.rules@[i].when, request)
            && policy.rules@[i].effect == Effect::Allow {
            Effect::Allow
        } else {
            policy.default_effect
        }),
{
    let rules = policy.rules@;
    let results = evaluation.rule_results@;
    assert forall|e: Effect| spec_has_effect(results, e) <==> (exists|i: int| 0 <= i < rules.len()
        && spec_eval(#[trigger] rules[i].when, request) && rules[i].effect == e) by {
        if spec_has_effect(results, e) {
            let i = choose|i: int| 0 <= i < results.len() && results[i].effect == Some(e);
            assert(spec_rule_result(rules[i], request, results[i]));
        }
        if exists|i: int| 0 <= i < rules.len() && spec_eval(#[trigger] rules[i].when, request) && rules[i].effect == e {
            let i = choose|i: int| 0 <= i < rules.len() && spec_eval(#[trigger] rules[i].when, request) && rules[i].effect == e;
            assert(spec_rule_result(rules[i], request, results[i]));
        }
    }
}

} // verus!
