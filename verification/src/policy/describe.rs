//! Human-readable renderings of conditions, fields, value kinds and policy
//! validation errors.
use vstd::prelude::*;

use crate::format::{decimal_string, int_decimal, uuid_string, uuid_text};
use crate::policy::condition::{Condition, Field, PolicyValue, PolicyValueView, ValueKind};
use crate::policy::error::PolicyValidationError;
use crate::text::{push_str, string_from_chars};

verus! {

/// The snake_case name of a field.
pub open spec fn spec_field_name(field: Field) -> Seq<char> {
    match field {
        Field::Amount => "amount"@,
        Field::Currency => "currency"@,
        Field::AgentId => "agent_id"@,
        Field::Merchant => "merchant"@,
        Field::Provider => "provider"@,
        Field::Executor => "executor"@,
        Field::Capability => "capability"@,
        Field::BillingMerchant => "billing_merchant"@,
        Field::Category => "category"@,
    }
}

/// The snake_case name of a value kind.
pub open spec fn spec_kind_name(kind: ValueKind) -> Seq<char> {
    match kind {
        ValueKind::String => "string"@,
        ValueKind::MoneyCents => "money_cents"@,
        ValueKind::Currency => "currency"@,
        ValueKind::AgentId => "agent_id"@,
    }
}

/// A value as a description shows it: strings in backticks, amounts in
/// minor units, currencies by code and agents by UUID.
pub open spec fn spec_value_name(value: PolicyValueView) -> Seq<char> {
    match value {
        PolicyValueView::String(s) => seq!['`'] + s + seq!['`'],
        PolicyValueView::MoneyCents(n) => int_decimal(n as int) + " minor units"@,
        PolicyValueView::Currency(_) => "usd"@,
        PolicyValueView::AgentId(a) => uuid_text(a.0),
    }
}

/// The names of `values`, separated by `, `.
pub open spec fn spec_value_names(values: Seq<PolicyValue>) -> Seq<char>
    decreases values.len(),
{
    if values.len() == 0 {
        Seq::empty()
    } else if values.len() == 1 {
        spec_value_name(values[0]@)
    } else {
        spec_value_names(values.drop_last()) + ", "@ + spec_value_name(values.last()@)
    }
}

pub open spec fn spec_comparison(field: Field, operator: Seq<char>, value: PolicyValue) -> Seq<char> {
    spec_field_name(field) + seq![' '] + operator + seq![' '] + spec_value_name(value@)
}

/// The description of a condition.
pub open spec fn spec_describe(c: Condition) -> Seq<char>
    decreases c, 0nat,
{
    match c {
        Condition::All { conditions } => "all of ("@ + spec_describe_joined(conditions@) + ")"@,
        Condition::Any { conditions } => "any of ("@ + spec_describe_joined(conditions@) + ")"@,
        Condition::Not { condition } => "not ("@ + spec_describe(*condition) + ")"@,
        Condition::Eq { field, value } => spec_comparison(field, "equals"@, value),
        Condition::Neq { field, value } => spec_comparison(field, "does not equal"@, value),
        Condition::Gt { field, value } => spec_comparison(field, "is greater than"@, value),
        Condition::Gte { field, value } => spec_comparison(field, "is at least"@, value),
        Condition::Lt { field, value } => spec_comparison(field, "is less than"@, value),
        Condition::Lte { field, value } => spec_comparison(field, "is at most"@, value),
        Condition::In { field, values } => spec_field_name(field) + " is one of "@ + spec_value_names(values@),
        Condition::Exists { field } => spec_field_name(field) + " is supplied"@,
    }
}

/// The descriptions of `cs`, separated by `; `.
pub open spec fn spec_describe_joined(cs: Seq<Condition>) -> Seq<char>
    decreases cs, 1nat,
{
    if cs.len() == 0 {
        Seq::empty()
    } else if cs.len() == 1 {
        spec_describe(cs[0])
    } else {
        spec_describe_joined(cs.subrange(0, cs.len() - 1)) + "; "@ + spec_describe(cs[cs.len() - 1])
    }
}

impl Field {
    /// The snake_case name of the field, as policies spell it.
    pub fn name(&self) -> (s: &'static str)
        ensures
            s@ == spec_field_name(*self),
    {
        match self {
            Field::Amount => "amount",
            Field::Currency => "currency",
            Field::AgentId => "agent_id",
            Field::Merchant => "merchant",
            Field::Provider => "provider",
            Field::Executor => "executor",
            Field::Capability => "capability",
            Field::BillingMerchant => "billing_merchant",
            Field::Category => "category",
        }
    }
}

impl ValueKind {
    /// The snake_case name of the kind.
    pub fn name(&self) -> (s: &'static str)
        ensures
            s@ == spec_kind_name(*self),
    {
        match self {
            ValueKind::String => "string",
            ValueKind::MoneyCents => "money_cents",
            ValueKind::Currency => "currency",
            ValueKind::AgentId => "agent_id",
        }
    }
}

fn push_value_name(out: &mut Vec<char>, value: &PolicyValue)
    ensures
        final(out)@ == old(out)@ + spec_value_name(value@),
{
    match value {
        PolicyValue::String(s) => {
            out.push('`');
            push_str(out, s.as_str());
            out.push('`');
        },
        PolicyValue::MoneyCents(n) => {
            let digits = decimal_string(*n);
            push_str(out, digits.as_str());
            push_str(out, " minor units");
        },
        PolicyValue::Currency(c) => {
            push_str(out, c.as_str());
        },
        PolicyValue::AgentId(a) => {
            let text = uuid_string(a.0);
            push_str(out, text.as_str());
        },
    }
}

fn push_comparison(out: &mut Vec<char>, field: Field, operator: &str, value: &PolicyValue)
    ensures
        final(out)@ == old(out)@ + spec_comparison(field, operator@, *value),
{
    push_str(out, field.name());
    out.push(' ');
    push_str(out, operator);
    out.push(' ');
    push_value_name(out, value);
}

impl Condition {
    fn describe_into(&self, out: &mut Vec<char>)
        ensures
            final(out)@ == old(out)@ + spec_describe(*self),
        decreases self, 0nat,
    {
        match self {
            Condition::All { conditions } => {
                push_str(out, "all of (");
                proof {
                    assert(decreases_to!(*self => conditions@));
                }
                describe_joined_into(out, conditions);
                push_str(out, ")");
            },
            Condition::Any { conditions } => {
                push_str(out, "any of (");
                proof {
                    assert(decreases_to!(*self => conditions@));
                }
                describe_joined_into(out, conditions);
                push_str(out, ")");
            },
            Condition::Not { condition } => {
                push_str(out, "not (");
                condition.describe_into(out);
                push_str(out, ")");
            },
            Condition::Eq { field, value } => push_comparison(out, *field, "equals", value),
            Condition::Neq { field, value } => push_comparison(out, *field, "does not equal", value),
            Condition::Gt { field, value } => push_comparison(out, *field, "is greater than", value),
            Condition::Gte { field, value } => push_comparison(out, *field, "is at least", value),
            Condition::Lt { field, value } => push_comparison(out, *field, "is less than", value),
            Condition::Lte { field, value } => push_comparison(out, *field, "is at most", value),
            Condition::In { field, values } => {
                push_str(out, field.name());
                push_str(out, " is one of ");
                let ghost start = out@;
                let mut i: usize = 0;
                while i < values.len()
                    invariant
                        i <= values.len(),
                        out@ == start + spec_value_names(values@.take(i as int)),
                    decreases values.len() - i,
                {
                    proof {
                        assert(values@.take(i + 1).drop_last() =~= values@.take(i as int));
                        assert(values@.take(i + 1).last() == values@[i as int]);
                    }
                    if i > 0 {
                        push_str(out, ", ");
                    }
                    push_value_name(out, &values[i]);
                    proof {
                        if i == 0 {
                            assert(spec_value_names(values@.take(0)) =~= Seq::<char>::empty());
                        }
                    }
                    i = i + 1;
                }
                proof {
                    assert(values@.take(values.len() as int) =~= values@);
                }
            },
            Condition::Exists { field } => {
                push_str(out, field.name());
                push_str(out, " is supplied");
            },
        }
    }

    /// A one-line description of the condition in words.
    pub fn describe(&self) -> (s: String)
        ensures
            s@ == spec_describe(*self),
    {
        let mut out: Vec<char> = Vec::new();
        self.describe_into(&mut out);
        assert(out@ =~= spec_describe(*self));
        string_from_chars(out.as_slice())
    }
}

fn describe_joined_into(out: &mut Vec<char>, conditions: &Vec<Condition>)
    ensures
        final(out)@ == old(out)@ + spec_describe_joined(conditions@),
    decreases conditions@, 1nat,
{
    let ghost start = out@;
    let mut i: usize = 0;
    while i < conditions.len()
        invariant
            i <= conditions.len(),
            out@ == start + spec_describe_joined(conditions@.take(i as int)),
        decreases conditions.len() - i,
    {
        proof {
            let next = conditions@.take(i + 1);
            assert(next.subrange(0, next.len() - 1) =~= conditions@.take(i as int));
            assert(next[next.len() - 1] == conditions@[i as int]);
            assert(decreases_to!(conditions@ => conditions@[i as int]));
        }
        if i > 0 {
            push_str(out, "; ");
        }
        conditions[i].describe_into(out);
        proof {
            if i == 0 {
                assert(spec_describe_joined(conditions@.take(0)) =~= Seq::<char>::empty());
            }
        }
        i = i + 1;
    }
    proof {
        assert(conditions@.take(conditions.len() as int) =~= conditions@);
    }
}

/// The message of a policy validation error.
pub open spec fn policy_error_text(e: PolicyValidationError) -> Seq<char> {
    match e {
        PolicyValidationError::EmptyPolicyId => "policy id cannot be empty"@,
        PolicyValidationError::EmptyPolicyVersion => "policy version cannot be empty"@,
        PolicyValidationError::EmptyRuleId => "rule id cannot be empty"@,
        PolicyValidationError::EmptyRuleReason { rule_id } => "rule `"@ + rule_id@ + "` reason cannot be empty"@,
        PolicyValidationError::EmptyConditionGroup { rule_id, operator } => "rule `"@ + rule_id@
            + "` has an empty `"@ + operator@ + "` condition group"@,
        PolicyValidationError::FieldValueMismatch { rule_id, field, expected, actual } => "rule `"@
            + rule_id@ + "` uses field `"@ + spec_field_name(field) + "` with "@ + spec_kind_name(actual)
            + " value, but expected "@ + spec_kind_name(expected),
        PolicyValidationError::UnorderableField { rule_id, field, operator } => "rule `"@ + rule_id@
            + "` uses ordered operator `"@ + operator@ + "` on non-orderable field `"@ + spec_field_name(
            field,
        ) + "`"@,
    }
}

impl PolicyValidationError {
    /// The error's message.
    pub fn describe(&self) -> (s: String)
        ensures
            s@ == policy_error_text(*self),
    {
        let mut out: Vec<char> = Vec::new();
        match self {
            PolicyValidationError::EmptyPolicyId => push_str(&mut out, "policy id cannot be empty"),
            PolicyValidationError::EmptyPolicyVersion => push_str(&mut out, "policy version cannot be empty"),
            PolicyValidationError::EmptyRuleId => push_str(&mut out, "rule id cannot be empty"),
            PolicyValidationError::EmptyRuleReason { rule_id } => {
                push_str(&mut out, "rule `");
                push_str(&mut out, rule_id.as_str());
                push_str(&mut out, "` reason cannot be empty");
            },
            PolicyValidationError::EmptyConditionGroup { rule_id, operator } => {
                push_str(&mut out, "rule `");
                push_str(&mut out, rule_id.as_str());
                push_str(&mut out, "` has an empty `");
                push_str(&mut out, operator);
                push_str(&mut out, "` condition group");
            },
            PolicyValidationError::FieldValueMismatch { rule_id, field, expected, actual } => {
                push_str(&mut out, "rule `");
                push_str(&mut out, rule_id.as_str());
                push_str(&mut out, "` uses field `");
                push_str(&mut out, field.name());
                push_str(&mut out, "` with ");
                push_str(&mut out, actual.name());
                push_str(&mut out, " value, but expected ");
                push_str(&mut out, expected.name());
            },
            PolicyValidationError::UnorderableField { rule_id, field, operator } => {
                push_str(&mut out, "rule `");
                push_str(&mut out, rule_id.as_str());
                push_str(&mut out, "` uses ordered operator `");
                push_str(&mut out, operator);
                push_str(&mut out, "` on non-orderable field `");
                push_str(&mut out, field.name());
                push_str(&mut out, "`");
            },
        }
        assert(out@ =~= policy_error_text(*self));
        string_from_chars(out.as_slice())
    }
}

} // verus!
