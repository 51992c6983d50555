use vstd::prelude::*;

use crate::policy::condition::{Field, ValueKind};

verus! {

#[derive(Debug)]
pub enum PolicyValidationError {
    EmptyPolicyId,
    EmptyPolicyVersion,
    EmptyRuleId,
    EmptyRuleReason { rule_id: String },
    EmptyConditionGroup { rule_id: String, operator: &'static str },
    FieldValueMismatch { rule_id: String, field: Field, expected: ValueKind, actual: ValueKind },
    UnorderableField { rule_id: String, field: Field, operator: &'static str },
}

} // verus!
