use vstd::prelude::*;

use crate::common::{AgentId, Currency};
use crate::policy::error::PolicyValidationError;
use crate::spend::model::SpendRequest;

verus! {

#[derive(Debug)]
pub enum Condition {
    All { conditions: Vec<Condition> },
    Any { conditions: Vec<Condition> },
    Not { condition: Box<Condition> },
    Eq { field: Field, value: PolicyValue },
    Neq { field: Field, value: PolicyValue },
    Gt { field: Field, value: PolicyValue },
    Gte { field: Field, value: PolicyValue },
    Lt { field: Field, value: PolicyValue },
    Lte { field: Field, value: PolicyValue },
    In { field: Field, values: Vec<PolicyValue> },
    Exists { field: Field },
}

#[derive(Clone, Copy, Debug, PartialEq, Eq, Structural)]
pub enum Field {
    Amount,
    Currency,
    AgentId,
    Merchant,
    Provider,
    Executor,
    Capability,
    BillingMerchant,
    Category,
}

#[derive(Clone, Copy, Debug, PartialEq, Eq, Structural)]
pub enum ValueKind {
    String,
    MoneyCents,
    Currency,
    AgentId,
}

#[derive(Debug)]
pub enum PolicyValue {
    String(String),
    MoneyCents(i64),
    Currency(Currency),
    AgentId(AgentId),
}

/// A policy value with its string taken by its characters.
pub enum PolicyValueView {
    String(Seq<char>),
    MoneyCents(i64),
    Currency(Currency),
    AgentId(AgentId),
}

impl View for PolicyValue {
    type V = PolicyValueView;

    open spec fn view(&self) -> PolicyValueView {
        match self {
            PolicyValue::String(s) => PolicyValueView::String(s@),
            PolicyValue::MoneyCents(n) => PolicyValueView::MoneyCents(*n),
            PolicyValue::Currency(c) => PolicyValueView::Currency(*c),
            PolicyValue::AgentId(a) => PolicyValueView::AgentId(*a),
        }
    }
}

pub open spec fn view_kind(v: PolicyValueView) -> ValueKind {
    match v {
        PolicyValueView::String(_) => ValueKind::String,
        PolicyValueView::MoneyCents(_) => ValueKind::MoneyCents,
        PolicyValueView::Currency(_) => ValueKind::Currency,
        PolicyValueView::AgentId(_) => ValueKind::AgentId,
    }
}

pub open spec fn spec_field_kind(field: Field) -> ValueKind {
    match field {
        Field::Amount => ValueKind::MoneyCents,
        Field::Currency => ValueKind::Currency,
        Field::AgentId => ValueKind::AgentId,
        _ => ValueKind::String,
    }
}

pub open spec fn opt_string_value(s: Option<String>) -> Option<PolicyValueView> {
    match s {
        Some(v) => Some(PolicyValueView::String(v@)),
        None => None,
    }
}

/// The value a field reads from a request, if the request supplies it.
pub open spec fn spec_value_from(field: Field, r: SpendRequest) -> Option<PolicyValueView> {
    match field {
        Field::Amount => Some(PolicyValueView::MoneyCents(r.amount_cents)),
        Field::Currency => Some(PolicyValueView::Currency(r.currency)),
        Field::AgentId => Some(PolicyValueView::AgentId(r.agent_id)),
        Field::Merchant => opt_string_value(r.merchant),
        Field::Provider => match r.execution_scope {
            Some(scope) => Some(PolicyValueView::String(scope.provider.id@)),
            None => None,
        },
        Field::Executor => match r.execution_scope {
            Some(scope) => Some(PolicyValueView::String(scope.executor.id@)),
            None => None,
        },
        Field::Capability => match r.execution_scope {
            Some(scope) => Some(PolicyValueView::String(scope.capability.id@)),
            None => None,
        },
        Field::BillingMerchant => match r.execution_scope {
            Some(scope) => Some(PolicyValueView::String(scope.billing_merchant.id@)),
            None => None,
        },
        Field::Category => opt_string_value(r.category),
    }
}

/// Ordered comparison operators.
pub enum Order {
    Gt,
    Gte,
    Lt,
    Lte,
}

pub open spec fn spec_compare(order: Order, left: i64, right: i64) -> bool {
    match order {
        Order::Gt => left > right,
        Order::Gte => left >= right,
        Order::Lt => left < right,
        Order::Lte => left <= right,
    }
}

/// `actual` compared to `expected` with an ordered operator; both must be
/// money amounts.
pub open spec fn spec_ordered(order: Order, actual: PolicyValueView, expected: PolicyValueView) -> bool {
    match (actual, expected) {
        (PolicyValueView::MoneyCents(l), PolicyValueView::MoneyCents(r)) => spec_compare(order, l, r),
        _ => false,
    }
}

pub open spec fn spec_in(actual: PolicyValueView, values: Seq<PolicyValue>) -> bool {
    exists|i: int| 0 <= i < values.len() && values[i]@ == actual
}

/// What a condition evaluates to for a request.
pub open spec fn spec_eval(c: Condition, r: SpendRequest) -> bool
    decreases c, 0nat,
{
    match c {
        Condition::All { conditions } => spec_eval_all(conditions@, r),
        Condition::Any { conditions } => spec_eval_any(conditions@, r),
        Condition::Not { condition } => !spec_eval(*condition, r),
        Condition::Eq { field, value } => match spec_value_from(field, r) {
            Some(actual) => actual == value@,
            None => false,
        },
        Condition::Neq { field, value } => match spec_value_from(field, r) {
            Some(actual) => actual != value@,
            None => false,
        },
        Condition::Gt { field, value } => match spec_value_from(field, r) {
            Some(actual) => spec_ordered(Order::Gt, actual, value@),
            None => false,
        },
        Condition::Gte { field, value } => match spec_value_from(field, r) {
            Some(actual) => spec_ordered(Order::Gte, actual, value@),
            None => false,
        },
        Condition::Lt { field, value } => match spec_value_from(field, r) {
            Some(actual) => spec_ordered(Order::Lt, actual, value@),
            None => false,
        },
        Condition::Lte { field, value } => match spec_value_from(field, r) {
            Some(actual) => spec_ordered(Order::Lte, actual, value@),
            None => false,
        },
        Condition::In { field, values } => match spec_value_from(field, r) {
            Some(actual) => spec_in(actual, values@),
            None => false,
        },
        Condition::Exists { field } => spec_value_from(field, r) is Some,
    }
}

/// Every condition of the group holds.
pub open spec fn spec_eval_all(cs: Seq<Condition>, r: SpendRequest) -> bool
    decreases cs, 1nat,
{
    if cs.len() == 0 {
        true
    } else {
        spec_eval(cs[0], r) && spec_eval_all(cs.drop_first(), r)
    }
}

/// Some condition of the group holds.
pub open spec fn spec_eval_any(cs: Seq<Condition>, r: SpendRequest) -> bool
    decreases cs, 1nat,
{
    if cs.len() == 0 {
        false
    } else {
        spec_eval(cs[0], r) || spec_eval_any(cs.drop_first(), r)
    }
}


/// `in` stops at the first equal value; every value compared before that must
/// have the kind of the field's value.
pub open spec fn spec_in_defined(actual: PolicyValueView, values: Seq<PolicyValue>) -> bool
    decreases values.len(),
{
    values.len() == 0 || (view_kind(values[0]@) == view_kind(actual) && (values[0]@ != actual
        ==> spec_in_defined(actual, values.drop_first())))
}

/// Evaluation compares no values of different kinds. Groups stop at the
/// first condition that settles them, so later conditions are not reached.
pub open spec fn spec_eval_defined(c: Condition, r: SpendRequest) -> bool
    decreases c, 0nat,
{
    match c {
        Condition::All { conditions } => spec_all_defined(conditions@, r),
        Condition::Any { conditions } => spec_any_defined(conditions@, r),
        Condition::Not { condition } => spec_eval_defined(*condition, r),
        Condition::Eq { field, value } | Condition::Neq { field, value } => match spec_value_from(field, r) {
            Some(actual) => view_kind(actual) == view_kind(value@),
            None => true,
        },
        Condition::Gt { field, value } | Condition::Gte { field, value } | Condition::Lt {
            field,
            value,
        } | Condition::Lte { field, value } => match spec_value_from(field, r) {
            Some(actual) => actual is MoneyCents && value@ is MoneyCents,
            None => true,
        },
        Condition::In { field, values } => match spec_value_from(field, r) {
            Some(actual) => spec_in_defined(actual, values@),
            None => true,
        },
        Condition::Exists { .. } => true,
    }
}

pub open spec fn spec_all_defined(cs: Seq<Condition>, r: SpendRequest) -> bool
    decreases cs, 1nat,
{
    cs.len() == 0 || (spec_eval_defined(cs[0], r) && (spec_eval(cs[0], r) ==> spec_all_defined(
        cs.drop_first(),
        r,
    )))
}

pub open spec fn spec_any_defined(cs: Seq<Condition>, r: SpendRequest) -> bool
    decreases cs, 1nat,
{
    cs.len() == 0 || (spec_eval_defined(cs[0], r) && (!spec_eval(cs[0], r) ==> spec_any_defined(
        cs.drop_first(),
        r,
    )))
}

/// The first shape or typing fault that validation reports.
pub enum ConditionFault {
    EmptyGroup(Seq<char>),
    Mismatch(Field, ValueKind, ValueKind),
    Unorderable(Field, Seq<char>),
}

pub open spec fn spec_value_fault(field: Field, value: PolicyValue) -> Option<ConditionFault> {
    if spec_field_kind(field) != view_kind(value@) {
        Some(ConditionFault::Mismatch(field, spec_field_kind(field), view_kind(value@)))
    } else {
        None
    }
}

pub open spec fn spec_ordered_fault(operator: Seq<char>, field: Field, value: PolicyValue) -> Option<ConditionFault> {
    if field != Field::Amount {
        Some(ConditionFault::Unorderable(field, operator))
    } else {
        spec_value_fault(field, value)
    }
}

pub open spec fn spec_values_fault(field: Field, values: Seq<PolicyValue>) -> Option<ConditionFault>
    decreases values.len(),
{
    if values.len() == 0 {
        None
    } else {
        match spec_value_fault(field, values[0]) {
            Some(f) => Some(f),
            None => spec_values_fault(field, values.drop_first()),
        }
    }
}

pub open spec fn spec_condition_fault(c: Condition) -> Option<ConditionFault>
    decreases c, 0nat,
{
    match c {
        Condition::All { conditions } => if conditions@.len() == 0 {
            Some(ConditionFault::EmptyGroup("all"@))
        } else {
            spec_group_fault(conditions@)
        },
        Condition::Any { conditions } => if conditions@.len() == 0 {
            Some(ConditionFault::EmptyGroup("any"@))
        } else {
            spec_group_fault(conditions@)
        },
        Condition::Not { condition } => spec_condition_fault(*condition),
        Condition::Eq { field, value } | Condition::Neq { field, value } => spec_value_fault(field, value),
        Condition::Gt { field, value } => spec_ordered_fault("gt"@, field, value),
        Condition::Gte { field, value } => spec_ordered_fault("gte"@, field, value),
        Condition::Lt { field, value } => spec_ordered_fault("lt"@, field, value),
        Condition::Lte { field, value } => spec_ordered_fault("lte"@, field, value),
        Condition::In { field, values } => spec_values_fault(field, values@),
        Condition::Exists { .. } => None,
    }
}

pub open spec fn spec_group_fault(cs: Seq<Condition>) -> Option<ConditionFault>
    decreases cs, 1nat,
{
    if cs.len() == 0 {
        None
    } else {
        match spec_condition_fault(cs[0]) {
            Some(f) => Some(f),
            None => spec_group_fault(cs.drop_first()),
        }
    }
}

/// The error that validation returns for a fault found in rule `rule_id`.
pub open spec fn spec_fault_error(e: PolicyValidationError, f: ConditionFault, rule_id: Seq<char>) -> bool {
    match f {
        ConditionFault::EmptyGroup(op) => e matches PolicyValidationError::EmptyConditionGroup {
            rule_id: id,
            operator,
        } && id@ == rule_id && operator@ == op,
        ConditionFault::Mismatch(field, expected, actual) => e matches PolicyValidationError::FieldValueMismatch {
            rule_id: id,
            field: f2,
            expected: e2,
            actual: a2,
        } && id@ == rule_id && f2 == field && e2 == expected && a2 == actual,
        ConditionFault::Unorderable(field, op) => e matches PolicyValidationError::UnorderableField {
            rule_id: id,
            field: f2,
            operator,
        } && id@ == rule_id && f2 == field && operator@ == op,
    }
}

impl Field {
    pub fn value_kind(&self) -> (k: ValueKind)
        ensures
            k == spec_field_kind(*self),
    {
        match self {
            Field::Amount => ValueKind::MoneyCents,
            Field::Currency => ValueKind::Currency,
            Field::AgentId => ValueKind::AgentId,
            Field::Merchant | Field::Provider | Field::Executor | Field::Capability
            | Field::BillingMerchant | Field::Category => ValueKind::String,
        }
    }

    /// Only the amount supports ordered operators.
    pub fn is_orderable(&self) -> (b: bool)
        ensures
            b == (*self == Field::Amount),
    {
        matches!(self, Field::Amount)
    }

    /// The value this field reads from the request, if supplied.
    pub fn value_from(&self, request: &SpendRequest) -> (v: Option<PolicyValue>)
        ensures
            match (v, spec_value_from(*self, *request)) {
                (Some(x), Some(y)) => x@ == y,
                (None, None) => true,
                _ => false,
            },
    {
        match self {
            Field::Amount => Some(PolicyValue::MoneyCents(request.amount_cents)),
            Field::Currency => Some(PolicyValue::Currency(request.currency)),
            Field::AgentId => Some(PolicyValue::AgentId(request.agent_id)),
            Field::Merchant => match &request.merchant {
                Some(m) => Some(PolicyValue::String(m.clone())),
                None => None,
            },
            Field::Provider => match &request.execution_scope {
                Some(scope) => Some(PolicyValue::String(scope.provider.id.clone())),
                None => None,
            },
            Field::Executor => match &request.execution_scope {
                Some(scope) => Some(PolicyValue::String(scope.executor.id.clone())),
                None => None,
            },
            Field::Capability => match &request.execution_scope {
                Some(scope) => Some(PolicyValue::String(scope.capability.id.clone())),
                None => None,
            },
            Field::BillingMerchant => match &request.execution_scope {
                Some(scope) => Some(PolicyValue::String(scope.billing_merchant.id.clone())),
                None => None,
            },
            Field::Category => match &request.category {
                Some(c) => Some(PolicyValue::String(c.clone())),
                None => None,
            },
        }
    }
}

impl PolicyValue {
    pub fn kind(&self) -> (k: ValueKind)
        ensures
            k == view_kind(self@),
    {
        match self {
            PolicyValue::String(_) => ValueKind::String,
            PolicyValue::MoneyCents(_) => ValueKind::MoneyCents,
            PolicyValue::Currency(_) => ValueKind::Currency,
            PolicyValue::AgentId(_) => ValueKind::AgentId,
        }
    }

    /// Equality of two values of one kind.
    fn eq_value(&self, other: &PolicyValue) -> (b: bool)
        requires
            view_kind(self@) == view_kind(other@),
        ensures
            b == (self@ == other@),
    {
        match (self, other) {
            (PolicyValue::String(a), PolicyValue::String(b)) => *a == *b,
            (PolicyValue::MoneyCents(a), PolicyValue::MoneyCents(b)) => *a == *b,
            (PolicyValue::Currency(a), PolicyValue::Currency(b)) => *a == *b,
            (PolicyValue::AgentId(a), PolicyValue::AgentId(b)) => *a == *b,
            _ => false,
        }
    }

    /// An ordered comparison of two money amounts.
    fn compare_value(&self, order: Order, other: &PolicyValue) -> (b: bool)
        requires
            self@ is MoneyCents,
            other@ is MoneyCents,
        ensures
            b == spec_ordered(order, self@, other@),
    {
        match (self, other) {
            (PolicyValue::MoneyCents(l), PolicyValue::MoneyCents(r)) => match order {
                Order::Gt => *l > *r,
                Order::Gte => *l >= *r,
                Order::Lt => *l < *r,
                Order::Lte => *l <= *r,
            },
            _ => false,
        }
    }
}

fn ordered_from(field: Field, order: Order, value: &PolicyValue, request: &SpendRequest) -> (b: bool)
    requires
        match spec_value_from(field, *request) {
            Some(actual) => actual is MoneyCents && value@ is MoneyCents,
            None => true,
        },
    ensures
        b == match spec_value_from(field, *request) {
            Some(actual) => spec_ordered(order, actual, value@),
            None => false,
        },
{
    match field.value_from(request) {
        Some(actual) => actual.compare_value(order, value),
        None => false,
    }
}

fn in_values(actual: &PolicyValue, values: &Vec<PolicyValue>) -> (b: bool)
    requires
        spec_in_defined(actual@, values@),
    ensures
        b == spec_in(actual@, values@),
{
    let mut i: usize = 0;
    assert(values@.skip(0) =~= values@);
    while i < values.len()
        invariant
            i <= values.len(),
            spec_in_defined(actual@, values@.skip(i as int)),
            forall|j: int| 0 <= j < i ==> values@[j]@ != actual@,
        decreases values.len() - i,
    {
        proof {
            assert(values@.skip(i as int)[0] == values@[i as int]);
            assert(values@.skip(i as int).drop_first() =~= values@.skip(i + 1));
        }
        if values[i].eq_value(actual) {
            return true;
        }
        i = i + 1;
    }
    false
}

impl Condition {
    /// Evaluate the condition against a request.
    ///
    /// Comparing values of different kinds is outside the domain; policy
    /// validation rules it out for every request.
    #[verifier::loop_isolation(false)]
    pub fn eval(&self, request: &SpendRequest) -> (b: bool)
        requires
            spec_eval_defined(*self, *request),
        ensures
            b == spec_eval(*self, *request),
        decreases self,
    {
        match self {
            Condition::All { conditions } => {
                let mut i: usize = 0;
                assert(conditions@.skip(0) =~= conditions@);
                while i < conditions.len()
                    invariant
                        i <= conditions.len(),
                        spec_all_defined(conditions@.skip(i as int), *request),
                        spec_eval_all(conditions@, *request) == spec_eval_all(conditions@.skip(i as int), *request),
                    decreases conditions.len() - i,
                {
                    proof {
                        assert(conditions@.skip(i as int)[0] == conditions@[i as int]);
                        assert(conditions@.skip(i as int).drop_first() =~= conditions@.skip(i + 1));
                        assert(decreases_to!(*self => conditions@));
                        assert(decreases_to!(conditions@ => conditions@[i as int]));
                    }
                    if !conditions[i].eval(request) {
                        return false;
                    }
                    i = i + 1;
                }
                true
            },
            Condition::Any { conditions } => {
                let mut i: usize = 0;
                assert(conditions@.skip(0) =~= conditions@);
                while i < conditions.len()
                    invariant
                        i <= conditions.len(),
                        spec_any_defined(conditions@.skip(i as int), *request),
                        spec_eval_any(conditions@, *request) == spec_eval_any(conditions@.skip(i as int), *request),
                    decreases conditions.len() - i,
                {
                    proof {
                        assert(conditions@.skip(i as int)[0] == conditions@[i as int]);
                        assert(conditions@.skip(i as int).drop_first() =~= conditions@.skip(i + 1));
                        assert(decreases_to!(*self => conditions@));
                        assert(decreases_to!(conditions@ => conditions@[i as int]));
                    }
                    if conditions[i].eval(request) {
                        return true;
                    }
                    i = i + 1;
                }
                false
            },
            Condition::Not { condition } => !condition.eval(request),
            Condition::Eq { field, value } => match field.value_from(request) {
                Some(actual) => actual.eq_value(value),
                None => false,
            },
            Condition::Neq { field, value } => match field.value_from(request) {
                Some(actual) => !actual.eq_value(value),
                None => false,
            },
            Condition::Gt { field, value } => ordered_from(*field, Order::Gt, value, request),
            Condition::Gte { field, value } => ordered_from(*field, Order::Gte, value, request),
            Condition::Lt { field, value } => ordered_from(*field, Order::Lt, value, request),
            Condition::Lte { field, value } => ordered_from(*field, Order::Lte, value, request),
            Condition::In { field, values } => match field.value_from(request) {
                Some(actual) => in_values(&actual, values),
                None => false,
            },
            Condition::Exists { field } => field.value_from(request).is_some(),
        }
    }
}


fn validate_field_value(rule_id: &str, field: Field, value: &PolicyValue) -> (r: Result<(), PolicyValidationError>)
    ensures
        match spec_value_fault(field, *value) {
            None => r is Ok,
            Some(f) => r matches Err(e) && spec_fault_error(e, f, rule_id@),
        },
{
    let expected = field.value_kind();
    let actual = value.kind();
    if expected != actual {
        return Err(PolicyValidationError::FieldValueMismatch {
            rule_id: rule_id.to_owned(),
            field,
            expected,
            actual,
        });
    }
    Ok(())
}

fn validate_ordered_field_value(
    rule_id: &str,
    operator: &'static str,
    field: Field,
    value: &PolicyValue,
) -> (r: Result<(), PolicyValidationError>)
    ensures
        match spec_ordered_fault(operator@, field, *value) {
            None => r is Ok,
            Some(f) => r matches Err(e) && spec_fault_error(e, f, rule_id@),
        },
{
    if !field.is_orderable() {
        return Err(PolicyValidationError::UnorderableField { rule_id: rule_id.to_owned(), field, operator });
    }
    validate_field_value(rule_id, field, value)
}

fn validate_group(rule_id: &str, operator: &'static str, conditions: &Vec<Condition>) -> (r: Result<(), PolicyValidationError>)
    ensures
        conditions@.len() == 0 ==> (r matches Err(e) && spec_fault_error(e, ConditionFault::EmptyGroup(operator@), rule_id@)),
        conditions@.len() > 0 ==> match spec_group_fault(conditions@) {
            None => r is Ok,
            Some(f) => r matches Err(e) && spec_fault_error(e, f, rule_id@),
        },
    decreases conditions@, 2nat,
{
    if conditions.len() == 0 {
        return Err(PolicyValidationError::EmptyConditionGroup { rule_id: rule_id.to_owned(), operator });
    }
    let mut i: usize = 0;
    assert(conditions@.skip(0) =~= conditions@);
    while i < conditions.len()
        invariant
            i <= conditions.len(),
            spec_group_fault(conditions@) == spec_group_fault(conditions@.skip(i as int)),
        decreases conditions.len() - i,
    {
        proof {
            assert(conditions@.skip(i as int)[0] == conditions@[i as int]);
            assert(conditions@.skip(i as int).drop_first() =~= conditions@.skip(i + 1));
            assert(decreases_to!(conditions@ => conditions@[i as int]));
        }
        match conditions[i].validate(rule_id) {
            Err(e) => return Err(e),
            Ok(()) => {},
        }
        i = i + 1;
    }
    Ok(())
}

impl Condition {
    /// Check the condition's shape and value kinds before evaluation.
    #[verifier::loop_isolation(false)]
    pub fn validate(&self, rule_id: &str) -> (r: Result<(), PolicyValidationError>)
        ensures
            match spec_condition_fault(*self) {
                None => r is Ok,
                Some(f) => r matches Err(e) && spec_fault_error(e, f, rule_id@),
            },
        decreases self, 0nat,
    {
        match self {
            Condition::All { conditions } => {
                proof { assert(decreases_to!(*self => conditions@)); }
                validate_group(rule_id, "all", conditions)
            },
            Condition::Any { conditions } => {
                proof { assert(decreases_to!(*self => conditions@)); }
                validate_group(rule_id, "any", conditions)
            },
            Condition::Not { condition } => condition.validate(rule_id),
            Condition::Eq { field, value } | Condition::Neq { field, value } => validate_field_value(
                rule_id,
                *field,
                value,
            ),
            Condition::Gt { field, value } => validate_ordered_field_value(rule_id, "gt", *field, value),
            Condition::Gte { field, value } => validate_ordered_field_value(rule_id, "gte", *field, value),
            Condition::Lt { field, value } => validate_ordered_field_value(rule_id, "lt", *field, value),
            Condition::Lte { field, value } => validate_ordered_field_value(rule_id, "lte", *field, value),
            Condition::In { field, values } => {
                let mut i: usize = 0;
                assert(values@.skip(0) =~= values@);
                while i < values.len()
                    invariant
                        i <= values.len(),
                        spec_values_fault(*field, values@) == spec_values_fault(*field, values@.skip(i as int)),
                    decreases values.len() - i,
                {
                    proof {
                        assert(values@.skip(i as int)[0] == values@[i as int]);
                        assert(values@.skip(i as int).drop_first() =~= values@.skip(i + 1));
                    }
                    match validate_field_value(rule_id, *field, &values[i]) {
                        Err(e) => return Err(e),
                        Ok(()) => {},
                    }
                    i = i + 1;
                }
                Ok(())
            },
            Condition::Exists { .. } => Ok(()),
        }
    }
}

proof fn lemma_value_kind_of_field(field: Field, r: SpendRequest)
    ensures
        spec_value_from(field, r) matches Some(a) ==> view_kind(a) == spec_field_kind(field),
{
}

proof fn lemma_values_valid_in_defined(field: Field, actual: PolicyValueView, values: Seq<PolicyValue>)
    requires
        spec_values_fault(field, values) is None,
        view_kind(actual) == spec_field_kind(field),
    ensures
        spec_in_defined(actual, values),
    decreases values.len(),
{
    if values.len() > 0 {
        lemma_values_valid_in_defined(field, actual, values.drop_first());
    }
}

/// A condition that passes validation compares only values of one kind, for
/// every request.
pub proof fn lemma_valid_condition_defined(c: Condition, r: SpendRequest)
    requires
        spec_condition_fault(c) is None,
    ensures
        spec_eval_defined(c, r),
    decreases c, 0nat,
{
    match c {
        Condition::All { conditions } => {
            lemma_valid_group_defined(conditions@, r);
        },
        Condition::Any { conditions } => {
            lemma_valid_group_defined(conditions@, r);
        },
        Condition::Not { condition } => {
            lemma_valid_condition_defined(*condition, r);
        },
        Condition::In { field, values } => {
            lemma_value_kind_of_field(field, r);
            if let Some(a) = spec_value_from(field, r) {
                lemma_values_valid_in_defined(field, a, values@);
            }
        },
        Condition::Eq { field, .. } | Condition::Neq { field, .. } | Condition::Gt { field, .. }
        | Condition::Gte { field, .. } | Condition::Lt { field, .. } | Condition::Lte { field, .. }
        | Condition::Exists { field } => {
            lemma_value_kind_of_field(field, r);
        },
    }
}

proof fn lemma_valid_group_defined(cs: Seq<Condition>, r: SpendRequest)
    requires
        spec_group_fault(cs) is None,
    ensures
        spec_all_defined(cs, r),
        spec_any_defined(cs, r),
    decreases cs, 1nat,
{
    if cs.len() > 0 {
        lemma_valid_condition_defined(cs[0], r);
        lemma_valid_group_defined(cs.drop_first(), r);
    }
}

proof fn lemma_group_members(cs: Seq<Condition>, r: SpendRequest)
    ensures
        spec_eval_all(cs, r) <==> (forall|i: int| 0 <= i < cs.len() ==> #[trigger] spec_eval(cs[i], r)),
        spec_eval_any(cs, r) <==> (exists|i: int| 0 <= i < cs.len() && #[trigger] spec_eval(cs[i], r)),
    decreases cs.len(),
{
    if cs.len() > 0 {
        let rest = cs.drop_first();
        lemma_group_members(rest, r);
        assert forall|i: int| 0 < i < cs.len() implies #[trigger] spec_eval(cs[i], r) == spec_eval(rest[i - 1], r) by {
            assert(cs[i] == rest[i - 1]);
        }
        if spec_eval_any(cs, r) && !spec_eval(cs[0], r) {
            let j = choose|j: int| 0 <= j < rest.len() && #[trigger] spec_eval(rest[j], r);
            assert(cs[j + 1] == rest[j]);
        }
        if (exists|i: int| 0 <= i < cs.len() && #[trigger] spec_eval(cs[i], r)) && !spec_eval(cs[0], r) {
            let j = choose|j: int| 0 <= j < cs.len() && #[trigger] spec_eval(cs[j], r);
            assert(spec_eval(rest[j - 1], r));
        }
        if forall|i: int| 0 <= i < cs.len() ==> #[trigger] spec_eval(cs[i], r) {
            assert forall|j: int| 0 <= j < rest.len() implies #[trigger] spec_eval(rest[j], r) by {
                assert(cs[j + 1] == rest[j]);
            }
        }
    }
}

/// An all-group holds exactly when every one of its conditions holds, an
/// any-group exactly when at least one does, and a negation exactly when
/// its condition does not; an empty all-group holds and an empty any-group
/// does not.
pub proof fn lemma_groups_combine_their_members(conditions: Vec<Condition>, condition: Box<Condition>, r: SpendRequest)
    ensures
        spec_eval(Condition::All { conditions }, r) <==> (forall|i: int| 0 <= i < conditions@.len() ==> #[trigger] spec_eval(conditions@[i], r)),
        spec_eval(Condition::Any { conditions }, r) <==> (exists|i: int| 0 <= i < conditions@.len() && #[trigger] spec_eval(conditions@[i], r)),
        spec_eval(Condition::Not { condition }, r) <==> !spec_eval(*condition, r),
{
    lemma_group_members(conditions@, r);
}

/// Amount comparisons compare the request's amount with the bound as
/// written: greater, at least, less, at most, equal, unequal.
pub proof fn lemma_amount_comparisons(bound: i64, r: SpendRequest)
    ensures
        spec_eval(Condition::Gt { field: Field::Amount, value: PolicyValue::MoneyCents(bound) }, r) == (r.amount_cents > bound),
        spec_eval(Condition::Gte { field: Field::Amount, value: PolicyValue::MoneyCents(bound) }, r) == (r.amount_cents >= bound),
        spec_eval(Condition::Lt { field: Field::Amount, value: PolicyValue::MoneyCents(bound) }, r) == (r.amount_cents < bound),
        spec_eval(Condition::Lte { field: Field::Amount, value: PolicyValue::MoneyCents(bound) }, r) == (r.amount_cents <= bound),
        spec_eval(Condition::Eq { field: Field::Amount, value: PolicyValue::MoneyCents(bound) }, r) == (r.amount_cents == bound),
        spec_eval(Condition::Neq { field: Field::Amount, value: PolicyValue::MoneyCents(bound) }, r) == (r.amount_cents != bound),
{
}

/// A merchant or category equality holds exactly when the request names
/// that text; a request that names none matches neither it nor its
/// negation, and `exists` asks whether it names one.
pub proof fn lemma_text_field_equality(text: String, r: SpendRequest)
    ensures
        spec_eval(Condition::Eq { field: Field::Merchant, value: PolicyValue::String(text) }, r)
            == (r.merchant matches Some(m) && m@ == text@),
        spec_eval(Condition::Neq { field: Field::Merchant, value: PolicyValue::String(text) }, r)
            == (r.merchant matches Some(m) && m@ != text@),
        spec_eval(Condition::Eq { field: Field::Category, value: PolicyValue::String(text) }, r)
            == (r.category matches Some(c) && c@ == text@),
        spec_eval(Condition::Exists { field: Field::Merchant }, r) == r.merchant is Some,
        spec_eval(Condition::Exists { field: Field::Category }, r) == r.category is Some,
{
}

} // verus!
