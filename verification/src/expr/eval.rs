//! What expressions give for a row.
use arrow::datatypes::{DataType, Field, Schema};
use arrow::util::display::FormatOptions;
use datafusion_common::ScalarValue;
use datafusion_expr_common::operator::Operator;
use vstd::prelude::*;

use crate::data_type::{boolean_of, boolean_scalar, field_type, nullable_field};
use crate::expr::{type_of, CastOptions, Expr, ExprList};
use crate::operator::{comparison, negated, swapped};

verus! {

/// What an expression gives.
pub enum Value {
    /// Null, of whatever type.
    Null,
    /// A Boolean.
    Bool(bool),
    /// A value of another type, by a number that no value of any type shares with it.
    Of(int),
}

/// One row of a table, and what the engine makes of values.
pub struct Row {
    /// The value of a column.
    pub column: spec_fn(usize) -> Value,
    /// The value of a literal.
    pub literal: spec_fn(ScalarValue) -> Value,
    /// A value cast to a type, where it can be cast.
    pub cast: spec_fn(DataType, Value) -> Option<Value>,
    /// A value cast with options or to a target that say more than the type.
    pub special_cast: spec_fn(Field, bool, FormatOptions<'static>, Value) -> Option<Value>,
    /// The result of an operator that neither compares nor is AND or OR.
    pub operate: spec_fn(Operator, Value, Value) -> Option<Value>,
    /// The result of an expression of another kind, by its `id` and its type.
    pub other: spec_fn(u64, DataType, Seq<Value>) -> Option<Value>,
    /// The order of values.
    pub less: spec_fn(Value, Value) -> bool,
    /// A value is of a type.
    pub has_type: spec_fn(Value, DataType) -> bool,
}

/// The opposite of a Boolean; the opposite of null is null.
pub open spec fn not_value(value: Value) -> Option<Value> {
    match value {
        Value::Null => Some(Value::Null),
        Value::Bool(value) => Some(Value::Bool(!value)),
        Value::Of(_) => None,
    }
}

/// AND: false where one side is false, null where the rest is not known.
pub open spec fn and_values(left: Value, right: Value) -> Option<Value> {
    if left is Of || right is Of {
        None
    } else if left == Value::Bool(false) || right == Value::Bool(false) {
        Some(Value::Bool(false))
    } else if left is Null || right is Null {
        Some(Value::Null)
    } else {
        Some(Value::Bool(true))
    }
}

/// OR: true where one side is true, null where the rest is not known.
pub open spec fn or_values(left: Value, right: Value) -> Option<Value> {
    if left is Of || right is Of {
        None
    } else if left == Value::Bool(true) || right == Value::Bool(true) {
        Some(Value::Bool(true))
    } else if left is Null || right is Null {
        Some(Value::Null)
    } else {
        Some(Value::Bool(false))
    }
}

/// A comparison: null where a side is null.
pub open spec fn unless_null(left: Value, right: Value, result: bool) -> Option<Value> {
    if left is Null || right is Null {
        Some(Value::Null)
    } else {
        Some(Value::Bool(result))
    }
}

impl Row {
    /// The result of a binary operator.
    pub open spec fn apply(self, op: Operator, left: Value, right: Value) -> Option<Value> {
        match op {
            Operator::And => and_values(left, right),
            Operator::Or => or_values(left, right),
            Operator::Eq => unless_null(left, right, left == right),
            Operator::NotEq => unless_null(left, right, left != right),
            Operator::Lt => unless_null(left, right, (self.less)(left, right)),
            Operator::LtEq => unless_null(left, right, !(self.less)(right, left)),
            Operator::Gt => unless_null(left, right, (self.less)(right, left)),
            Operator::GtEq => unless_null(left, right, !(self.less)(left, right)),
            Operator::IsDistinctFrom => Some(Value::Bool(left != right)),
            Operator::IsNotDistinctFrom => Some(Value::Bool(left == right)),
            _ => (self.operate)(op, left, right),
        }
    }

    /// A value cast with options to a target.
    pub open spec fn cast_value(self, target_field: Field, options: CastOptions, value: Value) -> Option<Value> {
        if options.default_options() && target_field == nullable_field(field_type(target_field)) {
            (self.cast)(field_type(target_field), value)
        } else {
            (self.special_cast)(target_field, options.safe, options.format_options, value)
        }
    }

    /// A value cast to a type, or null where it cannot be cast.
    pub open spec fn try_cast_value(self, target: DataType, value: Value) -> Option<Value> {
        match (self.cast)(target, value) {
            Some(value) => Some(value),
            None => Some(Value::Null),
        }
    }

    /// The engine orders values totally, casts null to null, gives Boolean literals their
    /// value, and has operators that are the opposite of each other.
    pub open spec fn wf(self) -> bool {
        &&& forall|left: Value, right: Value|
            #![trigger (self.less)(left, right)]
            {
                &&& left == right || (self.less)(left, right) || (self.less)(right, left)
                &&& !((self.less)(left, right) && (self.less)(right, left))
            }
        &&& forall|left: Value, middle: Value, right: Value|
            #![trigger (self.less)(left, middle), (self.less)(middle, right)]
            (self.less)(left, middle) && (self.less)(middle, right) ==> (self.less)(left, right)
        &&& forall|target: DataType| #[trigger] (self.cast)(target, Value::Null) == Some(Value::Null)
        &&& forall|value: ScalarValue|
            #![trigger (self.literal)(value)]
            {
                &&& boolean_of(value) matches Some(Some(boolean)) ==> (self.literal)(value) == Value::Bool(boolean)
                &&& boolean_of(value) == Some(None::<bool>) ==> (self.literal)(value) is Null
            }
        &&& forall|boolean: Option<bool>| #[trigger]
            (self.literal)(boolean_scalar(boolean)) == match boolean {
                Some(boolean) => Value::Bool(boolean),
                None => Value::Null,
            }
        &&& forall|op: Operator, left: Value, right: Value|
            #![trigger (self.operate)(op, left, right)]
            negated(op) is Some && !comparison(op) ==> match (self.operate)(op, left, right) {
                Some(value) => !(value is Of) && (self.operate)(negated(op)->0, left, right) == not_value(value),
                None => (self.operate)(negated(op)->0, left, right) is None,
            }
    }

    /// Expressions give values of their type.
    pub open spec fn typed(self, schema: Schema) -> bool {
        forall|expr: Expr|
            #![trigger eval(expr, self)]
            eval(expr, self) matches Some(value) && type_of(expr, schema) matches Ok(data_type) ==> value is Null || (
            self.has_type)(value, data_type)
    }
}

/// Whether `value` is among `values`: null where that is not known.
pub open spec fn is_among(value: Value, values: Seq<Value>) -> Value
    decreases values.len(),
{
    if values.len() == 0 {
        Value::Bool(false)
    } else {
        let rest = is_among(value, values.drop_first());
        if rest == Value::Bool(true) || (!(value is Null) && value == values[0]) {
            Value::Bool(true)
        } else if rest is Null || value is Null || values[0] is Null {
            Value::Null
        } else {
            Value::Bool(false)
        }
    }
}

/// What an expression gives for a row; nothing where it fails.
pub open spec fn eval(expr: Expr, row: Row) -> Option<Value>
    decreases expr,
{
    match expr {
        Expr::Column { index } => Some((row.column)(index)),
        Expr::Literal { value } => Some((row.literal)(value)),
        Expr::Binary { left, op, right } => match (eval(*left, row), eval(*right, row)) {
            (Some(left), Some(right)) => row.apply(op, left, right),
            _ => None,
        },
        Expr::Cast { expr, target_field, options } => match eval(*expr, row) {
            Some(value) => row.cast_value(target_field, options, value),
            None => None,
        },
        Expr::TryCast { expr, target_field } => match eval(*expr, row) {
            Some(value) => row.try_cast_value(field_type(target_field), value),
            None => None,
        },
        Expr::Not { arg } => match eval(*arg, row) {
            Some(value) => not_value(value),
            None => None,
        },
        Expr::IsNull { arg } => match eval(*arg, row) {
            Some(value) => Some(Value::Bool(value is Null)),
            None => None,
        },
        Expr::IsNotNull { arg } => match eval(*arg, row) {
            Some(value) => Some(Value::Bool(!(value is Null))),
            None => None,
        },
        Expr::InList { expr, list, negated } => match (eval(*expr, row), eval_list(list, row)) {
            (Some(value), Some(values)) => if negated {
                not_value(is_among(value, values))
            } else {
                Some(is_among(value, values))
            },
            _ => None,
        },
        Expr::Other { id, children, data_type, volatile } => match eval_list(children, row) {
            Some(values) => (row.other)(id, data_type, values),
            None => None,
        },
    }
}

/// What the expressions of a list give for a row; nothing where one of them fails.
pub open spec fn eval_list(list: ExprList, row: Row) -> Option<Seq<Value>>
    decreases list,
{
    match list {
        ExprList::Nil => Some(Seq::empty()),
        ExprList::Cons { head, tail } => match (eval(*head, row), eval_list(*tail, row)) {
            (Some(value), Some(values)) => Some(seq![value] + values),
            _ => None,
        },
    }
}

/// The values that are cast where an expression is evaluated.
pub open spec fn cast_operands(expr: Expr, row: Row) -> Set<Value>
    decreases expr,
{
    match expr {
        Expr::Column { index } => Set::empty(),
        Expr::Literal { value } => Set::empty(),
        Expr::Binary { left, op, right } => cast_operands(*left, row).union(cast_operands(*right, row)),
        Expr::Cast { expr, target_field, options } => match eval(*expr, row) {
            Some(value) => cast_operands(*expr, row).insert(value),
            None => cast_operands(*expr, row),
        },
        Expr::TryCast { expr, target_field } => match eval(*expr, row) {
            Some(value) => cast_operands(*expr, row).insert(value),
            None => cast_operands(*expr, row),
        },
        Expr::Not { arg } => cast_operands(*arg, row),
        Expr::IsNull { arg } => cast_operands(*arg, row),
        Expr::IsNotNull { arg } => cast_operands(*arg, row),
        Expr::InList { expr, list, negated } => cast_operands(*expr, row).union(list_cast_operands(list, row)),
        Expr::Other { id, children, data_type, volatile } => list_cast_operands(children, row),
    }
}

/// The values that are cast where the expressions of a list are evaluated.
pub open spec fn list_cast_operands(list: ExprList, row: Row) -> Set<Value>
    decreases list,
{
    match list {
        ExprList::Nil => Set::empty(),
        ExprList::Cons { head, tail } => cast_operands(*head, row).union(list_cast_operands(*tail, row)),
    }
}

/// A comparison gives the same with its sides exchanged, under the operator that
/// `Operator::swap` gives.
pub proof fn law_sides_can_be_exchanged(row: Row, op: Operator, left: Value, right: Value)
    requires
        comparison(op),
    ensures
        swapped(op) matches Some(other) && row.apply(op, left, right) == row.apply(other, right, left),
{
}

/// The operator that `Operator::negate` gives gives the opposite.
pub proof fn law_negated_operators_give_the_opposite(row: Row, op: Operator, left: Value, right: Value)
    requires
        row.wf(),
        negated(op) is Some,
    ensures
        row.apply(negated(op)->0, left, right) == match row.apply(op, left, right) {
            Some(value) => not_value(value),
            None => None,
        },
        row.apply(op, left, right) matches Some(value) ==> !(value is Of),
{
    let opposite = negated(op)->0;
    if !comparison(op) {
        assert((row.operate)(op, left, right) == row.apply(op, left, right));
        assert((row.operate)(opposite, left, right) == row.apply(opposite, left, right));
    }
}

} // verus!
