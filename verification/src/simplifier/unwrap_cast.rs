//! Removal of casts from comparisons with literals.
//!
//! `CAST(column AS Int64) > 10` is `column > 10`, with a literal of the column's own type.
//! The column is then compared as it is stored, and the predicate can be pushed down.
use arrow::datatypes::{DataType, Schema};
use datafusion_common::ScalarValue;
use datafusion_expr_common::operator::Operator;
use std::sync::Arc;
use vstd::prelude::*;

use crate::answers::{Answers, PreimageAnswer, PreimageQuestion, Question, Step};
use crate::data_type::{
    clone_data_type, clone_scalar, field_data_type, field_type, into_nullable_field, nullable_field,
    same_field,
};
use crate::expr::{
    binary, binary_of, is_not_null, is_not_null_of, is_null, is_null_of, lit, literal_of, type_of,
    Expr, ExprError, Transformed,
};
use crate::operator::{comparison, is_supported_comparison_operator, swapped};

verus! {

/// What is cast, and to which type, where the cast does nothing but change the type.
///
/// A cast can have options, and a target with a name, metadata or no nulls, that show in
/// what it gives: such a cast is not looked through.
pub open spec fn cast_info(expr: Expr) -> Option<(Arc<Expr>, DataType)> {
    match expr {
        Expr::Cast { expr, target_field, options } => if options.default_options() && target_field == nullable_field(
            field_type(target_field),
        ) {
            Some((expr, field_type(target_field)))
        } else {
            None
        },
        Expr::TryCast { expr, target_field } => Some((expr, field_type(target_field))),
        _ => None,
    }
}

/// The predicate that `expr` is below, within or above `[lower, upper)`, as `op` says of
/// a value that stands for the whole range.
pub open spec fn range_predicate(lower: ScalarValue, upper: ScalarValue, op: Operator, expr: Arc<Expr>) -> Arc<Expr> {
    let from_lower = binary_of(expr, Operator::GtEq, literal_of(lower));
    let below_lower = binary_of(expr, Operator::Lt, literal_of(lower));
    let from_upper = binary_of(expr, Operator::GtEq, literal_of(upper));
    let below_upper = binary_of(expr, Operator::Lt, literal_of(upper));
    match op {
        Operator::Lt => below_lower,
        Operator::LtEq => below_upper,
        Operator::Gt => from_upper,
        Operator::GtEq => from_lower,
        Operator::Eq => binary_of(from_lower, Operator::And, below_upper),
        Operator::NotEq => binary_of(below_lower, Operator::Or, from_upper),
        Operator::IsNotDistinctFrom => binary_of(
            binary_of(is_not_null_of(expr), Operator::And, from_lower),
            Operator::And,
            below_upper,
        ),
        _ => binary_of(binary_of(below_lower, Operator::Or, from_upper), Operator::Or, is_null_of(expr)),
    }
}

/// The predicate over the source values that an answer gives.
pub open spec fn preimage_predicate(answer: PreimageAnswer, op: Operator, expr: Arc<Expr>) -> Option<Arc<Expr>> {
    match answer {
        PreimageAnswer::Exact(value) => Some(binary_of(expr, op, literal_of(value))),
        PreimageAnswer::Range { lower, upper } => Some(range_predicate(lower, upper, op, expr)),
        _ => None,
    }
}

/// `CAST(inner AS cast_type) op literal` without the cast, where the answer is known.
pub open spec fn unwrapped_comparison(
    inner: Arc<Expr>,
    cast_type: DataType,
    literal: ScalarValue,
    op: Operator,
    schema: Schema,
    answers: Answers,
) -> Step<Option<Arc<Expr>>> {
    match type_of(*inner, schema) {
        Err(error) => Step::Failed(error),
        Ok(source) => {
            let question = PreimageQuestion { source, target: cast_type, op, literal };
            if !answers.preimages@.dom().contains(question) {
                Step::Ask(Question::Preimage(question))
            } else if answers.preimages@[question] is Failed {
                Step::Failed(ExprError::PreimageFailed)
            } else {
                Step::Done(preimage_predicate(answers.preimages@[question], op, inner))
            }
        },
    }
}

/// `left op right` without the cast of one side, where the other side is a literal.
pub open spec fn unwrapped_binary(
    left: Arc<Expr>,
    op: Operator,
    right: Arc<Expr>,
    schema: Schema,
    answers: Answers,
) -> Step<Option<Arc<Expr>>> {
    if !comparison(op) {
        Step::Done(None)
    } else {
        match (cast_info(*left), *right, *left, cast_info(*right)) {
            (Some((inner, cast_type)), Expr::Literal { value }, _, _) => unwrapped_comparison(
                inner,
                cast_type,
                value,
                op,
                schema,
                answers,
            ),
            (_, _, Expr::Literal { value }, Some((inner, cast_type))) => unwrapped_comparison(
                inner,
                cast_type,
                value,
                swapped(op)->0,
                schema,
                answers,
            ),
            _ => Step::Done(None),
        }
    }
}

/// `expr` without the cast that it compares with a literal.
pub open spec fn unwrapped(expr: Arc<Expr>, schema: Schema, answers: Answers) -> Step<Transformed> {
    match *expr {
        Expr::Binary { left, op, right } => match unwrapped_binary(left, op, right, schema, answers) {
            Step::Done(Some(data)) => Step::Done(Transformed { data, transformed: true }),
            Step::Done(None) => Step::Done(Transformed { data: expr, transformed: false }),
            Step::Ask(question) => Step::Ask(question),
            Step::Failed(error) => Step::Failed(error),
        },
        _ => Step::Done(Transformed { data: expr, transformed: false }),
    }
}

/// What is cast, and to which type, where the cast does nothing but change the type.
pub fn extract_cast_info(expr: &Expr) -> (info: Option<(Arc<Expr>, DataType)>)
    ensures
        info == cast_info(*expr),
{
    match expr {
        Expr::Cast { expr, target_field, options } => {
            let cast_type = field_data_type(target_field);
            if options.is_default() && same_field(target_field, &into_nullable_field(clone_data_type(&cast_type))) {
                Some((expr.clone(), cast_type))
            } else {
                None
            }
        },
        Expr::TryCast { expr, target_field } => Some((expr.clone(), field_data_type(target_field))),
        _ => None,
    }
}

/// A comparison over the source values that a cast maps to one value: those of the
/// half-open range `[lower, upper)`.
pub fn rewrite_with_preimage(lower: ScalarValue, upper: ScalarValue, op: Operator, expr: Arc<Expr>) -> (rewritten: Arc<
    Expr,
>)
    requires
        comparison(op),
    ensures
        rewritten == range_predicate(lower, upper, op, expr),
{
    let (lower, upper) = (lit(lower), lit(upper));
    match op {
        Operator::Lt => binary(expr, Operator::Lt, lower),
        Operator::LtEq => binary(expr, Operator::Lt, upper),
        Operator::Gt => binary(expr, Operator::GtEq, upper),
        Operator::GtEq => binary(expr, Operator::GtEq, lower),
        Operator::Eq => binary(
            binary(expr.clone(), Operator::GtEq, lower),
            Operator::And,
            binary(expr, Operator::Lt, upper),
        ),
        Operator::NotEq => binary(
            binary(expr.clone(), Operator::Lt, lower),
            Operator::Or,
            binary(expr, Operator::GtEq, upper),
        ),
        // A comparison with null is null, but being distinct is never null: null is
        // looked for apart.
        Operator::IsNotDistinctFrom => binary(
            binary(is_not_null(expr.clone()), Operator::And, binary(expr.clone(), Operator::GtEq, lower)),
            Operator::And,
            binary(expr, Operator::Lt, upper),
        ),
        _ => binary(
            binary(
                binary(expr.clone(), Operator::Lt, lower),
                Operator::Or,
                binary(expr.clone(), Operator::GtEq, upper),
            ),
            Operator::Or,
            is_null(expr),
        ),
    }
}

/// `CAST(inner_expr AS cast_type) op literal_value` without the cast.
pub fn try_unwrap_cast_comparison(
    inner_expr: Arc<Expr>,
    cast_type: &DataType,
    literal_value: &ScalarValue,
    op: Operator,
    schema: &Schema,
    answers: &Answers,
) -> (step: Step<Option<Arc<Expr>>>)
    requires
        comparison(op),
    ensures
        step == unwrapped_comparison(inner_expr, *cast_type, *literal_value, op, *schema, *answers),
{
    let inner_type = match inner_expr.data_type(schema) {
        Ok(inner_type) => inner_type,
        Err(error) => return Step::Failed(error),
    };
    let question = PreimageQuestion {
        source: inner_type,
        target: clone_data_type(cast_type),
        op,
        literal: clone_scalar(literal_value),
    };
    match answers.preimages.get(&question) {
        None => Step::Ask(Question::Preimage(question)),
        Some(PreimageAnswer::Failed) => Step::Failed(ExprError::PreimageFailed),
        Some(PreimageAnswer::Unknown) => Step::Done(None),
        Some(PreimageAnswer::Exact(value)) => Step::Done(Some(binary(inner_expr, op, lit(clone_scalar(value))))),
        Some(PreimageAnswer::Range { lower, upper }) => Step::Done(
            Some(rewrite_with_preimage(clone_scalar(lower), clone_scalar(upper), op, inner_expr)),
        ),
    }
}

/// `left op right` without the cast of one side, where the other side is a literal.
pub fn try_unwrap_cast_binary(
    left: &Arc<Expr>,
    op: Operator,
    right: &Arc<Expr>,
    schema: &Schema,
    answers: &Answers,
) -> (step: Step<Option<Arc<Expr>>>)
    ensures
        step == unwrapped_binary(*left, op, *right, *schema, *answers),
{
    if !is_supported_comparison_operator(op) {
        return Step::Done(None);
    }
    if let Some((inner_expr, cast_type)) = extract_cast_info(left) {
        if let Expr::Literal { value } = &**right {
            return try_unwrap_cast_comparison(inner_expr, &cast_type, value, op, schema, answers);
        }
    }
    if let Some((inner_expr, cast_type)) = extract_cast_info(right) {
        if let Expr::Literal { value } = &**left {
            if let Some(swapped_op) = op.swap() {
                return try_unwrap_cast_comparison(inner_expr, &cast_type, value, swapped_op, schema, answers);
            }
        }
    }
    Step::Done(None)
}

/// `expr` without the cast that it compares with a literal.
pub fn unwrap_cast_in_comparison(expr: Arc<Expr>, schema: &Schema, answers: &Answers) -> (step: Step<Transformed>)
    ensures
        step == unwrapped(expr, *schema, *answers),
{
    if let Expr::Binary { left, op, right } = &*expr {
        match try_unwrap_cast_binary(left, *op, right, schema, answers) {
            Step::Done(Some(data)) => return Step::Done(Transformed { data, transformed: true }),
            Step::Done(None) => {},
            Step::Ask(question) => return Step::Ask(question),
            Step::Failed(error) => return Step::Failed(error),
        }
    }
    Step::Done(Transformed { data: expr, transformed: false })
}

} // verus!
