//! What simplification keeps.
use arrow::datatypes::{DataType, Schema};
use datafusion_common::ScalarValue;
use datafusion_expr_common::operator::Operator;
use std::sync::Arc;
use vstd::prelude::*;

use crate::answers::{Answers, PreimageAnswer, PreimageQuestion, Question, Step};
use crate::expr::eval::{
    cast_operands, eval, eval_list, law_negated_operators_give_the_opposite,
    law_sides_can_be_exchanged, list_cast_operands, Row, Value,
};
use crate::expr::{type_of, Expr, ExprError, ExprList, Transformed};
use crate::operator::{comparison, negated, swapped};
use crate::simplifier::const_evaluator::evaluated;
use crate::simplifier::not::without_not;
use crate::simplifier::unwrap_cast::{
    cast_info, preimage_predicate, range_predicate, unwrapped, unwrapped_binary,
    unwrapped_comparison,
};
use crate::simplifier::{
    simplified, simplified_children, simplified_list, simplified_node, simplified_once,
};

verus! {

/// The answer to a question is right for a value: the value can be cast, and what the
/// answer says of it holds.
pub open spec fn right_preimage(row: Row, question: PreimageQuestion, answer: PreimageAnswer, value: Value) -> bool {
    let literal = (row.literal)(question.literal);
    match answer {
        PreimageAnswer::Exact(exact) => {
            &&& (row.cast)(question.target, value) matches Some(cast)
            &&& row.apply(question.op, cast, literal) == row.apply(question.op, value, (row.literal)(exact))
        },
        PreimageAnswer::Range { lower, upper } => {
            &&& (row.cast)(question.target, value) matches Some(cast)
            &&& !(literal is Null)
            &&& !((row.literal)(lower) is Null)
            &&& !((row.literal)(upper) is Null)
            &&& !(value is Null) ==> {
                &&& !(cast is Null)
                &&& (row.less)(cast, literal) <==> (row.less)(value, (row.literal)(lower))
                &&& (row.less)(literal, cast) <==> !(row.less)(value, (row.literal)(upper))
            }
        },
        _ => true,
    }
}

/// The answers are right: those on casts for each of these values that is of the type
/// that was asked about, and those on constants.
pub open spec fn right_answers(row: Row, answers: Answers, values: Set<Value>) -> bool {
    &&& forall|question: PreimageQuestion, value: Value|
        #![trigger answers.preimages@.dom().contains(question), values.contains(value)]
        answers.preimages@.dom().contains(question) && values.contains(value) && (value is Null || (row.has_type)(
            value,
            question.source,
        )) ==> right_preimage(row, question, answers.preimages@[question], value)
    &&& forall|expr: Arc<Expr>|
        #![trigger answers.constants@.dom().contains(expr)]
        answers.constants@.dom().contains(expr) ==> (answers.constants@[expr] matches Some(value) ==> eval(
            *expr,
            row,
        ) is Some ==> eval(*expr, row) == Some((row.literal)(value)))
}

/// `after` gives what `before` gives, and casts no other values.
pub open spec fn keeps_result(row: Row, before: Expr, after: Expr) -> bool {
    &&& eval(after, row) == eval(before, row)
    &&& cast_operands(after, row).subset_of(cast_operands(before, row))
}

/// What an expression gives, where it does.
spec fn given(expr: &Expr, row: Row) -> Value {
    eval(*expr, row)->0
}

/// A predicate over a range gives what the comparison of the cast gives.
proof fn lemma_range_predicate(
    row: Row,
    question: PreimageQuestion,
    lower: ScalarValue,
    upper: ScalarValue,
    inner: Arc<Expr>,
)
    requires
        row.wf(),
        comparison(question.op),
        eval(*inner, row) matches Some(value) && right_preimage(
            row,
            question,
            PreimageAnswer::Range { lower, upper },
            value,
        ),
    ensures
        eval(*range_predicate(lower, upper, question.op, inner), row) == row.apply(
            question.op,
            (row.cast)(question.target, eval(*inner, row)->0)->0,
            (row.literal)(question.literal),
        ),
        cast_operands(*range_predicate(lower, upper, question.op, inner), row).subset_of(cast_operands(*inner, row)),
{
    reveal_with_fuel(eval, 4);
    reveal_with_fuel(cast_operands, 4);
    let value = given(&inner, row);
    let cast = (row.cast)(question.target, value)->0;
    let literal = (row.literal)(question.literal);
    assert((row.cast)(question.target, Value::Null) == Some(Value::Null));
    assert((row.less)(cast, literal) || cast == literal || (row.less)(literal, cast));
    assert(!((row.less)(cast, literal) && (row.less)(literal, cast)));
    assert(!(row.less)(literal, literal));
}

/// The predicate over a range that stands for a comparison holds.
pub open spec fn range_holds(row: Row, lower: ScalarValue, upper: ScalarValue, op: Operator, inner: Arc<Expr>) -> bool {
    eval(*range_predicate(lower, upper, op, inner), row) == Some(Value::Bool(true))
}

/// The predicates over one range divide the values as comparisons do: of those for
/// less, equal and more exactly one holds of a value that is not null, and the others
/// follow from these. Those that take null for a value are the opposite of each other for
/// every value.
pub proof fn law_range_predicates_divide_values(row: Row, lower: ScalarValue, upper: ScalarValue, inner: Arc<Expr>)
    requires
        row.wf(),
        eval(*inner, row) is Some,
        !((row.literal)(lower) is Null),
        !((row.literal)(upper) is Null),
        !(row.less)((row.literal)(upper), (row.literal)(lower)),
    ensures
        !(eval(*inner, row)->0 is Null) ==> {
            &&& forall|op: Operator|
                comparison(op) ==> #[trigger] eval(*range_predicate(lower, upper, op, inner), row) == Some(
                    Value::Bool(range_holds(row, lower, upper, op, inner)),
                )
            &&& range_holds(row, lower, upper, Operator::Lt, inner) || range_holds(
                row,
                lower,
                upper,
                Operator::Eq,
                inner,
            ) || range_holds(row, lower, upper, Operator::Gt, inner)
            &&& !(range_holds(row, lower, upper, Operator::Lt, inner) && range_holds(
                row,
                lower,
                upper,
                Operator::Eq,
                inner,
            ))
            &&& !(range_holds(row, lower, upper, Operator::Eq, inner) && range_holds(
                row,
                lower,
                upper,
                Operator::Gt,
                inner,
            ))
            &&& !(range_holds(row, lower, upper, Operator::Lt, inner) && range_holds(
                row,
                lower,
                upper,
                Operator::Gt,
                inner,
            ))
            &&& range_holds(row, lower, upper, Operator::LtEq, inner) <==> range_holds(
                row,
                lower,
                upper,
                Operator::Lt,
                inner,
            ) || range_holds(row, lower, upper, Operator::Eq, inner)
            &&& range_holds(row, lower, upper, Operator::GtEq, inner) <==> range_holds(
                row,
                lower,
                upper,
                Operator::Gt,
                inner,
            ) || range_holds(row, lower, upper, Operator::Eq, inner)
            &&& range_holds(row, lower, upper, Operator::NotEq, inner) <==> !range_holds(
                row,
                lower,
                upper,
                Operator::Eq,
                inner,
            )
        },
        range_holds(row, lower, upper, Operator::IsDistinctFrom, inner) <==> !range_holds(
            row,
            lower,
            upper,
            Operator::IsNotDistinctFrom,
            inner,
        ),
{
    reveal_with_fuel(eval, 4);
    let value = given(&inner, row);
    let (low, high) = ((row.literal)(lower), (row.literal)(upper));
    assert((row.less)(value, low) || value == low || (row.less)(low, value));
    assert((row.less)(value, high) || value == high || (row.less)(high, value));
    assert((row.less)(low, high) || low == high);
    assert(!(row.less)(low, low));
}

/// A predicate over what is cast gives what the comparison of the cast gives.
pub(crate) proof fn lemma_preimage_predicate(row: Row, question: PreimageQuestion, answer: PreimageAnswer, inner: Arc<Expr>)
    requires
        row.wf(),
        comparison(question.op) || answer is Exact,
        preimage_predicate(answer, question.op, inner) is Some,
        eval(*inner, row) matches Some(value) && right_preimage(row, question, answer, value),
    ensures
        (row.cast)(question.target, eval(*inner, row)->0) is Some,
        eval(*preimage_predicate(answer, question.op, inner)->0, row) == row.apply(
            question.op,
            (row.cast)(question.target, eval(*inner, row)->0)->0,
            (row.literal)(question.literal),
        ),
        cast_operands(*preimage_predicate(answer, question.op, inner)->0, row).subset_of(cast_operands(*inner, row)),
{
    match answer {
        PreimageAnswer::Range { lower, upper } => {
            lemma_range_predicate(row, question, lower, upper, inner);
        },
        _ => {
            reveal_with_fuel(eval, 2);
            reveal_with_fuel(cast_operands, 2);
        },
    }
}

/// A comparison without its cast gives what it gave with it: every row keeps its Boolean,
/// or its null.
pub proof fn law_unwrapping_keeps_results(row: Row, schema: Schema, answers: Answers, expr: Arc<Expr>)
    requires
        row.wf(),
        row.typed(schema),
        right_answers(row, answers, cast_operands(*expr, row)),
        eval(*expr, row) is Some,
    ensures
        unwrapped(expr, schema, answers) matches Step::Done(result) ==> keeps_result(row, *expr, *result.data),
{
    reveal_with_fuel(eval, 3);
    reveal_with_fuel(cast_operands, 3);
    match &*expr {
        Expr::Binary { left, op, right } => {
            if unwrapped_binary(*left, *op, *right, schema, answers) matches Step::Done(Some(_)) {
                lemma_unwrapped_binary(row, schema, answers, left, *op, right);
            }
        },
        _ => {},
    }
}

proof fn lemma_unwrapped_binary(
    row: Row,
    schema: Schema,
    answers: Answers,
    left: &Arc<Expr>,
    op: Operator,
    right: &Arc<Expr>,
)
    requires
        row.wf(),
        row.typed(schema),
        right_answers(row, answers, cast_operands(**left, row).union(cast_operands(**right, row))),
        eval(**left, row) is Some,
        eval(**right, row) is Some,
        unwrapped_binary(*left, op, *right, schema, answers) matches Step::Done(Some(_)),
    ensures
        unwrapped_binary(*left, op, *right, schema, answers) matches Step::Done(Some(result)) && eval(*result, row)
            == row.apply(op, eval(**left, row)->0, eval(**right, row)->0) && cast_operands(*result, row).subset_of(
            cast_operands(**left, row).union(cast_operands(**right, row)),
        ),
{
    let values = operands(left, row).union(operands(right, row));
    law_sides_can_be_exchanged(row, op, given(left, row), given(right, row));
    lemma_fewer_values(row, answers, values, operands(left, row));
    lemma_fewer_values(row, answers, values, operands(right, row));
    if cast_info_of(left) is Some && is_literal(right) {
        lemma_unwrapped_side(row, schema, answers, left, op, right);
    } else {
        lemma_unwrapped_side(row, schema, answers, right, swapped(op)->0, left);
    }
}

/// One side is a cast, the other a literal.
proof fn lemma_unwrapped_side(
    row: Row,
    schema: Schema,
    answers: Answers,
    side: &Arc<Expr>,
    op: Operator,
    literal: &Arc<Expr>,
)
    requires
        row.wf(),
        row.typed(schema),
        comparison(op),
        right_answers(row, answers, cast_operands(**side, row)),
        eval(**side, row) is Some,
        **literal is Literal,
        cast_info(**side) matches Some((inner, cast_type)) && (unwrapped_comparison(
            inner,
            cast_type,
            (**literal)->value,
            op,
            schema,
            answers,
        ) matches Step::Done(Some(_))),
    ensures
        cast_info(**side) matches Some((inner, cast_type)) && (unwrapped_comparison(
            inner,
            cast_type,
            (**literal)->value,
            op,
            schema,
            answers,
        ) matches Step::Done(Some(result)) && eval(*result, row) == row.apply(
            op,
            eval(**side, row)->0,
            eval(**literal, row)->0,
        ) && cast_operands(*result, row).subset_of(cast_operands(**side, row))),
{
    reveal_with_fuel(eval, 2);
    reveal_with_fuel(cast_operands, 2);
    let (inner, cast_type) = cast_info_of(side)->0;
    let source = type_of_ref(&inner, schema)->Ok_0;
    let question = PreimageQuestion { source, target: cast_type, op, literal: literal_value(literal) };
    let answer = answers.preimages@[question];
    let value = given(&inner, row);
    assert(eval(*inner, row) == Some(value));
    assert(cast_operands(**side, row).contains(value));
    assert(answers.preimages@.dom().contains(question));
    assert(right_preimage(row, question, answer, value));
    lemma_preimage_predicate(row, question, answer, inner);
}

spec fn cast_info_of(expr: &Expr) -> Option<(Arc<Expr>, DataType)> {
    cast_info(*expr)
}

spec fn type_of_ref(expr: &Expr, schema: Schema) -> Result<DataType, ExprError> {
    type_of(*expr, schema)
}

spec fn is_literal(expr: &Expr) -> bool {
    *expr is Literal
}

spec fn literal_value(expr: &Expr) -> ScalarValue {
    (*expr)->value
}

/// Moving a negation inwards keeps what is given.
pub proof fn law_moving_negations_keeps_results(row: Row, expr: Arc<Expr>)
    requires
        row.wf(),
        eval(*expr, row) is Some,
    ensures
        keeps_result(row, *expr, *without_not(expr).data),
{
    reveal_with_fuel(eval, 4);
    reveal_with_fuel(cast_operands, 4);
    match &*expr {
        Expr::Not { arg } => match &**arg {
            Expr::Binary { left, op, right } => {
                if negated(*op) is Some {
                    law_negated_operators_give_the_opposite(row, *op, given(left, row), given(right, row));
                }
            },
            _ => {},
        },
        _ => {},
    }
}

/// Evaluating constants keeps what is given.
pub proof fn law_evaluating_constants_keeps_results(row: Row, answers: Answers, expr: Arc<Expr>)
    requires
        right_answers(row, answers, cast_operands(*expr, row)),
        eval(*expr, row) is Some,
    ensures
        evaluated(expr, answers) matches Step::Done(result) ==> keeps_result(row, *expr, *result.data),
{
    reveal_with_fuel(eval, 2);
    reveal_with_fuel(cast_operands, 2);
}

proof fn lemma_fewer_values(row: Row, answers: Answers, more: Set<Value>, fewer: Set<Value>)
    requires
        right_answers(row, answers, more),
        fewer.subset_of(more),
    ensures
        right_answers(row, answers, fewer),
{
}

/// Simplifying a node keeps what is given.
proof fn lemma_node(row: Row, schema: Schema, answers: Answers, expr: Arc<Expr>)
    requires
        row.wf(),
        row.typed(schema),
        right_answers(row, answers, cast_operands(*expr, row)),
        eval(*expr, row) is Some,
    ensures
        simplified_node(expr, schema, answers) matches Step::Done(result) ==> keeps_result(row, *expr, *result.data),
{
    law_moving_negations_keeps_results(row, expr);
    let negated = without_not(expr).data;
    lemma_fewer_values(row, answers, operands(&expr, row), operands(&negated, row));
    law_unwrapping_keeps_results(row, schema, answers, negated);
    if let Step::Done(compared) = unwrapped(negated, schema, answers) {
        lemma_fewer_values(row, answers, operands(&negated, row), operands(&compared.data, row));
        law_evaluating_constants_keeps_results(row, answers, compared.data);
    }
}

spec fn operands(expr: &Expr, row: Row) -> Set<Value> {
    cast_operands(*expr, row)
}

/// `after` gives what `before` gives, and casts no other values.
pub open spec fn keeps_results(row: Row, before: ExprList, after: ExprList) -> bool {
    &&& eval_list(after, row) == eval_list(before, row)
    &&& list_cast_operands(after, row).subset_of(list_cast_operands(before, row))
}

spec fn list_operands(list: &ExprList, row: Row) -> Set<Value> {
    list_cast_operands(*list, row)
}

/// Simplifying the operands of an expression keeps what is given.
proof fn lemma_children(row: Row, schema: Schema, answers: Answers, expr: &Arc<Expr>)
    requires
        row.wf(),
        row.typed(schema),
        right_answers(row, answers, cast_operands(**expr, row)),
        eval(**expr, row) is Some,
    ensures
        simplified_children(*expr, schema, answers) matches Step::Done(result) ==> keeps_result(
            row,
            **expr,
            *result.data,
        ),
    decreases *expr, 0int,
{
    match &**expr {
        Expr::Column { index } => {},
        Expr::Literal { value } => {},
        Expr::Binary { left, op, right } => {
            lemma_fewer_values(row, answers, operands(expr, row), operands(left, row));
            lemma_fewer_values(row, answers, operands(expr, row), operands(right, row));
            lemma_once(row, schema, answers, left);
            lemma_once(row, schema, answers, right);
        },
        Expr::Cast { expr: inner, target_field, options } => {
            lemma_fewer_values(row, answers, operands(expr, row), operands(inner, row));
            lemma_once(row, schema, answers, inner);
        },
        Expr::TryCast { expr: inner, target_field } => {
            lemma_fewer_values(row, answers, operands(expr, row), operands(inner, row));
            lemma_once(row, schema, answers, inner);
        },
        Expr::Not { arg } => {
            lemma_once(row, schema, answers, arg);
        },
        Expr::IsNull { arg } => {
            lemma_once(row, schema, answers, arg);
        },
        Expr::IsNotNull { arg } => {
            lemma_once(row, schema, answers, arg);
        },
        Expr::InList { expr: inner, list, negated } => {
            lemma_fewer_values(row, answers, operands(expr, row), operands(inner, row));
            lemma_fewer_values(row, answers, operands(expr, row), list_operands(list, row));
            lemma_once(row, schema, answers, inner);
            lemma_list(row, schema, answers, list);
        },
        Expr::Other { id, children, data_type, volatile } => {
            lemma_list(row, schema, answers, children);
        },
    }
}

/// Simplifying the expressions of a list keeps what is given.
proof fn lemma_list(row: Row, schema: Schema, answers: Answers, list: &ExprList)
    requires
        row.wf(),
        row.typed(schema),
        right_answers(row, answers, list_cast_operands(*list, row)),
        eval_list(*list, row) is Some,
    ensures
        simplified_list(*list, schema, answers) matches Step::Done(result) ==> keeps_results(row, *list, result.data),
    decreases *list, 0int,
{
    match list {
        ExprList::Nil => {},
        ExprList::Cons { head, tail } => {
            lemma_fewer_values(row, answers, list_operands(list, row), operands(head, row));
            lemma_fewer_values(row, answers, list_operands(list, row), list_operands(tail, row));
            lemma_once(row, schema, answers, head);
            lemma_list(row, schema, answers, tail);
        },
    }
}

/// Going through an expression once keeps what is given.
proof fn lemma_once(row: Row, schema: Schema, answers: Answers, expr: &Arc<Expr>)
    requires
        row.wf(),
        row.typed(schema),
        right_answers(row, answers, cast_operands(**expr, row)),
        eval(**expr, row) is Some,
    ensures
        simplified_once(*expr, schema, answers) matches Step::Done(result) ==> keeps_result(row, **expr, *result.data),
    decreases *expr, 1int,
{
    lemma_children(row, schema, answers, expr);
    if let Step::Done(children) = simplified_children(*expr, schema, answers) {
        lemma_fewer_values(row, answers, operands(expr, row), operands(&children.data, row));
        lemma_node(row, schema, answers, children.data);
    }
}

/// A simplified expression gives, for every row for which the expression gives something,
/// the same: it may have lost casts, but no row its Boolean or its null.
///
/// The answers must be right for the values that are cast in that row. Where a value
/// cannot be cast, no answer but an unknown one is right.
pub proof fn law_simplifying_keeps_results(
    row: Row,
    schema: Schema,
    answers: Answers,
    expr: Arc<Expr>,
    count: nat,
)
    requires
        row.wf(),
        row.typed(schema),
        right_answers(row, answers, cast_operands(*expr, row)),
        eval(*expr, row) is Some,
    ensures
        simplified(expr, schema, answers, count) matches Step::Done(result) ==> keeps_result(row, *expr, *result),
    decreases count,
{
    if count > 0 {
        lemma_once(row, schema, answers, &expr);
        if let Step::Done(result) = simplified_once(expr, schema, answers) {
            lemma_fewer_values(row, answers, operands(&expr, row), operands(&result.data, row));
            law_simplifying_keeps_results(row, schema, answers, result.data, (count - 1) as nat);
        }
    }
}

/// Where nothing is said to have changed, nothing has.
pub proof fn law_unchanged_is_the_same(schema: Schema, answers: Answers, expr: &Arc<Expr>)
    ensures
        simplified_once(*expr, schema, answers) matches Step::Done(result) ==> result.transformed || result.data
            == *expr,
    decreases *expr, 1int,
{
    lemma_unchanged_children(schema, answers, expr);
}

proof fn lemma_unchanged_children(schema: Schema, answers: Answers, expr: &Arc<Expr>)
    ensures
        simplified_children(*expr, schema, answers) matches Step::Done(result) ==> result.transformed || result.data
            == *expr,
    decreases *expr, 0int,
{
    match &**expr {
        Expr::Column { index } => {},
        Expr::Literal { value } => {},
        Expr::Binary { left, op, right } => {
            law_unchanged_is_the_same(schema, answers, left);
            law_unchanged_is_the_same(schema, answers, right);
        },
        Expr::Cast { expr, target_field, options } => {
            law_unchanged_is_the_same(schema, answers, expr);
        },
        Expr::TryCast { expr, target_field } => {
            law_unchanged_is_the_same(schema, answers, expr);
        },
        Expr::Not { arg } => {
            law_unchanged_is_the_same(schema, answers, arg);
        },
        Expr::IsNull { arg } => {
            law_unchanged_is_the_same(schema, answers, arg);
        },
        Expr::IsNotNull { arg } => {
            law_unchanged_is_the_same(schema, answers, arg);
        },
        Expr::InList { expr, list, negated } => {
            law_unchanged_is_the_same(schema, answers, expr);
            lemma_unchanged_list(schema, answers, list);
        },
        Expr::Other { id, children, data_type, volatile } => {
            lemma_unchanged_list(schema, answers, children);
        },
    }
}

proof fn lemma_unchanged_list(schema: Schema, answers: Answers, list: &ExprList)
    ensures
        simplified_list(*list, schema, answers) matches Step::Done(result) ==> result.transformed || result.data
            == *list,
    decreases *list, 0int,
{
    match list {
        ExprList::Nil => {},
        ExprList::Cons { head, tail } => {
            law_unchanged_is_the_same(schema, answers, head);
            lemma_unchanged_list(schema, answers, tail);
        },
    }
}

/// `expr` was changed each of `count` times that it was gone through.
pub open spec fn changes_each_time(expr: Arc<Expr>, schema: Schema, answers: Answers, count: nat) -> bool
    decreases count,
{
    count == 0 || (simplified_once(expr, schema, answers) matches Step::Done(result) && result.transformed
        && changes_each_time(result.data, schema, answers, (count - 1) as nat))
}

/// A simplified expression is not changed by being simplified again, unless the number of
/// times that it may be gone through was used up.
pub proof fn law_simplified_stays_simplified(schema: Schema, answers: Answers, expr: Arc<Expr>, count: nat)
    ensures
        simplified(expr, schema, answers, count) matches Step::Done(result) ==> changes_each_time(
            expr,
            schema,
            answers,
            count,
        ) || simplified_once(result, schema, answers) == Step::Done(Transformed { data: result, transformed: false }),
    decreases count,
{
    if count > 0 {
        law_unchanged_is_the_same(schema, answers, &expr);
        if let Step::Done(result) = simplified_once(expr, schema, answers) {
            law_simplified_stays_simplified(schema, answers, result.data, (count - 1) as nat);
        }
    }
}

/// A cast whose options or target say more than the type stays where it is, and so does
/// one under an operator that is no comparison.
pub proof fn law_other_casts_stay(
    schema: Schema,
    answers: Answers,
    left: Arc<Expr>,
    op: Operator,
    right: Arc<Expr>,
)
    ensures
        cast_info(*left) is None && cast_info(*right) is None ==> unwrapped_binary(left, op, right, schema, answers)
            == Step::Done(None::<Arc<Expr>>),
        !comparison(op) ==> unwrapped_binary(left, op, right, schema, answers) == Step::Done(None::<Arc<Expr>>),
{
}

/// A cast stays where it is not known which values it maps to the literal.
pub proof fn law_unknown_preimages_keep_the_cast(
    schema: Schema,
    answers: Answers,
    question: PreimageQuestion,
    inner: Arc<Expr>,
)
    requires
        type_of(*inner, schema) == Ok::<DataType, ExprError>(question.source),
        answers.preimages@.dom().contains(question),
        answers.preimages@[question] is Unknown,
    ensures
        unwrapped_comparison(inner, question.target, question.literal, question.op, schema, answers) == Step::Done(
            None::<Arc<Expr>>,
        ),
{
}

/// There is an answer to the question.
pub open spec fn answered(answers: Answers, question: Question) -> bool {
    match question {
        Question::Preimage(question) => answers.preimages@.dom().contains(question),
        Question::ExactPreimage(question) => answers.exact_preimages@.dom().contains(question),
        Question::Constant(expr) => answers.constants@.dom().contains(expr),
    }
}

/// Only what is not answered is asked for: with each answer a rewrite comes further.
pub proof fn law_questions_are_not_answered(schema: Schema, answers: Answers, expr: Arc<Expr>, count: nat)
    ensures
        simplified(expr, schema, answers, count) matches Step::Ask(question) ==> !answered(answers, question),
    decreases count,
{
    if count > 0 {
        lemma_once_asks(schema, answers, &expr);
        if let Step::Done(result) = simplified_once(expr, schema, answers) {
            law_questions_are_not_answered(schema, answers, result.data, (count - 1) as nat);
        }
    }
}

proof fn lemma_once_asks(schema: Schema, answers: Answers, expr: &Arc<Expr>)
    ensures
        simplified_once(*expr, schema, answers) matches Step::Ask(question) ==> !answered(answers, question),
    decreases *expr, 1int,
{
    lemma_children_ask(schema, answers, expr);
}

proof fn lemma_children_ask(schema: Schema, answers: Answers, expr: &Arc<Expr>)
    ensures
        simplified_children(*expr, schema, answers) matches Step::Ask(question) ==> !answered(answers, question),
    decreases *expr, 0int,
{
    match &**expr {
        Expr::Column { index } => {},
        Expr::Literal { value } => {},
        Expr::Binary { left, op, right } => {
            lemma_once_asks(schema, answers, left);
            lemma_once_asks(schema, answers, right);
        },
        Expr::Cast { expr, target_field, options } => {
            lemma_once_asks(schema, answers, expr);
        },
        Expr::TryCast { expr, target_field } => {
            lemma_once_asks(schema, answers, expr);
        },
        Expr::Not { arg } => {
            lemma_once_asks(schema, answers, arg);
        },
        Expr::IsNull { arg } => {
            lemma_once_asks(schema, answers, arg);
        },
        Expr::IsNotNull { arg } => {
            lemma_once_asks(schema, answers, arg);
        },
        Expr::InList { expr, list, negated } => {
            lemma_once_asks(schema, answers, expr);
            lemma_list_asks(schema, answers, list);
        },
        Expr::Other { id, children, data_type, volatile } => {
            lemma_list_asks(schema, answers, children);
        },
    }
}

proof fn lemma_list_asks(schema: Schema, answers: Answers, list: &ExprList)
    ensures
        simplified_list(*list, schema, answers) matches Step::Ask(question) ==> !answered(answers, question),
    decreases *list, 0int,
{
    match list {
        ExprList::Nil => {},
        ExprList::Cons { head, tail } => {
            lemma_once_asks(schema, answers, head);
            lemma_list_asks(schema, answers, tail);
        },
    }
}

} // verus!
