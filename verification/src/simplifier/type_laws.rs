//! What simplification keeps of types.
use arrow::datatypes::{DataType, Schema};
use datafusion_common::ScalarValue;
use datafusion_expr_common::operator::Operator;
use std::sync::Arc;
use vstd::prelude::*;

use crate::answers::{Answers, PreimageAnswer, PreimageQuestion, Step};
use crate::data_type::{
    as_boolean, boolean_data_type, boolean_of, boolean_scalar, boolean_type, field_type,
    same_data_type, scalar_data_type, scalar_from_boolean, scalar_type, schema_types,
};
use crate::expr::{list_items, literal_of, not_of, type_of, Expr, ExprError, ExprList};
use crate::operator::{
    comparison, law_negation_is_an_involution, law_swap_of_comparisons, negated, swapped,
};
use crate::simplifier::const_evaluator::evaluated;
use crate::simplifier::not::without_not;
use crate::simplifier::unwrap_cast::{
    cast_info, preimage_predicate, unwrapped, unwrapped_comparison,
};
use crate::simplifier::{
    simplified, simplified_children, simplified_list, simplified_node, simplified_once,
};
use crate::type_shape::{binary_result_type, result_type};

verus! {

/// A Boolean scalar is of type Boolean.
pub open spec fn typed_literal(value: ScalarValue) -> bool {
    boolean_of(value) is Some ==> scalar_type(value) == boolean_type()
}

/// The type is Boolean, or that of nulls without a type.
pub open spec fn boolean_or_null(data_type: DataType, null: DataType) -> bool {
    data_type == boolean_type() || data_type == null
}

/// An operator, and its opposite, take operands of these types.
pub open spec fn comparable(left: DataType, op: Operator, right: DataType) -> bool {
    &&& result_type(left, op, right) is Some
    &&& negated(op) matches Some(opposite) ==> result_type(left, opposite, right) is Some
}

/// AND and OR take operands of these types.
pub open spec fn logical(left: DataType, right: DataType) -> bool {
    result_type(left, Operator::And, right) is Some && result_type(left, Operator::Or, right) is Some
}

/// AND and OR take Booleans and nulls without a type, and Boolean scalars are of type
/// Boolean.
pub open spec fn booleans_agree(null: DataType) -> bool {
    &&& logical(boolean_type(), boolean_type())
    &&& logical(boolean_type(), null)
    &&& logical(null, boolean_type())
    &&& logical(null, null)
    &&& scalar_type(boolean_scalar(Some(true))) == boolean_type()
    &&& scalar_type(boolean_scalar(Some(false))) == boolean_type()
}

/// The expression without the double negations around it.
pub open spec fn stripped(expr: Expr) -> Expr
    decreases expr,
{
    match expr {
        Expr::Not { arg } => match *arg {
            Expr::Not { arg } => stripped(*arg),
            _ => expr,
        },
        _ => expr,
    }
}

/// Every expression in it has a type, as it has where its operator is replaced by the
/// opposite one. It also keeps its type without the double negations around it, unless it
/// is an operand of AND, OR or NOT, which take a null without a type (`null`) for a
/// Boolean: such operands are of one of these types.
pub open spec fn typed_within(expr: Expr, operand: bool, null: DataType, schema: Schema) -> bool
    decreases expr,
{
    &&& type_of(expr, schema) is Ok
    &&& operand || type_of(stripped(expr), schema) == type_of(expr, schema)
    &&& match expr {
        Expr::Column { index } => true,
        Expr::Literal { value } => typed_literal(value),
        Expr::Binary { left, op, right } => if op is And || op is Or {
            &&& typed_within(*left, true, null, schema)
            &&& typed_within(*right, true, null, schema)
            &&& boolean_or_null(type_of(*left, schema)->Ok_0, null)
            &&& boolean_or_null(type_of(*right, schema)->Ok_0, null)
        } else {
            &&& typed_within(*left, false, null, schema)
            &&& typed_within(*right, false, null, schema)
            &&& comparable(type_of(*left, schema)->Ok_0, op, type_of(*right, schema)->Ok_0)
        },
        Expr::Cast { expr, target_field, options } => typed_within(*expr, false, null, schema),
        Expr::TryCast { expr, target_field } => typed_within(*expr, false, null, schema),
        Expr::Not { arg } => {
            &&& typed_within(*arg, true, null, schema)
            &&& operand ==> boolean_or_null(type_of(*arg, schema)->Ok_0, null)
        },
        Expr::IsNull { arg } => typed_within(*arg, false, null, schema),
        Expr::IsNotNull { arg } => typed_within(*arg, false, null, schema),
        Expr::InList { expr, list, negated } => typed_within(*expr, false, null, schema) && all_typed_within(
            list,
            null,
            schema,
        ),
        Expr::Other { id, children, data_type, volatile } => all_typed_within(children, null, schema),
    }
}

/// Every expression of the list is typed.
pub open spec fn all_typed_within(list: ExprList, null: DataType, schema: Schema) -> bool
    decreases list,
{
    match list {
        ExprList::Nil => true,
        ExprList::Cons { head, tail } => typed_within(*head, false, null, schema) && all_typed_within(
            *tail,
            null,
            schema,
        ),
    }
}

/// Every expression in it has a type, as it has where its operator is replaced by the
/// opposite one, and where double negations are removed that are no operands of AND, OR
/// or NOT. `null` is the type of nulls without a type.
pub open spec fn well_typed(expr: Expr, null: DataType, schema: Schema) -> bool {
    typed_within(expr, false, null, schema)
}

/// The literals of an answer can be compared with the source values.
pub open spec fn typed_preimage(question: PreimageQuestion, answer: PreimageAnswer) -> bool {
    match answer {
        PreimageAnswer::Exact(value) => typed_literal(value) && comparable(
            question.source,
            question.op,
            scalar_type(value),
        ),
        PreimageAnswer::Range { lower, upper } => {
            &&& typed_literal(lower)
            &&& typed_literal(upper)
            &&& comparable(question.source, Operator::Lt, scalar_type(lower))
            &&& comparable(question.source, Operator::Lt, scalar_type(upper))
        },
        _ => true,
    }
}

/// The answers have the right types: literals can be compared with what they are to be
/// compared with, and constants evaluate to values of their type.
pub open spec fn typed_answers(answers: Answers, schema: Schema) -> bool {
    &&& forall|question: PreimageQuestion|
        #![trigger answers.preimages@.dom().contains(question)]
        answers.preimages@.dom().contains(question) ==> typed_preimage(question, answers.preimages@[question])
    &&& forall|expr: Arc<Expr>|
        #![trigger answers.constants@.dom().contains(expr)]
        answers.constants@.dom().contains(expr) ==> (answers.constants@[expr] matches Some(value) ==> typed_literal(
            value,
        ) && type_of(*expr, schema) == Ok::<DataType, ExprError>(scalar_type(value)))
}

/// Whether a scalar is of type Boolean where it is a Boolean.
pub fn is_typed_literal(value: &ScalarValue) -> (typed: bool)
    ensures
        typed == typed_literal(*value),
{
    as_boolean(value).is_none() || same_data_type(&scalar_data_type(value), &boolean_data_type())
}

/// Whether an operator, and its opposite, take operands of these types.
fn are_comparable(left: &DataType, op: Operator, right: &DataType) -> (are: bool)
    ensures
        are == comparable(*left, op, *right),
{
    if binary_result_type(left, op, right).is_none() {
        return false;
    }
    match op.negate() {
        Some(opposite) => binary_result_type(left, opposite, right).is_some(),
        None => true,
    }
}

/// Whether AND and OR take operands of these types.
fn are_logical(left: &DataType, right: &DataType) -> (are: bool)
    ensures
        are == logical(*left, *right),
{
    binary_result_type(left, Operator::And, right).is_some() && binary_result_type(
        left,
        Operator::Or,
        right,
    ).is_some()
}

/// Whether AND and OR take Booleans and nulls without a type, and Boolean scalars are of
/// type Boolean.
pub fn do_booleans_agree(null: &DataType) -> (agree: bool)
    ensures
        agree == booleans_agree(*null),
{
    let boolean = boolean_data_type();
    are_logical(&boolean, &boolean) && are_logical(&boolean, null) && are_logical(null, &boolean) && are_logical(
        null,
        null,
    ) && same_data_type(&scalar_data_type(&scalar_from_boolean(Some(true))), &boolean) && same_data_type(
        &scalar_data_type(&scalar_from_boolean(Some(false))),
        &boolean,
    )
}

/// Whether the literals of an answer can be compared with the source values.
pub fn is_typed_preimage(question: &PreimageQuestion, answer: &PreimageAnswer) -> (typed: bool)
    ensures
        typed == typed_preimage(*question, *answer),
{
    match answer {
        PreimageAnswer::Exact(value) => is_typed_literal(value) && are_comparable(
            &question.source,
            question.op,
            &scalar_data_type(value),
        ),
        PreimageAnswer::Range { lower, upper } => is_typed_literal(lower) && is_typed_literal(upper)
            && are_comparable(&question.source, Operator::Lt, &scalar_data_type(lower)) && are_comparable(
            &question.source,
            Operator::Lt,
            &scalar_data_type(upper),
        ),
        PreimageAnswer::Unknown => true,
        PreimageAnswer::Failed => true,
    }
}

/// The data type of an expression without the double negations around it.
fn stripped_type(expr: &Expr, schema: &Schema) -> (data_type: Result<DataType, ExprError>)
    ensures
        data_type == type_of(stripped(*expr), *schema),
    decreases expr,
{
    match expr {
        Expr::Not { arg } => match &**arg {
            Expr::Not { arg } => stripped_type(arg, schema),
            _ => expr.data_type(schema),
        },
        _ => expr.data_type(schema),
    }
}

/// Whether an expression is Boolean, or null without a type.
fn is_boolean_or_null(expr: &Expr, null: &DataType, schema: &Schema) -> (is: bool)
    ensures
        is == (type_of(*expr, *schema) matches Ok(data_type) && boolean_or_null(data_type, *null)),
{
    match expr.data_type(schema) {
        Ok(data_type) => same_data_type(&data_type, &boolean_data_type()) || same_data_type(&data_type, null),
        Err(_) => false,
    }
}

/// Whether every expression in it has a type where it stands.
fn is_typed_within(expr: &Expr, operand: bool, null: &DataType, schema: &Schema) -> (typed: bool)
    ensures
        typed == typed_within(*expr, operand, *null, *schema),
    decreases expr,
{
    match (expr.data_type(schema), stripped_type(expr, schema)) {
        (Ok(data_type), Ok(without)) => {
            if !operand && !same_data_type(&without, &data_type) {
                return false;
            }
        },
        (Ok(_), Err(_)) => {
            if !operand {
                return false;
            }
        },
        _ => {
            return false;
        },
    }
    match expr {
        Expr::Column { index: _ } => true,
        Expr::Literal { value } => is_typed_literal(value),
        Expr::Binary { left, op, right } => match op {
            Operator::And | Operator::Or => is_typed_within(left, true, null, schema) && is_typed_within(
                right,
                true,
                null,
                schema,
            ) && is_boolean_or_null(left, null, schema) && is_boolean_or_null(right, null, schema),
            _ => match (left.data_type(schema), right.data_type(schema)) {
                (Ok(left_type), Ok(right_type)) => is_typed_within(left, false, null, schema) && is_typed_within(
                    right,
                    false,
                    null,
                    schema,
                ) && are_comparable(&left_type, *op, &right_type),
                _ => false,
            },
        },
        Expr::Cast { expr, target_field: _, options: _ } => is_typed_within(expr, false, null, schema),
        Expr::TryCast { expr, target_field: _ } => is_typed_within(expr, false, null, schema),
        Expr::Not { arg } => is_typed_within(arg, true, null, schema) && (!operand || is_boolean_or_null(
            arg,
            null,
            schema,
        )),
        Expr::IsNull { arg } => is_typed_within(arg, false, null, schema),
        Expr::IsNotNull { arg } => is_typed_within(arg, false, null, schema),
        Expr::InList { expr, list, negated: _ } => is_typed_within(expr, false, null, schema) && are_typed_within(
            list,
            null,
            schema,
        ),
        Expr::Other { id: _, children, data_type: _, volatile: _ } => are_typed_within(children, null, schema),
    }
}

/// Whether every expression of the list is typed.
fn are_typed_within(list: &ExprList, null: &DataType, schema: &Schema) -> (typed: bool)
    ensures
        typed == all_typed_within(*list, *null, *schema),
    decreases list,
{
    match list {
        ExprList::Nil => true,
        ExprList::Cons { head, tail } => is_typed_within(head, false, null, schema) && are_typed_within(
            tail,
            null,
            schema,
        ),
    }
}

/// Whether every expression in it has a type, as it has where its operator is replaced by
/// the opposite one, and where double negations are removed that are no operands of AND,
/// OR or NOT.
pub fn is_well_typed(expr: &Expr, null: &DataType, schema: &Schema) -> (typed: bool)
    ensures
        typed == well_typed(*expr, *null, *schema),
{
    is_typed_within(expr, false, null, schema)
}

/// The type is one that was there, or Boolean.
spec fn kept_or_boolean(before: Result<DataType, ExprError>, after: Result<DataType, ExprError>) -> bool {
    after == before || after == Ok::<DataType, ExprError>(boolean_type())
}

/// `after` is typed where `before` is, and has the type of `before`; of a negation, what
/// is left of it and of its opposite without double negations does, or is Boolean.
spec fn stays_typed(before: Arc<Expr>, after: Arc<Expr>, operand: bool, null: DataType, schema: Schema) -> bool {
    &&& typed_within(*after, operand, null, schema)
    &&& if *before is Not {
        &&& kept_or_boolean(type_of(stripped(*before), schema), type_of(stripped(*after), schema))
        &&& kept_or_boolean(
            type_of(stripped(*not_of(before)), schema),
            type_of(stripped(*not_of(after)), schema),
        )
    } else {
        !(*after is Not) && type_of(*after, schema) == type_of(*before, schema)
    }
}

spec fn is_negation(expr: &Expr) -> bool {
    *expr is Not
}

spec fn source_type(expr: &Expr, schema: Schema) -> DataType {
    type_of(*expr, schema)->Ok_0
}

proof fn lemma_stays_typed_twice(
    before: Arc<Expr>,
    between: Arc<Expr>,
    after: Arc<Expr>,
    operand: bool,
    null: DataType,
    schema: Schema,
)
    requires
        stays_typed(before, between, operand, null, schema),
        stays_typed(between, after, operand, null, schema),
    ensures
        stays_typed(before, after, operand, null, schema),
{
    reveal_with_fuel(stripped, 2);
    reveal_with_fuel(type_of, 2);
}

/// A negation that is an operand is Boolean, or a null without a type, once the double
/// negations around it are removed.
proof fn lemma_stripped_operand(expr: &Arc<Expr>, null: DataType, schema: Schema)
    requires
        typed_within(**expr, true, null, schema),
        boolean_or_null(type_of(**expr, schema)->Ok_0, null),
    ensures
        type_of(stripped(**expr), schema) matches Ok(data_type) && boolean_or_null(data_type, null),
    decreases *expr,
{
    reveal_with_fuel(typed_within, 3);
    match &**expr {
        Expr::Not { arg } => match &**arg {
            Expr::Not { arg: inner } => {
                lemma_stripped_operand(inner, null, schema);
            },
            _ => {},
        },
        _ => {},
    }
}

/// An operand that stays typed stays Boolean, or a null without a type.
proof fn lemma_stays_boolean(before: Arc<Expr>, after: Arc<Expr>, null: DataType, schema: Schema)
    requires
        typed_within(*before, true, null, schema),
        boolean_or_null(type_of(*before, schema)->Ok_0, null),
        stays_typed(before, after, true, null, schema),
    ensures
        type_of(*after, schema) matches Ok(data_type) && boolean_or_null(data_type, null),
{
    lemma_stripped_operand(&before, null, schema);
    assert(!(*after is Not) ==> stripped(*after) == *after);
}

/// Moving a negation inwards keeps the expression typed.
proof fn lemma_moved_negation(schema: Schema, null: DataType, expr: Arc<Expr>, operand: bool)
    requires
        booleans_agree(null),
        typed_within(*expr, operand, null, schema),
    ensures
        stays_typed(expr, without_not(expr).data, operand, null, schema),
{
    reveal_with_fuel(type_of, 4);
    reveal_with_fuel(typed_within, 4);
    reveal_with_fuel(stripped, 4);
    match &*expr {
        Expr::Not { arg } => match &**arg {
            Expr::Binary { left, op, right } => {
                let (left_type, right_type) = (source_type(left, schema), source_type(right, schema));
                law_negation_is_an_involution(*op);
                if !(*op is And || *op is Or) {
                    assert(comparable(left_type, *op, right_type));
                }
            },
            Expr::Not { arg: inner } => {
                assert(without_not(expr).data == *inner);
            },
            _ => {},
        },
        _ => {},
    }
}

/// Moving a negation inwards keeps the type.
pub proof fn law_moving_negations_keeps_the_type(schema: Schema, null: DataType, expr: Arc<Expr>)
    requires
        booleans_agree(null),
        well_typed(*expr, null, schema),
    ensures
        keeps_type(*expr, *without_not(expr).data, null, schema),
{
    lemma_moved_negation(schema, null, expr, false);
    lemma_same_type(expr, without_not(expr).data, null, schema);
}

/// `after` is well-typed and has the type of `before`.
pub open spec fn keeps_type(before: Expr, after: Expr, null: DataType, schema: Schema) -> bool {
    well_typed(after, null, schema) && type_of(after, schema) == type_of(before, schema)
}

proof fn lemma_same_type(before: Arc<Expr>, after: Arc<Expr>, null: DataType, schema: Schema)
    requires
        well_typed(*before, null, schema),
        stays_typed(before, after, false, null, schema),
    ensures
        keeps_type(*before, *after, null, schema),
{
    reveal_with_fuel(type_of, 2);
}

proof fn lemma_preimage_predicate_type(
    schema: Schema,
    null: DataType,
    question: PreimageQuestion,
    answer: PreimageAnswer,
    inner: Arc<Expr>,
)
    requires
        booleans_agree(null),
        comparison(question.op),
        well_typed(*inner, null, schema),
        type_of(*inner, schema) == Ok::<DataType, ExprError>(question.source),
        typed_preimage(question, answer),
        preimage_predicate(answer, question.op, inner) is Some,
    ensures
        typed_boolean(*preimage_predicate(answer, question.op, inner)->0, null, schema),
{
    reveal_with_fuel(type_of, 4);
    reveal_with_fuel(typed_within, 4);
    reveal_with_fuel(stripped, 2);
}

/// A Boolean that is typed and no negation.
spec fn typed_boolean(expr: Expr, null: DataType, schema: Schema) -> bool {
    &&& typed_within(expr, false, null, schema)
    &&& typed_within(expr, true, null, schema)
    &&& !(expr is Not)
    &&& type_of(expr, schema) == Ok::<DataType, ExprError>(boolean_type())
}

/// A comparison without its cast is a Boolean, as it was with it.
pub proof fn law_unwrapping_keeps_the_type(schema: Schema, null: DataType, answers: Answers, expr: Arc<Expr>)
    requires
        booleans_agree(null),
        typed_answers(answers, schema),
        well_typed(*expr, null, schema),
    ensures
        unwrapped(expr, schema, answers) matches Step::Done(result) ==> keeps_type(*expr, *result.data, null, schema),
{
    lemma_unwrapped(schema, null, answers, expr, false);
    if let Step::Done(result) = unwrapped(expr, schema, answers) {
        lemma_same_type(expr, result.data, null, schema);
    }
}

proof fn lemma_unwrapped(schema: Schema, null: DataType, answers: Answers, expr: Arc<Expr>, operand: bool)
    requires
        booleans_agree(null),
        typed_answers(answers, schema),
        typed_within(*expr, operand, null, schema),
    ensures
        unwrapped(expr, schema, answers) matches Step::Done(result) ==> stays_typed(
            expr,
            result.data,
            operand,
            null,
            schema,
        ),
{
    match &*expr {
        Expr::Binary { left, op, right } => {
            if comparison(*op) {
                law_swap_of_comparisons(*op);
                lemma_unwrapped_side_type(schema, null, answers, left, *op, right);
                lemma_unwrapped_side_type(schema, null, answers, right, swapped(*op)->0, left);
            }
        },
        _ => {},
    }
}

proof fn lemma_unwrapped_side_type(
    schema: Schema,
    null: DataType,
    answers: Answers,
    side: &Arc<Expr>,
    op: Operator,
    literal: &Arc<Expr>,
)
    requires
        booleans_agree(null),
        typed_answers(answers, schema),
        comparison(op),
        well_typed(**side, null, schema),
    ensures
        **literal is Literal ==> (cast_info(**side) matches Some((inner, cast_type)) ==> (unwrapped_comparison(
            inner,
            cast_type,
            (**literal)->value,
            op,
            schema,
            answers,
        ) matches Step::Done(Some(result)) ==> typed_boolean(*result, null, schema))),
{
    match (&**side, &**literal) {
        (Expr::Cast { expr: inner, target_field, options }, Expr::Literal { value }) => {
            lemma_unwrapped_comparison_type(schema, null, answers, inner, field_type(*target_field), op, *value);
        },
        (Expr::TryCast { expr: inner, target_field }, Expr::Literal { value }) => {
            lemma_unwrapped_comparison_type(schema, null, answers, inner, field_type(*target_field), op, *value);
        },
        _ => {},
    }
}

proof fn lemma_unwrapped_comparison_type(
    schema: Schema,
    null: DataType,
    answers: Answers,
    inner: &Arc<Expr>,
    target: DataType,
    op: Operator,
    literal: ScalarValue,
)
    requires
        booleans_agree(null),
        typed_answers(answers, schema),
        comparison(op),
        well_typed(**inner, null, schema),
    ensures
        unwrapped_comparison(*inner, target, literal, op, schema, answers) matches Step::Done(Some(result))
            ==> typed_boolean(*result, null, schema),
{
    let question = PreimageQuestion { source: source_type(inner, schema), target, op, literal };
    if answers.preimages@.dom().contains(question) {
        let answer = answers.preimages@[question];
        if preimage_predicate(answer, op, *inner) is Some {
            lemma_preimage_predicate_type(schema, null, question, answer, *inner);
        }
    }
}

/// A constant evaluates to a literal of its type.
proof fn lemma_evaluated_type(schema: Schema, null: DataType, answers: Answers, expr: Arc<Expr>, operand: bool)
    requires
        typed_answers(answers, schema),
        typed_within(*expr, operand, null, schema),
    ensures
        evaluated(expr, answers) matches Step::Done(result) ==> stays_typed(
            expr,
            result.data,
            operand,
            null,
            schema,
        ),
{
    reveal_with_fuel(type_of, 2);
    reveal_with_fuel(stripped, 2);
    if answers.constants@.dom().contains(expr) {
        if let Some(value) = answers.constants@[expr] {
            assert(stripped(*literal_of(value)) == *literal_of(value));
            assert(stripped(*not_of(literal_of(value))) == *not_of(literal_of(value)));
        }
    }
}

/// A simplified node stays typed.
proof fn lemma_node_type(schema: Schema, null: DataType, answers: Answers, expr: Arc<Expr>, operand: bool)
    requires
        booleans_agree(null),
        typed_answers(answers, schema),
        typed_within(*expr, operand, null, schema),
    ensures
        simplified_node(expr, schema, answers) matches Step::Done(result) ==> stays_typed(
            expr,
            result.data,
            operand,
            null,
            schema,
        ),
{
    let moved = without_not(expr).data;
    lemma_moved_negation(schema, null, expr, operand);
    lemma_unwrapped(schema, null, answers, moved, operand);
    if let Step::Done(compared) = unwrapped(moved, schema, answers) {
        lemma_stays_typed_twice(expr, moved, compared.data, operand, null, schema);
        lemma_evaluated_type(schema, null, answers, compared.data, operand);
        if let Step::Done(result) = evaluated(compared.data, answers) {
            lemma_stays_typed_twice(expr, compared.data, result.data, operand, null, schema);
        }
    }
}

/// An expression with simplified operands stays typed.
proof fn lemma_children_type(schema: Schema, null: DataType, answers: Answers, expr: &Arc<Expr>, operand: bool)
    requires
        booleans_agree(null),
        typed_answers(answers, schema),
        typed_within(**expr, operand, null, schema),
    ensures
        simplified_children(*expr, schema, answers) matches Step::Done(result) ==> stays_typed(
            *expr,
            result.data,
            operand,
            null,
            schema,
        ),
    decreases *expr, 0int,
{
    match &**expr {
        Expr::Column { index } => {},
        Expr::Literal { value } => {},
        Expr::Binary { left, op, right } => {
            let operands = *op is And || *op is Or;
            lemma_once_type(schema, null, answers, left, operands);
            lemma_once_type(schema, null, answers, right, operands);
            if let (Step::Done(new_left), Step::Done(new_right)) = (
                simplified_once(*left, schema, answers),
                simplified_once(*right, schema, answers),
            ) {
                if operands {
                    lemma_stays_boolean(*left, new_left.data, null, schema);
                    lemma_stays_boolean(*right, new_right.data, null, schema);
                } else {
                    lemma_same_type(*left, new_left.data, null, schema);
                    lemma_same_type(*right, new_right.data, null, schema);
                }
            }
        },
        Expr::Cast { expr, target_field, options } => {
            lemma_once_type(schema, null, answers, expr, false);
        },
        Expr::TryCast { expr, target_field } => {
            lemma_once_type(schema, null, answers, expr, false);
        },
        Expr::Not { arg } => {
            lemma_once_type(schema, null, answers, arg, true);
            if let Step::Done(new_arg) = simplified_once(*arg, schema, answers) {
                lemma_negated_type(schema, null, *arg, new_arg.data, operand);
            }
        },
        Expr::IsNull { arg } => {
            lemma_once_type(schema, null, answers, arg, false);
        },
        Expr::IsNotNull { arg } => {
            lemma_once_type(schema, null, answers, arg, false);
        },
        Expr::InList { expr, list, negated } => {
            lemma_once_type(schema, null, answers, expr, false);
            lemma_list_type(schema, null, answers, list);
        },
        Expr::Other { id, children, data_type, volatile } => {
            lemma_list_type(schema, null, answers, children);
        },
    }
}

/// The negation of what stays typed stays typed.
proof fn lemma_negated_type(schema: Schema, null: DataType, before: Arc<Expr>, after: Arc<Expr>, operand: bool)
    requires
        typed_within(*not_of(before), operand, null, schema),
        stays_typed(before, after, true, null, schema),
    ensures
        stays_typed(not_of(before), not_of(after), operand, null, schema),
{
    reveal_with_fuel(type_of, 2);
    reveal_with_fuel(typed_within, 2);
    reveal_with_fuel(stripped, 3);
    assert(stripped(*not_of(not_of(before))) == stripped(*before));
    assert(stripped(*not_of(not_of(after))) == stripped(*after));
    if is_negation(&before) || operand {
        lemma_stays_boolean(before, after, null, schema);
    }
}

proof fn lemma_list_type(schema: Schema, null: DataType, answers: Answers, list: &ExprList)
    requires
        booleans_agree(null),
        typed_answers(answers, schema),
        all_typed_within(*list, null, schema),
    ensures
        simplified_list(*list, schema, answers) matches Step::Done(result) ==> all_typed_within(
            result.data,
            null,
            schema,
        ),
    decreases *list, 0int,
{
    match list {
        ExprList::Nil => {},
        ExprList::Cons { head, tail } => {
            lemma_once_type(schema, null, answers, head, false);
            lemma_list_type(schema, null, answers, tail);
        },
    }
}

proof fn lemma_once_type(schema: Schema, null: DataType, answers: Answers, expr: &Arc<Expr>, operand: bool)
    requires
        booleans_agree(null),
        typed_answers(answers, schema),
        typed_within(**expr, operand, null, schema),
    ensures
        simplified_once(*expr, schema, answers) matches Step::Done(result) ==> stays_typed(
            *expr,
            result.data,
            operand,
            null,
            schema,
        ),
    decreases *expr, 1int,
{
    lemma_children_type(schema, null, answers, expr, operand);
    if let Step::Done(children) = simplified_children(*expr, schema, answers) {
        lemma_node_type(schema, null, answers, children.data, operand);
        if let Step::Done(node) = simplified_node(children.data, schema, answers) {
            lemma_stays_typed_twice(*expr, children.data, node.data, operand, null, schema);
        }
    }
}

/// A simplified expression has the data type that it had.
pub proof fn law_simplifying_keeps_the_type(
    schema: Schema,
    null: DataType,
    answers: Answers,
    expr: Arc<Expr>,
    count: nat,
)
    requires
        booleans_agree(null),
        typed_answers(answers, schema),
        well_typed(*expr, null, schema),
    ensures
        simplified(expr, schema, answers, count) matches Step::Done(result) ==> keeps_type(
            *expr,
            *result,
            null,
            schema,
        ),
    decreases count,
{
    if count > 0 {
        lemma_once_type(schema, null, answers, &expr, false);
        if let Step::Done(result) = simplified_once(expr, schema, answers) {
            lemma_same_type(expr, result.data, null, schema);
            law_simplifying_keeps_the_type(schema, null, answers, result.data, (count - 1) as nat);
        }
    }
}

/// A list is well-typed where all its expressions are.
pub proof fn law_well_typed_lists(schema: Schema, null: DataType, list: &ExprList)
    ensures
        all_typed_within(*list, null, schema) <==> forall|i: int|
            0 <= i < list_items(*list).len() ==> well_typed(#[trigger] list_items(*list)[i], null, schema),
    decreases list,
{
    match list {
        ExprList::Nil => {},
        ExprList::Cons { head, tail } => {
            law_well_typed_lists(schema, null, tail);
            let (items, rest) = (items_of(list), items_of(tail));
            assert(items[0] == **head);
            assert forall|i: int| 0 <= i < rest.len() implies #[trigger] rest[i] == items[i + 1] by {}
            if all_of_list(list, null, schema) {
                assert forall|i: int| 0 <= i < items.len() implies well_typed(
                    #[trigger] items[i],
                    null,
                    schema,
                ) by {
                    if i > 0 {
                        assert(items[i] == rest[i - 1]);
                    }
                }
            }
        },
    }
}

spec fn items_of(list: &ExprList) -> Seq<Expr> {
    list_items(*list)
}

spec fn all_of_list(list: &ExprList, null: DataType, schema: Schema) -> bool {
    all_typed_within(*list, null, schema)
}

/// Columns and literals are well-typed; so are casts and tests of what is, comparisons that
/// the engine takes both ways, AND and OR of Booleans, and the negation of what is no
/// negation.
pub proof fn law_what_is_well_typed(
    schema: Schema,
    null: DataType,
    left: Arc<Expr>,
    op: Operator,
    right: Arc<Expr>,
    expr: Expr,
    typed: bool,
)
    requires
        call_ensures(is_well_typed, (&expr, &null, &schema), typed),
    ensures
        expr matches Expr::Column { index } ==> (typed <==> index < schema_types(schema).len()),
        expr matches Expr::Literal { value } ==> (typed <==> (boolean_of(value) is Some ==> scalar_type(value)
            == boolean_type())),
        expr matches Expr::Cast { expr: inner, target_field, options } ==> typed == well_typed(*inner, null, schema),
        expr matches Expr::TryCast { expr: inner, target_field } ==> typed == well_typed(*inner, null, schema),
        expr matches Expr::IsNull { arg } ==> typed == well_typed(*arg, null, schema),
        expr matches Expr::IsNotNull { arg } ==> typed == well_typed(*arg, null, schema),
        expr matches Expr::Not { arg } ==> (!(*arg is Not) ==> typed == well_typed(*arg, null, schema)),
        expr == (Expr::Binary { left, op, right }) && !(op is And) && !(op is Or) ==> (typed <==> well_typed(
            *left,
            null,
            schema,
        ) && well_typed(*right, null, schema) && result_type(
            type_of(*left, schema)->Ok_0,
            op,
            type_of(*right, schema)->Ok_0,
        ) is Some && (negated(op) matches Some(opposite) ==> result_type(
            type_of(*left, schema)->Ok_0,
            opposite,
            type_of(*right, schema)->Ok_0,
        ) is Some)),
        expr == (Expr::Binary { left, op, right }) && (op is And || op is Or) && well_typed(*left, null, schema)
            && well_typed(*right, null, schema) && !(*left is Not) && !(*right is Not) && type_of(*left, schema) == Ok::<
            DataType,
            ExprError,
        >(boolean_type()) && type_of(*right, schema) == Ok::<DataType, ExprError>(boolean_type()) && result_type(
            boolean_type(),
            op,
            boolean_type(),
        ) is Some ==> typed,
{
    reveal_with_fuel(typed_within, 2);
    reveal_with_fuel(type_of, 2);
    reveal_with_fuel(stripped, 2);
}

} // verus!
