//! Rewrites of predicates over casts into predicates over what is cast.
use arrow::datatypes::{DataType, Schema};
use datafusion_common::ScalarValue;
use datafusion_expr_common::operator::Operator;
use std::sync::Arc;
use vstd::prelude::*;

use crate::answers::{
    Answers, ExactPreimageQuestion, PreimageAnswer, PreimageQuestion, Question, Step,
};
use crate::data_type::{clone_data_type, clone_scalar, field_data_type, field_type};
use crate::expr::eval::{cast_operands, eval, eval_list, is_among, Row, Value};
use crate::expr::{
    binary, binary_of, lit, literal_of, type_of, Expr, ExprError, ExprList, Transformed,
};
use crate::operator::{comparison, is_supported_comparison_operator};
use crate::simplifier::laws::{lemma_preimage_predicate, right_answers, right_preimage};
use crate::simplifier::unwrap_cast::{cast_info, preimage_predicate, rewrite_with_preimage};

verus! {

/// What is cast, and to which type.
pub open spec fn cast_input(expr: Expr) -> Option<(Arc<Expr>, DataType)> {
    match expr {
        Expr::Cast { expr, target_field, options } => Some((expr, field_type(target_field))),
        Expr::TryCast { expr, target_field } => Some((expr, field_type(target_field))),
        _ => None,
    }
}

/// `cast_expr op literal` without the cast.
pub open spec fn rewritten_binary(
    schema: Schema,
    answers: Answers,
    cast_expr: Expr,
    literal: Expr,
    op: Operator,
) -> Step<Transformed> {
    match (cast_input(cast_expr), literal) {
        (None, _) => Step::Failed(ExprError::ExpectedCast),
        (Some((expr, target)), Expr::Literal { value }) => match type_of(*expr, schema) {
            Err(error) => Step::Failed(error),
            Ok(source) => {
                let question = PreimageQuestion { source, target, op, literal: value };
                if !answers.preimages@.dom().contains(question) {
                    Step::Ask(Question::Preimage(question))
                } else {
                    match answers.preimages@[question] {
                        PreimageAnswer::Failed => Step::Failed(ExprError::PreimageFailed),
                        PreimageAnswer::Unknown => Step::Failed(ExprError::NoPreimage),
                        answer => if answer is Range && !comparison(op) {
                            Step::Failed(ExprError::ExpectedComparison)
                        } else {
                            Step::Done(
                                Transformed { data: preimage_predicate(answer, op, expr)->0, transformed: true },
                            )
                        },
                    }
                }
            },
        },
        _ => Step::Failed(ExprError::ExpectedLiteral),
    }
}

/// `expr op literal` is a comparison of a cast with a literal that can be written without
/// the cast.
pub open spec fn supported_binary(
    schema: Schema,
    answers: Answers,
    expr: Expr,
    op: Operator,
    literal: Expr,
) -> Step<bool> {
    match (cast_input(expr), literal) {
        (Some((inner, target)), Expr::Literal { value }) if comparison(op) => match type_of(*inner, schema) {
            Err(error) => Step::Done(false),
            Ok(source) => {
                let question = PreimageQuestion { source, target, op, literal: value };
                if answers.preimages@.dom().contains(question) {
                    Step::Done(answers.preimages@[question] is Exact || answers.preimages@[question] is Range)
                } else {
                    Step::Ask(Question::Preimage(question))
                }
            },
        },
        _ => Step::Done(false),
    }
}

/// Each expression of the list is a literal that a cast maps one source value to.
pub open spec fn all_have_preimages(
    answers: Answers,
    source: DataType,
    target: DataType,
    list: ExprList,
) -> Step<bool>
    decreases list,
{
    match list {
        ExprList::Nil => Step::Done(true),
        ExprList::Cons { head, tail } => match *head {
            Expr::Literal { value } => {
                let question = ExactPreimageQuestion { source, target, literal: value };
                if !answers.exact_preimages@.dom().contains(question) {
                    Step::Ask(Question::ExactPreimage(question))
                } else if answers.exact_preimages@[question] is None {
                    Step::Done(false)
                } else {
                    all_have_preimages(answers, source, target, *tail)
                }
            },
            _ => Step::Done(false),
        },
    }
}

/// `expr IN (list)` tests a cast, and can be written without it.
pub open spec fn supported_inlist(schema: Schema, answers: Answers, expr: Expr, list: ExprList) -> Step<bool> {
    match cast_input(expr) {
        None => Step::Done(false),
        Some((inner, target)) => match type_of(*inner, schema) {
            Err(error) => Step::Done(false),
            Ok(source) => all_have_preimages(answers, source, target, list),
        },
    }
}

/// The source values that a cast maps to the literals of a list, in the same order.
pub open spec fn list_preimages(
    answers: Answers,
    source: DataType,
    target: DataType,
    list: ExprList,
) -> Step<ExprList>
    decreases list,
{
    match list {
        ExprList::Nil => Step::Done(ExprList::Nil),
        ExprList::Cons { head, tail } => match *head {
            Expr::Literal { value } => {
                let question = ExactPreimageQuestion { source, target, literal: value };
                if !answers.exact_preimages@.dom().contains(question) {
                    Step::Ask(Question::ExactPreimage(question))
                } else {
                    match answers.exact_preimages@[question] {
                        None => Step::Failed(ExprError::NoPreimage),
                        Some(value) => match list_preimages(answers, source, target, *tail) {
                            Step::Ask(question) => Step::Ask(question),
                            Step::Failed(error) => Step::Failed(error),
                            Step::Done(tail) => Step::Done(
                                ExprList::Cons { head: literal_of(value), tail: Arc::new(tail) },
                            ),
                        },
                    }
                }
            },
            _ => Step::Failed(ExprError::ExpectedLiteral),
        },
    }
}

/// `expr IN (list)` without the cast.
pub open spec fn rewritten_inlist(
    schema: Schema,
    answers: Answers,
    expr: Expr,
    list: ExprList,
    negated: bool,
) -> Step<Transformed> {
    match cast_input(expr) {
        None => Step::Failed(ExprError::ExpectedCast),
        Some((inner, target)) => match type_of(*inner, schema) {
            Err(error) => Step::Failed(error),
            Ok(source) => match list_preimages(answers, source, target, list) {
                Step::Ask(question) => Step::Ask(question),
                Step::Failed(error) => Step::Failed(error),
                Step::Done(list) => Step::Done(
                    Transformed { data: Arc::new(Expr::InList { expr: inner, list, negated }), transformed: true },
                ),
            },
        },
    }
}

/// What is cast, and to which type.
pub fn cast_input_and_type(cast_expr: &Expr) -> (input: Option<(Arc<Expr>, DataType)>)
    ensures
        input == cast_input(*cast_expr),
{
    match cast_expr {
        Expr::Cast { expr, target_field, options: _ } => Some((expr.clone(), field_data_type(target_field))),
        Expr::TryCast { expr, target_field } => Some((expr.clone(), field_data_type(target_field))),
        _ => None,
    }
}

/// `cast_expr op literal` without the cast.
pub fn rewrite_cast_predicate_for_binary(
    schema: &Schema,
    answers: &Answers,
    cast_expr: &Expr,
    literal: &Expr,
    op: Operator,
) -> (step: Step<Transformed>)
    ensures
        step == rewritten_binary(*schema, *answers, *cast_expr, *literal, op),
{
    let (expr, target_type) = match cast_input_and_type(cast_expr) {
        Some(input) => input,
        None => return Step::Failed(ExprError::ExpectedCast),
    };
    let lit_value = match literal {
        Expr::Literal { value } => clone_scalar(value),
        _ => return Step::Failed(ExprError::ExpectedLiteral),
    };
    let source_type = match expr.data_type(schema) {
        Ok(source_type) => source_type,
        Err(error) => return Step::Failed(error),
    };
    let question = PreimageQuestion { source: source_type, target: target_type, op, literal: lit_value };
    match answers.preimages.get(&question) {
        None => Step::Ask(Question::Preimage(question)),
        Some(PreimageAnswer::Failed) => Step::Failed(ExprError::PreimageFailed),
        Some(PreimageAnswer::Unknown) => Step::Failed(ExprError::NoPreimage),
        Some(PreimageAnswer::Exact(value)) => Step::Done(
            Transformed { data: binary(expr, op, lit(clone_scalar(value))), transformed: true },
        ),
        Some(PreimageAnswer::Range { lower, upper }) => {
            if !is_supported_comparison_operator(op) {
                return Step::Failed(ExprError::ExpectedComparison);
            }
            let data = rewrite_with_preimage(clone_scalar(lower), clone_scalar(upper), op, expr);
            Step::Done(Transformed { data, transformed: true })
        },
    }
}

/// Whether `expr op literal` is a comparison of a cast with a literal that can be written
/// without the cast.
pub fn supports_cast_predicate_for_binary(
    schema: &Schema,
    answers: &Answers,
    expr: &Expr,
    op: Operator,
    literal: &Expr,
) -> (step: Step<bool>)
    ensures
        step == supported_binary(*schema, *answers, *expr, op, *literal),
{
    if !is_supported_comparison_operator(op) {
        return Step::Done(false);
    }
    let (inner_expr, target_type) = match cast_input_and_type(expr) {
        Some(input) => input,
        None => return Step::Done(false),
    };
    let lit_value = match literal {
        Expr::Literal { value } => clone_scalar(value),
        _ => return Step::Done(false),
    };
    let source_type = match inner_expr.data_type(schema) {
        Ok(source_type) => source_type,
        Err(_) => return Step::Done(false),
    };
    let question = PreimageQuestion { source: source_type, target: target_type, op, literal: lit_value };
    match answers.preimages.get(&question) {
        None => Step::Ask(Question::Preimage(question)),
        Some(PreimageAnswer::Exact(_)) => Step::Done(true),
        Some(PreimageAnswer::Range { lower: _, upper: _ }) => Step::Done(true),
        Some(PreimageAnswer::Unknown) => Step::Done(false),
        Some(PreimageAnswer::Failed) => Step::Done(false),
    }
}

/// Whether `expr IN (list)` tests a cast and can be written without it.
///
/// Each literal must have exactly one source value: a range of source values would not
/// fit into the list.
pub fn supports_cast_predicate_for_inlist(
    schema: &Schema,
    answers: &Answers,
    expr: &Expr,
    list: &ExprList,
) -> (step: Step<bool>)
    ensures
        step == supported_inlist(*schema, *answers, *expr, *list),
{
    let (inner_expr, target_type) = match cast_input_and_type(expr) {
        Some(input) => input,
        None => return Step::Done(false),
    };
    let source_type = match inner_expr.data_type(schema) {
        Ok(source_type) => source_type,
        Err(_) => return Step::Done(false),
    };
    let mut rest = list;
    loop
        invariant
            all_have_preimages(*answers, source_type, target_type, *list) == all_have_preimages(
                *answers,
                source_type,
                target_type,
                *rest,
            ),
            supported_inlist(*schema, *answers, *expr, *list) == all_have_preimages(
                *answers,
                source_type,
                target_type,
                *list,
            ),
        decreases *rest,
    {
        match rest {
            ExprList::Nil => return Step::Done(true),
            ExprList::Cons { head, tail } => {
                let literal = match &**head {
                    Expr::Literal { value } => clone_scalar(value),
                    _ => return Step::Done(false),
                };
                let question = ExactPreimageQuestion {
                    source: clone_data_type(&source_type),
                    target: clone_data_type(&target_type),
                    literal,
                };
                match answers.exact_preimages.get(&question) {
                    None => return Step::Ask(Question::ExactPreimage(question)),
                    Some(None) => return Step::Done(false),
                    Some(Some(_)) => {},
                }
                rest = tail;
            },
        }
    }
}

/// The source values that a cast maps to the literals of a list, in the same order.
fn cast_list(answers: &Answers, source_type: &DataType, target_type: &DataType, list: &ExprList) -> (step: Step<
    ExprList,
>)
    ensures
        step == list_preimages(*answers, *source_type, *target_type, *list),
    decreases list,
{
    match list {
        ExprList::Nil => Step::Done(ExprList::Nil),
        ExprList::Cons { head, tail } => {
            let literal = match &**head {
                Expr::Literal { value } => clone_scalar(value),
                _ => return Step::Failed(ExprError::ExpectedLiteral),
            };
            let question = ExactPreimageQuestion {
                source: clone_data_type(source_type),
                target: clone_data_type(target_type),
                literal,
            };
            let head = match answers.exact_preimages.get(&question) {
                None => return Step::Ask(Question::ExactPreimage(question)),
                Some(None) => return Step::Failed(ExprError::NoPreimage),
                Some(Some(value)) => lit(clone_scalar(value)),
            };
            match cast_list(answers, source_type, target_type, tail) {
                Step::Ask(question) => Step::Ask(question),
                Step::Failed(error) => Step::Failed(error),
                Step::Done(tail) => Step::Done(ExprList::Cons { head, tail: Arc::new(tail) }),
            }
        },
    }
}

/// `expr IN (list)`, or `expr NOT IN (list)`, without the cast.
pub fn rewrite_cast_predicate_for_inlist(
    schema: &Schema,
    answers: &Answers,
    expr: &Expr,
    list: &ExprList,
    negated: bool,
) -> (step: Step<Transformed>)
    ensures
        step == rewritten_inlist(*schema, *answers, *expr, *list, negated),
{
    let (inner_expr, target_type) = match cast_input_and_type(expr) {
        Some(input) => input,
        None => return Step::Failed(ExprError::ExpectedCast),
    };
    let source_type = match inner_expr.data_type(schema) {
        Ok(source_type) => source_type,
        Err(error) => return Step::Failed(error),
    };
    match cast_list(answers, &source_type, &target_type, list) {
        Step::Ask(question) => Step::Ask(question),
        Step::Failed(error) => Step::Failed(error),
        Step::Done(list) => Step::Done(
            Transformed { data: Arc::new(Expr::InList { expr: inner_expr, list, negated }), transformed: true },
        ),
    }
}

/// What is supported is rewritten, and of comparisons nothing else is.
pub proof fn law_supported_binary_is_rewritten(
    schema: Schema,
    answers: Answers,
    cast_expr: Expr,
    op: Operator,
    literal: Expr,
)
    ensures
        supported_binary(schema, answers, cast_expr, op, literal) == Step::Done(true) <==> comparison(op)
            && rewritten_binary(schema, answers, cast_expr, literal, op) is Done,
{
}

/// What is supported is rewritten, and nothing else is.
pub proof fn law_supported_inlist_is_rewritten(
    schema: Schema,
    answers: Answers,
    expr: Expr,
    list: ExprList,
    negated: bool,
)
    ensures
        supported_inlist(schema, answers, expr, list) == Step::Done(true) <==> rewritten_inlist(
            schema,
            answers,
            expr,
            list,
            negated,
        ) is Done,
{
    assert forall|source: DataType, target: DataType|
        all_have_preimages(answers, source, target, list) == Step::Done(true) <==> #[trigger] list_preimages(
            answers,
            source,
            target,
            list,
        ) is Done by {
        lemma_list_preimages(answers, source, target, &list);
    }
}

proof fn lemma_list_preimages(answers: Answers, source: DataType, target: DataType, list: &ExprList)
    ensures
        all_have_preimages(answers, source, target, *list) == Step::Done(true) <==> list_preimages(
            answers,
            source,
            target,
            *list,
        ) is Done,
    decreases list,
{
    match list {
        ExprList::Nil => {},
        ExprList::Cons { head, tail } => {
            lemma_list_preimages(answers, source, target, tail);
        },
    }
}

spec fn given(expr: &Expr, row: Row) -> Value {
    eval(*expr, row)->0
}

spec fn type_given(expr: &Expr, schema: Schema) -> DataType {
    type_of(*expr, schema)->Ok_0
}

/// A comparison without its cast gives what it gave with it: every row keeps its Boolean,
/// or its null.
pub proof fn law_rewriting_binary_keeps_results(
    row: Row,
    schema: Schema,
    answers: Answers,
    cast_expr: Arc<Expr>,
    op: Operator,
    literal: Arc<Expr>,
)
    requires
        row.wf(),
        row.typed(schema),
        cast_info(*cast_expr) is Some,
        right_answers(row, answers, cast_operands(*cast_expr, row)),
        eval(*cast_expr, row) is Some,
    ensures
        rewritten_binary(schema, answers, *cast_expr, *literal, op) matches Step::Done(result) ==> eval(
            *result.data,
            row,
        ) == eval(*binary_of(cast_expr, op, literal), row),
{
    reveal_with_fuel(eval, 3);
    reveal_with_fuel(cast_operands, 2);
    match (&*cast_expr, &*literal) {
        (Expr::Cast { expr: inner, target_field, options }, Expr::Literal { value }) => {
            lemma_rewritten_binary(row, schema, answers, &cast_expr, inner, field_type(*target_field), op, *value);
        },
        (Expr::TryCast { expr: inner, target_field }, Expr::Literal { value }) => {
            lemma_rewritten_binary(row, schema, answers, &cast_expr, inner, field_type(*target_field), op, *value);
        },
        _ => {},
    }
}

proof fn lemma_rewritten_binary(
    row: Row,
    schema: Schema,
    answers: Answers,
    cast_expr: &Arc<Expr>,
    inner: &Arc<Expr>,
    target: DataType,
    op: Operator,
    literal: ScalarValue,
)
    requires
        row.wf(),
        row.typed(schema),
        cast_input(**cast_expr) == Some((*inner, target)),
        right_answers(row, answers, cast_operands(**cast_expr, row)),
        eval(**inner, row) is Some,
        cast_operands(**cast_expr, row).contains(eval(**inner, row)->0),
    ensures
        rewritten_binary(schema, answers, **cast_expr, *literal_of(literal), op) matches Step::Done(result) ==> (
        row.cast)(target, eval(**inner, row)->0) is Some && eval(*result.data, row) == row.apply(
            op,
            (row.cast)(target, eval(**inner, row)->0)->0,
            (row.literal)(literal),
        ),
{
    if rewritten_of(schema, answers, cast_expr, literal, op) is Done {
        let source = type_given(inner, schema);
        let question = PreimageQuestion { source, target, op, literal };
        let answer = answers.preimages@[question];
        let value = given(inner, row);
        assert(eval(**inner, row) == Some(value));
        assert(answers.preimages@.dom().contains(question));
        assert(right_preimage(row, question, answer, value));
        lemma_preimage_predicate(row, question, answer, *inner);
    }
}

spec fn rewritten_of(schema: Schema, answers: Answers, cast_expr: &Expr, literal: ScalarValue, op: Operator) -> Step<
    Transformed,
> {
    rewritten_binary(schema, answers, *cast_expr, *literal_of(literal), op)
}

/// The answer to a question is right for a value: the value can be cast, and the cast
/// equals the literal exactly where the value equals the answer.
pub open spec fn right_exact_preimage(
    row: Row,
    question: ExactPreimageQuestion,
    answer: Option<ScalarValue>,
    value: Value,
) -> bool {
    answer matches Some(exact) ==> {
        &&& (row.cast)(question.target, value) matches Some(cast)
        &&& row.apply(Operator::Eq, cast, (row.literal)(question.literal)) == row.apply(
            Operator::Eq,
            value,
            (row.literal)(exact),
        )
    }
}

/// A test of membership without its cast gives what it gave with it.
pub proof fn law_rewriting_inlist_keeps_results(
    row: Row,
    schema: Schema,
    answers: Answers,
    expr: Arc<Expr>,
    list: ExprList,
    negated: bool,
)
    requires
        row.typed(schema),
        cast_info(*expr) is Some,
        forall|question: ExactPreimageQuestion, value: Value|
            #![trigger answers.exact_preimages@.dom().contains(question), cast_operands(*expr, row).contains(value)]
            answers.exact_preimages@.dom().contains(question) && cast_operands(*expr, row).contains(value) && (
            value is Null || (row.has_type)(value, question.source)) ==> right_exact_preimage(
                row,
                question,
                answers.exact_preimages@[question],
                value,
            ),
        eval(*expr, row) is Some,
    ensures
        rewritten_inlist(schema, answers, *expr, list, negated) matches Step::Done(result) ==> eval(
            *result.data,
            row,
        ) == eval(Expr::InList { expr, list, negated }, row),
{
    match &*expr {
        Expr::Cast { expr: inner, target_field, options } => {
            lemma_rewritten_inlist(row, schema, answers, &expr, inner, field_type(*target_field), &list);
        },
        Expr::TryCast { expr: inner, target_field } => {
            lemma_rewritten_inlist(row, schema, answers, &expr, inner, field_type(*target_field), &list);
        },
        _ => {},
    }
}

proof fn lemma_rewritten_inlist(
    row: Row,
    schema: Schema,
    answers: Answers,
    expr: &Arc<Expr>,
    inner: &Arc<Expr>,
    target: DataType,
    list: &ExprList,
)
    requires
        row.typed(schema),
        cast_info(**expr) == Some((*inner, target)),
        forall|question: ExactPreimageQuestion, value: Value|
            #![trigger answers.exact_preimages@.dom().contains(question), cast_operands(**expr, row).contains(value)]
            answers.exact_preimages@.dom().contains(question) && cast_operands(**expr, row).contains(value) && (
            value is Null || (row.has_type)(value, question.source)) ==> right_exact_preimage(
                row,
                question,
                answers.exact_preimages@[question],
                value,
            ),
        eval(**expr, row) is Some,
    ensures
        eval(**inner, row) is Some,
        type_of(**inner, schema) matches Ok(source) ==> (list_preimages(answers, source, target, *list) matches Step::Done(
            preimages,
        ) ==> {
            &&& eval_list(*list, row) matches Some(literals)
            &&& eval_list(preimages, row) matches Some(values)
            &&& is_among(eval(**expr, row)->0, literals) == is_among(eval(**inner, row)->0, values)
        }),
{
    let value = given(inner, row);
    let cast = given(expr, row);
    assert(eval(**inner, row) == Some(value));
    assert(cast_operands(**expr, row).contains(value));
    if type_of_given(inner, schema) is Ok {
        let source = type_given(inner, schema);
        lemma_list_members(row, answers, source, target, list, value);
        if let Step::Done(preimages) = list_preimages_of(answers, source, target, list) {
            let literals = list_given(list, row);
            let values = list_given(&preimages, row);
            if literals.len() > 0 {
                assert(member_matches(row, target, value, literals[0], values[0]));
                assert((row.cast)(target, value) == Some(cast));
            }
            lemma_is_among(row, cast, literals, value, values);
        }
    }
}

spec fn type_of_given(expr: &Expr, schema: Schema) -> Result<DataType, ExprError> {
    type_of(*expr, schema)
}

spec fn list_given(list: &ExprList, row: Row) -> Seq<Value> {
    eval_list(*list, row)->0
}

spec fn list_preimages_of(answers: Answers, source: DataType, target: DataType, list: &ExprList) -> Step<ExprList> {
    list_preimages(answers, source, target, *list)
}

/// A value can be cast, and the cast equals `literal` exactly where the value equals
/// `preimage`.
spec fn member_matches(row: Row, target: DataType, value: Value, literal: Value, preimage: Value) -> bool {
    &&& (row.cast)(target, value) is Some
    &&& row.apply(Operator::Eq, (row.cast)(target, value)->0, literal) == row.apply(Operator::Eq, value, preimage)
}

/// Where each comparison gives the same, so does the test of membership.
proof fn lemma_is_among(row: Row, cast: Value, literals: Seq<Value>, value: Value, preimages: Seq<Value>)
    requires
        literals.len() == preimages.len(),
        forall|i: int|
            0 <= i < literals.len() ==> row.apply(Operator::Eq, cast, #[trigger] literals[i]) == row.apply(
                Operator::Eq,
                value,
                preimages[i],
            ),
    ensures
        is_among(cast, literals) == is_among(value, preimages),
    decreases literals.len(),
{
    if literals.len() > 0 {
        let (rest, others) = (literals.drop_first(), preimages.drop_first());
        assert forall|i: int| 0 <= i < rest.len() implies row.apply(Operator::Eq, cast, #[trigger] rest[i])
            == row.apply(Operator::Eq, value, others[i]) by {
            assert(rest[i] == literals[i + 1]);
        }
        lemma_is_among(row, cast, rest, value, others);
        assert(row.apply(Operator::Eq, cast, literals[0]) == row.apply(Operator::Eq, value, preimages[0]));
    }
}

/// Each source value matches its literal.
proof fn lemma_list_members(
    row: Row,
    answers: Answers,
    source: DataType,
    target: DataType,
    list: &ExprList,
    value: Value,
)
    requires
        forall|question: ExactPreimageQuestion|
            #![trigger answers.exact_preimages@.dom().contains(question)]
            answers.exact_preimages@.dom().contains(question) && question.source == source ==> right_exact_preimage(
                row,
                question,
                answers.exact_preimages@[question],
                value,
            ),
    ensures
        list_preimages(answers, source, target, *list) matches Step::Done(preimages) ==> {
            &&& eval_list(*list, row) matches Some(literals)
            &&& eval_list(preimages, row) matches Some(values)
            &&& literals.len() == values.len()
            &&& forall|i: int|
                0 <= i < literals.len() ==> member_matches(row, target, value, #[trigger] literals[i], values[i])
        },
    decreases list,
{
    reveal_with_fuel(eval, 2);
    reveal_with_fuel(eval_list, 2);
    match list {
        ExprList::Nil => {},
        ExprList::Cons { head, tail } => {
            lemma_list_members(row, answers, source, target, tail, value);
        },
    }
}

} // verus!
