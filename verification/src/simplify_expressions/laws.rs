//! What becomes of predicates over casts.
use arrow::datatypes::{DataType, Field, Schema};
use datafusion_common::ScalarValue;
use datafusion_expr_common::operator::Operator;
use std::sync::Arc;
use vstd::prelude::*;

use crate::answers::{
    Answers, ExactPreimageQuestion, PreimageAnswer, PreimageQuestion, Question, Step,
};
use crate::data_type::field_type;
use crate::expr::{list_items, type_of, Expr, ExprError, ExprList, Transformed};
use crate::operator::comparison;
use crate::simplifier::steps::{compares, over_range};
use crate::simplify_expressions::cast_preimage::{
    all_have_preimages, cast_input_and_type, list_preimages, rewrite_cast_predicate_for_binary,
    rewrite_cast_predicate_for_inlist, supports_cast_predicate_for_binary,
    supports_cast_predicate_for_inlist,
};

verus! {

/// `cast` is a cast of `inner` to a column like `target_field`, of the one kind or the other.
pub open spec fn casts(cast: Expr, inner: Arc<Expr>, target_field: Field) -> bool {
    ||| cast == (Expr::TryCast { expr: inner, target_field })
    ||| cast matches Expr::Cast { expr, target_field: field, options } && expr == inner && field == target_field
}

/// Casts are looked through, whatever their options and whether or not they give null where
/// they fail. Nothing else is.
pub proof fn law_casts_are_looked_through(
    inner: Arc<Expr>,
    target_field: Field,
    expr: Expr,
    input: Option<(Arc<Expr>, DataType)>,
)
    requires
        call_ensures(cast_input_and_type, (&expr,), input),
    ensures
        casts(expr, inner, target_field) ==> input == Some((inner, field_type(target_field))),
        !(expr is Cast) && !(expr is TryCast) ==> input is None,
{
}

/// A comparison of a cast with a literal is written without the cast as what is known of the
/// cast says, with the type of what is cast; and it is supported where it is a comparison
/// that can be written so. What is not known is asked for.
pub proof fn law_comparisons_of_casts_are_rewritten(
    inner: Arc<Expr>,
    target_field: Field,
    cast: Expr,
    op: Operator,
    value: ScalarValue,
    schema: Schema,
    answers: Answers,
    supported: Step<bool>,
    rewritten: Step<Transformed>,
)
    requires
        casts(cast, inner, target_field),
        call_ensures(
            supports_cast_predicate_for_binary,
            (&schema, &answers, &cast, op, &Expr::Literal { value }),
            supported,
        ),
        call_ensures(
            rewrite_cast_predicate_for_binary,
            (&schema, &answers, &cast, &Expr::Literal { value }, op),
            rewritten,
        ),
    ensures
        type_of(*inner, schema) matches Err(error) ==> supported == Step::Done(false) && rewritten == Step::<
            Transformed,
        >::Failed(error),
        type_of(*inner, schema) matches Ok(source) ==> {
            let question = PreimageQuestion { source, target: field_type(target_field), op, literal: value };
            if !answers.preimages@.dom().contains(question) {
                &&& rewritten == Step::<Transformed>::Ask(Question::Preimage(question))
                &&& comparison(op) ==> supported == Step::<bool>::Ask(Question::Preimage(question))
                &&& !comparison(op) ==> supported == Step::Done(false)
            } else {
                match answers.preimages@[question] {
                    PreimageAnswer::Failed => {
                        &&& rewritten == Step::<Transformed>::Failed(ExprError::PreimageFailed)
                        &&& supported == Step::Done(false)
                    },
                    PreimageAnswer::Unknown => {
                        &&& rewritten == Step::<Transformed>::Failed(ExprError::NoPreimage)
                        &&& supported == Step::Done(false)
                    },
                    PreimageAnswer::Exact(exact) => {
                        &&& rewritten == Step::Done(
                            Transformed { data: compares(inner, op, exact), transformed: true },
                        )
                        &&& supported == Step::Done(comparison(op))
                    },
                    PreimageAnswer::Range { lower, upper } => {
                        &&& comparison(op) ==> rewritten == Step::Done(
                            Transformed { data: over_range(inner, op, lower, upper), transformed: true },
                        )
                        &&& !comparison(op) ==> rewritten == Step::<Transformed>::Failed(ExprError::ExpectedComparison)
                        &&& supported == Step::Done(comparison(op))
                    },
                }
            }
        },
{
}

/// A comparison of what is no cast, or with what is no literal, is not supported.
pub proof fn law_other_comparisons_are_not_rewritten(
    expr: Expr,
    op: Operator,
    literal: Expr,
    schema: Schema,
    answers: Answers,
    supported: Step<bool>,
    rewritten: Step<Transformed>,
)
    requires
        call_ensures(supports_cast_predicate_for_binary, (&schema, &answers, &expr, op, &literal), supported),
        call_ensures(rewrite_cast_predicate_for_binary, (&schema, &answers, &expr, &literal, op), rewritten),
    ensures
        !(expr is Cast) && !(expr is TryCast) ==> supported == Step::Done(false) && rewritten == Step::<
            Transformed,
        >::Failed(ExprError::ExpectedCast),
        (expr is Cast || expr is TryCast) && !(literal is Literal) ==> supported == Step::Done(false) && rewritten
            == Step::<Transformed>::Failed(ExprError::ExpectedLiteral),
{
}

/// What is asked about a literal of a list.
pub open spec fn question_of(item: Expr, source: DataType, target: DataType) -> ExactPreimageQuestion {
    ExactPreimageQuestion { source, target, literal: item->value }
}

/// The expression is a literal, and the one source value that a cast maps to it is known.
pub open spec fn has_preimage(item: Expr, source: DataType, target: DataType, answers: Answers) -> bool {
    &&& item is Literal
    &&& answers.exact_preimages@.dom().contains(question_of(item, source, target))
    &&& answers.exact_preimages@[question_of(item, source, target)] is Some
}

/// The source value that a cast maps to the literal, as a literal.
pub open spec fn preimage_of(item: Expr, source: DataType, target: DataType, answers: Answers) -> Expr {
    Expr::Literal { value: answers.exact_preimages@[question_of(item, source, target)]->0 }
}

/// Where the source value of each literal of a list is known, a test of a cast for membership
/// is supported, and becomes the same test of what is cast: each literal is replaced by its
/// source value, in its place.
pub proof fn law_lists_with_preimages_are_rewritten(
    inner: Arc<Expr>,
    target_field: Field,
    cast: Expr,
    list: ExprList,
    negated: bool,
    source: DataType,
    schema: Schema,
    answers: Answers,
    supported: Step<bool>,
    rewritten: Step<Transformed>,
)
    requires
        casts(cast, inner, target_field),
        type_of(*inner, schema) == Ok::<DataType, ExprError>(source),
        forall|i: int|
            0 <= i < list_items(list).len() ==> has_preimage(
                #[trigger] list_items(list)[i],
                source,
                field_type(target_field),
                answers,
            ),
        call_ensures(supports_cast_predicate_for_inlist, (&schema, &answers, &cast, &list), supported),
        call_ensures(rewrite_cast_predicate_for_inlist, (&schema, &answers, &cast, &list, negated), rewritten),
    ensures
        supported == Step::Done(true),
        rewritten matches Step::Done(result) && result.transformed && (*result.data matches Expr::InList {
            expr,
            list: preimages,
            negated: still_negated,
        } && expr == inner && still_negated == negated && list_items(preimages).len() == list_items(list).len() && (
        forall|i: int|
            0 <= i < list_items(list).len() ==> #[trigger] list_items(preimages)[i] == preimage_of(
                list_items(list)[i],
                source,
                field_type(target_field),
                answers,
            ))),
{
    lemma_list_with_preimages(answers, source, field_type(target_field), &list);
}

spec fn items_of(list: &ExprList) -> Seq<Expr> {
    list_items(*list)
}

spec fn preimages_of(answers: Answers, source: DataType, target: DataType, list: &ExprList) -> ExprList {
    list_preimages(answers, source, target, *list)->Done_0
}

proof fn lemma_list_with_preimages(answers: Answers, source: DataType, target: DataType, list: &ExprList)
    requires
        forall|i: int|
            0 <= i < list_items(*list).len() ==> has_preimage(
                #[trigger] list_items(*list)[i],
                source,
                target,
                answers,
            ),
    ensures
        all_have_preimages(answers, source, target, *list) == Step::Done(true),
        list_preimages(answers, source, target, *list) matches Step::Done(preimages) && list_items(preimages).len()
            == list_items(*list).len() && forall|i: int|
            0 <= i < list_items(*list).len() ==> #[trigger] list_items(preimages)[i] == preimage_of(
                list_items(*list)[i],
                source,
                target,
                answers,
            ),
    decreases list,
{
    match list {
        ExprList::Nil => {},
        ExprList::Cons { head, tail } => {
            let (items, tail_items) = (items_of(list), items_of(tail));
            assert(items[0] == **head);
            assert(has_preimage(items[0], source, target, answers));
            assert forall|i: int| 0 <= i < tail_items.len() implies has_preimage(
                #[trigger] tail_items[i],
                source,
                target,
                answers,
            ) by {
                assert(tail_items[i] == items[i + 1]);
            }
            lemma_list_with_preimages(answers, source, target, tail);
            let preimages = preimages_of(answers, source, target, list);
            let rest = preimages_of(answers, source, target, tail);
            assert forall|i: int| 0 <= i < items.len() implies #[trigger] list_items(preimages)[i] == preimage_of(
                items[i],
                source,
                target,
                answers,
            ) by {
                if i > 0 {
                    assert(list_items(preimages)[i] == list_items(rest)[i - 1]);
                    assert(items[i] == tail_items[i - 1]);
                }
            }
        },
    }
}

/// A list is looked at up to the first of its expressions that is no literal, or of whose
/// source value is not known whether there is one, or that has none: this one decides.
pub proof fn law_the_first_literal_without_preimage_decides(
    inner: Arc<Expr>,
    target_field: Field,
    cast: Expr,
    list: ExprList,
    negated: bool,
    source: DataType,
    count: int,
    schema: Schema,
    answers: Answers,
    supported: Step<bool>,
    rewritten: Step<Transformed>,
)
    requires
        casts(cast, inner, target_field),
        type_of(*inner, schema) == Ok::<DataType, ExprError>(source),
        0 <= count < list_items(list).len(),
        forall|i: int|
            0 <= i < count ==> has_preimage(
                #[trigger] list_items(list)[i],
                source,
                field_type(target_field),
                answers,
            ),
        !has_preimage(list_items(list)[count], source, field_type(target_field), answers),
        call_ensures(supports_cast_predicate_for_inlist, (&schema, &answers, &cast, &list), supported),
        call_ensures(rewrite_cast_predicate_for_inlist, (&schema, &answers, &cast, &list, negated), rewritten),
    ensures
        ({
            let item = list_items(list)[count];
            let question = question_of(item, source, field_type(target_field));
            if !(item is Literal) {
                supported == Step::Done(false) && rewritten == Step::<Transformed>::Failed(ExprError::ExpectedLiteral)
            } else if answers.exact_preimages@.dom().contains(question) {
                supported == Step::Done(false) && rewritten == Step::<Transformed>::Failed(ExprError::NoPreimage)
            } else {
                supported == Step::<bool>::Ask(Question::ExactPreimage(question)) && rewritten == Step::<
                    Transformed,
                >::Ask(Question::ExactPreimage(question))
            }
        }),
{
    lemma_first_without_preimage(answers, source, field_type(target_field), &list, count);
}

proof fn lemma_first_without_preimage(
    answers: Answers,
    source: DataType,
    target: DataType,
    list: &ExprList,
    count: int,
)
    requires
        0 <= count < list_items(*list).len(),
        forall|i: int| 0 <= i < count ==> has_preimage(#[trigger] list_items(*list)[i], source, target, answers),
        !has_preimage(list_items(*list)[count], source, target, answers),
    ensures
        ({
            let item = list_items(*list)[count];
            let question = question_of(item, source, target);
            let all = all_have_preimages(answers, source, target, *list);
            let preimages = list_preimages(answers, source, target, *list);
            if !(item is Literal) {
                all == Step::Done(false) && preimages == Step::<ExprList>::Failed(ExprError::ExpectedLiteral)
            } else if answers.exact_preimages@.dom().contains(question) {
                all == Step::Done(false) && preimages == Step::<ExprList>::Failed(ExprError::NoPreimage)
            } else {
                all == Step::<bool>::Ask(Question::ExactPreimage(question)) && preimages == Step::<ExprList>::Ask(
                    Question::ExactPreimage(question),
                )
            }
        }),
    decreases list,
{
    match list {
        ExprList::Nil => {},
        ExprList::Cons { head, tail } => {
            let (items, tail_items) = (items_of(list), items_of(tail));
            assert(items[0] == **head);
            if count > 0 {
                assert(has_preimage(items[0], source, target, answers));
                assert forall|i: int| 0 <= i < count - 1 implies has_preimage(
                    #[trigger] tail_items[i],
                    source,
                    target,
                    answers,
                ) by {
                    assert(tail_items[i] == items[i + 1]);
                }
                assert(tail_items[count - 1] == items[count]);
                lemma_first_without_preimage(answers, source, target, tail, count - 1);
            }
        },
    }
}

/// A test of what is no cast for membership is not supported, nor is one of a cast of what
/// has no type.
pub proof fn law_other_lists_are_not_rewritten(
    expr: Expr,
    inner: Arc<Expr>,
    target_field: Field,
    list: ExprList,
    negated: bool,
    schema: Schema,
    answers: Answers,
    supported: Step<bool>,
    rewritten: Step<Transformed>,
)
    requires
        call_ensures(supports_cast_predicate_for_inlist, (&schema, &answers, &expr, &list), supported),
        call_ensures(rewrite_cast_predicate_for_inlist, (&schema, &answers, &expr, &list, negated), rewritten),
    ensures
        !(expr is Cast) && !(expr is TryCast) ==> supported == Step::Done(false) && rewritten == Step::<
            Transformed,
        >::Failed(ExprError::ExpectedCast),
        casts(expr, inner, target_field) ==> (type_of(*inner, schema) matches Err(error) ==> supported == Step::Done(
            false,
        ) && rewritten == Step::<Transformed>::Failed(error)),
{
}

} // verus!
