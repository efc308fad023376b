//! What each step of simplification makes of an expression.
use arrow::datatypes::{DataType, Field, Schema};
use datafusion_common::ScalarValue;
use datafusion_expr_common::operator::Operator;
use std::sync::Arc;
use vstd::prelude::*;

use crate::answers::{Answers, PreimageAnswer, PreimageQuestion, Question, Step};
use crate::data_type::{boolean_of, boolean_scalar, default_format, field_type, nullable_field};
use crate::expr::{list_items, type_of, CastOptions, Expr, ExprError, ExprList, Transformed};
use crate::operator::{comparison, law_negation_is_an_involution, negated};
use crate::simplifier::const_evaluator::{
    all_literals, constant, is_constant, simplify_const_expr_immediate,
};
use crate::simplifier::not::simplify_not_expr;
use crate::simplifier::unwrap_cast::{
    extract_cast_info, rewrite_with_preimage, try_unwrap_cast_binary, try_unwrap_cast_comparison,
    unwrap_cast_in_comparison,
};

verus! {

/// The negation of a comparison, or of the match of a pattern, is the one with the opposite
/// operator.
pub proof fn law_negated_comparisons_are_turned(
    left: Arc<Expr>,
    op: Operator,
    right: Arc<Expr>,
    result: Transformed,
)
    requires
        negated(op) is Some,
        call_ensures(
            simplify_not_expr,
            (Arc::new(Expr::Not { arg: Arc::new(Expr::Binary { left, op, right }) }),),
            result,
        ),
    ensures
        result.transformed,
        *result.data == (Expr::Binary { left, op: negated(op)->0, right }),
{
}

/// Negating a comparison twice gives the comparison back.
pub proof fn law_negating_twice_gives_the_comparison_back(
    left: Arc<Expr>,
    op: Operator,
    right: Arc<Expr>,
    once: Transformed,
    twice: Transformed,
)
    requires
        negated(op) is Some,
        call_ensures(
            simplify_not_expr,
            (Arc::new(Expr::Not { arg: Arc::new(Expr::Binary { left, op, right }) }),),
            once,
        ),
        call_ensures(simplify_not_expr, (Arc::new(Expr::Not { arg: once.data }),), twice),
    ensures
        *twice.data == (Expr::Binary { left, op, right }),
{
    law_negation_is_an_involution(op);
}

/// The negation of AND is the OR of the negations, and the other way round.
pub proof fn law_negations_move_into_and_and_or(left: Arc<Expr>, right: Arc<Expr>, result: Transformed)
    ensures
        call_ensures(
            simplify_not_expr,
            (Arc::new(Expr::Not { arg: Arc::new(Expr::Binary { left, op: Operator::And, right }) }),),
            result,
        ) ==> result.transformed && *result.data == (Expr::Binary {
            left: Arc::new(Expr::Not { arg: left }),
            op: Operator::Or,
            right: Arc::new(Expr::Not { arg: right }),
        }),
        call_ensures(
            simplify_not_expr,
            (Arc::new(Expr::Not { arg: Arc::new(Expr::Binary { left, op: Operator::Or, right }) }),),
            result,
        ) ==> result.transformed && *result.data == (Expr::Binary {
            left: Arc::new(Expr::Not { arg: left }),
            op: Operator::And,
            right: Arc::new(Expr::Not { arg: right }),
        }),
{
}

/// The negation of IN is NOT IN, over the same expression and the same list, and the other
/// way round.
pub proof fn law_negated_lists_are_turned(expr: Arc<Expr>, list: ExprList, negated: bool, result: Transformed)
    requires
        call_ensures(
            simplify_not_expr,
            (Arc::new(Expr::Not { arg: Arc::new(Expr::InList { expr, list, negated }) }),),
            result,
        ),
    ensures
        result.transformed,
        *result.data == (Expr::InList { expr, list, negated: !negated }),
{
}

/// The negation of a Boolean literal is the other one, and that of a Boolean null is null.
pub proof fn law_negated_literals_are_turned(value: ScalarValue, boolean: Option<bool>, result: Transformed)
    requires
        boolean_of(value) == Some(boolean),
        call_ensures(
            simplify_not_expr,
            (Arc::new(Expr::Not { arg: Arc::new(Expr::Literal { value }) }),),
            result,
        ),
    ensures
        result.transformed,
        *result.data == (Expr::Literal {
            value: boolean_scalar(
                match boolean {
                    Some(boolean) => Some(!boolean),
                    None => None,
                },
            ),
        }),
{
}

/// A double negation is removed.
pub proof fn law_double_negations_are_removed(arg: Arc<Expr>, result: Transformed)
    requires
        call_ensures(
            simplify_not_expr,
            (Arc::new(Expr::Not { arg: Arc::new(Expr::Not { arg }) }),),
            result,
        ),
    ensures
        result.transformed,
        result.data == arg,
{
}

/// The negation of this expression can be written without a negation of the whole.
pub open spec fn has_opposite(arg: Expr) -> bool {
    ||| arg is Not
    ||| arg is InList
    ||| arg matches Expr::Literal { value } && boolean_of(value) is Some
    ||| arg matches Expr::Binary { left, op, right } && (op is And || op is Or || negated(op) is Some)
}

/// What is no negation stays as it is, and so does the negation of what has no opposite;
/// all other negations are changed.
pub proof fn law_other_negations_stay(expr: Arc<Expr>, result: Transformed)
    requires
        call_ensures(simplify_not_expr, (expr,), result),
    ensures
        result.transformed <==> (*expr matches Expr::Not { arg } && has_opposite(*arg)),
        !result.transformed ==> result.data == expr,
{
}

/// The operands of an expression.
pub open spec fn operands_of(expr: Expr) -> Seq<Expr> {
    match expr {
        Expr::Column { index } => Seq::empty(),
        Expr::Literal { value } => Seq::empty(),
        Expr::Binary { left, op, right } => seq![*left, *right],
        Expr::Cast { expr, target_field, options } => seq![*expr],
        Expr::TryCast { expr, target_field } => seq![*expr],
        Expr::Not { arg } => seq![*arg],
        Expr::IsNull { arg } => seq![*arg],
        Expr::IsNotNull { arg } => seq![*arg],
        Expr::InList { expr, list, negated } => seq![*expr] + list_items(list),
        Expr::Other { id, children, data_type, volatile } => list_items(children),
    }
}

/// The expression itself can give another result each time.
pub open spec fn is_volatile(expr: Expr) -> bool {
    expr matches Expr::Other { id, children, data_type, volatile } && volatile
}

/// The expression, or one in it, can give another result each time.
pub open spec fn volatile_within(expr: Expr) -> bool
    decreases expr,
{
    match expr {
        Expr::Column { index } => false,
        Expr::Literal { value } => false,
        Expr::Binary { left, op, right } => volatile_within(*left) || volatile_within(*right),
        Expr::Cast { expr, target_field, options } => volatile_within(*expr),
        Expr::TryCast { expr, target_field } => volatile_within(*expr),
        Expr::Not { arg } => volatile_within(*arg),
        Expr::IsNull { arg } => volatile_within(*arg),
        Expr::IsNotNull { arg } => volatile_within(*arg),
        Expr::InList { expr, list, negated } => volatile_within(*expr) || volatile_in(list),
        Expr::Other { id, children, data_type, volatile } => volatile || volatile_in(children),
    }
}

/// An expression of the list, or one in it, can give another result each time.
pub open spec fn volatile_in(list: ExprList) -> bool
    decreases list,
{
    match list {
        ExprList::Nil => false,
        ExprList::Cons { head, tail } => volatile_within(*head) || volatile_in(*tail),
    }
}

proof fn lemma_all_literals(list: &ExprList)
    ensures
        all_literals(*list) <==> forall|i: int| 0 <= i < list_items(*list).len() ==> #[trigger] list_items(*list)[i] is Literal,
        all_literals(*list) ==> !volatile_in(*list),
        *list is Cons <==> list_items(*list).len() > 0,
    decreases list,
{
    reveal_with_fuel(volatile_in, 2);
    reveal_with_fuel(volatile_within, 2);
    match list {
        ExprList::Nil => {},
        ExprList::Cons { head, tail } => {
            lemma_all_literals(tail);
            let (items, rest) = (items_of(list), items_of(tail));
            assert(items[0] == **head);
            assert(forall|i: int| 0 <= i < rest.len() ==> items[i + 1] == #[trigger] rest[i]);
            assert forall|i: int| 0 < i < items.len() implies #[trigger] items[i] == rest[i - 1] by {}
            if are_literals(tail) && is_literal(head) {
                assert forall|i: int| 0 <= i < items.len() implies #[trigger] items[i] is Literal by {
                    if i > 0 {
                        assert(items[i] == rest[i - 1]);
                    }
                }
            }
            if forall|i: int| 0 <= i < items.len() ==> #[trigger] items[i] is Literal {
                assert forall|i: int| 0 <= i < rest.len() implies #[trigger] rest[i] is Literal by {
                    assert(items[i + 1] == rest[i]);
                }
            }
        },
    }
}

spec fn items_of(list: &ExprList) -> Seq<Expr> {
    list_items(*list)
}

spec fn are_literals(list: &ExprList) -> bool {
    all_literals(*list)
}

spec fn is_literal(expr: &Expr) -> bool {
    *expr is Literal
}

/// The expression has operands, all of them are literals, and it does not give another
/// result each time.
pub open spec fn foldable(expr: Expr) -> bool {
    &&& operands_of(expr).len() > 0
    &&& !is_volatile(expr)
    &&& forall|i: int| 0 <= i < operands_of(expr).len() ==> #[trigger] operands_of(expr)[i] is Literal
}

pub(crate) proof fn lemma_constant(expr: &Expr)
    ensures
        constant(*expr) <==> foldable(*expr),
{
    let operands = operands_of(*expr);
    match expr {
        Expr::Binary { left, op, right } => {
            assert(operands[0] == **left && operands[1] == **right);
        },
        Expr::Cast { expr: inner, target_field, options } => {
            assert(operands[0] == **inner);
        },
        Expr::TryCast { expr: inner, target_field } => {
            assert(operands[0] == **inner);
        },
        Expr::Not { arg } => {
            assert(operands[0] == **arg);
        },
        Expr::IsNull { arg } => {
            assert(operands[0] == **arg);
        },
        Expr::IsNotNull { arg } => {
            assert(operands[0] == **arg);
        },
        Expr::InList { expr: inner, list, negated } => {
            lemma_all_literals(list);
            let items = list_items(*list);
            assert(operands[0] == **inner);
            assert forall|i: int| 0 <= i < items.len() implies #[trigger] items[i] == operands[i + 1] by {}
            if is_literal(inner) && all_literals(*list) {
                assert forall|i: int| 0 <= i < operands.len() implies #[trigger] operands[i] is Literal by {
                    if i > 0 {
                        assert(items[i - 1] == operands[i]);
                    }
                }
            }
        },
        Expr::Other { id, children, data_type, volatile } => {
            lemma_all_literals(children);
        },
        _ => {},
    }
}

/// An expression is constant exactly where it has operands, all of them are literals, and
/// it does not give another result each time.
pub proof fn law_constants_have_literal_operands(expr: Expr, folds: bool)
    requires
        call_ensures(is_constant, (&expr,), folds),
    ensures
        folds <==> foldable(expr),
{
    lemma_constant(&expr);
}

/// What can give another result each time, or has something in it that can, is never
/// constant: it stays as it is, and nothing is asked.
pub proof fn law_volatile_expressions_stay(expr: Arc<Expr>, answers: Answers, folds: bool, step: Step<Transformed>)
    requires
        volatile_within(*expr),
        call_ensures(is_constant, (&*expr,), folds),
        call_ensures(simplify_const_expr_immediate, (expr, &answers), step),
    ensures
        !folds,
        step == Step::Done(Transformed { data: expr, transformed: false }),
{
    reveal_with_fuel(volatile_within, 2);
    match &*expr {
        Expr::InList { expr: inner, list, negated } => {
            lemma_all_literals(list);
        },
        Expr::Other { id, children, data_type, volatile } => {
            lemma_all_literals(children);
        },
        _ => {},
    }
}

/// A constant is replaced by the literal that it evaluates to. What it evaluates to is asked
/// for first; where it is no value, the constant stays. What is not constant stays.
pub proof fn law_constants_are_evaluated(expr: Arc<Expr>, answers: Answers, folds: bool, step: Step<Transformed>)
    requires
        call_ensures(is_constant, (&*expr,), folds),
        call_ensures(simplify_const_expr_immediate, (expr, &answers), step),
    ensures
        !folds ==> step == Step::Done(Transformed { data: expr, transformed: false }),
        folds && !answers.constants@.dom().contains(expr) ==> step == Step::<Transformed>::Ask(Question::Constant(expr)),
        folds && answers.constants@.dom().contains(expr) ==> match answers.constants@[expr] {
            Some(value) => step == Step::Done(
                Transformed { data: Arc::new(Expr::Literal { value }), transformed: true },
            ),
            None => step == Step::Done(Transformed { data: expr, transformed: false }),
        },
{
}

/// `expr op value`.
pub open spec fn compares(expr: Arc<Expr>, op: Operator, value: ScalarValue) -> Arc<Expr> {
    Arc::new(Expr::Binary { left: expr, op, right: Arc::new(Expr::Literal { value }) })
}

/// `left AND right`.
pub open spec fn both(left: Arc<Expr>, right: Arc<Expr>) -> Arc<Expr> {
    Arc::new(Expr::Binary { left, op: Operator::And, right })
}

/// `left OR right`.
pub open spec fn either(left: Arc<Expr>, right: Arc<Expr>) -> Arc<Expr> {
    Arc::new(Expr::Binary { left, op: Operator::Or, right })
}

/// A comparison over a range, made of comparisons with its bounds: below it is below the
/// lower bound, above it from the upper bound on, in it neither. Only being distinct looks
/// for null apart.
pub open spec fn over_range(expr: Arc<Expr>, op: Operator, lower: ScalarValue, upper: ScalarValue) -> Arc<Expr> {
    if op is Lt {
        compares(expr, Operator::Lt, lower)
    } else if op is GtEq {
        compares(expr, Operator::GtEq, lower)
    } else if op is LtEq {
        compares(expr, Operator::Lt, upper)
    } else if op is Gt {
        compares(expr, Operator::GtEq, upper)
    } else if op is Eq {
        both(compares(expr, Operator::GtEq, lower), compares(expr, Operator::Lt, upper))
    } else if op is NotEq {
        either(compares(expr, Operator::Lt, lower), compares(expr, Operator::GtEq, upper))
    } else if op is IsNotDistinctFrom {
        both(
            both(Arc::new(Expr::IsNotNull { arg: expr }), compares(expr, Operator::GtEq, lower)),
            compares(expr, Operator::Lt, upper),
        )
    } else {
        either(
            either(compares(expr, Operator::Lt, lower), compares(expr, Operator::GtEq, upper)),
            Arc::new(Expr::IsNull { arg: expr }),
        )
    }
}

/// A comparison over a range is made of comparisons with its bounds.
pub proof fn law_ranges_are_compared_by_their_bounds(
    lower: ScalarValue,
    upper: ScalarValue,
    op: Operator,
    expr: Arc<Expr>,
    rewritten: Arc<Expr>,
)
    requires
        comparison(op),
        call_ensures(rewrite_with_preimage, (lower, upper, op, expr), rewritten),
    ensures
        rewritten == over_range(expr, op, lower, upper),
{
}

/// A cast that does nothing but change the type: one with the options that a cast has where
/// none are given, to a target that says no more than its type.
pub open spec fn plain(target_field: Field, options: CastOptions) -> bool {
    &&& !options.safe
    &&& default_format(options.format_options)
    &&& target_field == nullable_field(field_type(target_field))
}

/// A plain cast is looked through, and so is every cast that gives null where it fails;
/// nothing else is.
pub proof fn law_plain_casts_are_looked_through(
    inner: Arc<Expr>,
    target_field: Field,
    options: CastOptions,
    expr: Expr,
    info: Option<(Arc<Expr>, DataType)>,
)
    requires
        call_ensures(extract_cast_info, (&expr,), info),
    ensures
        expr == (Expr::Cast { expr: inner, target_field, options }) ==> info == if plain(target_field, options) {
            Some((inner, field_type(target_field)))
        } else {
            None
        },
        expr == (Expr::TryCast { expr: inner, target_field }) ==> info == Some((inner, field_type(target_field))),
        !(expr is Cast) && !(expr is TryCast) ==> info is None,
{
}

/// The comparison with its sides exchanged.
pub open spec fn exchanged(op: Operator) -> Operator {
    match op {
        Operator::Lt => Operator::Gt,
        Operator::Gt => Operator::Lt,
        Operator::LtEq => Operator::GtEq,
        Operator::GtEq => Operator::LtEq,
        _ => op,
    }
}

/// What becomes of the comparison `expr` of a cast of `inner`: what is asked is asked about
/// the type of `inner`; the answer is a comparison of `inner` itself, with what was
/// answered; without one the comparison stays.
pub open spec fn follows_the_answer(
    step: Step<Transformed>,
    expr: Arc<Expr>,
    inner: Arc<Expr>,
    question: PreimageQuestion,
    answers: Answers,
) -> bool {
    if !answers.preimages@.dom().contains(question) {
        step == Step::<Transformed>::Ask(Question::Preimage(question))
    } else {
        match answers.preimages@[question] {
            PreimageAnswer::Failed => step == Step::<Transformed>::Failed(ExprError::PreimageFailed),
            PreimageAnswer::Unknown => step == Step::Done(Transformed { data: expr, transformed: false }),
            PreimageAnswer::Exact(value) => step == Step::Done(
                Transformed { data: compares(inner, question.op, value), transformed: true },
            ),
            PreimageAnswer::Range { lower, upper } => step == Step::Done(
                Transformed { data: over_range(inner, question.op, lower, upper), transformed: true },
            ),
        }
    }
}

/// A comparison of a cast with a literal is answered by what is known of the cast. The
/// literal can stand on either side.
pub proof fn law_comparisons_of_casts_follow_the_answer(
    inner: Arc<Expr>,
    target_field: Field,
    options: CastOptions,
    literal: ScalarValue,
    cast: Expr,
    op: Operator,
    schema: Schema,
    answers: Answers,
    step: Step<Transformed>,
)
    requires
        comparison(op),
        (cast == (Expr::Cast { expr: inner, target_field, options }) && plain(target_field, options)) || cast == (
        Expr::TryCast { expr: inner, target_field }),
    ensures
        ({
            let expr = Arc::new(
                Expr::Binary { left: Arc::new(cast), op, right: Arc::new(Expr::Literal { value: literal }) },
            );
            call_ensures(unwrap_cast_in_comparison, (expr, &schema, &answers), step) ==> match type_of(*inner, schema) {
                Err(error) => step == Step::<Transformed>::Failed(error),
                Ok(source) => follows_the_answer(
                    step,
                    expr,
                    inner,
                    PreimageQuestion { source, target: field_type(target_field), op, literal },
                    answers,
                ),
            }
        }),
        ({
            let expr = Arc::new(
                Expr::Binary { left: Arc::new(Expr::Literal { value: literal }), op, right: Arc::new(cast) },
            );
            call_ensures(unwrap_cast_in_comparison, (expr, &schema, &answers), step) ==> match type_of(*inner, schema) {
                Err(error) => step == Step::<Transformed>::Failed(error),
                Ok(source) => follows_the_answer(
                    step,
                    expr,
                    inner,
                    PreimageQuestion { source, target: field_type(target_field), op: exchanged(op), literal },
                    answers,
                ),
            }
        }),
{
}

/// What is known of a cast decides a comparison with a literal, however what is cast and the
/// type that it is cast to were found.
pub proof fn law_casts_are_removed_as_answered(
    inner: Arc<Expr>,
    target: DataType,
    literal: ScalarValue,
    op: Operator,
    schema: Schema,
    answers: Answers,
    step: Step<Option<Arc<Expr>>>,
)
    requires
        comparison(op),
        call_ensures(try_unwrap_cast_comparison, (inner, &target, &literal, op, &schema, &answers), step),
    ensures
        match type_of(*inner, schema) {
            Err(error) => step == Step::<Option<Arc<Expr>>>::Failed(error),
            Ok(source) => {
                let question = PreimageQuestion { source, target, op, literal };
                if !answers.preimages@.dom().contains(question) {
                    step == Step::<Option<Arc<Expr>>>::Ask(Question::Preimage(question))
                } else {
                    match answers.preimages@[question] {
                        PreimageAnswer::Failed => step == Step::<Option<Arc<Expr>>>::Failed(ExprError::PreimageFailed),
                        PreimageAnswer::Unknown => step == Step::Done(None::<Arc<Expr>>),
                        PreimageAnswer::Exact(value) => step == Step::Done(Some(compares(inner, op, value))),
                        PreimageAnswer::Range { lower, upper } => step == Step::Done(
                            Some(over_range(inner, op, lower, upper)),
                        ),
                    }
                }
            },
        },
{
}

/// Removing the cast of one side of a comparison is what is done to the comparison as a
/// whole.
pub proof fn law_sides_are_unwrapped_as_the_whole_is(
    left: Arc<Expr>,
    op: Operator,
    right: Arc<Expr>,
    schema: Schema,
    answers: Answers,
    sides: Step<Option<Arc<Expr>>>,
    whole: Step<Transformed>,
)
    requires
        call_ensures(try_unwrap_cast_binary, (&left, op, &right, &schema, &answers), sides),
        call_ensures(
            unwrap_cast_in_comparison,
            (Arc::new(Expr::Binary { left, op, right }), &schema, &answers),
            whole,
        ),
    ensures
        match sides {
            Step::Ask(question) => whole == Step::<Transformed>::Ask(question),
            Step::Failed(error) => whole == Step::<Transformed>::Failed(error),
            Step::Done(None) => whole == Step::Done(
                Transformed { data: Arc::new(Expr::Binary { left, op, right }), transformed: false },
            ),
            Step::Done(Some(data)) => whole == Step::Done(Transformed { data, transformed: true }),
        },
{
}

/// The expression is a cast that is looked through.
pub open spec fn is_plain_cast(expr: Expr) -> bool {
    ||| expr is TryCast
    ||| expr matches Expr::Cast { expr, target_field, options } && plain(target_field, options)
}

/// The expression compares a cast that is looked through with a literal.
pub open spec fn compares_a_cast(expr: Expr) -> bool {
    expr matches Expr::Binary { left, op, right } && comparison(op) && ((is_plain_cast(*left) && *right is Literal) || (
    *left is Literal && is_plain_cast(*right)))
}

/// What is no comparison of a cast with a literal stays as it is.
pub proof fn law_other_comparisons_stay(expr: Arc<Expr>, schema: Schema, answers: Answers, step: Step<Transformed>)
    requires
        !compares_a_cast(*expr),
        call_ensures(unwrap_cast_in_comparison, (expr, &schema, &answers), step),
    ensures
        step == Step::Done(Transformed { data: expr, transformed: false }),
{
}

} // verus!
