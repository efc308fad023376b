//! What going through an expression makes of it, as a whole.
use arrow::datatypes::{DataType, Field, Schema};
use datafusion_expr_common::operator::Operator;
use std::sync::Arc;
use vstd::prelude::*;

use crate::answers::{Answers, PreimageQuestion, Step};
use crate::data_type::field_type;
use crate::expr::{list_items, type_of, CastOptions, Expr, ExprList, Transformed};
use crate::operator::{comparison, law_swap_of_comparisons};
use crate::simplifier::const_evaluator::simplify_const_expr_immediate;
use crate::simplifier::laws::law_unchanged_is_the_same;
use crate::simplifier::not::simplify_not_expr;
use crate::simplifier::steps::{
    compares_a_cast, exchanged, foldable, has_opposite, is_plain_cast, lemma_constant,
};
use crate::simplifier::unwrap_cast::unwrap_cast_in_comparison;
use crate::simplifier::{
    simplified, simplified_children, simplified_list, simplified_node, simplified_once,
    PhysicalExprSimplifier, TransformedList,
};

verus! {

/// What is cast, and to which type, by a cast that is looked through.
pub open spec fn cast_parts(cast: Expr) -> (Arc<Expr>, DataType) {
    match cast {
        Expr::Cast { expr, target_field, options } => (expr, field_type(target_field)),
        Expr::TryCast { expr, target_field } => (expr, field_type(target_field)),
        _ => arbitrary(),
    }
}

/// Nothing is known of a comparison of a cast with a literal but that it cannot be written
/// without the cast.
pub open spec fn stays_cast(cast: Expr, op: Operator, literal: Expr, schema: Schema, answers: Answers) -> bool {
    let (inner, target) = cast_parts(cast);
    &&& type_of(*inner, schema) matches Ok(source)
    &&& literal matches Expr::Literal { value }
    &&& ({
        let question = PreimageQuestion { source, target, op, literal: value };
        answers.preimages@.dom().contains(question) && answers.preimages@[question] is Unknown
    })
}

/// There is nothing to be done at this expression itself: it is no negation that can be
/// removed, no comparison of a cast that can be, and no constant that has a value.
pub open spec fn nothing_to_do(expr: Expr, schema: Schema, answers: Answers) -> bool {
    &&& expr matches Expr::Not { arg } ==> !has_opposite(*arg)
    &&& compares_a_cast(expr) ==> (expr matches Expr::Binary { left, op, right } && if is_plain_cast(*left)
        && *right is Literal {
        stays_cast(*left, op, *right, schema, answers)
    } else {
        stays_cast(*right, exchanged(op), *left, schema, answers)
    })
    &&& foldable(expr) ==> answers.constants@.dom().contains(Arc::new(expr)) && answers.constants@[Arc::new(expr)] is None
}

/// There is nothing to be done at the expression, nor at any in it.
pub open spec fn settled(expr: Expr, schema: Schema, answers: Answers) -> bool
    decreases expr,
{
    &&& nothing_to_do(expr, schema, answers)
    &&& match expr {
        Expr::Column { index } => true,
        Expr::Literal { value } => true,
        Expr::Binary { left, op, right } => settled(*left, schema, answers) && settled(*right, schema, answers),
        Expr::Cast { expr, target_field, options } => settled(*expr, schema, answers),
        Expr::TryCast { expr, target_field } => settled(*expr, schema, answers),
        Expr::Not { arg } => settled(*arg, schema, answers),
        Expr::IsNull { arg } => settled(*arg, schema, answers),
        Expr::IsNotNull { arg } => settled(*arg, schema, answers),
        Expr::InList { expr, list, negated } => settled(*expr, schema, answers) && all_settled(list, schema, answers),
        Expr::Other { id, children, data_type, volatile } => all_settled(children, schema, answers),
    }
}

/// There is nothing to be done at the expressions of the list, nor at any in them.
pub open spec fn all_settled(list: ExprList, schema: Schema, answers: Answers) -> bool
    decreases list,
{
    match list {
        ExprList::Nil => true,
        ExprList::Cons { head, tail } => settled(*head, schema, answers) && all_settled(*tail, schema, answers),
    }
}

/// Nothing was changed.
pub open spec fn unchanged(expr: Arc<Expr>) -> Step<Transformed> {
    Step::Done(Transformed { data: expr, transformed: false })
}

proof fn lemma_node_is_settled(schema: Schema, answers: Answers, expr: &Arc<Expr>)
    ensures
        simplified_node(*expr, schema, answers) == unchanged(*expr) <==> nothing_to_do(**expr, schema, answers),
        simplified_node(*expr, schema, answers) matches Step::Done(result) ==> (result.transformed
            || nothing_to_do(**expr, schema, answers)),
{
    lemma_constant(expr);
    match &**expr {
        Expr::Binary { left, op, right } => {
            if comparison(*op) {
                law_swap_of_comparisons(*op);
            }
        },
        _ => {},
    }
}

/// An expression stays the same where, and only where, there is nothing to be done at it
/// nor at any expression in it: what is left holds no negation that can be removed, no cast
/// that can be, and no constant that has a value.
pub proof fn law_settled_expressions_stay(schema: Schema, answers: Answers, expr: &Arc<Expr>)
    ensures
        simplified_once(*expr, schema, answers) == unchanged(*expr) <==> settled(**expr, schema, answers),
        simplified_once(*expr, schema, answers) matches Step::Done(result) ==> (result.transformed || settled(
            **expr,
            schema,
            answers,
        )),
    decreases *expr, 1int,
{
    lemma_settled_children(schema, answers, expr);
    law_unchanged_is_the_same(schema, answers, expr);
    lemma_node_is_settled(schema, answers, expr);
}

proof fn lemma_settled_children(schema: Schema, answers: Answers, expr: &Arc<Expr>)
    ensures
        nothing_to_do(**expr, schema, answers) ==> (simplified_children(*expr, schema, answers) == unchanged(*expr)
            <==> settled(**expr, schema, answers)),
        simplified_children(*expr, schema, answers) matches Step::Done(result) ==> (!result.transformed ==> result.data
            == *expr && (nothing_to_do(**expr, schema, answers) ==> settled(**expr, schema, answers))),
        settled(**expr, schema, answers) ==> simplified_children(*expr, schema, answers) == unchanged(*expr),
    decreases *expr, 0int,
{
    match &**expr {
        Expr::Column { index } => {},
        Expr::Literal { value } => {},
        Expr::Binary { left, op, right } => {
            law_settled_expressions_stay(schema, answers, left);
            law_settled_expressions_stay(schema, answers, right);
            law_unchanged_is_the_same(schema, answers, left);
            law_unchanged_is_the_same(schema, answers, right);
        },
        Expr::Cast { expr, target_field, options } => {
            law_settled_expressions_stay(schema, answers, expr);
            law_unchanged_is_the_same(schema, answers, expr);
        },
        Expr::TryCast { expr, target_field } => {
            law_settled_expressions_stay(schema, answers, expr);
            law_unchanged_is_the_same(schema, answers, expr);
        },
        Expr::Not { arg } => {
            law_settled_expressions_stay(schema, answers, arg);
            law_unchanged_is_the_same(schema, answers, arg);
        },
        Expr::IsNull { arg } => {
            law_settled_expressions_stay(schema, answers, arg);
            law_unchanged_is_the_same(schema, answers, arg);
        },
        Expr::IsNotNull { arg } => {
            law_settled_expressions_stay(schema, answers, arg);
            law_unchanged_is_the_same(schema, answers, arg);
        },
        Expr::InList { expr, list, negated } => {
            law_settled_expressions_stay(schema, answers, expr);
            law_unchanged_is_the_same(schema, answers, expr);
            lemma_settled_list(schema, answers, list);
        },
        Expr::Other { id, children, data_type, volatile } => {
            lemma_settled_list(schema, answers, children);
        },
    }
}

proof fn lemma_settled_list(schema: Schema, answers: Answers, list: &ExprList)
    ensures
        simplified_list(*list, schema, answers) == Step::Done(TransformedList { data: *list, transformed: false })
            <==> all_settled(*list, schema, answers),
        simplified_list(*list, schema, answers) matches Step::Done(result) ==> (!result.transformed ==> result.data
            == *list && all_settled(*list, schema, answers)),
    decreases *list, 0int,
{
    match list {
        ExprList::Nil => {},
        ExprList::Cons { head, tail } => {
            law_settled_expressions_stay(schema, answers, head);
            law_unchanged_is_the_same(schema, answers, head);
            lemma_settled_list(schema, answers, tail);
        },
    }
}

/// A node is simplified by moving a negation, removing a cast and evaluating a constant, each
/// from what the one before made of it. It is changed where one of them changed it.
pub proof fn law_steps_follow_each_other(
    schema: Schema,
    answers: Answers,
    expr: Arc<Expr>,
    moved: Transformed,
    compared: Step<Transformed>,
    folded: Step<Transformed>,
)
    requires
        call_ensures(simplify_not_expr, (expr,), moved),
        call_ensures(unwrap_cast_in_comparison, (moved.data, &schema, &answers), compared),
        compared matches Step::Done(compared) ==> call_ensures(
            simplify_const_expr_immediate,
            (compared.data, &answers),
            folded,
        ),
    ensures
        simplified_node(expr, schema, answers) == match compared {
            Step::Ask(question) => Step::Ask(question),
            Step::Failed(error) => Step::Failed(error),
            Step::Done(compared) => changed_too(folded, moved.transformed || compared.transformed),
        },
{
}

/// The step, with what it gives said to be changed where `changed`.
pub open spec fn changed_too(step: Step<Transformed>, changed: bool) -> Step<Transformed> {
    match step {
        Step::Ask(question) => Step::Ask(question),
        Step::Failed(error) => Step::Failed(error),
        Step::Done(result) => Step::Done(
            Transformed { data: result.data, transformed: changed || result.transformed },
        ),
    }
}

/// An expression is gone through from its operand up: the operand first, then the
/// expression with what became of the operand. Where the operand waits for an answer, or
/// failed, so does the expression.
pub proof fn law_an_operand_comes_first(
    schema: Schema,
    answers: Answers,
    arg: Arc<Expr>,
    target_field: Field,
    options: CastOptions,
    expr: Arc<Expr>,
)
    requires
        *expr == (Expr::Cast { expr: arg, target_field, options }) || *expr == (Expr::TryCast {
            expr: arg,
            target_field,
        }) || *expr == (Expr::Not { arg }) || *expr == (Expr::IsNull { arg }) || *expr == (Expr::IsNotNull { arg }),
    ensures
        match simplified_once(arg, schema, answers) {
            Step::Ask(question) => simplified_once(expr, schema, answers) == Step::<Transformed>::Ask(question),
            Step::Failed(error) => simplified_once(expr, schema, answers) == Step::<Transformed>::Failed(error),
            Step::Done(result) => {
                let rebuilt = Arc::new(
                    match *expr {
                        Expr::Cast { expr: _, target_field, options } => Expr::Cast {
                            expr: result.data,
                            target_field,
                            options,
                        },
                        Expr::TryCast { expr: _, target_field } => Expr::TryCast { expr: result.data, target_field },
                        Expr::Not { arg: _ } => Expr::Not { arg: result.data },
                        Expr::IsNull { arg: _ } => Expr::IsNull { arg: result.data },
                        _ => Expr::IsNotNull { arg: result.data },
                    },
                );
                simplified_once(expr, schema, answers) == changed_too(
                    simplified_node(rebuilt, schema, answers),
                    result.transformed,
                )
            },
        },
{
}

/// Both sides come first, the left one before the right one.
pub proof fn law_both_sides_come_first(
    schema: Schema,
    answers: Answers,
    left: Arc<Expr>,
    op: Operator,
    right: Arc<Expr>,
)
    ensures
        simplified_once(Arc::new(Expr::Binary { left, op, right }), schema, answers) == match (
            simplified_once(left, schema, answers),
            simplified_once(right, schema, answers),
        ) {
            (Step::Ask(question), _) => Step::Ask(question),
            (Step::Failed(error), _) => Step::Failed(error),
            (_, Step::Ask(question)) => Step::Ask(question),
            (_, Step::Failed(error)) => Step::Failed(error),
            (Step::Done(new_left), Step::Done(new_right)) => changed_too(
                simplified_node(
                    Arc::new(Expr::Binary { left: new_left.data, op, right: new_right.data }),
                    schema,
                    answers,
                ),
                new_left.transformed || new_right.transformed,
            ),
        },
{
}

/// A list is gone through expression by expression: each becomes what it becomes by itself,
/// in the same place, and the list is changed where one of them is.
pub proof fn law_lists_are_gone_through_one_by_one(
    schema: Schema,
    answers: Answers,
    list: &ExprList,
    result: TransformedList,
)
    requires
        simplified_list(*list, schema, answers) == Step::Done(result),
    ensures
        list_items(result.data).len() == list_items(*list).len(),
        forall|i: int|
            0 <= i < list_items(*list).len() ==> {
                &&& simplified_once(Arc::new(#[trigger] list_items(*list)[i]), schema, answers) matches Step::Done(item)
                &&& list_items(result.data)[i] == *item.data
                &&& item.transformed ==> result.transformed
            },
        result.transformed ==> exists|i: int|
            0 <= i < list_items(*list).len() && changes(#[trigger] list_items(*list)[i], schema, answers),
    decreases list,
{
    match list {
        ExprList::Nil => {},
        ExprList::Cons { head, tail } => {
            if let Step::Done(rest) = simplified_tail(tail, schema, answers) {
                law_lists_are_gone_through_one_by_one(schema, answers, tail, rest);
                let (items, tail_items) = (items_of(list), items_of(tail));
                assert forall|i: int| 0 <= i < items.len() implies {
                    &&& simplified_once(Arc::new(#[trigger] items[i]), schema, answers) matches Step::Done(item)
                    &&& list_items(result.data)[i] == *item.data
                    &&& item.transformed ==> result.transformed
                } by {
                    if i > 0 {
                        assert(items[i] == tail_items[i - 1]);
                    }
                }
                if result.transformed {
                    if rest.transformed {
                        let i = choose|i: int|
                            0 <= i < tail_items.len() && changes(#[trigger] tail_items[i], schema, answers);
                        assert(items[i + 1] == tail_items[i]);
                    } else {
                        assert(changes(items[0], schema, answers));
                    }
                }
            }
        },
    }
}

/// This expression can be gone through without a question or a failure.
pub open spec fn is_done(expr: Expr, schema: Schema, answers: Answers) -> bool {
    simplified_once(Arc::new(expr), schema, answers) is Done
}

/// A list is gone through up to the first of its expressions that waits for an answer or
/// fails: what it asks is asked, and how it fails the list fails. Where there is none, the
/// list is done.
pub proof fn law_lists_wait_for_their_first_question(
    schema: Schema,
    answers: Answers,
    list: &ExprList,
    count: int,
)
    requires
        0 <= count <= list_items(*list).len(),
        forall|i: int| 0 <= i < count ==> is_done(#[trigger] list_items(*list)[i], schema, answers),
    ensures
        count == list_items(*list).len() ==> simplified_list(*list, schema, answers) is Done,
        count < list_items(*list).len() ==> match simplified_once(
            Arc::new(list_items(*list)[count]),
            schema,
            answers,
        ) {
            Step::Ask(question) => simplified_list(*list, schema, answers) == Step::<TransformedList>::Ask(question),
            Step::Failed(error) => simplified_list(*list, schema, answers) == Step::<TransformedList>::Failed(error),
            Step::Done(_) => true,
        },
    decreases list,
{
    match list {
        ExprList::Nil => {},
        ExprList::Cons { head, tail } => {
            let (items, tail_items) = (items_of(list), items_of(tail));
            assert(items[0] == **head);
            if count > 0 {
                assert(is_done(items[0], schema, answers));
                assert forall|i: int| 0 <= i < count - 1 implies is_done(
                    #[trigger] tail_items[i],
                    schema,
                    answers,
                ) by {
                    assert(tail_items[i] == items[i + 1]);
                }
                law_lists_wait_for_their_first_question(schema, answers, tail, count - 1);
                if count < items.len() {
                    assert(items[count] == tail_items[count - 1]);
                }
            }
        },
    }
}

/// Going through this expression changes it.
pub open spec fn changes(expr: Expr, schema: Schema, answers: Answers) -> bool {
    simplified_once(Arc::new(expr), schema, answers) matches Step::Done(item) && item.transformed
}

spec fn simplified_tail(list: &ExprList, schema: Schema, answers: Answers) -> Step<TransformedList> {
    simplified_list(*list, schema, answers)
}

spec fn items_of(list: &ExprList) -> Seq<Expr> {
    list_items(*list)
}

/// The operands of a test of membership, and those of an expression of another kind, come
/// first.
pub proof fn law_lists_come_first(
    schema: Schema,
    answers: Answers,
    expr: Arc<Expr>,
    list: ExprList,
    negated: bool,
    id: u64,
    data_type: DataType,
    volatile: bool,
)
    ensures
        simplified_once(Arc::new(Expr::InList { expr, list, negated }), schema, answers) == match (
            simplified_once(expr, schema, answers),
            simplified_list(list, schema, answers),
        ) {
            (Step::Ask(question), _) => Step::Ask(question),
            (Step::Failed(error), _) => Step::Failed(error),
            (_, Step::Ask(question)) => Step::Ask(question),
            (_, Step::Failed(error)) => Step::Failed(error),
            (Step::Done(new_expr), Step::Done(new_list)) => changed_too(
                simplified_node(
                    Arc::new(Expr::InList { expr: new_expr.data, list: new_list.data, negated }),
                    schema,
                    answers,
                ),
                new_expr.transformed || new_list.transformed,
            ),
        },
        simplified_once(Arc::new(Expr::Other { id, children: list, data_type, volatile }), schema, answers) == match simplified_list(
            list,
            schema,
            answers,
        ) {
            Step::Ask(question) => Step::Ask(question),
            Step::Failed(error) => Step::Failed(error),
            Step::Done(children) => changed_too(
                simplified_node(
                    Arc::new(Expr::Other { id, children: children.data, data_type, volatile }),
                    schema,
                    answers,
                ),
                children.transformed,
            ),
        },
{
}

/// `expr` gone through `count` times.
pub open spec fn after_passes(expr: Arc<Expr>, schema: Schema, answers: Answers, count: nat) -> Step<Arc<Expr>>
    decreases count,
{
    if count == 0 {
        Step::Done(expr)
    } else {
        match simplified_once(expr, schema, answers) {
            Step::Ask(question) => Step::Ask(question),
            Step::Failed(error) => Step::Failed(error),
            Step::Done(result) => after_passes(result.data, schema, answers, (count - 1) as nat),
        }
    }
}

proof fn lemma_settled_passes(expr: Arc<Expr>, schema: Schema, answers: Answers, count: nat)
    requires
        simplified_once(expr, schema, answers) == unchanged(expr),
    ensures
        after_passes(expr, schema, answers, count) == Step::Done(expr),
    decreases count,
{
    if count > 0 {
        lemma_settled_passes(expr, schema, answers, (count - 1) as nat);
    }
}

proof fn lemma_passes(expr: Arc<Expr>, schema: Schema, answers: Answers, count: nat)
    ensures
        simplified(expr, schema, answers, count) == after_passes(expr, schema, answers, count),
    decreases count,
{
    if count > 0 {
        law_unchanged_is_the_same(schema, answers, &expr);
        if let Step::Done(result) = simplified_once(expr, schema, answers) {
            if result.transformed {
                lemma_passes(result.data, schema, answers, (count - 1) as nat);
            } else {
                lemma_settled_passes(expr, schema, answers, (count - 1) as nat);
            }
        }
    }
}

/// Simplifying an expression is going through it five times. What is settled before that
/// stays as it is; so an expression in which there is nothing to be done is its own
/// simplification.
pub proof fn law_simplifying_goes_through_five_times(
    simplifier: PhysicalExprSimplifier<'_>,
    expr: Arc<Expr>,
    answers: Answers,
    step: Step<Arc<Expr>>,
)
    requires
        call_ensures(PhysicalExprSimplifier::<'_>::simplify, (&simplifier, expr, &answers), step),
    ensures
        step == after_passes(expr, simplifier.columns(), answers, 5),
        settled(*expr, simplifier.columns(), answers) ==> step == Step::Done(expr),
{
    lemma_passes(expr, simplifier.columns(), answers, 5);
    law_settled_expressions_stay(simplifier.columns(), answers, &expr);
    if settled_expr(&expr, simplifier.columns(), answers) {
        lemma_settled_passes(expr, simplifier.columns(), answers, 5);
    }
}

spec fn settled_expr(expr: &Expr, schema: Schema, answers: Answers) -> bool {
    settled(*expr, schema, answers)
}

} // verus!
