//! Evaluation of constant expressions.
use std::sync::Arc;
use vstd::prelude::*;

use crate::answers::{Answers, Question, Step};
use crate::data_type::clone_scalar;
use crate::expr::{lit, literal_of, Expr, ExprList, Transformed};

verus! {

/// All expressions of the list are literals.
pub open spec fn all_literals(list: ExprList) -> bool
    decreases list,
{
    match list {
        ExprList::Nil => true,
        ExprList::Cons { head, tail } => *head is Literal && all_literals(*tail),
    }
}

/// The expression gives one value whatever the row: it has operands, all of them are
/// literals, and it is not volatile.
///
/// An expression without operands is never constant here. It could be a reference to a
/// column in the guise of another kind of expression.
pub open spec fn constant(expr: Expr) -> bool {
    match expr {
        Expr::Column { index } => false,
        Expr::Literal { value } => false,
        Expr::Binary { left, op, right } => *left is Literal && *right is Literal,
        Expr::Cast { expr, target_field, options } => *expr is Literal,
        Expr::TryCast { expr, target_field } => *expr is Literal,
        Expr::Not { arg } => *arg is Literal,
        Expr::IsNull { arg } => *arg is Literal,
        Expr::IsNotNull { arg } => *arg is Literal,
        Expr::InList { expr, list, negated } => *expr is Literal && all_literals(list),
        Expr::Other { id, children, data_type, volatile } => !volatile && children is Cons && all_literals(children),
    }
}

/// `expr`, or the literal that it evaluates to.
pub open spec fn evaluated(expr: Arc<Expr>, answers: Answers) -> Step<Transformed> {
    if !constant(*expr) {
        Step::Done(Transformed { data: expr, transformed: false })
    } else if !answers.constants@.dom().contains(expr) {
        Step::Ask(Question::Constant(expr))
    } else {
        match answers.constants@[expr] {
            Some(value) => Step::Done(Transformed { data: literal_of(value), transformed: true }),
            None => Step::Done(Transformed { data: expr, transformed: false }),
        }
    }
}

fn is_literal(expr: &Expr) -> (literal: bool)
    ensures
        literal == (*expr is Literal),
{
    match expr {
        Expr::Literal { value: _ } => true,
        _ => false,
    }
}

fn are_literals(list: &ExprList) -> (literals: bool)
    ensures
        literals == all_literals(*list),
    decreases list,
{
    match list {
        ExprList::Nil => true,
        ExprList::Cons { head, tail } => is_literal(head) && are_literals(tail),
    }
}

/// Whether the expression gives one value whatever the row.
pub fn is_constant(expr: &Expr) -> (is: bool)
    ensures
        is == constant(*expr),
{
    match expr {
        Expr::Column { index: _ } => false,
        Expr::Literal { value: _ } => false,
        Expr::Binary { left, op: _, right } => is_literal(left) && is_literal(right),
        Expr::Cast { expr, target_field: _, options: _ } => is_literal(expr),
        Expr::TryCast { expr, target_field: _ } => is_literal(expr),
        Expr::Not { arg } => is_literal(arg),
        Expr::IsNull { arg } => is_literal(arg),
        Expr::IsNotNull { arg } => is_literal(arg),
        Expr::InList { expr, list, negated: _ } => is_literal(expr) && are_literals(list),
        Expr::Other { id: _, children, data_type: _, volatile } => match children {
            ExprList::Nil => false,
            ExprList::Cons { head: _, tail: _ } => !*volatile && are_literals(children),
        },
    }
}

/// Replaces a constant expression by the literal that it evaluates to, where it
/// evaluates to one.
pub fn simplify_const_expr_immediate(expr: Arc<Expr>, answers: &Answers) -> (step: Step<Transformed>)
    ensures
        step == evaluated(expr, *answers),
{
    if !is_constant(&expr) {
        return Step::Done(Transformed { data: expr, transformed: false });
    }
    match answers.constants.get(&expr) {
        None => Step::Ask(Question::Constant(expr)),
        Some(Some(value)) => Step::Done(Transformed { data: lit(clone_scalar(value)), transformed: true }),
        Some(None) => Step::Done(Transformed { data: expr, transformed: false }),
    }
}

} // verus!
