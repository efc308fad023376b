//! Removal of negations.
use datafusion_expr_common::operator::Operator;
use std::sync::Arc;
use vstd::prelude::*;

use crate::data_type::{as_boolean, boolean_of, boolean_scalar, scalar_from_boolean};
use crate::expr::{binary, binary_of, lit, literal_of, not, not_of, Expr, ExprList, Transformed};
use crate::operator::negated;

verus! {

/// The opposite of `arg`, where it can be written without a negation of the whole.
pub open spec fn negation(arg: Expr) -> Option<Arc<Expr>> {
    match arg {
        Expr::Not { arg } => Some(arg),
        Expr::Literal { value } => match boolean_of(value) {
            Some(Some(value)) => Some(literal_of(boolean_scalar(Some(!value)))),
            Some(None) => Some(literal_of(boolean_scalar(None))),
            None => None,
        },
        Expr::InList { expr, list, negated } => Some(Arc::new(Expr::InList { expr, list, negated: !negated })),
        Expr::Binary { left, op, right } => match (negated(op), op) {
            (Some(negated_op), _) => Some(binary_of(left, negated_op, right)),
            (None, Operator::And) => Some(binary_of(not_of(left), Operator::Or, not_of(right))),
            (None, Operator::Or) => Some(binary_of(not_of(left), Operator::And, not_of(right))),
            _ => None,
        },
        _ => None,
    }
}

/// `expr`, where it is a negation with the negation moved inwards.
pub open spec fn without_not(expr: Arc<Expr>) -> Transformed {
    match *expr {
        Expr::Not { arg } => match negation(*arg) {
            Some(data) => Transformed { data, transformed: true },
            None => Transformed { data: expr, transformed: false },
        },
        _ => Transformed { data: expr, transformed: false },
    }
}

/// The same list.
fn clone_list(list: &ExprList) -> (same: ExprList)
    ensures
        same == *list,
{
    match list {
        ExprList::Nil => ExprList::Nil,
        ExprList::Cons { head, tail } => ExprList::Cons { head: head.clone(), tail: tail.clone() },
    }
}

/// Removes a double negation, negates a literal, an IN list or a comparison, and moves a
/// negation into AND and OR.
pub fn simplify_not_expr(expr: Arc<Expr>) -> (result: Transformed)
    ensures
        result == without_not(expr),
{
    let negation: Option<Arc<Expr>> = match &*expr {
        Expr::Not { arg } => match &**arg {
            Expr::Not { arg } => Some(arg.clone()),
            Expr::Literal { value } => match as_boolean(value) {
                Some(Some(value)) => Some(lit(scalar_from_boolean(Some(!value)))),
                Some(None) => Some(lit(scalar_from_boolean(None))),
                None => None,
            },
            Expr::InList { expr, list, negated } => Some(
                Arc::new(Expr::InList { expr: expr.clone(), list: clone_list(list), negated: !*negated }),
            ),
            Expr::Binary { left, op, right } => match (op.negate(), *op) {
                (Some(negated_op), _) => Some(binary(left.clone(), negated_op, right.clone())),
                (None, Operator::And) => Some(
                    binary(not(left.clone()), Operator::Or, not(right.clone())),
                ),
                (None, Operator::Or) => Some(
                    binary(not(left.clone()), Operator::And, not(right.clone())),
                ),
                _ => None,
            },
            _ => None,
        },
        _ => None,
    };
    match negation {
        Some(data) => Transformed { data, transformed: true },
        None => Transformed { data: expr, transformed: false },
    }
}

} // verus!
