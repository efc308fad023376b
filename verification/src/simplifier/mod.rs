//! Simplification of expressions.
use arrow::datatypes::Schema;
use std::sync::Arc;
use vstd::prelude::*;

use crate::answers::{Answers, Step};
use crate::data_type::{clone_data_type, clone_field};
use crate::expr::{binary, binary_of, is_not_null, is_null, not, Expr, ExprList, Transformed};
use crate::simplifier::const_evaluator::{evaluated, simplify_const_expr_immediate};
use crate::simplifier::not::{simplify_not_expr, without_not};
use crate::simplifier::unwrap_cast::{unwrap_cast_in_comparison, unwrapped};

pub mod const_evaluator;
pub mod laws;
pub mod not;
pub mod passes;
pub mod steps;
pub mod type_laws;
pub mod unwrap_cast;

verus! {

/// The number of times that an expression is gone through at most.
pub const MAX_LOOP_COUNT: usize = 5;

/// A list of expressions, and whether it differs from the one it was made of.
pub struct TransformedList {
    pub data: ExprList,
    pub transformed: bool,
}

/// `expr` itself, without what is below it, simplified: negations, then casts, then
/// constants.
pub open spec fn simplified_node(expr: Arc<Expr>, schema: Schema, answers: Answers) -> Step<Transformed> {
    let negated = without_not(expr);
    match unwrapped(negated.data, schema, answers) {
        Step::Ask(question) => Step::Ask(question),
        Step::Failed(error) => Step::Failed(error),
        Step::Done(compared) => match evaluated(compared.data, answers) {
            Step::Ask(question) => Step::Ask(question),
            Step::Failed(error) => Step::Failed(error),
            Step::Done(folded) => Step::Done(
                Transformed {
                    data: folded.data,
                    transformed: negated.transformed || compared.transformed || folded.transformed,
                },
            ),
        },
    }
}

/// `expr` with each of its operands simplified.
pub open spec fn simplified_children(expr: Arc<Expr>, schema: Schema, answers: Answers) -> Step<Transformed>
    decreases expr, 0int,
{
    match *expr {
        Expr::Column { index } => Step::Done(Transformed { data: expr, transformed: false }),
        Expr::Literal { value } => Step::Done(Transformed { data: expr, transformed: false }),
        Expr::Binary { left, op, right } => match simplified_once(left, schema, answers) {
            Step::Ask(question) => Step::Ask(question),
            Step::Failed(error) => Step::Failed(error),
            Step::Done(left) => match simplified_once(right, schema, answers) {
                Step::Ask(question) => Step::Ask(question),
                Step::Failed(error) => Step::Failed(error),
                Step::Done(right) => Step::Done(
                    Transformed {
                        data: binary_of(left.data, op, right.data),
                        transformed: left.transformed || right.transformed,
                    },
                ),
            },
        },
        Expr::Cast { expr, target_field, options } => match simplified_once(expr, schema, answers) {
            Step::Ask(question) => Step::Ask(question),
            Step::Failed(error) => Step::Failed(error),
            Step::Done(expr) => Step::Done(
                Transformed {
                    data: Arc::new(Expr::Cast { expr: expr.data, target_field, options }),
                    transformed: expr.transformed,
                },
            ),
        },
        Expr::TryCast { expr, target_field } => match simplified_once(expr, schema, answers) {
            Step::Ask(question) => Step::Ask(question),
            Step::Failed(error) => Step::Failed(error),
            Step::Done(expr) => Step::Done(
                Transformed {
                    data: Arc::new(Expr::TryCast { expr: expr.data, target_field }),
                    transformed: expr.transformed,
                },
            ),
        },
        Expr::Not { arg } => match simplified_once(arg, schema, answers) {
            Step::Ask(question) => Step::Ask(question),
            Step::Failed(error) => Step::Failed(error),
            Step::Done(arg) => Step::Done(
                Transformed { data: Arc::new(Expr::Not { arg: arg.data }), transformed: arg.transformed },
            ),
        },
        Expr::IsNull { arg } => match simplified_once(arg, schema, answers) {
            Step::Ask(question) => Step::Ask(question),
            Step::Failed(error) => Step::Failed(error),
            Step::Done(arg) => Step::Done(
                Transformed { data: Arc::new(Expr::IsNull { arg: arg.data }), transformed: arg.transformed },
            ),
        },
        Expr::IsNotNull { arg } => match simplified_once(arg, schema, answers) {
            Step::Ask(question) => Step::Ask(question),
            Step::Failed(error) => Step::Failed(error),
            Step::Done(arg) => Step::Done(
                Transformed { data: Arc::new(Expr::IsNotNull { arg: arg.data }), transformed: arg.transformed },
            ),
        },
        Expr::InList { expr, list, negated } => match simplified_once(expr, schema, answers) {
            Step::Ask(question) => Step::Ask(question),
            Step::Failed(error) => Step::Failed(error),
            Step::Done(expr) => match simplified_list(list, schema, answers) {
                Step::Ask(question) => Step::Ask(question),
                Step::Failed(error) => Step::Failed(error),
                Step::Done(list) => Step::Done(
                    Transformed {
                        data: Arc::new(Expr::InList { expr: expr.data, list: list.data, negated }),
                        transformed: expr.transformed || list.transformed,
                    },
                ),
            },
        },
        Expr::Other { id, children, data_type, volatile } => match simplified_list(children, schema, answers) {
            Step::Ask(question) => Step::Ask(question),
            Step::Failed(error) => Step::Failed(error),
            Step::Done(children) => Step::Done(
                Transformed {
                    data: Arc::new(Expr::Other { id, children: children.data, data_type, volatile }),
                    transformed: children.transformed,
                },
            ),
        },
    }
}

/// The list with each of its expressions simplified.
pub open spec fn simplified_list(list: ExprList, schema: Schema, answers: Answers) -> Step<TransformedList>
    decreases list, 0int,
{
    match list {
        ExprList::Nil => Step::Done(TransformedList { data: list, transformed: false }),
        ExprList::Cons { head, tail } => match simplified_once(head, schema, answers) {
            Step::Ask(question) => Step::Ask(question),
            Step::Failed(error) => Step::Failed(error),
            Step::Done(head) => match simplified_list(*tail, schema, answers) {
                Step::Ask(question) => Step::Ask(question),
                Step::Failed(error) => Step::Failed(error),
                Step::Done(tail) => Step::Done(
                    TransformedList {
                        data: ExprList::Cons { head: head.data, tail: Arc::new(tail.data) },
                        transformed: head.transformed || tail.transformed,
                    },
                ),
            },
        },
    }
}

/// `expr` gone through once, from the leaves up.
pub open spec fn simplified_once(expr: Arc<Expr>, schema: Schema, answers: Answers) -> Step<Transformed>
    decreases expr, 1int,
{
    match simplified_children(expr, schema, answers) {
        Step::Ask(question) => Step::Ask(question),
        Step::Failed(error) => Step::Failed(error),
        Step::Done(children) => match simplified_node(children.data, schema, answers) {
            Step::Ask(question) => Step::Ask(question),
            Step::Failed(error) => Step::Failed(error),
            Step::Done(node) => Step::Done(
                Transformed { data: node.data, transformed: children.transformed || node.transformed },
            ),
        },
    }
}

/// `expr` gone through until nothing changes, but `count` times at most.
pub open spec fn simplified(expr: Arc<Expr>, schema: Schema, answers: Answers, count: nat) -> Step<Arc<Expr>>
    decreases count,
{
    if count == 0 {
        Step::Done(expr)
    } else {
        match simplified_once(expr, schema, answers) {
            Step::Ask(question) => Step::Ask(question),
            Step::Failed(error) => Step::Failed(error),
            Step::Done(result) => if result.transformed {
                simplified(result.data, schema, answers, (count - 1) as nat)
            } else {
                Step::Done(result.data)
            },
        }
    }
}

/// Simplifies expressions over the columns of a table.
///
/// This is of use after expressions over a table have been adapted to the columns of a
/// file: casts that were added to match the types can often be removed again.
pub struct PhysicalExprSimplifier<'a> {
    schema: &'a Schema,
}

impl<'a> PhysicalExprSimplifier<'a> {
    /// The columns of the table.
    pub closed spec fn columns(&self) -> Schema {
        *self.schema
    }

    /// A simplifier for expressions over the columns of `schema`.
    pub fn new(schema: &'a Schema) -> (simplifier: Self)
        ensures
            simplifier.columns() == *schema,
    {
        PhysicalExprSimplifier { schema }
    }

    /// Simplifies an expression.
    pub fn simplify(&self, expr: Arc<Expr>, answers: &Answers) -> (step: Step<Arc<Expr>>)
        ensures
            step == simplified(expr, self.columns(), *answers, MAX_LOOP_COUNT as nat),
    {
        let mut current_expr = expr;
        let mut count: usize = 0;
        while count < MAX_LOOP_COUNT
            invariant
                count <= MAX_LOOP_COUNT,
                simplified(expr, self.columns(), *answers, MAX_LOOP_COUNT as nat) == simplified(
                    current_expr,
                    self.columns(),
                    *answers,
                    (MAX_LOOP_COUNT - count) as nat,
                ),
            decreases MAX_LOOP_COUNT - count,
        {
            count = count + 1;
            match self.transform(&current_expr, answers) {
                Step::Ask(question) => return Step::Ask(question),
                Step::Failed(error) => return Step::Failed(error),
                Step::Done(result) => {
                    if !result.transformed {
                        return Step::Done(result.data);
                    }
                    current_expr = result.data;
                },
            }
        }
        Step::Done(current_expr)
    }

    /// Goes through an expression once, from the leaves up.
    fn transform(&self, expr: &Arc<Expr>, answers: &Answers) -> (step: Step<Transformed>)
        ensures
            step == simplified_once(*expr, self.columns(), *answers),
            step matches Step::Done(result) ==> (result.transformed || result.data == *expr),
        decreases *expr, 1int,
    {
        let children = match self.transform_children(expr, answers) {
            Step::Ask(question) => return Step::Ask(question),
            Step::Failed(error) => return Step::Failed(error),
            Step::Done(children) => children,
        };
        match self.transform_node(children.data, answers) {
            Step::Ask(question) => Step::Ask(question),
            Step::Failed(error) => Step::Failed(error),
            Step::Done(node) => Step::Done(
                Transformed { data: node.data, transformed: children.transformed || node.transformed },
            ),
        }
    }

    /// Simplifies an expression without what is below it.
    fn transform_node(&self, expr: Arc<Expr>, answers: &Answers) -> (step: Step<Transformed>)
        ensures
            step == simplified_node(expr, self.columns(), *answers),
            step matches Step::Done(result) ==> (result.transformed || result.data == expr),
    {
        let negated = simplify_not_expr(expr);
        let compared = match unwrap_cast_in_comparison(negated.data, self.schema, answers) {
            Step::Ask(question) => return Step::Ask(question),
            Step::Failed(error) => return Step::Failed(error),
            Step::Done(compared) => compared,
        };
        match simplify_const_expr_immediate(compared.data, answers) {
            Step::Ask(question) => Step::Ask(question),
            Step::Failed(error) => Step::Failed(error),
            Step::Done(folded) => Step::Done(
                Transformed {
                    data: folded.data,
                    transformed: negated.transformed || compared.transformed || folded.transformed,
                },
            ),
        }
    }

    /// Simplifies the operands of an expression.
    fn transform_children(&self, expr: &Arc<Expr>, answers: &Answers) -> (step: Step<Transformed>)
        ensures
            step == simplified_children(*expr, self.columns(), *answers),
            step matches Step::Done(result) ==> (result.transformed || result.data == *expr),
        decreases *expr, 0int,
    {
        match &**expr {
            Expr::Column { index: _ } => {},
            Expr::Literal { value: _ } => {},
            Expr::Binary { left, op, right } => {
                let left = match self.transform(left, answers) {
                    Step::Ask(question) => return Step::Ask(question),
                    Step::Failed(error) => return Step::Failed(error),
                    Step::Done(left) => left,
                };
                let right = match self.transform(right, answers) {
                    Step::Ask(question) => return Step::Ask(question),
                    Step::Failed(error) => return Step::Failed(error),
                    Step::Done(right) => right,
                };
                if left.transformed || right.transformed {
                    return Step::Done(
                        Transformed { data: binary(left.data, *op, right.data), transformed: true },
                    );
                }
            },
            Expr::Cast { expr, target_field, options } => {
                match self.transform(expr, answers) {
                    Step::Ask(question) => return Step::Ask(question),
                    Step::Failed(error) => return Step::Failed(error),
                    Step::Done(expr) => {
                        if expr.transformed {
                            let data = Arc::new(
                                Expr::Cast {
                                    expr: expr.data,
                                    target_field: clone_field(target_field),
                                    options: options.same_options(),
                                },
                            );
                            return Step::Done(Transformed { data, transformed: true });
                        }
                    },
                }
            },
            Expr::TryCast { expr, target_field } => {
                match self.transform(expr, answers) {
                    Step::Ask(question) => return Step::Ask(question),
                    Step::Failed(error) => return Step::Failed(error),
                    Step::Done(expr) => {
                        if expr.transformed {
                            let data = Arc::new(
                                Expr::TryCast { expr: expr.data, target_field: clone_field(target_field) },
                            );
                            return Step::Done(Transformed { data, transformed: true });
                        }
                    },
                }
            },
            Expr::Not { arg } => {
                match self.transform(arg, answers) {
                    Step::Ask(question) => return Step::Ask(question),
                    Step::Failed(error) => return Step::Failed(error),
                    Step::Done(arg) => {
                        if arg.transformed {
                            return Step::Done(Transformed { data: not(arg.data), transformed: true });
                        }
                    },
                }
            },
            Expr::IsNull { arg } => {
                match self.transform(arg, answers) {
                    Step::Ask(question) => return Step::Ask(question),
                    Step::Failed(error) => return Step::Failed(error),
                    Step::Done(arg) => {
                        if arg.transformed {
                            return Step::Done(Transformed { data: is_null(arg.data), transformed: true });
                        }
                    },
                }
            },
            Expr::IsNotNull { arg } => {
                match self.transform(arg, answers) {
                    Step::Ask(question) => return Step::Ask(question),
                    Step::Failed(error) => return Step::Failed(error),
                    Step::Done(arg) => {
                        if arg.transformed {
                            return Step::Done(Transformed { data: is_not_null(arg.data), transformed: true });
                        }
                    },
                }
            },
            Expr::InList { expr, list, negated } => {
                let expr = match self.transform(expr, answers) {
                    Step::Ask(question) => return Step::Ask(question),
                    Step::Failed(error) => return Step::Failed(error),
                    Step::Done(expr) => expr,
                };
                let list = match self.transform_list(list, answers) {
                    Step::Ask(question) => return Step::Ask(question),
                    Step::Failed(error) => return Step::Failed(error),
                    Step::Done(list) => list,
                };
                if expr.transformed || list.transformed {
                    let data = Arc::new(Expr::InList { expr: expr.data, list: list.data, negated: *negated });
                    return Step::Done(Transformed { data, transformed: true });
                }
            },
            Expr::Other { id, children, data_type, volatile } => {
                match self.transform_list(children, answers) {
                    Step::Ask(question) => return Step::Ask(question),
                    Step::Failed(error) => return Step::Failed(error),
                    Step::Done(children) => {
                        if children.transformed {
                            let data = Arc::new(
                                Expr::Other {
                                    id: *id,
                                    children: children.data,
                                    data_type: clone_data_type(data_type),
                                    volatile: *volatile,
                                },
                            );
                            return Step::Done(Transformed { data, transformed: true });
                        }
                    },
                }
            },
        }
        Step::Done(Transformed { data: expr.clone(), transformed: false })
    }

    /// Simplifies the expressions of a list.
    fn transform_list(&self, list: &ExprList, answers: &Answers) -> (step: Step<TransformedList>)
        ensures
            step == simplified_list(*list, self.columns(), *answers),
            step matches Step::Done(result) ==> (result.transformed || result.data == *list),
        decreases *list, 0int,
    {
        match list {
            ExprList::Nil => Step::Done(TransformedList { data: ExprList::Nil, transformed: false }),
            ExprList::Cons { head, tail } => {
                let head = match self.transform(head, answers) {
                    Step::Ask(question) => return Step::Ask(question),
                    Step::Failed(error) => return Step::Failed(error),
                    Step::Done(head) => head,
                };
                match self.transform_list(tail, answers) {
                    Step::Ask(question) => Step::Ask(question),
                    Step::Failed(error) => Step::Failed(error),
                    Step::Done(tail) => Step::Done(
                        TransformedList {
                            data: ExprList::Cons { head: head.data, tail: Arc::new(tail.data) },
                            transformed: head.transformed || tail.transformed,
                        },
                    ),
                }
            },
        }
    }
}

} // verus!
