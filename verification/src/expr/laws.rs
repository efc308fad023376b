//! What expressions are made of, and which types they have.
use arrow::datatypes::{DataType, Schema};
use datafusion_common::ScalarValue;
use datafusion_expr_common::operator::Operator;
use std::sync::Arc;
use vstd::prelude::*;

use crate::data_type::{boolean_type, default_format, field_type, scalar_type, schema_types};
use crate::expr::{
    binary, is_not_null, is_null, list_items, lit, not, CastOptions, Expr, ExprError, ExprList,
};
use crate::operator::gives_boolean;
use crate::type_shape::{binary_type, in_range};

verus! {

/// The functions that make expressions make what they are named after, of what they are
/// given.
pub proof fn law_expressions_are_made_of_what_is_given(
    left: Arc<Expr>,
    op: Operator,
    right: Arc<Expr>,
    value: ScalarValue,
    expr: Arc<Expr>,
)
    ensures
        call_ensures(binary, (left, op, right), expr) ==> *expr == (Expr::Binary { left, op, right }),
        call_ensures(lit, (value,), expr) ==> *expr == (Expr::Literal { value }),
        call_ensures(not, (left,), expr) ==> *expr == (Expr::Not { arg: left }),
        call_ensures(is_null, (left,), expr) ==> *expr == (Expr::IsNull { arg: left }),
        call_ensures(is_not_null, (left,), expr) ==> *expr == (Expr::IsNotNull { arg: left }),
{
}

/// The options of a cast are those where none are given where it fails on what it cannot
/// cast, and writes values as text the way the engine does by default.
pub proof fn law_default_options(options: CastOptions, default: bool)
    requires
        call_ensures(CastOptions::is_default, (&options,), default),
    ensures
        default <==> !options.safe && default_format(options.format_options),
{
}

/// A list holds its first expression and then those of the rest, so lists with the same
/// expressions in the same order are the same.
pub proof fn law_lists_are_their_expressions(left: &ExprList, right: &ExprList)
    ensures
        list_items(ExprList::Nil).len() == 0,
        forall|head: Arc<Expr>, tail: Arc<ExprList>|
            list_items(#[trigger] cons(head, tail)) == seq![*head] + list_items(*tail),
        list_items(*left) == list_items(*right) <==> *left == *right,
    decreases left,
{
    match (left, right) {
        (ExprList::Cons { head: left_head, tail: left_tail }, ExprList::Cons { head: right_head, tail: right_tail }) => {
            law_lists_are_their_expressions(left_tail, right_tail);
            let (left_items, right_items) = (items_of(left), items_of(right));
            let (left_rest, right_rest) = (items_of(left_tail), items_of(right_tail));
            if left_items == right_items {
                assert(left_items[0] == **left_head && right_items[0] == **right_head);
                assert(left_rest =~= left_items.skip(1));
                assert(right_rest =~= right_items.skip(1));
            }
        },
        (ExprList::Cons { head, tail }, ExprList::Nil) => {
            assert(items_of(left).len() > 0);
        },
        (ExprList::Nil, ExprList::Cons { head, tail }) => {
            assert(items_of(right).len() > 0);
        },
        _ => {},
    }
}

/// The list of `head` and the expressions of `tail`.
pub open spec fn cons(head: Arc<Expr>, tail: Arc<ExprList>) -> ExprList {
    ExprList::Cons { head, tail }
}

spec fn items_of(list: &ExprList) -> Seq<Expr> {
    list_items(*list)
}

/// A list that is made of expressions gives them back.
pub proof fn law_lists_give_back_what_they_are_made_of(
    given: Vec<Arc<Expr>>,
    list: ExprList,
    taken: Vec<Arc<Expr>>,
)
    requires
        call_ensures(ExprList::from_vec, (given,), list),
        call_ensures(ExprList::to_vec, (&list,), taken),
    ensures
        taken@ == given@,
{
    let (left, right) = (
        taken@.map_values(|item: Arc<Expr>| *item),
        given@.map_values(|item: Arc<Expr>| *item),
    );
    assert(left == right);
    assert forall|i: int| 0 <= i < taken@.len() implies taken@[i] == given@[i] by {
        assert(left[i] == *taken@[i] && right[i] == *given@[i]);
    }
    assert(taken@.len() == left.len() && given@.len() == right.len());
    assert(taken@ =~= given@);
}

/// A column has the type that the schema gives it, a literal its own, a cast the one that it
/// casts to, a test is Boolean, and an expression of another kind has the type that it
/// says.
pub proof fn law_expressions_have_the_type_they_give(
    expr: Expr,
    schema: Schema,
    data_type: Result<DataType, ExprError>,
)
    requires
        call_ensures(Expr::data_type, (&expr, &schema), data_type),
    ensures
        expr matches Expr::Column { index } ==> data_type == if index < schema_types(schema).len() {
            Ok::<DataType, ExprError>(schema_types(schema)[index as int])
        } else {
            Err(ExprError::UnknownColumn { index })
        },
        expr matches Expr::Literal { value } ==> data_type == Ok::<DataType, ExprError>(scalar_type(value)),
        expr matches Expr::Cast { expr, target_field, options } ==> data_type == Ok::<DataType, ExprError>(
            field_type(target_field),
        ),
        expr matches Expr::TryCast { expr, target_field } ==> data_type == Ok::<DataType, ExprError>(
            field_type(target_field),
        ),
        expr is Not || expr is IsNull || expr is IsNotNull || expr is InList ==> data_type == Ok::<
            DataType,
            ExprError,
        >(boolean_type()),
        expr matches Expr::Other { id, children, data_type: own_type, volatile } ==> data_type == Ok::<
            DataType,
            ExprError,
        >(own_type),
{
}

/// The type of a binary expression is what the engine gives for its operator and the types
/// of its sides; AND, OR, comparisons and matches of patterns are Boolean. It has none where
/// a side has none, or the engine gives none, or is not asked: that of the left side first.
pub proof fn law_binary_expressions_have_the_type_the_engine_gives(
    left: Arc<Expr>,
    op: Operator,
    right: Arc<Expr>,
    schema: Schema,
    left_type: Result<DataType, ExprError>,
    right_type: Result<DataType, ExprError>,
    data_type: Result<DataType, ExprError>,
)
    requires
        call_ensures(Expr::data_type, (&*left, &schema), left_type),
        call_ensures(Expr::data_type, (&*right, &schema), right_type),
        call_ensures(Expr::data_type, (&Expr::Binary { left, op, right }, &schema), data_type),
    ensures
        match (left_type, right_type) {
            (Err(error), _) => data_type == Err::<DataType, ExprError>(error),
            (_, Err(error)) => data_type == Err::<DataType, ExprError>(error),
            (Ok(left_type), Ok(right_type)) => {
                &&& data_type matches Ok(result) ==> {
                    &&& binary_type(left_type, op, right_type) is Some
                    &&& !gives_boolean(op) ==> binary_type(left_type, op, right_type) == Some(result)
                    &&& gives_boolean(op) ==> result == boolean_type()
                }
                &&& data_type is Err ==> data_type == Err::<DataType, ExprError>(ExprError::IncompatibleTypes { op })
                &&& data_type is Ok <==> in_range(left_type, op, right_type) && binary_type(
                    left_type,
                    op,
                    right_type,
                ) is Some
            },
        },
{
}

} // verus!
