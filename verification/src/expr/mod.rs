//! Expressions over the columns of a table.
use arrow::datatypes::{DataType, Field, Schema};
use arrow::util::display::FormatOptions;
use datafusion_common::ScalarValue;
use datafusion_expr_common::operator::Operator;
use std::sync::Arc;
use vstd::prelude::*;

use crate::data_type::{
    boolean_data_type, boolean_type, clone_data_type, clone_format, default_format, field_data_type,
    field_type, is_default_format, same_data_type, same_field, same_format, same_scalar,
    scalar_data_type, scalar_type, schema_column_type, schema_types,
};
use crate::operator::{gives_boolean, same_operator};
use crate::type_shape::{binary_result_type, result_type};

pub mod eval;
pub mod laws;

verus! {

/// How a cast is carried out.
#[derive(Debug)]
pub struct CastOptions {
    /// A value that cannot be cast becomes null; otherwise it is an error.
    pub safe: bool,
    /// How values are written as text.
    pub format_options: FormatOptions<'static>,
}

impl CastOptions {
    /// The options that a cast has where none are given.
    pub open spec fn default_options(self) -> bool {
        !self.safe && default_format(self.format_options)
    }

    /// Whether these are the options that a cast has where none are given.
    pub fn is_default(&self) -> (default: bool)
        ensures
            default == self.default_options(),
    {
        !self.safe && is_default_format(&self.format_options)
    }

    /// The same options.
    pub fn same_options(&self) -> (same: CastOptions)
        ensures
            same == *self,
    {
        CastOptions { safe: self.safe, format_options: clone_format(&self.format_options) }
    }
}

/// An expression over the columns of a table.
#[derive(Debug)]
pub enum Expr {
    /// The column at `index`.
    Column { index: usize },
    /// A constant.
    Literal { value: ScalarValue },
    /// `left op right`.
    Binary { left: Arc<Expr>, op: Operator, right: Arc<Expr> },
    /// `CAST(expr AS target_field)`.
    Cast { expr: Arc<Expr>, target_field: Field, options: CastOptions },
    /// `TRY_CAST(expr AS target_field)`: a value that cannot be cast becomes null.
    TryCast { expr: Arc<Expr>, target_field: Field },
    /// `NOT arg`.
    Not { arg: Arc<Expr> },
    /// `arg IS NULL`.
    IsNull { arg: Arc<Expr> },
    /// `arg IS NOT NULL`.
    IsNotNull { arg: Arc<Expr> },
    /// `expr IN (list)`, or `expr NOT IN (list)`.
    InList { expr: Arc<Expr>, list: ExprList, negated: bool },
    /// An expression of another kind, found again by `id`. One that is volatile can give
    /// another result each time.
    Other { id: u64, children: ExprList, data_type: DataType, volatile: bool },
}

/// A list of expressions.
#[derive(Debug)]
pub enum ExprList {
    Nil,
    Cons { head: Arc<Expr>, tail: Arc<ExprList> },
}

/// Why an expression has no data type, or cannot be rewritten.
#[derive(Clone, Copy, Debug)]
pub enum ExprError {
    /// The schema has no such column.
    UnknownColumn { index: usize },
    /// The operator does not take operands of these types.
    IncompatibleTypes { op: Operator },
    /// The values that a cast maps to a literal could not be computed.
    PreimageFailed,
    /// A cast was expected.
    ExpectedCast,
    /// A literal was expected.
    ExpectedLiteral,
    /// A comparison was expected.
    ExpectedComparison,
    /// No predicate without the cast is known.
    NoPreimage,
}

/// An expression, and whether it differs from the one it was made of.
#[derive(Debug)]
pub struct Transformed {
    pub data: Arc<Expr>,
    pub transformed: bool,
}

/// `left op right`.
pub open spec fn binary_of(left: Arc<Expr>, op: Operator, right: Arc<Expr>) -> Arc<Expr> {
    Arc::new(Expr::Binary { left, op, right })
}

/// A constant.
pub open spec fn literal_of(value: ScalarValue) -> Arc<Expr> {
    Arc::new(Expr::Literal { value })
}

/// `arg IS NULL`.
pub open spec fn is_null_of(arg: Arc<Expr>) -> Arc<Expr> {
    Arc::new(Expr::IsNull { arg })
}

/// `arg IS NOT NULL`.
pub open spec fn is_not_null_of(arg: Arc<Expr>) -> Arc<Expr> {
    Arc::new(Expr::IsNotNull { arg })
}

/// `NOT arg`.
pub open spec fn not_of(arg: Arc<Expr>) -> Arc<Expr> {
    Arc::new(Expr::Not { arg })
}

/// `left op right`.
pub fn binary(left: Arc<Expr>, op: Operator, right: Arc<Expr>) -> (expr: Arc<Expr>)
    ensures
        expr == binary_of(left, op, right),
{
    Arc::new(Expr::Binary { left, op, right })
}

/// A constant.
pub fn lit(value: ScalarValue) -> (expr: Arc<Expr>)
    ensures
        expr == literal_of(value),
{
    Arc::new(Expr::Literal { value })
}

/// `arg IS NULL`.
pub fn is_null(arg: Arc<Expr>) -> (expr: Arc<Expr>)
    ensures
        expr == is_null_of(arg),
{
    Arc::new(Expr::IsNull { arg })
}

/// `arg IS NOT NULL`.
pub fn is_not_null(arg: Arc<Expr>) -> (expr: Arc<Expr>)
    ensures
        expr == is_not_null_of(arg),
{
    Arc::new(Expr::IsNotNull { arg })
}

/// `NOT arg`.
pub fn not(arg: Arc<Expr>) -> (expr: Arc<Expr>)
    ensures
        expr == not_of(arg),
{
    Arc::new(Expr::Not { arg })
}

/// The data type of an expression.
pub open spec fn type_of(expr: Expr, schema: Schema) -> Result<DataType, ExprError>
    decreases expr,
{
    match expr {
        Expr::Column { index } => if index < schema_types(schema).len() {
            Ok(schema_types(schema)[index as int])
        } else {
            Err(ExprError::UnknownColumn { index })
        },
        Expr::Literal { value } => Ok(scalar_type(value)),
        Expr::Binary { left, op, right } => match type_of(*left, schema) {
            Err(error) => Err(error),
            Ok(left_type) => match type_of(*right, schema) {
                Err(error) => Err(error),
                Ok(right_type) => match result_type(left_type, op, right_type) {
                    None => Err(ExprError::IncompatibleTypes { op }),
                    Some(result) => if gives_boolean(op) {
                        Ok(boolean_type())
                    } else {
                        Ok(result)
                    },
                },
            },
        },
        Expr::Cast { expr, target_field, options } => Ok(field_type(target_field)),
        Expr::TryCast { expr, target_field } => Ok(field_type(target_field)),
        Expr::Not { arg } => Ok(boolean_type()),
        Expr::IsNull { arg } => Ok(boolean_type()),
        Expr::IsNotNull { arg } => Ok(boolean_type()),
        Expr::InList { expr, list, negated } => Ok(boolean_type()),
        Expr::Other { id, children, data_type, volatile } => Ok(data_type),
    }
}

/// The expressions of a list, in order.
pub open spec fn list_items(list: ExprList) -> Seq<Expr>
    decreases list,
{
    match list {
        ExprList::Nil => Seq::empty(),
        ExprList::Cons { head, tail } => seq![*head] + list_items(*tail),
    }
}

impl ExprList {
    /// The list of the expressions of `items`.
    pub fn from_vec(items: Vec<Arc<Expr>>) -> (list: ExprList)
        ensures
            list_items(list) == items@.map_values(|item: Arc<Expr>| *item),
    {
        let mut items = items;
        let ghost all = items@;
        let mut list = ExprList::Nil;
        assert(list_items(list) =~= all.skip(all.len() as int).map_values(|item: Arc<Expr>| *item));
        while items.len() > 0
            invariant
                items@.len() <= all.len(),
                items@ == all.take(items@.len() as int),
                list_items(list) == all.skip(items@.len() as int).map_values(|item: Arc<Expr>| *item),
            decreases items@.len(),
        {
            let ghost rest = all.skip(items@.len() as int);
            if let Some(head) = items.pop() {
                list = ExprList::Cons { head, tail: Arc::new(list) };
                assert(all.skip(items@.len() as int) =~= seq![head] + rest);
                assert(list_items(list) =~= all.skip(items@.len() as int).map_values(|item: Arc<Expr>| *item));
            }
        }
        assert(all.skip(0) =~= all);
        list
    }

    /// The expressions of the list, in order.
    pub fn to_vec(&self) -> (items: Vec<Arc<Expr>>)
        ensures
            items@.map_values(|item: Arc<Expr>| *item) == list_items(*self),
    {
        let mut items: Vec<Arc<Expr>> = Vec::new();
        let mut rest = self;
        assert(items@.map_values(|item: Arc<Expr>| *item) + list_items(*rest) =~= list_items(*self));
        loop
            invariant_except_break
                items@.map_values(|item: Arc<Expr>| *item) + list_items(*rest) == list_items(*self),
            ensures
                items@.map_values(|item: Arc<Expr>| *item) == list_items(*self),
            decreases *rest,
        {
            match rest {
                ExprList::Nil => {
                    assert(items@.map_values(|item: Arc<Expr>| *item) =~= list_items(*self));
                    break;
                },
                ExprList::Cons { head, tail } => {
                    let ghost before = items@.map_values(|item: Arc<Expr>| *item);
                    items.push(head.clone());
                    assert(items@.map_values(|item: Arc<Expr>| *item) =~= before + seq![**head]);
                    assert(before + (seq![**head] + list_items(**tail)) =~= (before + seq![**head]) + list_items(
                        **tail,
                    ));
                    rest = tail;
                },
            }
        }
        items
    }

    /// Whether two lists are the same.
    fn same(&self, other: &ExprList) -> (same: bool)
        ensures
            same == (*self == *other),
        decreases self,
    {
        match (self, other) {
            (ExprList::Nil, ExprList::Nil) => true,
            (
                ExprList::Cons { head: left_head, tail: left_tail },
                ExprList::Cons { head: right_head, tail: right_tail },
            ) => left_head.same(right_head) && left_tail.same(right_tail),
            _ => false,
        }
    }
}

impl Expr {
    /// The data type of the expression over the columns of `schema`.
    pub fn data_type(&self, schema: &Schema) -> (data_type: Result<DataType, ExprError>)
        ensures
            data_type == type_of(*self, *schema),
        decreases self,
    {
        match self {
            Expr::Column { index } => match schema_column_type(schema, *index) {
                Some(data_type) => Ok(data_type),
                None => Err(ExprError::UnknownColumn { index: *index }),
            },
            Expr::Literal { value } => Ok(scalar_data_type(value)),
            Expr::Binary { left, op, right } => {
                let left_type = match left.data_type(schema) {
                    Ok(left_type) => left_type,
                    Err(error) => return Err(error),
                };
                let right_type = match right.data_type(schema) {
                    Ok(right_type) => right_type,
                    Err(error) => return Err(error),
                };
                match binary_result_type(&left_type, *op, &right_type) {
                    Some(data_type) => Ok(data_type),
                    None => Err(ExprError::IncompatibleTypes { op: *op }),
                }
            },
            Expr::Cast { expr: _, target_field, options: _ } => Ok(field_data_type(target_field)),
            Expr::TryCast { expr: _, target_field } => Ok(field_data_type(target_field)),
            Expr::Not { arg: _ } => Ok(boolean_data_type()),
            Expr::IsNull { arg: _ } => Ok(boolean_data_type()),
            Expr::IsNotNull { arg: _ } => Ok(boolean_data_type()),
            Expr::InList { expr: _, list: _, negated: _ } => Ok(boolean_data_type()),
            Expr::Other { id: _, children: _, data_type, volatile: _ } => Ok(clone_data_type(data_type)),
        }
    }

    /// Whether two expressions are the same.
    pub fn same(&self, other: &Expr) -> (same: bool)
        ensures
            same == (*self == *other),
        decreases self,
    {
        match (self, other) {
            (Expr::Column { index: left }, Expr::Column { index: right }) => *left == *right,
            (Expr::Literal { value: left }, Expr::Literal { value: right }) => same_scalar(left, right),
            (
                Expr::Binary { left: left_1, op: op_1, right: right_1 },
                Expr::Binary { left: left_2, op: op_2, right: right_2 },
            ) => left_1.same(left_2) && same_operator(*op_1, *op_2) && right_1.same(right_2),
            (
                Expr::Cast { expr: expr_1, target_field: field_1, options: options_1 },
                Expr::Cast { expr: expr_2, target_field: field_2, options: options_2 },
            ) => expr_1.same(expr_2) && same_field(field_1, field_2) && options_1.safe == options_2.safe
                && same_format(&options_1.format_options, &options_2.format_options),
            (
                Expr::TryCast { expr: expr_1, target_field: field_1 },
                Expr::TryCast { expr: expr_2, target_field: field_2 },
            ) => expr_1.same(expr_2) && same_field(field_1, field_2),
            (Expr::Not { arg: left }, Expr::Not { arg: right }) => left.same(right),
            (Expr::IsNull { arg: left }, Expr::IsNull { arg: right }) => left.same(right),
            (Expr::IsNotNull { arg: left }, Expr::IsNotNull { arg: right }) => left.same(right),
            (
                Expr::InList { expr: expr_1, list: list_1, negated: negated_1 },
                Expr::InList { expr: expr_2, list: list_2, negated: negated_2 },
            ) => expr_1.same(expr_2) && list_1.same(list_2) && *negated_1 == *negated_2,
            (
                Expr::Other { id: id_1, children: children_1, data_type: type_1, volatile: volatile_1 },
                Expr::Other { id: id_2, children: children_2, data_type: type_2, volatile: volatile_2 },
            ) => *id_1 == *id_2 && children_1.same(children_2) && same_data_type(type_1, type_2) && *volatile_1
                == *volatile_2,
            _ => false,
        }
    }
}

} // verus!
