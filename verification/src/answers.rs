//! What only the engine can compute: questions, their answers, and steps that wait for one.
//!
//! Which values a cast maps to a literal, and what a constant expression evaluates to, is
//! computed by the engine. Rewrites look the answer up. Where there is none, they stop and
//! hand the question out; with the answer added they can be started again.
use arrow::datatypes::DataType;
use datafusion_common::ScalarValue;
use datafusion_expr_common::operator::Operator;
use std::sync::Arc;
use vstd::prelude::*;

use crate::data_type::{same_data_type, same_scalar};
use crate::expr::{Expr, ExprError};
use crate::operator::same_operator;

verus! {

/// Values that can be told apart.
pub trait Same: Sized {
    /// Whether two values are the same.
    fn is_same(&self, other: &Self) -> (same: bool)
        ensures
            same == (*self == *other),
    ;
}

/// The last value that `entries` gives each key.
pub open spec fn table_map<K, V>(entries: Seq<(K, V)>) -> Map<K, V>
    decreases entries.len(),
{
    if entries.len() == 0 {
        Map::empty()
    } else {
        table_map(entries.drop_last()).insert(entries.last().0, entries.last().1)
    }
}

/// A map from keys to values.
pub struct Table<K, V> {
    entries: Vec<(K, V)>,
}

impl<K, V> View for Table<K, V> {
    type V = Map<K, V>;

    closed spec fn view(&self) -> Map<K, V> {
        table_map(self.entries@)
    }
}

impl<K: Same, V> Table<K, V> {
    /// A table without entries.
    pub fn new() -> (table: Self)
        ensures
            table@ == Map::<K, V>::empty(),
    {
        Table { entries: Vec::new() }
    }

    /// Gives `key` the value `value`.
    pub fn insert(&mut self, key: K, value: V)
        ensures
            final(self)@ == old(self)@.insert(key, value),
    {
        self.entries.push((key, value));
        assert(self.entries@.drop_last() =~= old(self).entries@);
    }

    /// The value of `key`.
    pub fn get(&self, key: &K) -> (value: Option<&V>)
        ensures
            value == if self@.dom().contains(*key) {
                Some(&self@[*key])
            } else {
                None
            },
    {
        let mut rest: usize = self.entries.len();
        assert(self.entries@.take(rest as int) =~= self.entries@);
        while rest > 0
            invariant
                rest <= self.entries@.len(),
                self@.dom().contains(*key) <==> table_map(self.entries@.take(rest as int)).dom().contains(*key),
                self@.dom().contains(*key) ==> self@[*key] == table_map(self.entries@.take(rest as int))[*key],
            decreases rest,
        {
            assert(self.entries@.take(rest as int).drop_last() =~= self.entries@.take(rest - 1));
            rest = rest - 1;
            if self.entries[rest].0.is_same(key) {
                return Some(&self.entries[rest].1);
            }
        }
        None
    }
}

/// Which source values does a cast map to values that meet a comparison with a literal?
#[derive(Debug)]
pub struct PreimageQuestion {
    /// The type of the values that are cast.
    pub source: DataType,
    /// The type that they are cast to.
    pub target: DataType,
    /// The comparison.
    pub op: Operator,
    /// The literal, on the right of the comparison.
    pub literal: ScalarValue,
}

/// The source values that a cast maps to values that meet a comparison with a literal.
#[derive(Debug)]
pub enum PreimageAnswer {
    /// It is not known which they are.
    Unknown,
    /// Those that meet the same comparison with this literal.
    Exact(ScalarValue),
    /// The cast maps those from `lower` on and below `upper` to the literal, those below
    /// `lower` to less, and the others to more.
    Range { lower: ScalarValue, upper: ScalarValue },
    /// The question could not be answered.
    Failed,
}

/// Which is the one source value that a cast maps to a literal?
#[derive(Debug)]
pub struct ExactPreimageQuestion {
    /// The type of the values that are cast.
    pub source: DataType,
    /// The type that they are cast to.
    pub target: DataType,
    /// The literal.
    pub literal: ScalarValue,
}

/// What has to be answered before a rewrite can go on.
#[derive(Debug)]
pub enum Question {
    /// Which source values meet a comparison after a cast.
    Preimage(PreimageQuestion),
    /// Which source value a cast maps to a literal.
    ExactPreimage(ExactPreimageQuestion),
    /// What a constant expression evaluates to.
    Constant(Arc<Expr>),
}

/// The answers that are known.
pub struct Answers {
    /// Which source values meet a comparison after a cast.
    pub preimages: Table<PreimageQuestion, PreimageAnswer>,
    /// Which source value a cast maps to a literal, where that is known.
    pub exact_preimages: Table<ExactPreimageQuestion, Option<ScalarValue>>,
    /// What constant expressions evaluate to; nothing where that fails or is not one value.
    pub constants: Table<Arc<Expr>, Option<ScalarValue>>,
}

/// How far a rewrite came.
#[derive(Debug)]
pub enum Step<T> {
    /// It is done.
    Done(T),
    /// It waits for an answer.
    Ask(Question),
    /// It failed.
    Failed(ExprError),
}

impl Same for Arc<Expr> {
    fn is_same(&self, other: &Arc<Expr>) -> (same: bool) {
        self.same(other)
    }
}

impl Same for PreimageQuestion {
    fn is_same(&self, other: &PreimageQuestion) -> (same: bool) {
        same_data_type(&self.source, &other.source) && same_data_type(&self.target, &other.target) && same_operator(
            self.op,
            other.op,
        ) && same_scalar(&self.literal, &other.literal)
    }
}

impl Same for ExactPreimageQuestion {
    fn is_same(&self, other: &ExactPreimageQuestion) -> (same: bool) {
        same_data_type(&self.source, &other.source) && same_data_type(&self.target, &other.target) && same_scalar(
            &self.literal,
            &other.literal,
        )
    }
}

impl Answers {
    /// No answers.
    pub fn new() -> (answers: Answers)
        ensures
            answers.preimages@ == Map::<PreimageQuestion, PreimageAnswer>::empty(),
            answers.exact_preimages@ == Map::<ExactPreimageQuestion, Option<ScalarValue>>::empty(),
            answers.constants@ == Map::<Arc<Expr>, Option<ScalarValue>>::empty(),
    {
        Answers { preimages: Table::new(), exact_preimages: Table::new(), constants: Table::new() }
    }
}

} // verus!
