//! What the columns of group keys have in common.
use arrow::array::{ArrayData, BooleanBufferBuilder};
use arrow::datatypes::DataType;
use vstd::prelude::*;

use crate::group_values::array::{array_contents, array_of, builder_bits};
use crate::group_values::key_type::KeyType;

verus! {

/// Why a value could not be appended to a column.
#[derive(Clone, Copy, Debug, PartialEq, Eq, Structural)]
pub enum GroupError {
    /// The keys of a dictionary of this type cannot number that many distinct values.
    KeyOverflow { key_type: KeyType, distinct: usize },
    /// There is no memory for the groups.
    OutOfMemory,
    /// The column does not take the value.
    Rejected,
}

/// The first rows of each side, as many as both sides have.
pub open spec fn paired(lhs_rows: Seq<usize>, rhs_rows: Seq<usize>) -> nat {
    if lhs_rows.len() <= rhs_rows.len() {
        lhs_rows.len()
    } else {
        rhs_rows.len()
    }
}

/// `bits`, each cleared where the groups and the rows of its pair differ.
pub open spec fn narrowed(
    bits: Seq<bool>,
    groups: Seq<Option<int>>,
    lhs_rows: Seq<usize>,
    rows: Seq<Option<int>>,
    rhs_rows: Seq<usize>,
) -> Seq<bool> {
    Seq::new(
        bits.len(),
        |i: int|
            bits[i] && (i < paired(lhs_rows, rhs_rows) ==> groups[lhs_rows[i] as int] == rows[rhs_rows[i] as int]),
    )
}

/// A comparison clears bits and sets none: it never turns an earlier difference into an
/// equality, and leaves the bits behind the pairs as they are.
pub proof fn law_comparisons_only_clear_bits(
    bits: Seq<bool>,
    groups: Seq<Option<int>>,
    lhs_rows: Seq<usize>,
    rows: Seq<Option<int>>,
    rhs_rows: Seq<usize>,
)
    ensures
        narrowed(bits, groups, lhs_rows, rows, rhs_rows).len() == bits.len(),
        forall|i: int|
            0 <= i < bits.len() && !#[trigger] bits[i] ==> !narrowed(bits, groups, lhs_rows, rows, rhs_rows)[i],
        forall|i: int|
            paired(lhs_rows, rhs_rows) <= i < bits.len() ==> narrowed(bits, groups, lhs_rows, rows, rhs_rows)[i]
                == #[trigger] bits[i],
{
}

/// The rows that `rows` number, in that order.
pub open spec fn selected(contents: Seq<Option<int>>, rows: Seq<usize>) -> Seq<Option<int>> {
    Seq::new(rows.len(), |i: int| contents[rows[i] as int])
}

/// A column of group keys: the value, or the null, of each group, in the order in
/// which the groups were first seen.
///
/// A column says of itself what it holds, what it takes and when it can be emptied. One
/// that says nothing can be used all the same, but nothing is known of it.
pub trait GroupColumn: Sized {
    /// The value of each group.
    open spec fn groups(&self) -> Seq<Option<int>> {
        arbitrary()
    }

    /// The data type of the arrays that the column takes and makes.
    open spec fn column_type(&self) -> DataType {
        arbitrary()
    }

    /// The column is in order.
    open spec fn wf(&self) -> bool {
        arbitrary()
    }

    /// A column of this kind that holds all but the last of these values takes the
    /// last one too.
    open spec fn admits(held: Seq<Option<int>>) -> bool {
        arbitrary()
    }

    /// A column of this kind that holds all but the last of these values can fail with this
    /// error on the last one.
    open spec fn fails_with(held: Seq<Option<int>>, error: GroupError) -> bool {
        arbitrary()
    }

    /// All groups can be emitted.
    open spec fn can_build(&self) -> bool {
        arbitrary()
    }

    /// The first `n` groups can be emitted and the others kept.
    open spec fn can_take(&self, n: int) -> bool {
        arbitrary()
    }

    /// Whether group `lhs_row` has the value of row `rhs_row`, null and null being equal.
    fn equal_to(&self, lhs_row: usize, array: &ArrayData, rhs_row: usize) -> (equal: bool)
        requires
            self.wf(),
            array_of(*array, self.column_type()),
            lhs_row < self.groups().len(),
            rhs_row < array_contents(*array).len(),
        ensures
            equal == (self.groups()[lhs_row as int] == array_contents(*array)[rhs_row as int]),
    ;

    /// Appends a group with the value of row `row`. A column that fails may have
    /// appended the group all the same.
    fn append_val(&mut self, array: &ArrayData, row: usize) -> (result: Result<(), GroupError>)
        requires
            old(self).wf(),
            array_of(*array, old(self).column_type()),
            row < array_contents(*array).len(),
        ensures
            final(self).wf(),
            final(self).column_type() == old(self).column_type(),
            final(self).groups().len() <= usize::MAX,
            result is Ok ==> final(self).groups() == old(self).groups().push(
                array_contents(*array)[row as int],
            ),
            result is Err ==> final(self).groups() == old(self).groups() || final(self).groups()
                == old(self).groups().push(array_contents(*array)[row as int]),
            Self::admits(old(self).groups().push(array_contents(*array)[row as int])) ==> result is Ok,
            result matches Err(error) ==> Self::fails_with(
                old(self).groups().push(array_contents(*array)[row as int]),
                error,
            ),
    ;

    /// Clears the bit of each pair of a group and a row that differ.
    fn vectorized_equal_to(
        &self,
        lhs_rows: &[usize],
        array: &ArrayData,
        rhs_rows: &[usize],
        equal_to_results: &mut BooleanBufferBuilder,
    )
        requires
            self.wf(),
            array_of(*array, self.column_type()),
            builder_bits(*old(equal_to_results)).len() >= paired(lhs_rows@, rhs_rows@),
            forall|i: int|
                0 <= i < paired(lhs_rows@, rhs_rows@) ==> #[trigger] lhs_rows@[i] < self.groups().len(),
            forall|i: int|
                0 <= i < paired(lhs_rows@, rhs_rows@) ==> #[trigger] rhs_rows@[i] < array_contents(*array).len(),
        ensures
            builder_bits(*final(equal_to_results)) == narrowed(
                builder_bits(*old(equal_to_results)),
                self.groups(),
                lhs_rows@,
                array_contents(*array),
                rhs_rows@,
            ),
    ;

    /// Appends a group with the value of each of the rows. A column that fails may
    /// have appended the groups of the first of them.
    fn vectorized_append(&mut self, array: &ArrayData, rows: &[usize]) -> (result: Result<(), GroupError>)
        requires
            old(self).wf(),
            array_of(*array, old(self).column_type()),
            forall|i: int| 0 <= i < rows@.len() ==> #[trigger] rows@[i] < array_contents(*array).len(),
        ensures
            final(self).wf(),
            final(self).column_type() == old(self).column_type(),
            result is Ok ==> final(self).groups() == old(self).groups() + selected(
                array_contents(*array),
                rows@,
            ),
            result is Err ==> exists|done: int|
                0 <= done <= rows@.len() && final(self).groups() == old(self).groups() + #[trigger] selected(
                    array_contents(*array),
                    rows@,
                ).take(done),
    ;

    /// The number of groups.
    fn len(&self) -> (len: usize)
        requires
            self.wf(),
        ensures
            len == self.groups().len(),
    ;

    /// The bytes that the column occupies.
    fn size(&self) -> usize
        requires
            self.wf(),
    ;

    /// The values of all groups, as an array.
    fn build(self) -> (array: ArrayData)
        requires
            self.wf(),
            self.can_build(),
        ensures
            array_contents(array) == self.groups(),
            array_of(array, self.column_type()),
    ;

    /// Takes the first `n` groups out, as an array.
    fn take_n(&mut self, n: usize) -> (array: ArrayData)
        requires
            old(self).wf(),
            n <= old(self).groups().len(),
            old(self).can_take(n as int),
        ensures
            array_contents(array) == old(self).groups().take(n as int),
            array_of(array, old(self).column_type()),
            final(self).wf(),
            final(self).groups() == old(self).groups().skip(n as int),
            final(self).column_type() == old(self).column_type(),
    ;
}

/// Rows are selected in the order of their numbers, one for each number.
pub proof fn law_rows_are_selected_in_order(contents: Seq<Option<int>>, rows: Seq<usize>, more: Seq<usize>)
    ensures
        selected(contents, rows).len() == rows.len(),
        forall|i: int| 0 <= i < rows.len() ==> #[trigger] selected(contents, rows)[i] == contents[rows[i] as int],
        selected(contents, rows + more) == selected(contents, rows) + selected(contents, more),
{
    assert(selected(contents, rows + more) =~= selected(contents, rows) + selected(contents, more));
}

/// A comparison keeps the bit of a pair exactly where it was set and the group has the value
/// of the row. There are as many pairs as both sides have rows.
pub proof fn law_comparisons_keep_the_bits_of_equal_pairs(
    bits: Seq<bool>,
    groups: Seq<Option<int>>,
    lhs_rows: Seq<usize>,
    rows: Seq<Option<int>>,
    rhs_rows: Seq<usize>,
)
    ensures
        paired(lhs_rows, rhs_rows) <= lhs_rows.len(),
        paired(lhs_rows, rhs_rows) <= rhs_rows.len(),
        paired(lhs_rows, rhs_rows) == lhs_rows.len() || paired(lhs_rows, rhs_rows) == rhs_rows.len(),
        forall|i: int|
            0 <= i < bits.len() && i < lhs_rows.len() && i < rhs_rows.len() ==> (#[trigger] narrowed(
                bits,
                groups,
                lhs_rows,
                rows,
                rhs_rows,
            )[i] <==> bits[i] && groups[lhs_rows[i] as int] == rows[rhs_rows[i] as int]),
{
}

} // verus!
