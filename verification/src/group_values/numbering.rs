//! Distinct values, numbered in the order in which they are first seen.
use arrow::array::ArrayData;
use vstd::prelude::*;

use crate::group_values::array::{
    array_contents, array_is_null, array_len, array_type, decoded, keys_in_range,
};
use crate::group_values::group_column::selected;
use crate::type_shape::groupable;

verus! {

/// The distinct values of `values`, in the order in which each occurs first.
pub open spec fn distinct(values: Seq<Option<int>>) -> Seq<Option<int>>
    decreases values.len(),
{
    if values.len() == 0 {
        Seq::empty()
    } else {
        let before = distinct(values.drop_last());
        if before.contains(values.last()) {
            before
        } else {
            before.push(values.last())
        }
    }
}

/// A value is among the distinct values exactly where it is among all of them.
pub proof fn lemma_distinct_contains(values: Seq<Option<int>>, value: Option<int>)
    ensures
        distinct(values).contains(value) <==> values.contains(value),
    decreases values.len(),
{
    if values.len() > 0 {
        let rest = values.drop_last();
        lemma_distinct_contains(rest, value);
        let before = distinct(rest);
        if rest.contains(value) {
            let i = choose|i: int| 0 <= i < rest.len() && rest[i] == value;
            assert(values[i] == value);
            let j = choose|j: int| 0 <= j < before.len() && before[j] == value;
            assert(distinct(values)[j] == value);
        }
        if values.contains(value) && !rest.contains(value) {
            let i = choose|i: int| 0 <= i < values.len() && values[i] == value;
            assert(i == values.len() - 1) by {
                if i < values.len() - 1 {
                    assert(rest[i] == value);
                }
            }
            if !before.contains(value) {
                assert(distinct(values)[before.len() as int] == value);
            }
        }
        if distinct(values).contains(value) && !before.contains(value) {
            let j = choose|j: int| 0 <= j < distinct(values).len() && distinct(values)[j] == value;
            assert(j == before.len() as int) by {
                if j < before.len() {
                    assert(before[j] == value);
                }
            }
            assert(values[values.len() - 1] == value);
        }
    }
}

/// No value occurs twice among the distinct values.
pub proof fn lemma_distinct_no_duplicates(values: Seq<Option<int>>)
    ensures
        distinct(values).no_duplicates(),
    decreases values.len(),
{
    if values.len() > 0 {
        lemma_distinct_no_duplicates(values.drop_last());
    }
}

/// One more value is one more distinct value, or none.
pub proof fn lemma_distinct_push(values: Seq<Option<int>>, value: Option<int>)
    ensures
        distinct(values.push(value)) == if values.contains(value) {
            distinct(values)
        } else {
            distinct(values).push(value)
        },
{
    assert(values.push(value).drop_last() =~= values);
    lemma_distinct_contains(values, value);
}

/// The values of `values` that are not null.
pub open spec fn present(values: Seq<Option<int>>) -> Seq<Option<int>> {
    values.filter(|value: Option<int>| value is Some)
}

/// `values`, or those of them that are not null.
pub open spec fn kept(values: Seq<Option<int>>, keep_null: bool) -> Seq<Option<int>> {
    if keep_null {
        values
    } else {
        present(values)
    }
}

/// One more value is one more value that is not null, or none.
pub proof fn lemma_present_push(values: Seq<Option<int>>, value: Option<int>)
    ensures
        present(values.push(value)) == if value is Some {
            present(values).push(value)
        } else {
            present(values)
        },
{
    reveal(Seq::filter);
    assert(values.push(value).drop_last() =~= values);
}

/// A value that is not null is among those that are not null exactly where it is
/// among all of them, and null is not.
pub proof fn lemma_present_contains(values: Seq<Option<int>>, value: Option<int>)
    ensures
        present(values).contains(value) <==> value is Some && values.contains(value),
    decreases values.len(),
{
    reveal(Seq::filter);
    if values.len() > 0 {
        let rest = values.drop_last();
        assert(values =~= rest.push(values.last()));
        lemma_present_contains(rest, value);
        lemma_present_push(rest, values.last());
        lemma_push_contains(rest, values.last(), value);
        lemma_push_contains(present(rest), values.last(), value);
    }
}

/// Of values that differ, at most one is null.
pub proof fn lemma_present_len(values: Seq<Option<int>>)
    requires
        values.no_duplicates(),
    ensures
        present(values).len() == values.len() - (if values.contains(None) {
            1int
        } else {
            0
        }),
    decreases values.len(),
{
    reveal(Seq::filter);
    if values.len() > 0 {
        let rest = values.drop_last();
        assert(values =~= rest.push(values.last()));
        lemma_present_len(rest);
        lemma_present_push(rest, values.last());
        lemma_push_contains(rest, values.last(), None);
        if rest.contains(None) {
            let i = choose|i: int| 0 <= i < rest.len() && rest[i] is None;
            assert(values[i] is None);
        }
    }
}

/// Of values that differ, those that are not null are all but the null.
pub proof fn lemma_present_remove(values: Seq<Option<int>>)
    requires
        values.no_duplicates(),
    ensures
        !values.contains(None) ==> present(values) == values,
        forall|i: int| 0 <= i < values.len() && #[trigger] values[i] is None ==> present(values) == values.remove(i),
    decreases values.len(),
{
    if values.len() > 0 {
        let rest = values.drop_last();
        assert(values =~= rest.push(values.last()));
        lemma_present_remove(rest);
        lemma_present_push(rest, values.last());
        lemma_push_contains(rest, values.last(), None);
        assert forall|i: int| 0 <= i < values.len() && #[trigger] values[i] is None implies present(values)
            == values.remove(i) by {
            if i < rest.len() {
                assert(rest[i] is None);
                assert(values[i] != values.last());
                assert(values.remove(i) =~= rest.remove(i).push(values.last()));
            } else {
                if rest.contains(None) {
                    let j = choose|j: int| 0 <= j < rest.len() && rest[j] is None;
                    assert(values[j] != values[i]);
                }
                assert(values.remove(i) =~= rest);
            }
        }
        if !values.contains(None) {
            assert(values.last() is Some) by {
                assert(values[values.len() - 1] == values.last());
            }
        }
    } else {
        reveal(Seq::filter);
        assert(present(values) =~= values);
    }
}

/// A value is among some values and one more where it is among them, or is that one.
pub proof fn lemma_push_contains(values: Seq<Option<int>>, last: Option<int>, value: Option<int>)
    ensures
        values.push(last).contains(value) <==> values.contains(value) || value == last,
{
    if values.contains(value) {
        let i = choose|i: int| 0 <= i < values.len() && values[i] == value;
        assert(values.push(last)[i] == value);
    }
    if value == last {
        assert(values.push(last)[values.len() as int] == value);
    }
}

/// Values that are all among others have no more distinct values that are not null.
pub proof fn lemma_part_has_fewer_values(part: Seq<Option<int>>, whole: Seq<Option<int>>)
    requires
        forall|i: int| 0 <= i < part.len() ==> whole.contains(#[trigger] part[i]),
    ensures
        present(distinct(part)).len() <= present(distinct(whole)).len(),
{
    let (some, all) = (present(distinct(part)), present(distinct(whole)));
    lemma_distinct_no_duplicates(part);
    lemma_distinct_no_duplicates(whole);
    lemma_present_no_duplicates(distinct(part));
    lemma_present_no_duplicates(distinct(whole));
    assert forall|value: Option<int>| some.to_set().contains(value) implies #[trigger] all.to_set().contains(value) by {
        lemma_present_contains(distinct(part), value);
        lemma_distinct_contains(part, value);
        lemma_distinct_contains(whole, value);
        lemma_present_contains(distinct(whole), value);
    }
    some.unique_seq_to_set();
    all.unique_seq_to_set();
    vstd::set_lib::lemma_len_subset(some.to_set(), all.to_set());
}

/// Of values that differ, those that are not null differ.
proof fn lemma_present_no_duplicates(values: Seq<Option<int>>)
    requires
        values.no_duplicates(),
    ensures
        present(values).no_duplicates(),
{
    lemma_present_remove(values);
    if values.contains(None) {
        let i = choose|i: int| 0 <= i < values.len() && values[i] is None;
        assert(present(values) == values.remove(i));
    }
}

/// The distinct values of a part come first among the distinct values of the whole.
pub proof fn lemma_distinct_prefix(first: Seq<Option<int>>, second: Seq<Option<int>>)
    ensures
        distinct(first).is_prefix_of(distinct(first + second)),
    decreases second.len(),
{
    if second.len() == 0 {
        assert(first + second =~= first);
    } else {
        lemma_distinct_prefix(first, second.drop_last());
        assert((first + second).drop_last() =~= first + second.drop_last());
    }
}

/// The keys that number the values that are not null in the order in which each occurs
/// first.
pub open spec fn encoded(values: Seq<Option<int>>) -> Seq<Option<int>> {
    Seq::new(
        values.len(),
        |row: int|
            if values[row] is None {
                None
            } else {
                Some(present(distinct(values)).index_of(values[row]))
            },
    )
}

/// There is one way only to number the distinct values that are not null by keys, once
/// they stand in the order in which each occurs first.
pub proof fn law_keys_are_determined(keys: Seq<Option<int>>, values: Seq<Option<int>>)
    requires
        keys.len() == values.len(),
        keys_in_range(keys, present(distinct(values)).len()),
        forall|row: int|
            0 <= row < keys.len() ==> {
                &&& #[trigger] keys[row] is None <==> values[row] is None
                &&& decoded(keys, present(distinct(values)), row) == values[row]
            },
    ensures
        keys == encoded(values),
{
    let numbered = present(distinct(values));
    lemma_distinct_no_duplicates(values);
    lemma_present_no_duplicates(distinct(values));
    assert forall|row: int| 0 <= row < keys.len() implies #[trigger] keys[row] == encoded(values)[row] by {
        if let Some(key) = keys[row] {
            assert(numbered[key] == decoded(keys, numbered, row));
            assert(numbered.contains(values[row]));
        }
    }
    assert(keys =~= encoded(values));
}

/// The slots among `slots[start..end]`, in the order in which each occurs first, and the
/// place of each of them in that order. Slots of nulls are passed over unless `keep_null`.
pub(crate) fn first_seen(
    slots: &Vec<usize>,
    start: usize,
    end: usize,
    values: &ArrayData,
    keep_null: bool,
) -> (numbering: (Vec<Option<usize>>, Vec<usize>))
    requires
        groupable(array_type(*values)),
        start <= end <= slots@.len(),
        forall|i: int| start <= i < end ==> #[trigger] slots@[i] < array_contents(*values).len(),
        forall|i: int, j: int|
            start <= i < end && start <= j < end && array_contents(*values)[#[trigger] slots@[i] as int]
                == array_contents(*values)[#[trigger] slots@[j] as int] ==> slots@[i] == slots@[j],
    ensures
        numbering.0@.len() == array_contents(*values).len(),
        numbering.1@.no_duplicates(),
        forall|k: int|
            0 <= k < numbering.1@.len() ==> #[trigger] numbering.1@[k] < array_contents(*values).len(),
        selected(array_contents(*values), numbering.1@) == kept(
            distinct(selected(array_contents(*values), slots@.subrange(start as int, end as int))),
            keep_null,
        ),
        forall|i: int|
            start <= i < end && (keep_null || array_contents(*values)[#[trigger] slots@[i] as int] is Some) ==> {
                &&& numbering.0@[slots@[i] as int] matches Some(place)
                &&& place < numbering.1@.len()
                &&& numbering.1@[place as int] == slots@[i]
            },
{
    let ghost contents = array_contents(*values);
    let mut old_to_new: Vec<Option<usize>> = Vec::new();
    old_to_new.resize(array_len(values), None);
    let mut new_to_old: Vec<usize> = Vec::new();
    let mut idx: usize = start;
    assert(selected(contents, slots@.subrange(start as int, start as int)) =~= Seq::empty());
    assert(present(Seq::empty()) =~= Seq::empty()) by {
        reveal(Seq::filter);
    }
    assert(selected(contents, new_to_old@) =~= Seq::empty());
    while idx < end
        invariant
            start <= idx <= end <= slots@.len(),
            groupable(array_type(*values)),
            contents == array_contents(*values),
            forall|i: int| start <= i < end ==> #[trigger] slots@[i] < contents.len(),
            forall|i: int, j: int|
                start <= i < end && start <= j < end && contents[#[trigger] slots@[i] as int]
                    == contents[#[trigger] slots@[j] as int] ==> slots@[i] == slots@[j],
            old_to_new@.len() == contents.len(),
            forall|slot: int|
                0 <= slot < contents.len() ==> (#[trigger] old_to_new@[slot] matches Some(place) ==> place
                    < new_to_old@.len() && new_to_old@[place as int] == slot),
            forall|k: int|
                0 <= k < new_to_old@.len() ==> {
                    &&& #[trigger] new_to_old@[k] < contents.len()
                    &&& old_to_new@[new_to_old@[k] as int] matches Some(place)
                    &&& place == k
                },
            forall|i: int|
                start <= i < idx && (keep_null || contents[#[trigger] slots@[i] as int] is Some)
                    ==> old_to_new@[slots@[i] as int] is Some,
            selected(contents, new_to_old@) == kept(
                distinct(selected(contents, slots@.subrange(start as int, idx as int))),
                keep_null,
            ),
        decreases end - idx,
    {
        let old = slots[idx];
        let ghost seen = selected(contents, slots@.subrange(start as int, idx as int));
        let ghost value = contents[old as int];
        proof {
            assert(selected(contents, slots@.subrange(start as int, idx + 1)) =~= seen.push(value));
            lemma_distinct_push(seen, value);
            lemma_distinct_contains(seen, value);
            lemma_present_push(distinct(seen), value);
            lemma_present_contains(distinct(seen), value);
            if seen.contains(value) && (keep_null || value is Some) {
                let i = choose|i: int| 0 <= i < seen.len() && seen[i] == value;
                assert(contents[slots@[start + i] as int] == value);
                assert(slots@[start + i] == slots@[idx as int]);
            }
            if let Some(place) = old_to_new@[old as int] {
                assert(selected(contents, new_to_old@)[place as int] == value);
                assert(kept(distinct(seen), keep_null).contains(value));
            }
        }
        if keep_null || !array_is_null(values, old) {
            if old_to_new[old].is_none() {
                let place = new_to_old.len();
                let ghost before = new_to_old@;
                old_to_new.set(old, Some(place));
                new_to_old.push(old);
                assert(selected(contents, new_to_old@) =~= selected(contents, before).push(value));
            }
        }
        idx = idx + 1;
    }
    assert forall|i: int, j: int| 0 <= i < j < new_to_old@.len() implies new_to_old@[i] != new_to_old@[j] by {
        assert(old_to_new@[new_to_old@[i] as int] != old_to_new@[new_to_old@[j] as int]);
    }
    (old_to_new, new_to_old)
}

/// The distinct values are the values, each once, in the order in which each occurs first:
/// more values behind them change nothing of them, and a value that is new comes last.
pub proof fn law_distinct_values(values: Seq<Option<int>>, more: Seq<Option<int>>, value: Option<int>)
    ensures
        distinct(values).no_duplicates(),
        distinct(values).contains(value) <==> values.contains(value),
        distinct(values).is_prefix_of(distinct(values + more)),
        !values.contains(value) ==> distinct(values.push(value)) == distinct(values).push(value),
        values.contains(value) ==> distinct(values.push(value)) == distinct(values),
{
    lemma_distinct_no_duplicates(values);
    lemma_distinct_contains(values, value);
    lemma_distinct_push(values, value);
    lemma_distinct_prefix(values, more);
}

/// The values that are present are those that are not null, in their order.
pub proof fn law_present_values(values: Seq<Option<int>>, value: Option<int>)
    ensures
        present(Seq::empty()).len() == 0,
        value is Some ==> present(values.push(value)) == present(values).push(value),
        value is None ==> present(values.push(value)) == present(values),
        present(values).contains(value) <==> value is Some && values.contains(value),
{
    lemma_present_push(values, value);
    lemma_present_contains(values, value);
    assert(present(Seq::empty()) =~= Seq::empty()) by {
        reveal(Seq::filter);
    }
}

} // verus!
