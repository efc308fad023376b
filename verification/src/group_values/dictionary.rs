//! Group keys that come dictionary-encoded.
use arrow::array::{ArrayData, BooleanBufferBuilder};
use arrow::datatypes::{DataType, Field};
use std::collections::TryReserveError;
use std::marker::PhantomData;
use vstd::prelude::*;

use crate::data_type::{clone_data_type, field_data_type, field_type};
use crate::group_values::array::{
    array_contents, array_hashes, array_is_null, array_len, array_memory_size, array_of,
    array_slice, array_take, array_type, builder_bits, decoded, dictionary_array,
    dictionary_data_type, dictionary_keys, dictionary_parts, dictionary_type, dictionary_values,
    groupable_array, is_array_of, key_data_type, key_data_type_of, key_seq,
    keys_in_range, null_row, value_hash,
};
use crate::group_values::dedup::{dedup_entries, DedupTable};
use crate::group_values::group_column::{narrowed, paired, selected, GroupColumn, GroupError};
use crate::group_values::key_type::DictionaryKeyType;
use crate::group_values::memory::{
    elements_size, lemma_total_at_least, total, total_size, vec_capacity,
};
use crate::group_values::numbering::{
    distinct, encoded, first_seen, law_keys_are_determined, lemma_distinct_contains, lemma_distinct_no_duplicates,
    lemma_distinct_prefix, lemma_distinct_push, lemma_part_has_fewer_values, lemma_present_len,
    lemma_present_push, lemma_present_remove, lemma_push_contains, present,
};
use crate::type_shape::{groupable, is_groupable};

verus! {

/// The seed of the hashes of group keys.
pub const AGGREGATION_HASH_SEED: u64 = 15395726432021054657;

/// A column of group keys that takes and makes dictionary-encoded arrays with keys of
/// type `K`.
///
/// `inner` holds one slot for each distinct value. Each group has the number of a slot,
/// so groups with the same value share a slot.
pub struct DictionaryGroupValuesColumn<K: DictionaryKeyType, I: GroupColumn> {
    /// The distinct values.
    inner: I,
    /// One null, appended to `inner` for the null group.
    null_array: ArrayData,
    /// The data type of the values.
    value_type: DataType,
    /// The slot of each group.
    group_to_inner: Vec<usize>,
    /// The slot of each distinct value that is not null, by the value's hash.
    value_dedup: DedupTable,
    /// The slot of the null group, once there is one.
    null_inner_slot: Option<usize>,
    /// Scratch space: the slot of each value of a batch.
    val_to_inner: Vec<usize>,
    /// Scratch space: the hash of each value of a batch.
    val_hashes: Vec<u64>,
    _key: PhantomData<K>,
}

/// Slot `slot` can be found again by its value.
pub open spec fn registered(
    slots: Seq<Option<int>>,
    entries: Set<(u64, usize)>,
    null_slot: Option<usize>,
    slot: usize,
) -> bool {
    &&& slot < slots.len()
    &&& match slots[slot as int] {
        Some(value) => entries.contains((value_hash(AGGREGATION_HASH_SEED, value), slot)),
        None => null_slot == Some(slot),
    }
}

/// Some slot has this value and can be found by it.
pub open spec fn known(
    slots: Seq<Option<int>>,
    entries: Set<(u64, usize)>,
    null_slot: Option<usize>,
    value: Option<int>,
) -> bool {
    exists|slot: usize| #[trigger] registered(slots, entries, null_slot, slot) && slots[slot as int] == value
}

/// Every slot can be found by its value.
pub open spec fn all_registered(slots: Seq<Option<int>>, entries: Set<(u64, usize)>, null_slot: Option<usize>) -> bool {
    forall|slot: usize| slot < slots.len() ==> #[trigger] registered(slots, entries, null_slot, slot)
}

/// The entries lead to slots with different values, each under the hash of its value,
/// and the null slot holds null.
pub open spec fn slots_wf(
    slots: Seq<Option<int>>,
    entries: Set<(u64, usize)>,
    null_slot: Option<usize>,
) -> bool {
    &&& forall|entry: (u64, usize)| #[trigger]
        entries.contains(entry) ==> entry.1 < slots.len() && slots[entry.1 as int] is Some && entry.0
            == value_hash(AGGREGATION_HASH_SEED, slots[entry.1 as int]->0)
    &&& forall|left: (u64, usize), right: (u64, usize)| #[trigger]
        entries.contains(left) && #[trigger] entries.contains(right) && slots[left.1 as int]
            == slots[right.1 as int] ==> left.1 == right.1
    &&& null_slot matches Some(slot) ==> slot < slots.len() && slots[slot as int] is None
}

/// Two slots that can be found by one value are one slot.
proof fn lemma_registered_injective(
    slots: Seq<Option<int>>,
    entries: Set<(u64, usize)>,
    null_slot: Option<usize>,
    left: usize,
    right: usize,
)
    requires
        slots_wf(slots, entries, null_slot),
        registered(slots, entries, null_slot, left),
        registered(slots, entries, null_slot, right),
        slots[left as int] == slots[right as int],
    ensures
        left == right,
{
    if let Some(value) = slots[left as int] {
        let hash = value_hash(AGGREGATION_HASH_SEED, value);
        assert(entries.contains((hash, left)) && entries.contains((hash, right)));
    }
}

/// A value that no slot has can be given the next slot.
proof fn lemma_new_value(
    slots: Seq<Option<int>>,
    entries: Set<(u64, usize)>,
    null_slot: Option<usize>,
    value: int,
    slot: usize,
)
    requires
        slots_wf(slots, entries, null_slot),
        slot == slots.len(),
        forall|other: usize| #[trigger]
            registered(slots, entries, null_slot, other) ==> slots[other as int] != Some(value),
    ensures
        slots_wf(
            slots.push(Some(value)),
            entries.insert((value_hash(AGGREGATION_HASH_SEED, value), slot)),
            null_slot,
        ),
        !entries.contains((value_hash(AGGREGATION_HASH_SEED, value), slot)),
{
    let new_slots = slots.push(Some(value));
    let new_entry = (value_hash(AGGREGATION_HASH_SEED, value), slot);
    let new_entries = entries.insert(new_entry);
    assert forall|entry: (u64, usize)| #[trigger] entries.contains(entry) implies new_slots[entry.1 as int]
        == slots[entry.1 as int] && slots[entry.1 as int] != Some(value) by {
        assert(registered(slots, entries, null_slot, entry.1));
    }
    assert forall|left: (u64, usize), right: (u64, usize)| #[trigger]
        new_entries.contains(left) && #[trigger] new_entries.contains(right) && new_slots[left.1 as int]
            == new_slots[right.1 as int] implies left.1 == right.1 by {
        if left != new_entry && right != new_entry {
            assert(entries.contains(left) && entries.contains(right));
        }
    }
}

/// The rows of a batch.
pub open spec fn batch_rows(keys: Seq<Option<usize>>, values: ArrayData) -> Seq<Option<int>> {
    Seq::new(keys.len(), |row: int| decoded(key_seq(keys), array_contents(values), row))
}

/// `bytes` are those of as many elements as the vector has room for, or the largest number
/// where they are more.
spec fn occupies<T>(vec: &Vec<T>, bytes: usize) -> bool {
    exists|capacity: usize| #[trigger]
        call_ensures(vec_capacity::<T>, (vec,), capacity) && bytes == if capacity * core::mem::size_of::<T>()
            <= usize::MAX {
            capacity * core::mem::size_of::<T>()
        } else {
            usize::MAX as int
        }
}

/// Slot `slot` can be compared with row `row`.
spec fn matchable<I: GroupColumn>(inner: &I, slot: usize, array: &ArrayData, row: usize) -> bool {
    &&& inner.wf()
    &&& array_of(*array, inner.column_type())
    &&& slot < inner.groups().len()
    &&& row < array_contents(*array).len()
}

/// Slot `slot` has the value of row `row`.
spec fn matching<I: GroupColumn>(inner: &I, slot: usize, array: &ArrayData, row: usize) -> bool {
    inner.groups()[slot as int] == array_contents(*array)[row as int]
}

impl<K: DictionaryKeyType, I: GroupColumn> DictionaryGroupValuesColumn<K, I> {
    /// The column that holds the distinct values.
    pub closed spec fn store(&self) -> I {
        self.inner
    }

    /// The distinct values, one for each slot.
    pub open spec fn slots(&self) -> Seq<Option<int>> {
        self.store().groups()
    }

    /// The slot of each group.
    pub closed spec fn group_slots(&self) -> Seq<usize> {
        self.group_to_inner@
    }

    /// The slot of the null group.
    pub closed spec fn null_slot(&self) -> Option<usize> {
        self.null_inner_slot
    }

    /// `parts` are the bytes that the parts of the column occupy, as each of them says: the
    /// store, the table of slots, the slots of the groups, the scratch space, the null, and
    /// the column itself.
    pub closed spec fn accounts(&self, parts: Seq<usize>) -> bool {
        &&& parts.len() == 7
        &&& call_ensures(I::size, (&self.inner,), parts[0])
        &&& call_ensures(DedupTable::allocated_size, (&self.value_dedup,), parts[1])
        &&& occupies(&self.group_to_inner, parts[2])
        &&& occupies(&self.val_to_inner, parts[3])
        &&& occupies(&self.val_hashes, parts[4])
        &&& call_ensures(array_memory_size, (&self.null_array,), parts[5])
        &&& parts[6] == core::mem::size_of::<Self>()
    }

    /// The number of slots whose values are numbered by keys.
    pub open spec fn non_null_count(&self) -> int {
        self.slots().len() - (if self.null_slot() is Some {
            1int
        } else {
            0
        })
    }

    /// The data type of the values.
    pub closed spec fn dictionary_value_type(&self) -> DataType {
        self.value_type
    }

    /// Keys of type `K` can number the values that are not null.
    pub open spec fn keys_fit(&self) -> bool {
        K::key_type().fits(self.non_null_count() as nat)
    }

    /// The error of a column whose values the keys cannot number.
    pub open spec fn key_overflow(&self) -> GroupError {
        GroupError::KeyOverflow { key_type: K::key_type(), distinct: self.non_null_count() as usize }
    }

    /// All but the groups is in order.
    spec fn store_wf(&self) -> bool {
        &&& self.inner.wf()
        &&& self.inner.column_type() == self.value_type
        &&& groupable(self.value_type)
        &&& self.inner.groups().len() <= usize::MAX
        &&& array_of(self.null_array, self.value_type)
        &&& array_contents(self.null_array) == seq![None::<int>]
        &&& slots_wf(self.inner.groups(), dedup_entries(self.value_dedup), self.null_inner_slot)
    }

    /// Slot `slot` can be found again by its value.
    #[verifier::inline]
    spec fn has_slot(&self, slot: usize) -> bool {
        registered(self.inner.groups(), dedup_entries(self.value_dedup), self.null_inner_slot, slot)
    }

    /// `slot` is the slot of `value`, or `usize::MAX` where no slot has it.
    spec fn looks_up(&self, slot: usize, value: Option<int>) -> bool {
        if slot == usize::MAX {
            forall|other: usize| #[trigger]
                self.has_slot(other) ==> self.inner.groups()[other as int] != value
        } else {
            self.has_slot(slot) && self.inner.groups()[slot as int] == value
        }
    }

    /// `slot` has this value and can be found by it.
    pub closed spec fn finds(&self, value: Option<int>, slot: usize) -> bool {
        self.has_slot(slot) && self.inner.groups()[slot as int] == value
    }

    /// `self` holds all the slots of `before`, with their values, and finds them.
    pub closed spec fn keeps_slots(&self, before: &Self) -> bool {
        &&& before.inner.groups().is_prefix_of(self.inner.groups())
        &&& dedup_entries(before.value_dedup).subset_of(dedup_entries(self.value_dedup))
        &&& before.null_inner_slot is Some ==> self.null_inner_slot == before.null_inner_slot
    }

    /// Some slot has this value and can be found by it.
    pub closed spec fn knows(&self, value: Option<int>) -> bool {
        known(self.inner.groups(), dedup_entries(self.value_dedup), self.null_inner_slot, value)
    }

    /// `self` is `before`, but that `slot` has `value`, and is new where `before` does not
    /// know the value.
    spec fn gives_slot(&self, before: &Self, slot: usize, value: Option<int>) -> bool {
        &&& self.has_slot(slot)
        &&& self.inner.groups()[slot as int] == value
        &&& if before.knows(value) {
            before.has_slot(slot) && self.inner.groups() == before.inner.groups() && self.null_inner_slot
                == before.null_inner_slot
        } else {
            self.inner.groups() == before.inner.groups().push(value) && slot == before.inner.groups().len()
        }
    }

    /// `self` is `before` after the store failed on a value that `before` does not know. It
    /// can have appended the value all the same, but no slot is found by it.
    spec fn refused(&self, before: &Self, value: Option<int>, error: GroupError) -> bool {
        &&& !before.knows(value)
        &&& !self.knows(value)
        &&& !I::admits(before.inner.groups().push(value))
        &&& I::fails_with(before.inner.groups().push(value), error)
        &&& self.inner.groups() == before.inner.groups() || self.inner.groups() == before.inner.groups().push(value)
        &&& self.null_inner_slot == before.null_inner_slot
    }

    /// `self` is `before` with the first `done` of these values appended, after the store
    /// failed on the next one with this error.
    pub open spec fn stopped(
        &self,
        before: &Self,
        values: Seq<Option<int>>,
        done: int,
        error: GroupError,
    ) -> bool {
        &&& 0 <= done < values.len()
        &&& self.groups() == before.groups() + values.take(done)
        &&& !self.knows(values[done])
        &&& exists|held: Seq<Option<int>>| #[trigger]
            I::fails_with(held.push(values[done]), error) && before.slots().is_prefix_of(held) && (self.slots() == held
                || self.slots() == held.push(values[done])) && (before.tight() ==> held == distinct(
                before.groups() + values.take(done),
            ))
    }

    /// Nothing but slots is new in `self`.
    spec fn only_slots_differ(&self, before: &Self) -> bool {
        &&& self.value_type == before.value_type
        &&& self.group_to_inner@ == before.group_to_inner@
        &&& self.val_to_inner@ == before.val_to_inner@
        &&& self.val_hashes@ == before.val_hashes@
    }

    proof fn lemma_kept_slot(&self, before: &Self, slot: usize)
        requires
            before.has_slot(slot),
            self.keeps_slots(before),
        ensures
            self.has_slot(slot),
            self.inner.groups()[slot as int] == before.inner.groups()[slot as int],
    {
    }

    /// The slot of a value that was seen before.
    fn find_value(&self, dict_values: &ArrayData, val_idx: usize, hash: u64) -> (slot: Option<usize>)
        requires
            self.store_wf(),
            array_of(*dict_values, self.value_type),
            val_idx < array_contents(*dict_values).len(),
            array_contents(*dict_values)[val_idx as int] matches Some(value) && hash == value_hash(
                AGGREGATION_HASH_SEED,
                value,
            ),
        ensures
            slot matches Some(slot) ==> self.has_slot(slot) && self.inner.groups()[slot as int]
                == array_contents(*dict_values)[val_idx as int],
            slot is None ==> forall|other: usize| #[trigger]
                self.has_slot(other) ==> self.inner.groups()[other as int] != array_contents(
                    *dict_values,
                )[val_idx as int],
    {
        let inner = &self.inner;
        let is_match = |entry_hash: u64, slot: usize| -> (is_match: bool)
            requires
                matchable(inner, slot, dict_values, val_idx),
            ensures
                is_match == (entry_hash == hash && matching(inner, slot, dict_values, val_idx)),
            { entry_hash == hash && inner.equal_to(slot, dict_values, val_idx) };
        let slot = self.value_dedup.find(hash, is_match);
        proof {
            if slot is None {
                assert forall|other: usize| #[trigger] self.has_slot(other) implies self.inner.groups()[other as int]
                    != array_contents(*dict_values)[val_idx as int] by {
                    if self.inner.groups()[other as int] == array_contents(*dict_values)[val_idx as int] {
                        assert(dedup_entries(self.value_dedup).contains((hash, other)));
                        assert(false);
                    }
                }
            }
        }
        slot
    }

    /// The slot of a value, which is appended where it was not seen before.
    fn find_or_insert_value(&mut self, dict_values: &ArrayData, val_idx: usize, hash: u64) -> (result: Result<
        usize,
        GroupError,
    >)
        requires
            old(self).store_wf(),
            array_of(*dict_values, old(self).value_type),
            val_idx < array_contents(*dict_values).len(),
            array_contents(*dict_values)[val_idx as int] matches Some(value) && hash == value_hash(
                AGGREGATION_HASH_SEED,
                value,
            ),
        ensures
            final(self).store_wf(),
            final(self).keeps_slots(old(self)),
            final(self).only_slots_differ(old(self)),
            result matches Ok(slot) ==> final(self).gives_slot(
                old(self),
                slot,
                array_contents(*dict_values)[val_idx as int],
            ),
            result matches Err(error) ==> final(self).refused(
                old(self),
                array_contents(*dict_values)[val_idx as int],
                error,
            ),
    {
        match self.find_value(dict_values, val_idx, hash) {
            Some(slot) => Ok(slot),
            None => {
                let slot = self.inner.len();
                match self.inner.append_val(dict_values, val_idx) {
                    Ok(()) => {},
                    Err(error) => {
                        proof {
                            let value = array_contents(*dict_values)[val_idx as int];
                            if self.knows(value) {
                                let other = choose|other: usize| #[trigger]
                                    self.has_slot(other) && self.inner.groups()[other as int] == value;
                                assert(dedup_entries(old(self).value_dedup).contains((hash, other)));
                                assert(old(self).has_slot(other));
                            }
                        }
                        return Err(error);
                    },
                }
                proof {
                    assert forall|other: usize| #[trigger]
                        registered(
                            old(self).inner.groups(),
                            dedup_entries(old(self).value_dedup),
                            old(self).null_inner_slot,
                            other,
                        ) implies old(self).inner.groups()[other as int] != array_contents(
                        *dict_values,
                    )[val_idx as int] by {
                        assert(old(self).has_slot(other));
                    }
                    lemma_new_value(
                        old(self).inner.groups(),
                        dedup_entries(old(self).value_dedup),
                        old(self).null_inner_slot,
                        array_contents(*dict_values)[val_idx as int]->0,
                        slot,
                    );
                }
                self.value_dedup.insert(hash, slot);
                Ok(slot)
            },
        }
    }

    /// The slot of the null group, which is appended where there was none.
    fn find_or_insert_null(&mut self) -> (result: Result<usize, GroupError>)
        requires
            old(self).store_wf(),
        ensures
            final(self).store_wf(),
            final(self).keeps_slots(old(self)),
            final(self).only_slots_differ(old(self)),
            result matches Ok(slot) ==> final(self).gives_slot(old(self), slot, None),
            result matches Err(error) ==> final(self).refused(old(self), None, error),
    {
        if let Some(slot) = self.null_inner_slot {
            assert(self.has_slot(slot));
            return Ok(slot);
        }
        let slot = self.inner.len();
        match self.inner.append_val(&self.null_array, 0) {
            Ok(()) => {},
            Err(error) => {
                return Err(error);
            },
        }
        self.null_inner_slot = Some(slot);
        Ok(slot)
    }

    /// Hashes the values of a batch into the scratch space.
    fn hash_values(&mut self, values: &ArrayData)
        requires
            groupable_array(*values),
        ensures
            *final(self) == (Self { val_hashes: final(self).val_hashes, ..*old(self) }),
            final(self).val_hashes@.len() == array_contents(*values).len(),
            forall|row: int|
                0 <= row < final(self).val_hashes@.len() && array_contents(*values)[row] is Some ==>
                    #[trigger] final(self).val_hashes@[row] == value_hash(
                    AGGREGATION_HASH_SEED,
                    array_contents(*values)[row]->0,
                ),
    {
        self.val_hashes.clear();
        self.val_hashes.resize(array_len(values), 0);
        array_hashes(values, AGGREGATION_HASH_SEED, &mut self.val_hashes);
    }

    /// The slot of each value of a batch, and behind them the slot of null; `usize::MAX`
    /// where there is none.
    fn build_lookup_table(&self, dict_values: &ArrayData, val_hashes: &Vec<u64>) -> (table: Vec<usize>)
        requires
            self.store_wf(),
            array_of(*dict_values, self.value_type),
            val_hashes@.len() == array_contents(*dict_values).len(),
            forall|row: int|
                0 <= row < val_hashes@.len() && array_contents(*dict_values)[row] is Some ==>
                    #[trigger] val_hashes@[row] == value_hash(
                    AGGREGATION_HASH_SEED,
                    array_contents(*dict_values)[row]->0,
                ),
        ensures
            table@.len() == array_contents(*dict_values).len() + 1,
            forall|row: int|
                0 <= row < array_contents(*dict_values).len() ==> self.looks_up(
                    #[trigger] table@[row],
                    array_contents(*dict_values)[row],
                ),
            self.looks_up(table@[array_contents(*dict_values).len() as int], None),
    {
        let num_distinct = array_len(dict_values);
        let mut table: Vec<usize> = Vec::new();
        let null_slot = match self.null_inner_slot {
            Some(slot) => slot,
            None => usize::MAX,
        };
        let mut val_idx: usize = 0;
        while val_idx < num_distinct
            invariant
                self.store_wf(),
                array_of(*dict_values, self.value_type),
                num_distinct == array_contents(*dict_values).len(),
                val_hashes@.len() == num_distinct,
                forall|row: int|
                    0 <= row < val_hashes@.len() && array_contents(*dict_values)[row] is Some ==>
                        #[trigger] val_hashes@[row] == value_hash(
                        AGGREGATION_HASH_SEED,
                        array_contents(*dict_values)[row]->0,
                    ),
                val_idx <= num_distinct,
                table@.len() == val_idx,
                self.looks_up(null_slot, None),
                forall|row: int|
                    0 <= row < val_idx ==> self.looks_up(
                        #[trigger] table@[row],
                        array_contents(*dict_values)[row],
                    ),
            decreases num_distinct - val_idx,
        {
            let slot: usize = if array_is_null(dict_values, val_idx) {
                null_slot
            } else {
                match self.find_value(dict_values, val_idx, val_hashes[val_idx]) {
                    Some(slot) => slot,
                    None => usize::MAX,
                }
            };
            table.push(slot);
            val_idx = val_idx + 1;
        }
        table.push(null_slot);
        table
    }

    /// The keys of a batch number its values.
    spec fn batch_wf(&self, keys: Seq<Option<usize>>, values: ArrayData) -> bool {
        &&& array_of(values, self.value_type)
        &&& keys_in_range(key_seq(keys), array_contents(values).len())
    }

    /// The groups have slots that can be found.
    spec fn groups_wf(&self) -> bool {
        forall|group: int|
            0 <= group < self.group_to_inner@.len() ==> self.has_slot(#[trigger] self.group_to_inner@[group])
    }

    /// Whether slot `lhs_slot` has the value of row `row` of a batch.
    fn slot_equals_row(
        &self,
        lhs_slot: usize,
        dict_keys: &Vec<Option<usize>>,
        dict_values: &ArrayData,
        row: usize,
    ) -> (equal: bool)
        requires
            self.store_wf(),
            self.batch_wf(dict_keys@, *dict_values),
            lhs_slot < self.inner.groups().len(),
            row < dict_keys@.len(),
        ensures
            equal == (self.inner.groups()[lhs_slot as int] == batch_rows(dict_keys@, *dict_values)[row as int]),
    {
        assert(key_seq(dict_keys@)[row as int] is Some <==> dict_keys@[row as int] is Some);
        match dict_keys[row] {
            None => self.inner.equal_to(lhs_slot, &self.null_array, 0),
            Some(val_idx) => {
                if array_is_null(dict_values, val_idx) {
                    self.inner.equal_to(lhs_slot, &self.null_array, 0)
                } else {
                    self.inner.equal_to(lhs_slot, dict_values, val_idx)
                }
            },
        }
    }

    /// Compares pair by pair. This is for fewer pairs than the batch has values, where
    /// a lookup of all its values costs more.
    fn equal_to_per_row(
        &self,
        lhs_rows: &[usize],
        dict_keys: &Vec<Option<usize>>,
        dict_values: &ArrayData,
        rhs_rows: &[usize],
        equal_to_results: &mut BooleanBufferBuilder,
    )
        requires
            self.store_wf(),
            self.groups_wf(),
            self.batch_wf(dict_keys@, *dict_values),
            builder_bits(*old(equal_to_results)).len() >= paired(lhs_rows@, rhs_rows@),
            forall|i: int|
                0 <= i < paired(lhs_rows@, rhs_rows@) ==> #[trigger] lhs_rows@[i] < self.group_to_inner@.len(),
            forall|i: int| 0 <= i < paired(lhs_rows@, rhs_rows@) ==> #[trigger] rhs_rows@[i] < dict_keys@.len(),
        ensures
            builder_bits(*final(equal_to_results)) == narrowed(
                builder_bits(*old(equal_to_results)),
                selected(self.inner.groups(), self.group_to_inner@),
                lhs_rows@,
                batch_rows(dict_keys@, *dict_values),
                rhs_rows@,
            ),
    {
        let num_pairs = if lhs_rows.len() <= rhs_rows.len() {
            lhs_rows.len()
        } else {
            rhs_rows.len()
        };
        let ghost bits = builder_bits(*old(equal_to_results));
        let ghost done = narrowed(
            bits,
            selected(self.inner.groups(), self.group_to_inner@),
            lhs_rows@,
            batch_rows(dict_keys@, *dict_values),
            rhs_rows@,
        );
        let mut idx: usize = 0;
        while idx < num_pairs
            invariant
                self.store_wf(),
                self.groups_wf(),
                self.batch_wf(dict_keys@, *dict_values),
                num_pairs == paired(lhs_rows@, rhs_rows@),
                bits.len() >= num_pairs,
                forall|i: int| 0 <= i < num_pairs ==> #[trigger] lhs_rows@[i] < self.group_to_inner@.len(),
                forall|i: int| 0 <= i < num_pairs ==> #[trigger] rhs_rows@[i] < dict_keys@.len(),
                done == narrowed(
                    bits,
                    selected(self.inner.groups(), self.group_to_inner@),
                    lhs_rows@,
                    batch_rows(dict_keys@, *dict_values),
                    rhs_rows@,
                ),
                idx <= num_pairs,
                builder_bits(*equal_to_results).len() == bits.len(),
                forall|i: int| 0 <= i < idx ==> builder_bits(*equal_to_results)[i] == #[trigger] done[i],
                forall|i: int| idx <= i < bits.len() ==> builder_bits(*equal_to_results)[i] == #[trigger] bits[i],
            decreases num_pairs - idx,
        {
            if equal_to_results.get_bit(idx) {
                let lhs_slot = self.group_to_inner[lhs_rows[idx]];
                if !self.slot_equals_row(lhs_slot, dict_keys, dict_values, rhs_rows[idx]) {
                    equal_to_results.set_bit(idx, false);
                }
            }
            idx = idx + 1;
        }
        assert(builder_bits(*equal_to_results) =~= done);
    }

    /// Compares by slot: each value of the batch is looked up once.
    fn equal_to_by_slot(
        &self,
        lhs_rows: &[usize],
        dict_keys: &Vec<Option<usize>>,
        dict_values: &ArrayData,
        rhs_rows: &[usize],
        equal_to_results: &mut BooleanBufferBuilder,
    )
        requires
            self.store_wf(),
            self.groups_wf(),
            self.batch_wf(dict_keys@, *dict_values),
            builder_bits(*old(equal_to_results)).len() >= paired(lhs_rows@, rhs_rows@),
            forall|i: int|
                0 <= i < paired(lhs_rows@, rhs_rows@) ==> #[trigger] lhs_rows@[i] < self.group_to_inner@.len(),
            forall|i: int| 0 <= i < paired(lhs_rows@, rhs_rows@) ==> #[trigger] rhs_rows@[i] < dict_keys@.len(),
        ensures
            builder_bits(*final(equal_to_results)) == narrowed(
                builder_bits(*old(equal_to_results)),
                selected(self.inner.groups(), self.group_to_inner@),
                lhs_rows@,
                batch_rows(dict_keys@, *dict_values),
                rhs_rows@,
            ),
    {
        let num_distinct = array_len(dict_values);
        let mut val_hashes: Vec<u64> = Vec::new();
        val_hashes.resize(num_distinct, 0);
        array_hashes(dict_values, AGGREGATION_HASH_SEED, &mut val_hashes);
        let lookup = self.build_lookup_table(dict_values, &val_hashes);

        let num_pairs = if lhs_rows.len() <= rhs_rows.len() {
            lhs_rows.len()
        } else {
            rhs_rows.len()
        };
        let ghost bits = builder_bits(*old(equal_to_results));
        let ghost done = narrowed(
            bits,
            selected(self.inner.groups(), self.group_to_inner@),
            lhs_rows@,
            batch_rows(dict_keys@, *dict_values),
            rhs_rows@,
        );
        let mut idx: usize = 0;
        while idx < num_pairs
            invariant
                self.store_wf(),
                self.groups_wf(),
                self.batch_wf(dict_keys@, *dict_values),
                num_distinct == array_contents(*dict_values).len(),
                lookup@.len() == num_distinct + 1,
                forall|row: int|
                    0 <= row < num_distinct ==> self.looks_up(
                        #[trigger] lookup@[row],
                        array_contents(*dict_values)[row],
                    ),
                self.looks_up(lookup@[num_distinct as int], None),
                num_pairs == paired(lhs_rows@, rhs_rows@),
                bits.len() >= num_pairs,
                forall|i: int| 0 <= i < num_pairs ==> #[trigger] lhs_rows@[i] < self.group_to_inner@.len(),
                forall|i: int| 0 <= i < num_pairs ==> #[trigger] rhs_rows@[i] < dict_keys@.len(),
                done == narrowed(
                    bits,
                    selected(self.inner.groups(), self.group_to_inner@),
                    lhs_rows@,
                    batch_rows(dict_keys@, *dict_values),
                    rhs_rows@,
                ),
                idx <= num_pairs,
                builder_bits(*equal_to_results).len() == bits.len(),
                forall|i: int| 0 <= i < idx ==> builder_bits(*equal_to_results)[i] == #[trigger] done[i],
                forall|i: int| idx <= i < bits.len() ==> builder_bits(*equal_to_results)[i] == #[trigger] bits[i],
            decreases num_pairs - idx,
        {
            let row = rhs_rows[idx];
            assert(key_seq(dict_keys@)[row as int] is Some <==> dict_keys@[row as int] is Some);
            let val_idx: usize = match dict_keys[row] {
                Some(val_idx) => val_idx,
                None => num_distinct,
            };
            let lhs_slot = self.group_to_inner[lhs_rows[idx]];
            let rhs_slot = lookup[val_idx];
            assert(self.looks_up(rhs_slot, batch_rows(dict_keys@, *dict_values)[row as int]));
            if rhs_slot == usize::MAX || lhs_slot != rhs_slot {
                proof {
                    assert(self.has_slot(lhs_slot));
                    if rhs_slot != usize::MAX && self.inner.groups()[lhs_slot as int]
                        == self.inner.groups()[rhs_slot as int] {
                        lemma_registered_injective(
                            self.inner.groups(),
                            dedup_entries(self.value_dedup),
                            self.null_inner_slot,
                            lhs_slot,
                            rhs_slot,
                        );
                    }
                }
                equal_to_results.set_bit(idx, false);
            }
            idx = idx + 1;
        }
        assert(builder_bits(*equal_to_results) =~= done);
    }

    /// The value of each group.
    spec fn group_values(&self) -> Seq<Option<int>> {
        selected(self.inner.groups(), self.group_to_inner@)
    }

    /// There is one slot for each distinct value of the groups, in the order in which
    /// each was first seen.
    pub closed spec fn tight(&self) -> bool {
        self.inner.groups() == distinct(self.group_values())
    }

    /// The groups keep their slots and values where slots are only added.
    proof fn lemma_kept_groups(&self, before: &Self)
        requires
            before.groups_wf(),
            self.keeps_slots(before),
            self.group_to_inner@ == before.group_to_inner@,
        ensures
            self.groups_wf(),
            self.group_values() == before.group_values(),
    {
        assert forall|group: int| 0 <= group < self.group_to_inner@.len() implies self.has_slot(
            #[trigger] self.group_to_inner@[group],
        ) && self.inner.groups()[self.group_to_inner@[group] as int]
            == before.inner.groups()[self.group_to_inner@[group] as int] by {
            self.lemma_kept_slot(before, before.group_to_inner@[group]);
        }
        assert(self.group_values() =~= before.group_values());
    }

    /// A column that was tight before a value was given a slot, and the slot to a group,
    /// is tight.
    proof fn lemma_stays_tight(&self, before: &Self, slot: usize, value: Option<int>)
        requires
            before.store_wf(),
            before.groups_wf(),
            before.tight(),
            self.store_wf(),
            self.keeps_slots(before),
            self.gives_slot(before, slot, value),
            self.group_to_inner@ == before.group_to_inner@.push(slot),
        ensures
            self.tight(),
    {
        let groups = before.group_values();
        assert(self.group_values() =~= groups.push(value)) by {
            assert forall|group: int| 0 <= group < groups.len() implies self.group_values()[group] == groups[group] by {
                self.lemma_kept_slot(before, before.group_to_inner@[group]);
            }
        }
        lemma_distinct_push(groups, value);
        if self.inner.groups() == before.inner.groups() {
            lemma_distinct_contains(groups, value);
            assert(distinct(groups)[slot as int] == value);
        } else if groups.contains(value) {
            let group = choose|group: int| 0 <= group < groups.len() && groups[group] == value;
            assert(before.has_slot(before.group_to_inner@[group]));
            assert(false);
        }
    }

    /// An error where keys of this type cannot number the values that are not null.
    pub fn check_key_overflow(&self) -> (result: Result<(), GroupError>)
        requires
            self.wf(),
        ensures
            result == if self.keys_fit() {
                Ok::<(), GroupError>(())
            } else {
                Err(self.key_overflow())
            },
    {
        let slots = self.inner.len();
        let non_null_count: usize = match self.null_inner_slot {
            Some(_) => slots - 1,
            None => slots,
        };
        if !K::data_type().key_type_fits(non_null_count) {
            return Err(GroupError::KeyOverflow { key_type: K::data_type(), distinct: non_null_count });
        }
        Ok(())
    }

    /// The scratch space holds the hashes of a batch and the slots of those of its values
    /// that were looked up.
    spec fn scratch_wf(&self, values: ArrayData) -> bool {
        &&& self.val_hashes@.len() == array_contents(values).len()
        &&& forall|row: int|
            0 <= row < self.val_hashes@.len() && array_contents(values)[row] is Some ==>
                #[trigger] self.val_hashes@[row] == value_hash(
                AGGREGATION_HASH_SEED,
                array_contents(values)[row]->0,
            )
        &&& self.val_to_inner@.len() == array_contents(values).len()
        &&& forall|row: int|
            0 <= row < self.val_to_inner@.len() && #[trigger] self.val_to_inner@[row] != usize::MAX
                ==> self.has_slot(self.val_to_inner@[row]) && self.inner.groups()[self.val_to_inner@[row] as int]
                == array_contents(values)[row]
    }

    /// The slot of a row of a batch. Each value of the batch is looked up once.
    fn batch_slot(&mut self, dict_keys: &Vec<Option<usize>>, dict_values: &ArrayData, row: usize) -> (result: Result<
        usize,
        GroupError,
    >)
        requires
            old(self).store_wf(),
            old(self).batch_wf(dict_keys@, *dict_values),
            old(self).scratch_wf(*dict_values),
            row < dict_keys@.len(),
        ensures
            final(self).store_wf(),
            final(self).scratch_wf(*dict_values),
            final(self).keeps_slots(old(self)),
            final(self).value_type == old(self).value_type,
            final(self).group_to_inner@ == old(self).group_to_inner@,
            result matches Ok(slot) ==> final(self).gives_slot(
                old(self),
                slot,
                batch_rows(dict_keys@, *dict_values)[row as int],
            ),
            result matches Err(error) ==> final(self).refused(
                old(self),
                batch_rows(dict_keys@, *dict_values)[row as int],
                error,
            ),
    {
        assert(key_seq(dict_keys@)[row as int] is Some <==> dict_keys@[row as int] is Some);
        match dict_keys[row] {
            None => self.find_or_insert_null(),
            Some(val_idx) => {
                let known = self.val_to_inner[val_idx];
                if known != usize::MAX {
                    return Ok(known);
                }
                // A key that is not null can still number a null value.
                let slot = if array_is_null(dict_values, val_idx) {
                    self.find_or_insert_null()
                } else {
                    self.find_or_insert_value(dict_values, val_idx, self.val_hashes[val_idx])
                };
                match slot {
                    Ok(slot) => {
                        self.val_to_inner[val_idx] = slot;
                        Ok(slot)
                    },
                    Err(error) => Err(error),
                }
            },
        }
    }
}

/// What a value takes of the keys: none where it is null.
pub open spec fn key_of(slot: int, null_slot: Option<usize>) -> Option<int> {
    match null_slot {
        None => Some(slot),
        Some(null_slot) => if slot == null_slot {
            None
        } else if slot < null_slot {
            Some(slot)
        } else {
            Some(slot - 1)
        },
    }
}

/// `contents` without the slot of null.
pub open spec fn without_null(contents: Seq<Option<int>>, null_slot: Option<usize>) -> Seq<Option<int>> {
    match null_slot {
        None => contents,
        Some(null_slot) => contents.remove(null_slot as int),
    }
}

impl<K: DictionaryKeyType, I: GroupColumn> DictionaryGroupValuesColumn<K, I> {
    /// A column without groups that keeps the distinct values in `inner`. `field`
    /// describes the values.
    pub fn new(inner: I, field: &Field) -> (column: Self)
        requires
            inner.wf(),
            inner.column_type() == field_type(*field),
            groupable(field_type(*field)),
        ensures
            column.wf(),
            column.groups() == Seq::<Option<int>>::empty(),
            column.dictionary_value_type() == field_type(*field),
            column.slots() == inner.groups(),
            column.null_slot() is None,
            inner.groups().len() == 0 ==> column.tight() && column.keys_fit(),
    {
        let value_type = field_data_type(field);
        let null_array = null_row(&value_type);
        let slots = inner.len();
        let column = DictionaryGroupValuesColumn {
            inner,
            null_array,
            value_type,
            group_to_inner: Vec::new(),
            value_dedup: DedupTable::new(),
            null_inner_slot: None,
            val_to_inner: Vec::new(),
            val_hashes: Vec::new(),
            _key: PhantomData,
        };
        assert(column.group_values() =~= Seq::<Option<int>>::empty());
        assert(slots == 0 ==> column.inner.groups() =~= distinct(column.group_values()));
        column
    }

    /// Like [`Self::new`], but for any field: there is a column only for values of a data
    /// type that can be grouped.
    pub fn try_new(inner: I, field: &Field) -> (column: Option<Self>)
        requires
            inner.wf(),
            inner.column_type() == field_type(*field),
        ensures
            column is Some <==> groupable(field_type(*field)),
            column matches Some(column) ==> {
                &&& column.wf()
                &&& column.groups() == Seq::<Option<int>>::empty()
                &&& column.dictionary_value_type() == field_type(*field)
                &&& column.slots() == inner.groups()
                &&& column.null_slot() is None
                &&& inner.groups().len() == 0 ==> column.tight() && column.keys_fit()
            },
    {
        if is_groupable(&field_data_type(field)) {
            Some(Self::new(inner, field))
        } else {
            None
        }
    }

    /// Whether the column takes arrays of the type of `array`.
    pub fn accepts(&self, array: &ArrayData) -> (accepts: bool)
        requires
            self.wf(),
        ensures
            accepts == array_of(*array, self.column_type()),
    {
        let column_type = dictionary_data_type(key_data_type(K::data_type()), clone_data_type(&self.value_type));
        is_array_of(array, &column_type)
    }

    /// Two groups share a slot exactly where they have the same value; so all groups
    /// without a value share one.
    pub proof fn law_groups_share_slots(&self, left: int, right: int)
        requires
            self.wf(),
            0 <= left < self.groups().len(),
            0 <= right < self.groups().len(),
        ensures
            self.group_slots().len() == self.groups().len(),
            self.groups()[left] == self.slots()[self.group_slots()[left] as int],
            self.group_slots()[left] == self.group_slots()[right] <==> self.groups()[left] == self.groups()[right],
            self.null_slot() == Some(self.group_slots()[left]) <==> self.groups()[left] is None,
            self.finds(self.groups()[left], self.group_slots()[left]),
    {
        assert(self.has_slot(self.group_to_inner@[left]));
        assert(self.has_slot(self.group_to_inner@[right]));
        if self.groups()[left] == self.groups()[right] {
            lemma_registered_injective(
                self.inner.groups(),
                dedup_entries(self.value_dedup),
                self.null_inner_slot,
                self.group_to_inner@[left],
                self.group_to_inner@[right],
            );
        }
    }

    /// A value that was found or appended once has the same slot ever after, from whatever
    /// array it comes: it is not appended again.
    pub proof fn law_values_keep_their_slot(&self, before: &Self, value: Option<int>, first: usize, second: usize)
        requires
            before.finds(value, first),
            self.wf(),
            self.keeps_slots(before),
            self.finds(value, second),
        ensures
            first == second,
            self.knows(value),
            self.slots()[first as int] == value,
    {
        self.lemma_kept_slot(before, first);
        lemma_registered_injective(
            self.inner.groups(),
            dedup_entries(self.value_dedup),
            self.null_inner_slot,
            first,
            second,
        );
    }

    /// Slots that are kept from one time to the next are kept throughout.
    pub proof fn law_slots_are_kept_throughout(&self, between: &Self, before: &Self)
        requires
            between.keeps_slots(before),
            self.keeps_slots(between),
        ensures
            self.keeps_slots(before),
    {
    }

    /// Keys that cannot number the values of a column cannot number those of one that has
    /// as many: once keys have run out, every further append fails.
    pub proof fn law_keys_stay_run_out(&self, before: &Self)
        requires
            before.wf(),
            self.wf(),
            !before.keys_fit(),
            self.non_null_count() >= before.non_null_count(),
        ensures
            !self.keys_fit(),
    {
    }

    /// In a tight column no value has two slots, and the values that keys number are the
    /// distinct values that are not null: null uses no key up.
    pub proof fn law_null_uses_no_key(&self)
        requires
            self.wf(),
            self.tight(),
        ensures
            self.slots() == distinct(self.groups()),
            self.slots().no_duplicates(),
            without_null(self.slots(), self.null_slot()) == present(distinct(self.groups())),
            self.non_null_count() == present(distinct(self.groups())).len(),
    {
        lemma_distinct_no_duplicates(self.groups());
        self.lemma_tight_settled();
        self.lemma_non_null_count();
        lemma_present_remove(self.inner.groups());
        if self.inner.groups().contains(None) {
            let slot = choose|slot: int| 0 <= slot < self.inner.groups().len() && self.inner.groups()[slot] is None;
            assert(self.has_slot(slot as usize));
        }
    }

    /// A column is tight where it has one slot for each distinct value of its groups, in the
    /// order in which each was first seen.
    pub proof fn law_what_tight_is(&self)
        requires
            self.wf(),
        ensures
            self.tight() <==> self.slots() == distinct(self.groups()),
    {
    }

    /// In a tight column, keys fit where they can number the distinct values of the groups
    /// that are not null; where they do not, the error says how many these are.
    pub proof fn law_which_keys_fit(&self)
        requires
            self.wf(),
            self.tight(),
        ensures
            self.keys_fit() <==> K::key_type().fits(present(distinct(self.groups())).len()),
            self.key_overflow() == (GroupError::KeyOverflow {
                key_type: K::key_type(),
                distinct: present(distinct(self.groups())).len() as usize,
            }),
    {
        self.law_null_uses_no_key();
    }

    /// A column whose keys fit can be built where its store can. Groups can be taken from it
    /// where its store can be emptied and takes every value, and keys can number the values
    /// of both parts: they can where they fit.
    pub proof fn law_what_can_be_emitted(&self, n: int)
        requires
            self.wf(),
            0 <= n <= self.groups().len(),
        ensures
            self.store().can_build() && self.keys_fit() ==> self.can_build(),
            K::key_type().fits(present(distinct(self.groups().take(n))).len()) && K::key_type().fits(
                present(distinct(self.groups().skip(n))).len(),
            ) && self.store().can_take(self.slots().len() as int) && (forall|held: Seq<Option<int>>| #[trigger]
                I::admits(held)) ==> self.can_take(n),
            self.tight() && self.keys_fit() && self.store().can_take(self.slots().len() as int) && (forall|
                held: Seq<Option<int>>,
            | #[trigger]
                I::admits(held)) ==> self.can_take(n),
    {
        if self.tight() && self.keys_fit() {
            self.law_parts_fit(n);
        }
    }

    /// A column takes and makes arrays that are dictionary-encoded with keys of its key type
    /// and values of the type that it was made for.
    pub proof fn law_what_a_column_takes(inner: I, field: &Field, column: Option<Self>)
        requires
            call_ensures(Self::try_new, (inner, field), column),
        ensures
            groupable(field_type(*field)) ==> column is Some,
            column matches Some(column) ==> column.column_type() == dictionary_type(
                key_data_type_of(K::key_type()),
                field_type(*field),
            ),
    {
    }

    /// The bytes of a column are those of its store, as that says, of its table and its null,
    /// of as many slots as it has room for, and its own; it has room for all its groups.
    pub proof fn law_what_is_accounted_for(&self, parts: Seq<usize>)
        requires
            self.wf(),
            self.accounts(parts),
        ensures
            parts.len() == 7,
            call_ensures(I::size, (&self.store(),), parts[0]),
            parts[6] == core::mem::size_of::<Self>(),
            parts[2] >= if self.groups().len() * core::mem::size_of::<usize>() <= usize::MAX {
                self.groups().len() * core::mem::size_of::<usize>()
            } else {
                usize::MAX as int
            },
    {
        let capacity = choose|capacity: usize| #[trigger]
            call_ensures(vec_capacity::<usize>, (&self.group_to_inner,), capacity) && parts[2] == if capacity
                * core::mem::size_of::<usize>() <= usize::MAX {
                capacity * core::mem::size_of::<usize>()
            } else {
                usize::MAX as int
            };
        vstd::arithmetic::mul::lemma_mul_inequality(
            self.groups().len() as int,
            capacity as int,
            core::mem::size_of::<usize>() as int,
        );
    }

    /// What is accounted for beside the store and the column itself: what the table says that
    /// it has allocated, the elements that each vector has room for, and what the array of
    /// the null says that it occupies.
    proof fn law_what_each_part_is(&self, parts: Seq<usize>)
        requires
            self.accounts(parts),
        ensures
            call_ensures(DedupTable::allocated_size, (&self.value_dedup,), parts[1]),
            call_ensures(array_memory_size, (&self.null_array,), parts[5]),
            exists|capacity: usize| #[trigger]
                call_ensures(vec_capacity::<usize>, (&self.group_to_inner,), capacity) && parts[2] == if capacity
                    * core::mem::size_of::<usize>() <= usize::MAX {
                    capacity * core::mem::size_of::<usize>()
                } else {
                    usize::MAX as int
                },
            exists|capacity: usize| #[trigger]
                call_ensures(vec_capacity::<usize>, (&self.val_to_inner,), capacity) && parts[3] == if capacity
                    * core::mem::size_of::<usize>() <= usize::MAX {
                    capacity * core::mem::size_of::<usize>()
                } else {
                    usize::MAX as int
                },
            exists|capacity: usize| #[trigger]
                call_ensures(vec_capacity::<u64>, (&self.val_hashes,), capacity) && parts[4] == if capacity
                    * core::mem::size_of::<u64>() <= usize::MAX {
                    capacity * core::mem::size_of::<u64>()
                } else {
                    usize::MAX as int
                },
    {
    }

    /// Keys that can number the values of all groups can number those of a part of them.
    pub proof fn law_parts_fit(&self, n: int)
        requires
            self.wf(),
            self.tight(),
            self.keys_fit(),
            0 <= n <= self.groups().len(),
        ensures
            K::key_type().fits(present(distinct(self.groups().take(n))).len()),
            K::key_type().fits(present(distinct(self.groups().skip(n))).len()),
    {
        self.law_null_uses_no_key();
        lemma_part_has_fewer_values(self.groups().take(n), self.groups());
        lemma_part_has_fewer_values(self.groups().skip(n), self.groups());
    }

    /// Tight columns with the same groups are alike, however each came to hold them:
    /// taking groups out leaves a column that is like one to which the others were just
    /// appended.
    pub proof fn law_same_groups_same_column(&self, other: &Self)
        requires
            self.wf(),
            self.tight(),
            other.wf(),
            other.tight(),
            self.groups() == other.groups(),
        ensures
            self.slots() == other.slots(),
            self.group_slots() == other.group_slots(),
            self.null_slot() == other.null_slot(),
            self.keys_fit() == other.keys_fit(),
            self.key_overflow() == other.key_overflow(),
            forall|value: Option<int>| #[trigger] self.knows(value) == other.knows(value),
    {
        self.law_null_uses_no_key();
        other.law_null_uses_no_key();
        assert forall|group: int| 0 <= group < self.group_slots().len() implies #[trigger] self.group_slots()[group]
            == other.group_slots()[group] by {
            self.law_groups_share_slots(group, group);
            other.law_groups_share_slots(group, group);
            assert(self.has_slot(self.group_to_inner@[group]));
            assert(other.has_slot(other.group_to_inner@[group]));
        }
        assert(self.group_slots() =~= other.group_slots());
        self.lemma_null_slot();
        other.lemma_null_slot();
        assert forall|value: Option<int>| #[trigger] self.knows(value) == other.knows(value) by {
            self.law_known_values(value);
            other.law_known_values(value);
        }
    }

    /// In a tight column the slot of null is that of a null group, if there is one.
    proof fn lemma_null_slot(&self)
        requires
            self.wf(),
            self.tight(),
        ensures
            self.null_slot() is Some <==> self.groups().contains(None),
            self.null_slot() matches Some(slot) ==> slot < self.slots().len() && self.slots()[slot as int] is None,
    {
        self.law_known_values(None);
        if self.groups().contains(None) {
            let group = choose|group: int| 0 <= group < self.groups().len() && self.groups()[group] is None;
            self.law_groups_share_slots(group, group);
        }
        if let Some(slot) = self.null_inner_slot {
            assert(self.has_slot(slot));
        }
    }

    /// Rows are not appended for want of memory only where the vector that holds the slots
    /// of the groups said that it has no room for as many more. Where it has, a tight column
    /// whose store takes the values, and whose keys can number them, appends every row.
    pub proof fn law_rows_are_appended_where_there_is_room(
        column: &mut Self,
        array: &ArrayData,
        rows: &[usize],
        result: Result<(), GroupError>,
    )
        requires
            call_ensures(<Self as GroupColumn>::vectorized_append, (column, array, rows), result),
            old(column).tight(),
            admits_all::<I>(
                old(column).slots().len(),
                distinct(old(column).groups() + selected(array_contents(*array), rows@)),
            ),
            K::key_type().fits(
                present(distinct(old(column).groups() + selected(array_contents(*array), rows@))).len(),
            ),
        ensures
            result is Ok ==> final(column).groups() == old(column).groups() + selected(array_contents(*array), rows@),
            result is Err ==> exists|slots: &mut Vec<usize>, error: TryReserveError|
                (*slots)@ == old(column).group_slots() && #[trigger] call_ensures(
                    Vec::<usize>::try_reserve,
                    (slots, rows@.len() as usize),
                    Err::<(), TryReserveError>(error),
                ),
    {
        if final(column).tight() {
            final(column).law_null_uses_no_key();
        }
    }

    /// The groups that are taken out come as a tight column that holds just them would build
    /// them, with the same keys and the same values; and what is left builds what a tight
    /// column that holds just the others would.
    pub proof fn law_taken_groups_come_as_they_would_be_built(
        column: &mut Self,
        n: usize,
        taken: ArrayData,
        first: Self,
        first_built: ArrayData,
        rest: Self,
        rest_built: ArrayData,
        left_built: ArrayData,
    )
        requires
            call_ensures(<Self as GroupColumn>::take_n, (column, n), taken),
            first.tight(),
            first.groups() == old(column).groups().take(n as int),
            call_ensures(<Self as GroupColumn>::build, (first,), first_built),
            rest.tight(),
            rest.groups() == old(column).groups().skip(n as int),
            call_ensures(<Self as GroupColumn>::build, (rest,), rest_built),
            call_ensures(<Self as GroupColumn>::build, (*final(column),), left_built),
        ensures
            array_contents(taken) == array_contents(first_built),
            dictionary_keys(taken) == dictionary_keys(first_built),
            dictionary_values(taken) == dictionary_values(first_built),
            array_contents(left_built) == array_contents(rest_built),
            dictionary_keys(left_built) == dictionary_keys(rest_built),
            dictionary_values(left_built) == dictionary_values(rest_built),
    {
    }

    /// What was appended is found again: the last group has the value of the row, and of no
    /// row with another value.
    pub proof fn law_appended_rows_are_found_again(
        column: &mut Self,
        array: &ArrayData,
        row: usize,
        other: &ArrayData,
        other_row: usize,
        group: usize,
        equal: bool,
    )
        requires
            call_ensures(<Self as GroupColumn>::append_val, (column, array, row), Ok::<(), GroupError>(())),
            call_ensures(<Self as GroupColumn>::equal_to, (final(column), group, other, other_row), equal),
            group == old(column).groups().len(),
        ensures
            final(column).groups().len() == group + 1,
            equal <==> array_contents(*other)[other_row as int] == array_contents(*array)[row as int],
    {
    }

    /// Rows are left out only for want of memory, or from the first one on on whose value,
    /// which the column does not know, the store failed; the error is that of the store.
    /// Otherwise all are appended, and keys that cannot number the values are the only
    /// error.
    pub proof fn law_rows_are_left_out_only_where_the_store_fails(
        column: &mut Self,
        array: &ArrayData,
        rows: &[usize],
        error: GroupError,
    )
        requires
            call_ensures(
                <Self as GroupColumn>::vectorized_append,
                (column, array, rows),
                Err::<(), GroupError>(error),
            ),
        ensures
            ({
                let values = selected(array_contents(*array), rows@);
                ||| error == GroupError::OutOfMemory && final(column).groups() == old(column).groups() && exists|
                    slots: &mut Vec<usize>,
                    failure: TryReserveError,
                |
                    (*slots)@ == old(column).group_slots() && #[trigger] call_ensures(
                        Vec::<usize>::try_reserve,
                        (slots, rows@.len() as usize),
                        Err::<(), TryReserveError>(failure),
                    )
                ||| error == (GroupError::KeyOverflow {
                    key_type: K::key_type(),
                    distinct: final(column).non_null_count() as usize,
                }) && !final(column).keys_fit() && final(column).groups() == old(column).groups() + values
                ||| exists|done: int, held: Seq<Option<int>>|
                    #![trigger values.take(done), I::fails_with(held.push(values[done]), error)]
                    0 <= done < values.len() && final(column).groups() == old(column).groups() + values.take(done)
                        && !final(column).knows(values[done]) && old(column).slots().is_prefix_of(held)
                        && I::fails_with(held.push(values[done]), error)
            }),
    {
        let values = selected(array_contents(*array), rows@);
        if exists|done: int| #[trigger] final(column).stopped(old(column), values, done, error) {
            let done = choose|done: int| #[trigger] final(column).stopped(old(column), values, done, error);
            let held = choose|held: Seq<Option<int>>| #[trigger]
                I::fails_with(held.push(values[done]), error) && old(column).slots().is_prefix_of(held) && (
                final(column).slots() == held || final(column).slots() == held.push(values[done])) && (
                old(column).tight() ==> held == distinct(old(column).groups() + values.take(done)));
            assert(I::fails_with(held.push(values[done]), error));
            assert(final(column).groups() == old(column).groups() + values.take(done));
        }
    }

    /// Rows that are appended together can be appended one by one. Where `together` holds
    /// the groups and the rows, and its keys can number them, a column that holds the
    /// groups and the first rows takes the next one, and its keys can number them too.
    /// Once it holds them all, the two are alike.
    pub proof fn law_rows_can_be_appended_one_by_one(
        &self,
        together: &Self,
        groups: Seq<Option<int>>,
        values: Seq<Option<int>>,
        done: int,
    )
        requires
            together.wf(),
            together.tight(),
            together.keys_fit(),
            together.groups() == groups + values,
            admits_all::<I>(distinct(groups).len(), distinct(groups + values)),
            self.wf(),
            self.tight(),
            0 <= done <= values.len(),
            self.groups() == groups + values.take(done),
        ensures
            self.keys_fit(),
            done < values.len() ==> {
                &&& self.knows(values[done]) || I::admits(self.slots().push(values[done]))
                &&& self.groups().push(values[done]) == groups + values.take(done + 1)
            },
            done == values.len() ==> {
                &&& self.slots() == together.slots()
                &&& self.group_slots() == together.group_slots()
                &&& self.null_slot() == together.null_slot()
            },
    {
        let all = groups + values;
        self.law_null_uses_no_key();
        together.law_null_uses_no_key();
        assert forall|i: int| 0 <= i < self.groups().len() implies all.contains(#[trigger] self.groups()[i]) by {
            assert(all[i] == self.groups()[i]);
        }
        lemma_part_has_fewer_values(self.groups(), all);
        if done < values.len() {
            let held = self.groups().push(values[done]);
            assert(held =~= groups + values.take(done + 1));
            assert(all =~= held + values.skip(done + 1));
            self.law_known_values(values[done]);
            lemma_distinct_push(self.groups(), values[done]);
            lemma_distinct_prefix(held, values.skip(done + 1));
            lemma_distinct_prefix(groups, values.take(done));
            assert(distinct(all).take(distinct(held).len() as int) =~= distinct(held));
        } else {
            assert(values.take(done) =~= values);
            self.law_same_groups_same_column(together);
        }
    }

    /// Where each slot is of a group, each can be found.
    proof fn lemma_tight_settled(&self)
        requires
            self.store_wf(),
            self.groups_wf(),
            self.tight(),
        ensures
            self.settled(),
    {
        lemma_distinct_no_duplicates(self.group_values());
        assert forall|slot: usize| slot < self.inner.groups().len() implies #[trigger] self.has_slot(slot) by {
            let value = self.inner.groups()[slot as int];
            assert(distinct(self.group_values())[slot as int] == value);
            lemma_distinct_contains(self.group_values(), value);
            let group = choose|group: int| 0 <= group < self.group_values().len() && self.group_values()[group] == value;
            assert(self.has_slot(self.group_to_inner@[group]));
        }
    }

    /// The dictionary-encoded array of the groups. `values` holds one value for each
    /// slot. The slot of null is left out of the array's values and the groups that have
    /// it are given no key, so null never uses a key up.
    fn into_dict(values: ArrayData, group_to_inner: &Vec<usize>, null_inner_slot: Option<usize>) -> (array: ArrayData)
        requires
            groupable_array(values),
            forall|group: int|
                0 <= group < group_to_inner@.len() ==> #[trigger] group_to_inner@[group] < array_contents(values).len(),
            null_inner_slot matches Some(slot) ==> slot < array_contents(values).len() && array_contents(
                values,
            )[slot as int] is None,
            K::key_type().fits(without_null(array_contents(values), null_inner_slot).len()),
        ensures
            array_of(array, dictionary_type(key_data_type_of(K::key_type()), array_type(values))),
            array_contents(array) == selected(array_contents(values), group_to_inner@),
            dictionary_values(array) == without_null(array_contents(values), null_inner_slot),
            dictionary_keys(array) == group_to_inner@.map_values(|slot: usize| key_of(slot as int, null_inner_slot)),
    {
        let key = key_data_type(K::data_type());
        let ghost contents = array_contents(values);
        let ghost keyed = group_to_inner@.map_values(|slot: usize| key_of(slot as int, null_inner_slot));
        let mut keys: Vec<Option<usize>> = Vec::new();
        let mut group: usize = 0;
        while group < group_to_inner.len()
            invariant
                group <= group_to_inner@.len(),
                keys@.len() == group,
                forall|i: int|
                    0 <= i < group_to_inner@.len() ==> #[trigger] group_to_inner@[i] < contents.len(),
                forall|i: int|
                    0 <= i < group ==> key_seq(keys@)[i] == #[trigger] key_of(
                        group_to_inner@[i] as int,
                        null_inner_slot,
                    ),
            decreases group_to_inner@.len() - group,
        {
            let slot = group_to_inner[group];
            let key: Option<usize> = match null_inner_slot {
                None => Some(slot),
                Some(null_slot) => if slot == null_slot {
                    None
                } else if slot < null_slot {
                    Some(slot)
                } else {
                    Some(slot - 1)
                },
            };
            keys.push(key);
            group = group + 1;
        }
        assert(key_seq(keys@) =~= keyed);
        let compact = match null_inner_slot {
            None => values,
            Some(null_slot) => {
                let mut compact_indices: Vec<usize> = Vec::new();
                let num_slots = array_len(&values);
                let mut slot: usize = 0;
                while slot < num_slots
                    invariant
                        null_slot < num_slots == contents.len(),
                        slot <= num_slots,
                        compact_indices@.len() == if slot <= null_slot {
                            slot as int
                        } else {
                            slot - 1
                        },
                        forall|i: int|
                            0 <= i < compact_indices@.len() ==> #[trigger] compact_indices@[i] == if i < null_slot {
                                i
                            } else {
                                i + 1
                            },
                    decreases num_slots - slot,
                {
                    if slot != null_slot {
                        compact_indices.push(slot);
                    }
                    slot = slot + 1;
                }
                let compact = array_take(&values, &compact_indices);
                assert(array_contents(compact) =~= contents.remove(null_slot as int));
                compact
            },
        };
        assert forall|row: int| 0 <= row < keyed.len() && #[trigger] keyed[row] is Some implies 0 <= keyed[row]->0
            < array_contents(compact).len() by {
            assert(group_to_inner@[row] < contents.len());
        }
        let array = dictionary_array(&key, &keys, &compact);
        assert forall|row: int| 0 <= row < group_to_inner@.len() implies #[trigger] array_contents(array)[row]
            == selected(contents, group_to_inner@)[row] by {
            assert(group_to_inner@[row] < contents.len());
            assert(keyed[row] == key_of(group_to_inner@[row] as int, null_inner_slot));
        }
        assert(array_contents(array) =~= selected(contents, group_to_inner@));
        array
    }

    /// A tight column knows the values of its groups, and no others.
    pub proof fn law_known_values(&self, value: Option<int>)
        requires
            self.wf(),
            self.tight(),
        ensures
            self.knows(value) <==> self.groups().contains(value),
    {
        if self.group_values().contains(value) {
            let group = choose|group: int| 0 <= group < self.group_values().len() && self.group_values()[group] == value;
            assert(self.has_slot(self.group_to_inner@[group]));
        }
        if self.knows(value) {
            let slot = choose|slot: usize| #[trigger] self.has_slot(slot) && self.inner.groups()[slot as int] == value;
            assert(distinct(self.group_values())[slot as int] == value);
            lemma_distinct_contains(self.group_values(), value);
        }
    }

    /// Where each slot can be found, the values that keys number are those that are not
    /// null.
    proof fn lemma_non_null_count(&self)
        requires
            self.store_wf(),
            self.settled(),
            self.inner.groups().no_duplicates(),
        ensures
            self.non_null_count() == present(self.inner.groups()).len(),
    {
        lemma_present_len(self.inner.groups());
        if self.inner.groups().contains(None) {
            let slot = choose|slot: int| 0 <= slot < self.inner.groups().len() && self.inner.groups()[slot] is None;
            assert(self.has_slot(slot as usize));
        }
        if let Some(slot) = self.null_inner_slot {
            assert(self.inner.groups()[slot as int] is None);
        }
    }

    /// Every slot can be found by its value.
    spec fn settled(&self) -> bool {
        all_registered(self.inner.groups(), dedup_entries(self.value_dedup), self.null_inner_slot)
    }

    /// The dictionary-encoded array of the first `n` groups, with no value that they do
    /// not have. `all_values` holds one value for each slot.
    fn emit_first(group_to_inner: &Vec<usize>, n: usize, all_values: &ArrayData) -> (array: ArrayData)
        requires
            groupable_array(*all_values),
            n <= group_to_inner@.len(),
            forall|i: int| 0 <= i < n ==> #[trigger] group_to_inner@[i] < array_contents(*all_values).len(),
            forall|i: int, j: int|
                0 <= i < n && 0 <= j < n && array_contents(*all_values)[#[trigger] group_to_inner@[i] as int]
                    == array_contents(*all_values)[#[trigger] group_to_inner@[j] as int] ==> group_to_inner@[i]
                    == group_to_inner@[j],
            K::key_type().fits(
                present(
                    distinct(selected(array_contents(*all_values), group_to_inner@.subrange(0, n as int))),
                ).len(),
            ),
        ensures
            array_of(array, dictionary_type(key_data_type_of(K::key_type()), array_type(*all_values))),
            array_contents(array) == selected(array_contents(*all_values), group_to_inner@.subrange(0, n as int)),
            dictionary_values(array) == present(
                distinct(selected(array_contents(*all_values), group_to_inner@.subrange(0, n as int))),
            ),
            dictionary_keys(array).len() == n,
            keys_in_range(dictionary_keys(array), dictionary_values(array).len()),
            forall|i: int|
                0 <= i < n ==> {
                    &&& #[trigger] dictionary_keys(array)[i] is None <==> array_contents(array)[i] is None
                    &&& decoded(dictionary_keys(array), dictionary_values(array), i) == array_contents(array)[i]
                },
    {
        let ghost contents = array_contents(*all_values);
        let ghost emitted = selected(contents, group_to_inner@.subrange(0, n as int));
        let (old_to_new, new_to_old) = first_seen(group_to_inner, 0, n, all_values, false);
        let values = array_take(all_values, &new_to_old);
        assert(array_contents(values) =~= selected(contents, new_to_old@));
        let mut keys: Vec<Option<usize>> = Vec::new();
        let mut group: usize = 0;
        while group < n
            invariant
                group <= n <= group_to_inner@.len(),
                groupable(array_type(*all_values)),
                contents == array_contents(*all_values),
                old_to_new@.len() == contents.len(),
                forall|i: int| 0 <= i < n ==> #[trigger] group_to_inner@[i] < contents.len(),
                forall|i: int|
                    0 <= i < n && contents[#[trigger] group_to_inner@[i] as int] is Some ==> {
                        &&& old_to_new@[group_to_inner@[i] as int] matches Some(place)
                        &&& place < new_to_old@.len()
                        &&& new_to_old@[place as int] == group_to_inner@[i]
                    },
                keys@.len() == group,
                forall|i: int|
                    0 <= i < group ==> if contents[group_to_inner@[i] as int] is Some {
                        &&& #[trigger] keys@[i] matches Some(place)
                        &&& place < new_to_old@.len()
                        &&& new_to_old@[place as int] == group_to_inner@[i]
                    } else {
                        keys@[i] is None
                    },
            decreases n - group,
        {
            let old = group_to_inner[group];
            keys.push(
                if array_is_null(all_values, old) {
                    None
                } else {
                    old_to_new[old]
                },
            );
            group = group + 1;
        }
        assert forall|row: int| 0 <= row < keys@.len() && #[trigger] key_seq(keys@)[row] is Some implies 0
            <= key_seq(keys@)[row]->0 < array_contents(values).len() by {
            assert(keys@[row] is Some);
        }
        let array = dictionary_array(&key_data_type(K::data_type()), &keys, &values);
        assert forall|row: int| 0 <= row < n implies #[trigger] array_contents(array)[row] == emitted[row] by {
            if let Some(place) = keys@[row] {
                assert(array_contents(values)[place as int] == contents[new_to_old@[place as int] as int]);
            }
        }
        assert(array_contents(array) =~= emitted);
        assert forall|i: int| 0 <= i < n implies {
            &&& #[trigger] dictionary_keys(array)[i] is None <==> array_contents(array)[i] is None
            &&& decoded(dictionary_keys(array), dictionary_values(array), i) == array_contents(array)[i]
        } by {
            assert(keys@[i] is None <==> emitted[i] is None);
        }
        array
    }

    /// Puts the slots `new_to_old` of `all_values` into the empty store, in that order.
    fn refill(&mut self, all_values: &ArrayData, new_to_old: &Vec<usize>)
        requires
            old(self).store_wf(),
            old(self).inner.groups().len() == 0,
            dedup_entries(old(self).value_dedup).is_empty(),
            array_of(*all_values, old(self).value_type),
            old(self).val_hashes@.len() == array_contents(*all_values).len(),
            forall|row: int|
                0 <= row < old(self).val_hashes@.len() && array_contents(*all_values)[row] is Some ==>
                    #[trigger] old(self).val_hashes@[row] == value_hash(
                    AGGREGATION_HASH_SEED,
                    array_contents(*all_values)[row]->0,
                ),
            forall|k: int|
                0 <= k < new_to_old@.len() ==> #[trigger] new_to_old@[k] < array_contents(*all_values).len(),
            selected(array_contents(*all_values), new_to_old@).no_duplicates(),
            forall|k: int|
                0 < k <= new_to_old@.len() ==> I::admits(
                    #[trigger] selected(array_contents(*all_values), new_to_old@).take(k),
                ),
        ensures
            final(self).store_wf(),
            final(self).settled(),
            final(self).value_type == old(self).value_type,
            final(self).group_to_inner@ == old(self).group_to_inner@,
            final(self).inner.groups() == selected(array_contents(*all_values), new_to_old@),
    {
        let ghost contents = array_contents(*all_values);
        let ghost refilled = selected(contents, new_to_old@);
        let mut new_slot: usize = 0;
        assert(refilled.take(0) =~= self.inner.groups());
        while new_slot < new_to_old.len()
            invariant
                new_slot <= new_to_old@.len(),
                contents == array_contents(*all_values),
                refilled == selected(contents, new_to_old@),
                refilled.no_duplicates(),
                self.store_wf(),
                self.settled(),
                self.value_type == old(self).value_type,
                self.group_to_inner@ == old(self).group_to_inner@,
                array_of(*all_values, self.value_type),
                self.val_hashes@.len() == contents.len(),
                forall|row: int|
                    0 <= row < self.val_hashes@.len() && contents[row] is Some ==>
                        #[trigger] self.val_hashes@[row] == value_hash(AGGREGATION_HASH_SEED, contents[row]->0),
                forall|k: int| 0 <= k < new_to_old@.len() ==> #[trigger] new_to_old@[k] < contents.len(),
                forall|k: int| 0 < k <= new_to_old@.len() ==> I::admits(#[trigger] refilled.take(k)),
                self.inner.groups() == refilled.take(new_slot as int),
            decreases new_to_old@.len() - new_slot,
        {
            let old_slot = new_to_old[new_slot];
            let ghost before = *self;
            let ghost value = contents[old_slot as int];
            proof {
                assert(refilled.take(new_slot + 1) =~= refilled.take(new_slot as int).push(value));
                assert(I::admits(refilled.take(new_slot + 1)));
                assert forall|other: int| 0 <= other < new_slot implies #[trigger] before.inner.groups()[other] != value by {
                    assert(refilled[other] != refilled[new_slot as int]);
                }
            }
            if array_is_null(all_values, old_slot) {
                let appended = self.inner.append_val(&self.null_array, 0);
                assert(appended is Ok);
                self.null_inner_slot = Some(new_slot);
            } else {
                let appended = self.inner.append_val(all_values, old_slot);
                assert(appended is Ok);
                proof {
                    lemma_new_value(
                        before.inner.groups(),
                        dedup_entries(before.value_dedup),
                        before.null_inner_slot,
                        value->0,
                        new_slot,
                    );
                }
                self.value_dedup.insert(self.val_hashes[old_slot], new_slot);
            }
            assert forall|slot: usize| slot < self.inner.groups().len() implies #[trigger] self.has_slot(slot) by {
                if slot < new_slot {
                    assert(before.has_slot(slot));
                }
            }
            new_slot = new_slot + 1;
        }
        assert(refilled.take(new_to_old@.len() as int) =~= refilled);
    }
}

/// Reserving room for `additional` more slots failed in a vector that holds `held`.
pub open spec fn reservation_fails(held: Seq<usize>, additional: usize) -> bool {
    exists|slots: &mut Vec<usize>, error: TryReserveError|
        (*slots)@ == held && #[trigger] call_ensures(
            Vec::<usize>::try_reserve,
            (slots, additional),
            Err::<(), TryReserveError>(error),
        )
}

/// A store of the first `held` of these values takes the others, one by one.
pub open spec fn admits_all<I: GroupColumn>(held: nat, values: Seq<Option<int>>) -> bool {
    forall|k: int| held < k <= values.len() ==> I::admits(#[trigger] values.take(k))
}

/// A store that takes everything takes all values.
pub proof fn law_stores_that_take_everything<I: GroupColumn>(held: nat, values: Seq<Option<int>>)
    requires
        forall|k: int| held < k <= values.len() ==> I::admits(#[trigger] values.take(k)),
    ensures
        admits_all::<I>(held, values),
{
}

impl<K: DictionaryKeyType, I: GroupColumn> DictionaryGroupValuesColumn<K, I> {
    /// The number of distinct values of the groups `start..end` that are not null.
    fn count_values(&self, start: usize, end: usize) -> (count: usize)
        requires
            self.wf(),
            start <= end <= self.group_to_inner@.len(),
        ensures
            count == present(distinct(self.group_values().subrange(start as int, end as int))).len(),
    {
        let mut seen: Vec<bool> = Vec::new();
        seen.resize(self.inner.len(), false);
        let mut count: usize = 0;
        let mut group: usize = start;
        assert(self.group_values().subrange(start as int, start as int) =~= Seq::empty());
        assert(present(Seq::empty()) =~= Seq::empty()) by {
            reveal(Seq::filter);
        }
        while group < end
            invariant
                self.wf(),
                start <= group <= end <= self.group_to_inner@.len(),
                seen@.len() == self.inner.groups().len(),
                count <= group - start,
                count == present(distinct(self.group_values().subrange(start as int, group as int))).len(),
                forall|i: int|
                    0 <= i < self.group_to_inner@.len() ==> (seen@[#[trigger] self.group_to_inner@[i] as int]
                        <==> self.group_values().subrange(start as int, group as int).contains(
                        self.group_values()[i],
                    )),
            decreases end - group,
        {
            let slot = self.group_to_inner[group];
            let ghost values = self.group_values().subrange(start as int, group as int);
            let ghost value = self.group_values()[group as int];
            let ghost seen_before = seen@;
            proof {
                assert(self.has_slot(slot));
                assert(self.group_values().subrange(start as int, group + 1) =~= values.push(value));
                lemma_distinct_push(values, value);
                lemma_distinct_contains(values, value);
                lemma_present_push(distinct(values), value);
            }
            if !seen[slot] {
                seen.set(slot, true);
                let is_null = match self.null_inner_slot {
                    Some(null_slot) => null_slot == slot,
                    None => false,
                };
                if !is_null {
                    count = count + 1;
                }
            }
            proof {
                assert forall|i: int| 0 <= i < self.group_to_inner@.len() implies (
                seen@[#[trigger] self.group_to_inner@[i] as int] <==> values.push(value).contains(
                    self.group_values()[i],
                )) by {
                    self.law_groups_share_slots(i, group as int);
                    lemma_push_contains(values, value, self.group_values()[i]);
                    assert(seen_before[self.group_to_inner@[i] as int] <==> values.contains(self.group_values()[i]));
                }
            }
            group = group + 1;
        }
        count
    }

    /// Whether keys of type `K` can number the values of the first `n` groups, and those of
    /// the others.
    pub fn parts_fit(&self, n: usize) -> (fit: bool)
        requires
            self.wf(),
            n <= self.groups().len(),
        ensures
            fit == (K::key_type().fits(present(distinct(self.groups().take(n as int))).len()) && K::key_type().fits(
                present(distinct(self.groups().skip(n as int))).len(),
            )),
    {
        let first = self.count_values(0, n);
        let rest = self.count_values(n, self.group_to_inner.len());
        proof {
            let len = self.group_to_inner@.len() as int;
            assert(self.groups().take(n as int) =~= self.group_values().subrange(0, n as int));
            assert(self.groups().skip(n as int) =~= self.group_values().subrange(n as int, len));
        }
        K::data_type().key_type_fits(first) && K::data_type().key_type_fits(rest)
    }

    /// Appends a group with the value of each of the rows, where there is room for them.
    /// A column that fails may have appended the groups of the first of them.
    pub fn append_reserved(&mut self, reserved: bool, array: &ArrayData, rows: &[usize]) -> (result: Result<
        (),
        GroupError,
    >)
        requires
            old(self).wf(),
            array_of(*array, old(self).column_type()),
            forall|i: int| 0 <= i < rows@.len() ==> #[trigger] rows@[i] < array_contents(*array).len(),
        ensures
            final(self).wf(),
            final(self).column_type() == old(self).column_type(),
            !reserved ==> result == Err::<(), GroupError>(GroupError::OutOfMemory) && *final(self) == *old(self),
            result is Ok ==> final(self).keys_fit() && final(self).groups() == old(self).groups() + selected(
                array_contents(*array),
                rows@,
            ),
            !old(self).keys_fit() ==> result is Err,
            final(self).keeps_slots(old(self)),
            final(self).non_null_count() >= old(self).non_null_count(),
            reserved ==> (result matches Err(error) ==> {
                ||| error == final(self).key_overflow() && !final(self).keys_fit() && final(self).groups()
                    == old(self).groups() + selected(array_contents(*array), rows@)
                ||| exists|done: int| #[trigger]
                    final(self).stopped(old(self), selected(array_contents(*array), rows@), done, error)
            }),
            old(self).tight() && final(self).groups() == old(self).groups() + selected(array_contents(*array), rows@)
                ==> final(self).tight(),
            reserved && old(self).tight() && admits_all::<I>(
                old(self).slots().len(),
                distinct(old(self).groups() + selected(array_contents(*array), rows@)),
            ) ==> {
                &&& final(self).groups() == old(self).groups() + selected(array_contents(*array), rows@)
                &&& final(self).tight()
                &&& result == if final(self).keys_fit() {
                    Ok::<(), GroupError>(())
                } else {
                    Err(final(self).key_overflow())
                }
            },
            reserved && rows@.len() == 0 ==> {
                &&& final(self).slots() == old(self).slots()
                &&& result == if old(self).keys_fit() {
                    Ok::<(), GroupError>(())
                } else {
                    Err(old(self).key_overflow())
                }
            },
    {
        if !reserved {
            return Err(GroupError::OutOfMemory);
        }
        let (dict_keys, dict_values) = dictionary_parts(array);
        assert(batch_rows(dict_keys@, dict_values) =~= array_contents(*array));
        let ghost values = selected(array_contents(*array), rows@);
        assert(old(self).group_values() + values.take(0) =~= old(self).group_values());

        self.hash_values(&dict_values);
        self.val_to_inner.clear();
        self.val_to_inner.resize(array_len(&dict_values), usize::MAX);
        let mut idx: usize = 0;
        while idx < rows.len()
            invariant
                reserved,
                idx <= rows@.len(),
                self.store_wf(),
                self.groups_wf(),
                self.value_type == old(self).value_type,
                self.batch_wf(dict_keys@, dict_values),
                self.scratch_wf(dict_values),
                batch_rows(dict_keys@, dict_values) == array_contents(*array),
                values == selected(array_contents(*array), rows@),
                forall|i: int| 0 <= i < rows@.len() ==> #[trigger] rows@[i] < array_contents(*array).len(),
                self.group_values() == old(self).group_values() + values.take(idx as int),
                old(self).tight() ==> self.tight(),
                self.keeps_slots(old(self)),
                self.non_null_count() >= old(self).non_null_count(),
                idx == 0 ==> self.inner.groups() == old(self).inner.groups() && self.null_inner_slot
                    == old(self).null_inner_slot,
            decreases rows@.len() - idx,
        {
            let ghost before = *self;
            let ghost value = values[idx as int];
            let slot = self.batch_slot(&dict_keys, &dict_values, rows[idx]);
            proof {
                self.lemma_kept_groups(&before);
                assert(values.take(idx + 1) =~= values.take(idx as int).push(value));
                assert(old(self).group_values() + values.take(idx + 1) =~= before.group_values().push(value));
            }
            match slot {
                Ok(slot) => {
                    self.group_to_inner.push(slot);
                    proof {
                        assert(self.group_values() =~= before.group_values().push(value));
                        if before.tight() {
                            self.lemma_stays_tight(&before, slot, value);
                        }
                    }
                },
                Err(error) => {
                    proof {
                        if old(self).tight() {
                            let all = old(self).group_values() + values;
                            let held = before.group_values().push(value);
                            lemma_distinct_push(before.group_values(), value);
                            before.law_known_values(value);
                            assert(all =~= held + values.skip(idx + 1));
                            lemma_distinct_prefix(held, values.skip(idx + 1));
                            assert(distinct(all).take(distinct(held).len() as int) =~= distinct(held));
                            lemma_distinct_prefix(old(self).group_values(), values.take(idx as int));
                        }
                        assert(self.group_values() == old(self).group_values() + values.take(idx as int));
                        assert(I::fails_with(before.slots().push(values[idx as int]), error));
                        assert(self.stopped(old(self), values, idx as int, error));
                    }
                    return Err(error);
                },
            }
            idx = idx + 1;
        }
        assert(values.take(rows@.len() as int) =~= values);
        self.check_key_overflow()
    }
}

impl<K: DictionaryKeyType, I: GroupColumn> GroupColumn for DictionaryGroupValuesColumn<K, I> {
    closed spec fn groups(&self) -> Seq<Option<int>> {
        self.group_values()
    }

    open spec fn column_type(&self) -> DataType {
        dictionary_type(key_data_type_of(K::key_type()), self.dictionary_value_type())
    }

    closed spec fn wf(&self) -> bool {
        self.store_wf() && self.groups_wf()
    }

    /// What a column takes rests on its slots too: see [`Self::append_val`].
    open spec fn admits(held: Seq<Option<int>>) -> bool {
        false
    }

    /// What a column fails with rests on its slots too: see [`Self::append_val`].
    open spec fn fails_with(held: Seq<Option<int>>, error: GroupError) -> bool {
        true
    }

    open spec fn can_build(&self) -> bool {
        self.store().can_build() && self.keys_fit()
    }

    open spec fn can_take(&self, n: int) -> bool {
        let first = self.groups().take(n);
        let rest = self.groups().skip(n);
        &&& self.store().can_take(self.slots().len() as int)
        &&& K::key_type().fits(present(distinct(first)).len())
        &&& K::key_type().fits(present(distinct(rest)).len())
        &&& admits_all::<I>(0, distinct(rest))
    }

    fn equal_to(&self, lhs_row: usize, array: &ArrayData, rhs_row: usize) -> (equal: bool) {
        let row = array_slice(array, rhs_row, 1);
        let (dict_keys, dict_values) = dictionary_parts(&row);
        let lhs_slot = self.group_to_inner[lhs_row];
        assert(self.has_slot(lhs_slot));
        assert(array_contents(row)[0] == array_contents(*array)[rhs_row as int]);
        self.slot_equals_row(lhs_slot, &dict_keys, &dict_values, 0)
    }

    fn append_val(&mut self, array: &ArrayData, row: usize) -> (result: Result<(), GroupError>)
        ensures
            old(self).knows(array_contents(*array)[row as int]) || I::admits(
                old(self).slots().push(array_contents(*array)[row as int]),
            ) ==> {
                &&& final(self).groups() == old(self).groups().push(array_contents(*array)[row as int])
                &&& result == if final(self).keys_fit() {
                    Ok::<(), GroupError>(())
                } else {
                    Err(final(self).key_overflow())
                }
            },
            final(self).groups() == old(self).groups().push(array_contents(*array)[row as int]) ==> {
                &&& final(self).slots() == if old(self).knows(array_contents(*array)[row as int]) {
                    old(self).slots()
                } else {
                    old(self).slots().push(array_contents(*array)[row as int])
                }
                &&& exists|slot: usize|
                    final(self).group_slots() == #[trigger] old(self).group_slots().push(slot) && final(self).finds(
                        array_contents(*array)[row as int],
                        slot,
                    ) && (if old(self).knows(
                        array_contents(*array)[row as int],
                    ) {
                        slot < old(self).slots().len() && old(self).slots()[slot as int]
                            == array_contents(*array)[row as int]
                    } else {
                        slot == old(self).slots().len()
                    })
                &&& old(self).tight() ==> final(self).tight()
            },
            result matches Err(error) ==> {
                ||| error == final(self).key_overflow() && !final(self).keys_fit() && final(self).groups()
                    == old(self).groups().push(array_contents(*array)[row as int])
                ||| final(self).groups() == old(self).groups() && !old(self).knows(array_contents(*array)[row as int])
                    && !final(self).knows(array_contents(*array)[row as int]) && I::fails_with(
                    old(self).slots().push(array_contents(*array)[row as int]),
                    error,
                )
            },
            result is Ok ==> final(self).keys_fit(),
            !old(self).keys_fit() ==> result is Err,
            final(self).keeps_slots(old(self)),
            final(self).non_null_count() >= old(self).non_null_count(),
    {
        let single = array_slice(array, row, 1);
        let (dict_keys, dict_values) = dictionary_parts(&single);
        let ghost value = array_contents(*array)[row as int];
        assert(array_contents(single)[0] == value);
        assert(key_seq(dict_keys@)[0] is Some <==> dict_keys@[0] is Some);
        let slot = match dict_keys[0] {
            None => self.find_or_insert_null(),
            Some(val_idx) => {
                if array_is_null(&dict_values, val_idx) {
                    self.find_or_insert_null()
                } else {
                    let value = array_slice(&dict_values, val_idx, 1);
                    self.hash_values(&value);
                    self.find_or_insert_value(&dict_values, val_idx, self.val_hashes[0])
                }
            },
        };
        proof {
            self.lemma_kept_groups(old(self));
        }
        match slot {
            Ok(slot) => {
                self.group_to_inner.push(slot);
                proof {
                    assert(self.group_to_inner.len() == self.group_values().len());
                    assert(self.group_values() =~= old(self).group_values().push(value));
                    if old(self).tight() {
                        self.lemma_stays_tight(old(self), slot, value);
                    }
                    assert(self.group_slots() == old(self).group_slots().push(slot));
                }
                self.check_key_overflow()
            },
            Err(error) => {
                assert(self.group_to_inner.len() == self.group_values().len());
                Err(error)
            },
        }
    }

    fn vectorized_equal_to(
        &self,
        lhs_rows: &[usize],
        array: &ArrayData,
        rhs_rows: &[usize],
        equal_to_results: &mut BooleanBufferBuilder,
    ) {
        let (dict_keys, dict_values) = dictionary_parts(array);
        assert(batch_rows(dict_keys@, dict_values) =~= array_contents(*array));
        if rhs_rows.len() < array_len(&dict_values) {
            self.equal_to_per_row(lhs_rows, &dict_keys, &dict_values, rhs_rows, equal_to_results);
        } else {
            self.equal_to_by_slot(lhs_rows, &dict_keys, &dict_values, rhs_rows, equal_to_results);
        }
    }

    fn vectorized_append(&mut self, array: &ArrayData, rows: &[usize]) -> (result: Result<(), GroupError>)
        ensures
            result is Ok ==> final(self).keys_fit(),
            !old(self).keys_fit() ==> result is Err,
            final(self).keeps_slots(old(self)),
            final(self).non_null_count() >= old(self).non_null_count(),
            result matches Err(error) ==> {
                ||| error == GroupError::OutOfMemory && final(self).groups() == old(self).groups()
                    && final(self).slots() == old(self).slots() && reservation_fails(
                    old(self).group_slots(),
                    rows@.len() as usize,
                )
                ||| error == final(self).key_overflow() && !final(self).keys_fit() && final(self).groups()
                    == old(self).groups() + selected(array_contents(*array), rows@)
                ||| exists|done: int| #[trigger]
                    final(self).stopped(old(self), selected(array_contents(*array), rows@), done, error)
            },
            old(self).tight() && final(self).groups() == old(self).groups() + selected(array_contents(*array), rows@)
                ==> final(self).tight(),
            old(self).tight() && admits_all::<I>(
                old(self).slots().len(),
                distinct(old(self).groups() + selected(array_contents(*array), rows@)),
            ) ==> {
                ||| result == Err::<(), GroupError>(GroupError::OutOfMemory) && final(self).groups()
                    == old(self).groups() && final(self).slots() == old(self).slots() && reservation_fails(
                    old(self).group_slots(),
                    rows@.len() as usize,
                )
                ||| final(self).groups() == old(self).groups() + selected(array_contents(*array), rows@)
                    && final(self).tight() && result == if final(self).keys_fit() {
                    Ok::<(), GroupError>(())
                } else {
                    Err(final(self).key_overflow())
                }
            },
            rows@.len() == 0 ==> {
                &&& final(self).slots() == old(self).slots()
                &&& result == if old(self).keys_fit() {
                    Ok::<(), GroupError>(())
                } else {
                    Err(old(self).key_overflow())
                }
            },
    {
        proof {
            let values = selected(array_contents(*array), rows@);
            assert(self.groups() + values.take(0) =~= self.groups());
            assert(values.take(rows@.len() as int) =~= values);
        }
        let additional = rows.len();
        let reserved = additional == 0 || match self.group_to_inner.try_reserve(additional) {
            Ok(()) => true,
            Err(error) => {
                assert(exists|slots: &mut Vec<usize>| #[trigger]
                    call_ensures(Vec::<usize>::try_reserve, (slots, additional), Err(error)));
                false
            },
        };
        let ghost before = *self;
        let result = self.append_reserved(reserved, array, rows);
        proof {
            let values = selected(array_contents(*array), rows@);
            assert forall|done: int, error: GroupError| #[trigger]
                self.stopped(&before, values, done, error) implies self.stopped(old(self), values, done, error) by {
                assert(before.groups() == old(self).groups());
            }
        }
        result
    }

    fn len(&self) -> (len: usize) {
        self.group_to_inner.len()
    }

    fn size(&self) -> (size: usize)
        ensures
            size >= if core::mem::size_of::<Self>() + self.groups().len() * core::mem::size_of::<usize>() <= usize::MAX {
                core::mem::size_of::<Self>() + self.groups().len() * core::mem::size_of::<usize>()
            } else {
                usize::MAX as int
            },
            exists|parts: Seq<usize>| #[trigger]
                self.accounts(parts) && size == if total(parts) <= usize::MAX {
                    total(parts)
                } else {
                    usize::MAX as int
                },
    {
        let capacity = vec_capacity(&self.group_to_inner);
        let groups = elements_size(capacity, core::mem::size_of::<usize>());
        let slots_capacity = vec_capacity(&self.val_to_inner);
        let slots = elements_size(slots_capacity, core::mem::size_of::<usize>());
        let hashes_capacity = vec_capacity(&self.val_hashes);
        let hashes = elements_size(hashes_capacity, core::mem::size_of::<u64>());
        let inner = self.inner.size();
        let dedup = self.value_dedup.allocated_size();
        let null = array_memory_size(&self.null_array);
        let parts = [inner, dedup, groups, slots, hashes, null, core::mem::size_of::<Self>()];
        proof {
            lemma_total_at_least(parts@, 2, 6);
            assert(call_ensures(vec_capacity::<usize>, (&self.group_to_inner,), capacity));
            assert(call_ensures(vec_capacity::<usize>, (&self.val_to_inner,), slots_capacity));
            assert(call_ensures(vec_capacity::<u64>, (&self.val_hashes,), hashes_capacity));
            assert(self.accounts(parts@));
            vstd::arithmetic::mul::lemma_mul_inequality(
                self.groups().len() as int,
                capacity as int,
                core::mem::size_of::<usize>() as int,
            );
        }
        total_size(&parts)
    }

    fn take_n(&mut self, n: usize) -> (array: ArrayData)
        ensures
            dictionary_values(array) == present(distinct(old(self).groups().take(n as int))),
            dictionary_keys(array) == encoded(old(self).groups().take(n as int)),
            dictionary_keys(array).len() == n,
            keys_in_range(dictionary_keys(array), dictionary_values(array).len()),
            forall|group: int|
                0 <= group < n ==> {
                    &&& #[trigger] dictionary_keys(array)[group] is None <==> old(self).groups()[group] is None
                    &&& decoded(dictionary_keys(array), dictionary_values(array), group)
                        == old(self).groups()[group]
                },
            array_contents(array) + final(self).groups() == old(self).groups(),
            final(self).slots() == distinct(old(self).groups().skip(n as int)),
            final(self).tight(),
            final(self).keys_fit(),
    {
        let old_inner_len = self.inner.len();
        let all_inner_values = self.inner.take_n(old_inner_len);
        let num_groups = self.group_to_inner.len();
        let ghost contents = array_contents(all_inner_values);
        let ghost first = old(self).group_values().take(n as int);
        let ghost rest = old(self).group_values().skip(n as int);
        proof {
            assert(contents =~= old(self).inner.groups());
            assert forall|group: int| 0 <= group < num_groups implies #[trigger] self.group_to_inner@[group]
                < contents.len() by {
                assert(old(self).has_slot(old(self).group_to_inner@[group]));
            }
            assert forall|i: int, j: int|
                0 <= i < num_groups && 0 <= j < num_groups && contents[#[trigger] self.group_to_inner@[i] as int]
                    == contents[#[trigger] self.group_to_inner@[j] as int] implies self.group_to_inner@[i]
                == self.group_to_inner@[j] by {
                assert(old(self).has_slot(old(self).group_to_inner@[i]));
                assert(old(self).has_slot(old(self).group_to_inner@[j]));
                lemma_registered_injective(
                    old(self).inner.groups(),
                    dedup_entries(old(self).value_dedup),
                    old(self).null_inner_slot,
                    self.group_to_inner@[i],
                    self.group_to_inner@[j],
                );
            }
            assert(selected(contents, self.group_to_inner@.subrange(0, n as int)) =~= first);
            assert(selected(contents, self.group_to_inner@.subrange(n as int, num_groups as int)) =~= rest);
        }
        let emitted = Self::emit_first(&self.group_to_inner, n, &all_inner_values);
        let (old_to_new, new_to_old) = first_seen(&self.group_to_inner, n, num_groups, &all_inner_values, true);

        self.value_dedup = DedupTable::new();
        self.null_inner_slot = None;
        self.hash_values(&all_inner_values);
        proof {
            lemma_distinct_no_duplicates(rest);
        }
        self.refill(&all_inner_values, &new_to_old);

        let mut remaining: Vec<usize> = Vec::new();
        let mut group: usize = n;
        while group < num_groups
            invariant
                n <= group <= num_groups == self.group_to_inner@.len(),
                old_to_new@.len() == contents.len(),
                forall|i: int| 0 <= i < num_groups ==> #[trigger] self.group_to_inner@[i] < contents.len(),
                forall|i: int|
                    n <= i < num_groups ==> {
                        &&& old_to_new@[#[trigger] self.group_to_inner@[i] as int] matches Some(place)
                        &&& place < new_to_old@.len()
                        &&& new_to_old@[place as int] == self.group_to_inner@[i]
                    },
                remaining@.len() == group - n,
                forall|i: int|
                    0 <= i < remaining@.len() ==> {
                        &&& #[trigger] remaining@[i] < new_to_old@.len()
                        &&& new_to_old@[remaining@[i] as int] == self.group_to_inner@[n + i]
                    },
            decreases num_groups - group,
        {
            if let Some(slot) = old_to_new[self.group_to_inner[group]] {
                remaining.push(slot);
            }
            group = group + 1;
        }
        proof {
            assert(old(self).group_to_inner@ == self.group_to_inner@);
            assert forall|i: int| 0 <= i < remaining@.len() implies self.inner.groups()[#[trigger] remaining@[i] as int]
                == rest[i] by {
                assert(self.inner.groups()[remaining@[i] as int] == contents[new_to_old@[remaining@[i] as int] as int]);
            }
        }
        self.group_to_inner = remaining;
        proof {
            assert forall|i: int| 0 <= i < self.group_to_inner@.len() implies self.has_slot(
                #[trigger] self.group_to_inner@[i],
            ) by {
                assert(self.group_to_inner@[i] < self.inner.groups().len());
            }
            assert(self.group_values() =~= rest);
            assert(first + rest =~= old(self).group_values());
            self.lemma_non_null_count();
            law_keys_are_determined(dictionary_keys(emitted), first);
        }
        emitted
    }

    fn build(self) -> (array: ArrayData)
        ensures
            dictionary_values(array) == without_null(self.slots(), self.null_slot()),
            dictionary_keys(array) == self.group_slots().map_values(
                |slot: usize| key_of(slot as int, self.null_slot()),
            ),
            keys_in_range(dictionary_keys(array), dictionary_values(array).len()),
            forall|group: int|
                0 <= group < self.groups().len() ==> {
                    &&& #[trigger] dictionary_keys(array)[group] is None <==> self.groups()[group] is None
                    &&& decoded(dictionary_keys(array), dictionary_values(array), group) == self.groups()[group]
                },
            self.tight() ==> {
                &&& dictionary_values(array) == present(distinct(self.groups()))
                &&& dictionary_keys(array) == encoded(self.groups())
            },
    {
        let null_inner_slot = self.null_inner_slot;
        let values = self.inner.build();
        assert forall|group: int| 0 <= group < self.group_to_inner@.len() implies #[trigger] self.group_to_inner@[group]
            < array_contents(values).len() by {
            assert(self.has_slot(self.group_to_inner@[group]));
        }
        let array = Self::into_dict(values, &self.group_to_inner, null_inner_slot);
        proof {
            assert forall|group: int| 0 <= group < self.groups().len() implies {
                &&& #[trigger] dictionary_keys(array)[group] is None <==> self.groups()[group] is None
                &&& dictionary_keys(array)[group] is Some ==> 0 <= dictionary_keys(array)[group]->0
                    < dictionary_values(array).len()
                &&& decoded(dictionary_keys(array), dictionary_values(array), group) == self.groups()[group]
            } by {
                assert(self.has_slot(self.group_to_inner@[group]));
            }
            if self.tight() {
                self.law_null_uses_no_key();
                law_keys_are_determined(dictionary_keys(array), self.groups());
            }
        }
        array
    }
}

} // verus!
