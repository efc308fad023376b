//! Arrow arrays, seen as the sequences of values that they hold.
//!
//! A value is an integer here, one for each value of each data type: two rows
//! hold equal values of one type exactly where their integers are equal. A row
//! that the array's validity mask marks null holds `None`.
use arrow::array::{
    make_array, Array, ArrayData, AsArray, BooleanBufferBuilder, Int64Array, UInt64Array,
};
use arrow::compute::{cast, take};
use arrow::datatypes::{DataType, UInt64Type};
use datafusion_common::hash_utils::{create_hashes, RandomState};
use vstd::prelude::*;

use crate::data_type::same_data_type;
use crate::group_values::key_type::KeyType;
use crate::type_shape::{groupable, struct_fields, struct_fields_of};

verus! {

/// Arrow's untyped array: a type, a length, buffers and a validity mask.
#[verifier::external_type_specification]
#[verifier::external_body]
pub struct ExArrayData(ArrayData);

/// Arrow's growable packed sequence of bits.
#[verifier::external_type_specification]
#[verifier::external_body]
pub struct ExBooleanBufferBuilder(BooleanBufferBuilder);

/// The rows of an array, in order.
pub uninterp spec fn array_contents(array: ArrayData) -> Seq<Option<int>>;

/// The data type of an array's rows.
pub uninterp spec fn array_type(array: ArrayData) -> DataType;

/// At which row of its buffers and of its children an array starts.
pub uninterp spec fn array_offset(array: ArrayData) -> usize;

/// The arrays that an array is made of.
pub uninterp spec fn array_children(array: ArrayData) -> Seq<ArrayData>;

/// The keys of a dictionary-encoded array, in the order of its rows.
pub uninterp spec fn dictionary_keys(array: ArrayData) -> Seq<Option<int>>;

/// The values that the keys of a dictionary-encoded array number.
pub uninterp spec fn dictionary_values(array: ArrayData) -> Seq<Option<int>>;

/// The data type of keys of type `key_type`.
pub uninterp spec fn key_data_type_of(key_type: KeyType) -> DataType;

/// The data type of an array that is dictionary-encoded with keys of type `key`
/// and values of type `value`.
pub uninterp spec fn dictionary_type(key: DataType, value: DataType) -> DataType;

/// The hash of a value under a seed.
pub uninterp spec fn value_hash(seed: u64, value: int) -> u64;

/// The bits of a builder, in order.
pub uninterp spec fn builder_bits(builder: BooleanBufferBuilder) -> Seq<bool>;

/// Structs, and those that an array is made of, start at the first row of their children,
/// and the children have all their rows.
///
/// A struct that starts further on cannot be relied on: `ArrayData::slice` makes one whose
/// children are cut already, and whose structs in structs are read past their end.
pub open spec fn sound_within(array: ArrayData, depth: nat) -> bool
    decreases depth,
{
    &&& depth > 0
    &&& struct_fields_of(array_type(array)) is Some ==> array_offset(array) == 0
    &&& forall|i: int|
        0 <= i < array_children(array).len() ==> {
            &&& sound_within(#[trigger] array_children(array)[i], (depth - 1) as nat)
            &&& struct_fields_of(array_type(array)) is Some ==> array_contents(array).len() <= array_contents(
                array_children(array)[i],
            ).len()
        }
}

/// An array of this type that can be read: the structs in it start at the first row of
/// their children, and the children have all their rows.
pub open spec fn array_of(array: ArrayData, data_type: DataType) -> bool {
    array_type(array) == data_type && sound_within(array, usize::MAX as nat)
}

/// An array that can be grouped.
pub open spec fn groupable_array(array: ArrayData) -> bool {
    groupable(array_type(array)) && array_of(array, array_type(array))
}

/// A dictionary-encoded array of values that can be grouped.
pub open spec fn encoded_array(array: ArrayData) -> bool {
    exists|key_type: KeyType, value: DataType| #[trigger]
        array_of(array, dictionary_type(key_data_type_of(key_type), value)) && groupable(value)
}

/// What row `row` of a dictionary-encoded array holds: nothing where its key is null.
pub open spec fn decoded(keys: Seq<Option<int>>, values: Seq<Option<int>>, row: int) -> Option<int> {
    match keys[row] {
        Some(key) => values[key],
        None => None,
    }
}

/// Every key that is not null numbers one of `num_values` values.
pub open spec fn keys_in_range(keys: Seq<Option<int>>, num_values: nat) -> bool {
    forall|row: int|
        0 <= row < keys.len() && #[trigger] keys[row] is Some ==> 0 <= keys[row]->0 < num_values
}

/// `keys`, with each key as a mathematical integer.
pub open spec fn key_seq(keys: Seq<Option<usize>>) -> Seq<Option<int>> {
    keys.map_values(
        |key: Option<usize>|
            match key {
                Some(key) => Some(key as int),
                None => None,
            },
    )
}

/// `ArrayData::len`: the number of rows.
#[verifier::external_body]
pub(crate) fn array_len(array: &ArrayData) -> (len: usize)
    ensures
        len == array_contents(*array).len(),
{
    array.len()
}

/// `ArrayData::offset`: the row at which the array starts.
#[verifier::external_body]
fn offset_of(array: &ArrayData) -> (offset: usize)
    ensures
        offset == array_offset(*array),
{
    array.offset()
}

/// `ArrayData::child_data`: the arrays that the array is made of.
#[verifier::external_body]
fn children_of(array: &ArrayData) -> (children: Vec<ArrayData>)
    ensures
        children@ == array_children(*array),
{
    array.child_data().to_vec()
}

/// Whether structs start at the first row of their children, and the children have all
/// their rows.
fn is_sound(array: &ArrayData, depth: usize) -> (sound: bool)
    ensures
        sound == sound_within(*array, depth as nat),
    decreases depth,
{
    if depth == 0 {
        return false;
    }
    let is_struct = struct_fields(&array_data_type(array)).is_some();
    if is_struct && offset_of(array) != 0 {
        return false;
    }
    let len = array_len(array);
    let children = children_of(array);
    let mut i: usize = 0;
    while i < children.len()
        invariant
            i <= children@.len(),
            depth > 0,
            children@ == array_children(*array),
            is_struct == struct_fields_of(array_type(*array)) is Some,
            len == array_contents(*array).len(),
            forall|j: int|
                0 <= j < i ==> {
                    &&& sound_within(#[trigger] children@[j], (depth - 1) as nat)
                    &&& is_struct ==> array_contents(*array).len() <= array_contents(children@[j]).len()
                },
        decreases children@.len() - i,
    {
        if !is_sound(&children[i], depth - 1) || (is_struct && array_len(&children[i]) < len) {
            assert(!sound_within(array_children(*array)[i as int], (depth - 1) as nat) || is_struct);
            return false;
        }
        i += 1;
    }
    true
}

/// Whether an array is of a type and can be read.
pub(crate) fn is_array_of(array: &ArrayData, data_type: &DataType) -> (is: bool)
    ensures
        is == array_of(*array, *data_type),
{
    same_data_type(&array_data_type(array), data_type) && is_sound(array, usize::MAX)
}

/// `ArrayData::is_null`: whether the validity mask marks a row null.
#[verifier::external_body]
pub(crate) fn array_is_null(array: &ArrayData, row: usize) -> (null: bool)
    requires
        groupable(array_type(*array)),
        row < array_contents(*array).len(),
    ensures
        null == (array_contents(*array)[row as int] is None),
{
    array.is_null(row)
}

/// `Array::slice`: the rows from `offset` on, `length` of them.
#[verifier::external_body]
pub(crate) fn array_slice(array: &ArrayData, offset: usize, length: usize) -> (slice: ArrayData)
    requires
        groupable_array(*array) || encoded_array(*array),
        offset + length <= array_contents(*array).len(),
    ensures
        array_contents(slice) == array_contents(*array).subrange(offset as int, offset + length),
        array_of(slice, array_type(*array)),
{
    make_array(array.clone()).slice(offset, length).to_data()
}

/// `arrow::compute::take`: the rows that `indices` number, in that order. No row is
/// taken twice, so what is taken is never larger than `array`.
#[verifier::external_body]
pub(crate) fn array_take(array: &ArrayData, indices: &Vec<usize>) -> (taken: ArrayData)
    requires
        groupable_array(*array),
        forall|i: int| 0 <= i < indices@.len() ==> #[trigger] indices@[i] < array_contents(*array).len(),
        indices@.no_duplicates(),
    ensures
        array_contents(taken).len() == indices@.len(),
        forall|i: int|
            0 <= i < indices@.len() ==> #[trigger] array_contents(taken)[i]
                == array_contents(*array)[indices@[i] as int],
        array_of(taken, array_type(*array)),
{
    let indices = Int64Array::from_iter_values(indices.iter().map(|&index| index as i64));
    take(&make_array(array.clone()), &indices, None).expect("rows are in bounds").to_data()
}

/// `create_hashes` on one column, with the fixed hash state of a seed: the hash of each
/// row that is not null. The hashes of lists, maps and structs are added to what `hashes`
/// holds. What is left in the place of a null row is not stated.
#[verifier::external_body]
pub(crate) fn array_hashes(array: &ArrayData, seed: u64, hashes: &mut Vec<u64>)
    requires
        groupable_array(*array),
        old(hashes)@.len() == array_contents(*array).len(),
        forall|row: int| 0 <= row < old(hashes)@.len() ==> #[trigger] old(hashes)@[row] == 0,
    ensures
        final(hashes)@.len() == array_contents(*array).len(),
        forall|row: int|
            0 <= row < final(hashes)@.len() && array_contents(*array)[row] is Some ==>
                #[trigger] final(hashes)@[row] == value_hash(seed, array_contents(*array)[row]->0),
{
    let array = make_array(array.clone());
    create_hashes([array], &RandomState::with_seed(seed), hashes).expect("the type is hashed");
}

/// `new_null_array` of one row: a row that is null.
#[verifier::external_body]
pub(crate) fn null_row(data_type: &DataType) -> (array: ArrayData)
    requires
        groupable(*data_type),
    ensures
        array_contents(array) == seq![None::<int>],
        array_of(array, *data_type),
{
    ArrayData::new_null(data_type, 1)
}

/// `ArrayData::get_array_memory_size`. How much that is, is not stated.
#[verifier::external_body]
pub(crate) fn array_memory_size(array: &ArrayData) -> (size: usize) {
    array.get_array_memory_size()
}

/// `ArrayData::data_type`: the data type of the rows.
#[verifier::external_body]
pub(crate) fn array_data_type(array: &ArrayData) -> (data_type: DataType)
    ensures
        data_type == array_type(*array),
{
    array.data_type().clone()
}

/// The variant of `DataType` that stands for a key type.
#[verifier::external_body]
pub(crate) fn key_data_type(key_type: KeyType) -> (data_type: DataType)
    ensures
        data_type == key_data_type_of(key_type),
{
    match key_type {
        KeyType::Int8 => DataType::Int8,
        KeyType::Int16 => DataType::Int16,
        KeyType::Int32 => DataType::Int32,
        KeyType::Int64 => DataType::Int64,
        KeyType::UInt8 => DataType::UInt8,
        KeyType::UInt16 => DataType::UInt16,
        KeyType::UInt32 => DataType::UInt32,
        KeyType::UInt64 => DataType::UInt64,
    }
}

/// `DataType::Dictionary`: the type of an array that is dictionary-encoded.
#[verifier::external_body]
pub(crate) fn dictionary_data_type(key: DataType, value: DataType) -> (data_type: DataType)
    ensures
        data_type == dictionary_type(key, value),
{
    DataType::Dictionary(Box::new(key), Box::new(value))
}

/// `AnyDictionaryArray::keys` and `values`: the keys of a dictionary-encoded array and
/// the values that they number. A key that is not null numbers one of the values, and
/// the array's row holds that value.
#[verifier::external_body]
pub(crate) fn dictionary_parts(array: &ArrayData) -> (parts: (Vec<Option<usize>>, ArrayData))
    requires
        encoded_array(*array),
    ensures
        key_seq(parts.0@) == dictionary_keys(*array),
        array_contents(parts.1) == dictionary_values(*array),
        parts.0@.len() == array_contents(*array).len(),
        keys_in_range(key_seq(parts.0@), array_contents(parts.1).len()),
        forall|row: int|
            0 <= row < parts.0@.len() ==> #[trigger] array_contents(*array)[row] == decoded(
                key_seq(parts.0@),
                array_contents(parts.1),
                row,
            ),
        forall|key_type: KeyType, value: DataType|
            array_type(*array) == #[trigger] dictionary_type(key_data_type_of(key_type), value)
                ==> array_of(parts.1, value),
{
    let array = make_array(array.clone());
    let dictionary = array.as_any_dictionary();
    let keys = cast(dictionary.keys(), &DataType::UInt64).expect("keys are integers");
    let keys = keys.as_primitive::<UInt64Type>().iter();
    (keys.map(|key| key.map(|key| key as usize)).collect(), dictionary.values().to_data())
}

/// `ArrayDataBuilder::build` of an array of keys, of the integer type `key`, that number
/// nulls, and `AnyDictionaryArray::with_values`: the keys number `values` instead.
#[verifier::external_body]
pub(crate) fn dictionary_array(key: &DataType, keys: &Vec<Option<usize>>, values: &ArrayData) -> (array: ArrayData)
    requires
        groupable_array(*values),
        keys_in_range(key_seq(keys@), array_contents(*values).len()),
        exists|key_type: KeyType|
            *key == #[trigger] key_data_type_of(key_type) && key_type.fits(array_contents(*values).len()),
    ensures
        dictionary_keys(array) == key_seq(keys@),
        dictionary_values(array) == array_contents(*values),
        array_contents(array).len() == keys@.len(),
        forall|row: int|
            0 <= row < keys@.len() ==> #[trigger] array_contents(array)[row] == decoded(
                key_seq(keys@),
                array_contents(*values),
                row,
            ),
        array_of(array, dictionary_type(*key, array_type(*values))),
{
    let keys = UInt64Array::from_iter(keys.iter().map(|key| key.map(|key| key as u64)));
    let keys = cast(&keys, key).expect("keys are of the key type");
    let data_type = DataType::Dictionary(Box::new(key.clone()), Box::new(DataType::Null));
    let nulls = ArrayData::new_null(&DataType::Null, values.len());
    let array = keys.to_data().into_builder().data_type(data_type).add_child_data(nulls).build();
    let array = make_array(array.expect("keys are in bounds"));
    array.as_any_dictionary().with_values(make_array(values.clone())).to_data()
}

/// `BooleanBufferBuilder::get_bit`: the bit at `index`.
pub assume_specification[ BooleanBufferBuilder::get_bit ](builder: &BooleanBufferBuilder, index: usize) -> (bit: bool)
    requires
        index < builder_bits(*builder).len(),
    ensures
        bit == builder_bits(*builder)[index as int],
;

/// `BooleanBufferBuilder::set_bit`: puts `value` at `index`.
pub assume_specification[ BooleanBufferBuilder::set_bit ](builder: &mut BooleanBufferBuilder, index: usize, value: bool)
    requires
        index < builder_bits(*old(builder)).len(),
    ensures
        builder_bits(*final(builder)) == builder_bits(*old(builder)).update(index as int, value),
;

/// Arrays without structs in them can be read: those that are made of no others, and those
/// that are made of such. So can structs that start at the first row of such arrays, where
/// these have all their rows.
pub proof fn law_arrays_that_can_be_read(array: ArrayData)
    requires
        forall|i: int|
            0 <= i < array_children(array).len() ==> {
                &&& array_children(#[trigger] array_children(array)[i]).len() == 0
                &&& struct_fields_of(array_type(array_children(array)[i])) is None
            },
        struct_fields_of(array_type(array)) is Some ==> array_offset(array) == 0 && forall|i: int|
            0 <= i < array_children(array).len() ==> array_contents(array).len() <= array_contents(
                #[trigger] array_children(array)[i],
            ).len(),
    ensures
        array_of(array, array_type(array)),
{
    reveal_with_fuel(sound_within, 3);
    assert forall|i: int| 0 <= i < array_children(array).len() implies sound_within(
        #[trigger] array_children(array)[i],
        (usize::MAX - 1) as nat,
    ) by {}
}

/// An array that is made of arrays that can be read can be read, at any depth.
pub proof fn law_arrays_made_of_sound_arrays_are_sound(array: ArrayData, depth: nat)
    requires
        forall|i: int|
            0 <= i < array_children(array).len() ==> sound_within(#[trigger] array_children(array)[i], depth),
        struct_fields_of(array_type(array)) is Some ==> array_offset(array) == 0 && forall|i: int|
            0 <= i < array_children(array).len() ==> array_contents(array).len() <= array_contents(
                #[trigger] array_children(array)[i],
            ).len(),
    ensures
        sound_within(array, depth + 1),
{
}

} // verus!
