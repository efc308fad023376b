use arrow::array::{
    make_array, Array, ArrayData, ArrayRef, AsArray, BooleanArray, BooleanBufferBuilder,
    DictionaryArray, FixedSizeBinaryArray, Int32Array, Int64Array, Int8Array, ListArray, MapArray,
    StringArray, StructArray, UInt8Array,
};
use arrow::buffer::{NullBuffer, OffsetBuffer};
use arrow::compute::{cast, interleave};
use arrow::datatypes::{DataType, Field, TimeUnit};
use query_core::group_values::dictionary::DictionaryGroupValuesColumn;
use query_core::group_values::group_column::{GroupColumn, GroupError};
use query_core::group_values::key_type::{
    DictionaryKeyType, Int16Type, Int32Type, Int64Type, Int8Type, KeyType, UInt16Type, UInt32Type,
    UInt64Type, UInt8Type,
};
use query_core::group_values::memory::{elements_size, total_size};
use std::sync::atomic::{AtomicUsize, Ordering};
use std::sync::Arc;

/// A column of strings.
#[derive(Default)]
struct StringColumn {
    values: Vec<Option<String>>,
    /// The number of values that the column takes, where it is limited.
    limit: Option<usize>,
}

fn string_at(array: &ArrayData, row: usize) -> Option<String> {
    let array = make_array(array.clone());
    let strings = array.as_string::<i32>();
    if strings.is_null(row) {
        None
    } else {
        Some(strings.value(row).to_string())
    }
}

impl GroupColumn for StringColumn {
    fn equal_to(&self, lhs_row: usize, array: &ArrayData, rhs_row: usize) -> bool {
        self.values[lhs_row] == string_at(array, rhs_row)
    }

    fn append_val(&mut self, array: &ArrayData, row: usize) -> Result<(), GroupError> {
        if self.limit.is_some_and(|limit| self.values.len() >= limit) {
            return Err(GroupError::Rejected);
        }
        self.values.push(string_at(array, row));
        Ok(())
    }

    fn vectorized_equal_to(
        &self,
        lhs_rows: &[usize],
        array: &ArrayData,
        rhs_rows: &[usize],
        equal_to_results: &mut BooleanBufferBuilder,
    ) {
        for (idx, (&lhs_row, &rhs_row)) in lhs_rows.iter().zip(rhs_rows.iter()).enumerate() {
            if !self.equal_to(lhs_row, array, rhs_row) {
                equal_to_results.set_bit(idx, false);
            }
        }
    }

    fn vectorized_append(&mut self, array: &ArrayData, rows: &[usize]) -> Result<(), GroupError> {
        for &row in rows {
            self.append_val(array, row)?;
        }
        Ok(())
    }

    fn len(&self) -> usize {
        self.values.len()
    }

    fn size(&self) -> usize {
        self.values.iter().flatten().map(|value| value.len()).sum()
    }

    fn build(self) -> ArrayData {
        StringArray::from(self.values).to_data()
    }

    fn take_n(&mut self, n: usize) -> ArrayData {
        let rest = self.values.split_off(n);
        let first = std::mem::replace(&mut self.values, rest);
        StringArray::from(first).to_data()
    }
}

/// A column of strings that counts comparisons.
struct CountingGroupColumn {
    inner: StringColumn,
    comparisons: Arc<AtomicUsize>,
}

impl GroupColumn for CountingGroupColumn {
    fn equal_to(&self, lhs_row: usize, array: &ArrayData, rhs_row: usize) -> bool {
        self.comparisons.fetch_add(1, Ordering::Relaxed);
        self.inner.equal_to(lhs_row, array, rhs_row)
    }

    fn append_val(&mut self, array: &ArrayData, row: usize) -> Result<(), GroupError> {
        self.inner.append_val(array, row)
    }

    fn vectorized_equal_to(
        &self,
        lhs_rows: &[usize],
        array: &ArrayData,
        rhs_rows: &[usize],
        equal_to_results: &mut BooleanBufferBuilder,
    ) {
        self.inner.vectorized_equal_to(lhs_rows, array, rhs_rows, equal_to_results)
    }

    fn vectorized_append(&mut self, array: &ArrayData, rows: &[usize]) -> Result<(), GroupError> {
        self.inner.vectorized_append(array, rows)
    }

    fn len(&self) -> usize {
        self.inner.len()
    }

    fn size(&self) -> usize {
        self.inner.size()
    }

    fn build(self) -> ArrayData {
        self.inner.build()
    }

    fn take_n(&mut self, n: usize) -> ArrayData {
        self.inner.take_n(n)
    }
}

type Column<K> = DictionaryGroupValuesColumn<K, StringColumn>;

fn utf8_field() -> Field {
    Field::new("", DataType::Utf8, true)
}

fn col() -> Column<Int32Type> {
    DictionaryGroupValuesColumn::new(StringColumn::default(), &utf8_field())
}

fn counting_col(
    comparisons: Arc<AtomicUsize>,
) -> DictionaryGroupValuesColumn<Int32Type, CountingGroupColumn> {
    let inner = CountingGroupColumn { inner: StringColumn::default(), comparisons };
    DictionaryGroupValuesColumn::new(inner, &utf8_field())
}

fn int8_col() -> Column<Int8Type> {
    DictionaryGroupValuesColumn::new(StringColumn::default(), &utf8_field())
}

fn i32_dict(keys: &[Option<i32>], values: &[Option<&str>]) -> ArrayData {
    DictionaryArray::<arrow::datatypes::Int32Type>::new(
        Int32Array::from(keys.to_vec()),
        Arc::new(StringArray::from(values.to_vec())),
    )
    .to_data()
}

fn i8_dict(keys: &[Option<i8>], values: &[Option<&str>]) -> ArrayData {
    DictionaryArray::<arrow::datatypes::Int8Type>::new(
        Int8Array::from(keys.to_vec()),
        Arc::new(StringArray::from(values.to_vec())),
    )
    .to_data()
}

fn equal_results(values: &[bool]) -> BooleanBufferBuilder {
    let mut results = BooleanBufferBuilder::new(values.len());
    for &value in values {
        results.append(value);
    }
    results
}

fn array_of(data: &ArrayData) -> ArrayRef {
    make_array(data.clone())
}

fn plain_values(data: &ArrayData) -> Vec<Option<String>> {
    let plain = cast(&array_of(data), &DataType::Utf8).unwrap();
    plain.as_string::<i32>().iter().map(|value| value.map(ToOwned::to_owned)).collect()
}

/// The distinct values that the array holds, in order.
fn dictionary_values(data: &ArrayData) -> Vec<Option<String>> {
    let array = array_of(data);
    let values = array.as_any_dictionary().values();
    values.as_string::<i32>().iter().map(|value| value.map(ToOwned::to_owned)).collect()
}

fn i32_keys(data: &ArrayData) -> Vec<Option<i32>> {
    array_of(data).as_dictionary::<arrow::datatypes::Int32Type>().keys().iter().collect()
}

fn strings(values: &[Option<&str>]) -> Vec<Option<String>> {
    values.iter().map(|value| value.map(ToOwned::to_owned)).collect()
}

#[test]
fn dictionary_values_are_deduplicated_and_rebuilt() {
    let mut group_column = col();
    let input = i32_dict(
        &[Some(0), Some(1), Some(0), Some(1), Some(0)],
        &[Some("a"), Some("b")],
    );
    group_column.vectorized_append(&input, &[0, 1, 2, 3, 4]).unwrap();
    let output = group_column.build();
    assert_eq!(output.data_type(), input.data_type());
    assert_eq!(
        array_of(&output).as_dictionary::<arrow::datatypes::Int32Type>().values().len(),
        2
    );
    assert_eq!(
        plain_values(&output),
        vec![
            Some("a".into()),
            Some("b".into()),
            Some("a".into()),
            Some("b".into()),
            Some("a".into())
        ]
    );
}

#[test]
fn null_keys_and_null_values_are_the_same_group() {
    let mut group_column = col();
    let input = i32_dict(&[None, Some(0), Some(1)], &[None, Some("b")]);
    group_column.vectorized_append(&input, &[0, 1, 2]).unwrap();
    assert!(group_column.equal_to(0, &input, 1));
    assert!(!group_column.equal_to(0, &input, 2));
    let output = group_column.build();
    assert_eq!(
        array_of(&output).as_dictionary::<arrow::datatypes::Int32Type>().values().len(),
        1
    );
    assert_eq!(plain_values(&output), vec![None, None, Some("b".into())]);
}

#[test]
fn dictionary_encodings_can_change_between_batches() {
    let mut group_column = col();
    group_column
        .vectorized_append(&i32_dict(&[Some(0)], &[Some("a"), Some("b")]), &[0])
        .unwrap();
    let other_encoding = i32_dict(&[Some(1)], &[Some("z"), Some("a")]);
    let mut equals = equal_results(&[true]);
    group_column.vectorized_equal_to(&[0], &other_encoding, &[0], &mut equals);
    assert!(equals.get_bit(0));
}

#[test]
fn lookup_table_avoids_per_row_value_comparisons() {
    let comparisons = Arc::new(AtomicUsize::new(0));
    let mut group_column = counting_col(Arc::clone(&comparisons));
    let values: Vec<String> = (0..16).map(|i| format!("value-{i}")).collect();
    let refs: Vec<Option<&str>> = values.iter().map(|value| Some(value.as_str())).collect();
    let keys: Vec<Option<i32>> = (0..16).map(Some).collect();
    let input = i32_dict(&keys, &refs);
    group_column.vectorized_append(&input, &(0..16).collect::<Vec<_>>()).unwrap();

    comparisons.store(0, Ordering::Relaxed);
    let mut sparse = equal_results(&[true]);
    group_column.vectorized_equal_to(&[0], &input, &[0], &mut sparse);
    let sparse_comparisons = comparisons.load(Ordering::Relaxed);
    assert_eq!(sparse_comparisons, 1);

    let dense_keys: Vec<Option<i32>> = (0..256).map(|i| Some(i % 16)).collect();
    let dense = i32_dict(&dense_keys, &refs);
    let lhs_rows: Vec<usize> = (0..256).map(|i| i % 16).collect();
    let rhs_rows: Vec<usize> = (0..256).collect();

    comparisons.store(0, Ordering::Relaxed);
    let mut short_lookup = equal_results(&[true; 16]);
    group_column.vectorized_equal_to(
        &(0..16).collect::<Vec<_>>(),
        &input,
        &(0..16).collect::<Vec<_>>(),
        &mut short_lookup,
    );
    assert!((0..16).all(|i| short_lookup.get_bit(i)));
    let lookup_comparisons = comparisons.load(Ordering::Relaxed);
    assert!(lookup_comparisons > sparse_comparisons);

    comparisons.store(0, Ordering::Relaxed);
    let mut dense_lookup = equal_results(&[true; 256]);
    group_column.vectorized_equal_to(&lhs_rows, &dense, &rhs_rows, &mut dense_lookup);
    assert!((0..256).all(|i| dense_lookup.get_bit(i)));
    assert_eq!(comparisons.load(Ordering::Relaxed), lookup_comparisons);
}

#[test]
fn vectorized_equal_to_keeps_existing_false_bits() {
    let mut group_column = col();
    let input = i32_dict(&[Some(0), Some(1)], &[Some("a"), Some("b")]);
    group_column.vectorized_append(&input, &[0, 1]).unwrap();

    // The sparse branch must not turn a false comparison bit back on.
    let sparse = i32_dict(&[Some(0), Some(2)], &[Some("a"), Some("b"), Some("c")]);
    let mut equals = equal_results(&[false, true]);
    group_column.vectorized_equal_to(&[0, 1], &sparse, &[0, 1], &mut equals);
    assert!(!equals.get_bit(0));
    assert!(!equals.get_bit(1));

    // The dictionary-cardinality lookup branch obeys the same invariant.
    let mut equals = equal_results(&[false, true, true]);
    group_column.vectorized_equal_to(&[0, 0, 1], &input, &[0, 0, 1], &mut equals);
    assert!(!equals.get_bit(0));
    assert!(equals.get_bit(1));
    assert!(equals.get_bit(2));
}

#[test]
fn take_n_compacts_values_and_remaps_remaining_keys() {
    let mut group_column = col();
    let first = i32_dict(
        &[Some(0), Some(1), None, Some(2)],
        &[Some("a"), Some("b"), Some("c")],
    );
    group_column.vectorized_append(&first, &[0, 1, 2, 3]).unwrap();
    let emitted = group_column.take_n(2);
    assert_eq!(
        array_of(&emitted).as_dictionary::<arrow::datatypes::Int32Type>().values().len(),
        2
    );
    assert_eq!(plain_values(&emitted), vec![Some("a".into()), Some("b".into())]);

    let second = i32_dict(&[None, Some(0)], &[Some("z")]);
    group_column.vectorized_append(&second, &[0, 1]).unwrap();
    let mut equals = equal_results(&[true, true]);
    group_column.vectorized_equal_to(&[0, 1], &second, &[0, 1], &mut equals);
    assert!(equals.get_bit(0));
    assert!(!equals.get_bit(1));
    assert_eq!(
        plain_values(&group_column.build()),
        vec![None, Some("c".into()), None, Some("z".into())]
    );
}

#[test]
fn null_does_not_consume_an_int8_dictionary_key() {
    let mut group_column = int8_col();
    group_column.append_val(&i8_dict(&[None], &[Some("x")]), 0).unwrap();
    let values: Vec<String> = (0..128).map(|index| format!("v{index}")).collect();
    let refs: Vec<Option<&str>> = values.iter().map(|value| Some(value.as_str())).collect();
    let keys: Vec<Option<i8>> = (0..128).map(|index| Some(index as i8)).collect();
    let input = i8_dict(&keys, &refs);
    group_column.vectorized_append(&input, &(0..128).collect::<Vec<_>>()).unwrap();
    assert!(group_column
        .append_val(&i8_dict(&[Some(0)], &[Some("overflow")]), 0)
        .is_err());

    // The failing append intentionally leaves its partially inserted value
    // in the builder, so construct a fresh capacity-sized builder before
    // validating output construction.
    let mut group_column = int8_col();
    group_column.append_val(&i8_dict(&[None], &[Some("x")]), 0).unwrap();
    group_column.vectorized_append(&input, &(0..128).collect::<Vec<_>>()).unwrap();
    let output = group_column.build();
    let output = array_of(&output);
    assert!(output.as_dictionary::<arrow::datatypes::Int8Type>().key(0).is_none());
    assert_eq!(output.as_dictionary::<arrow::datatypes::Int8Type>().values().len(), 128);
}

#[test]
fn key_types_number_as_many_values_as_they_have_keys() {
    for (key_type, values) in [
        (Int8Type::data_type(), 1usize << 7),
        (Int16Type::data_type(), 1 << 15),
        (Int32Type::data_type(), 1 << 31),
        (Int64Type::data_type(), 1 << 63),
        (UInt8Type::data_type(), 1 << 8),
        (UInt16Type::data_type(), 1 << 16),
        (UInt32Type::data_type(), 1 << 32),
    ] {
        assert!(key_type.key_type_fits(0));
        assert!(key_type.key_type_fits(values), "{key_type:?}");
        assert!(!key_type.key_type_fits(values + 1), "{key_type:?}");
    }
    assert!(UInt64Type::data_type().key_type_fits(usize::MAX));
    assert_eq!(UInt64Type::data_type(), KeyType::UInt64);
}

#[test]
fn an_append_that_overflows_the_keys_says_by_how_many_values() {
    let mut group_column = int8_col();
    let values: Vec<String> = (0..128).map(|index| format!("v{index}")).collect();
    let refs: Vec<Option<&str>> = values.iter().map(|value| Some(value.as_str())).collect();
    let keys: Vec<Option<i8>> = (0..128).map(|index| Some(index as i8)).collect();
    let rows: Vec<usize> = (0..128).collect();
    assert_eq!(group_column.vectorized_append(&i8_dict(&keys, &refs), &rows), Ok(()));
    let overflow = GroupError::KeyOverflow { key_type: KeyType::Int8, distinct: 129 };
    let more = i8_dict(&[Some(0), Some(1)], &[Some("v3"), Some("w")]);
    assert_eq!(group_column.append_val(&more, 0), Ok(()));
    assert_eq!(group_column.append_val(&more, 1), Err(overflow));
    // The group was appended all the same.
    assert_eq!(group_column.len(), 130);
    assert!(group_column.equal_to(129, &more, 1));
    assert_eq!(group_column.vectorized_append(&more, &[0, 1]), Err(overflow));
    assert_eq!(group_column.len(), 132);
}

#[test]
fn a_store_that_takes_no_more_values_stops_an_append() {
    let inner = StringColumn { values: vec![], limit: Some(2) };
    let mut group_column: Column<Int32Type> = DictionaryGroupValuesColumn::new(inner, &utf8_field());
    let input = i32_dict(
        &[Some(0), Some(1), Some(0), Some(2), Some(1)],
        &[Some("a"), Some("b"), Some("c")],
    );
    assert_eq!(
        group_column.vectorized_append(&input, &[0, 1, 2, 3, 4]),
        Err(GroupError::Rejected)
    );
    // The groups before the one with the third value are there.
    assert_eq!(group_column.len(), 3);
    // Values that have a slot are still taken, others and null are not.
    assert_eq!(group_column.append_val(&input, 4), Ok(()));
    assert_eq!(group_column.append_val(&input, 3), Err(GroupError::Rejected));
    assert_eq!(
        group_column.append_val(&i32_dict(&[None], &[Some("a")]), 0),
        Err(GroupError::Rejected)
    );
    assert_eq!(
        plain_values(&group_column.build()),
        strings(&[Some("a"), Some("b"), Some("a"), Some("b")])
    );
}

#[test]
fn keys_skip_the_slot_of_null() {
    // Null first, in the middle, last, and not at all.
    for (order, values, keys) in [
        (
            [None, Some("a"), Some("b")],
            [Some("a"), Some("b")],
            [None, Some(0), Some(1)],
        ),
        (
            [Some("a"), None, Some("b")],
            [Some("a"), Some("b")],
            [Some(0), None, Some(1)],
        ),
        (
            [Some("a"), Some("b"), None],
            [Some("a"), Some("b")],
            [Some(0), Some(1), None],
        ),
    ] {
        let mut group_column = col();
        let input = i32_dict(&[Some(0), Some(1), Some(2)], &order);
        group_column.vectorized_append(&input, &[0, 1, 2]).unwrap();
        let output = group_column.build();
        assert_eq!(dictionary_values(&output), strings(&values));
        assert_eq!(i32_keys(&output), keys);
    }
    let mut group_column = col();
    let input = i32_dict(&[Some(1), Some(0), Some(1)], &[Some("a"), Some("b")]);
    group_column.vectorized_append(&input, &[0, 1, 2]).unwrap();
    let output = group_column.build();
    assert_eq!(dictionary_values(&output), strings(&[Some("b"), Some("a")]));
    assert_eq!(i32_keys(&output), [Some(0), Some(1), Some(0)]);
}

#[test]
fn appending_row_by_row_is_appending_them_together() {
    let input = i32_dict(
        &[Some(2), None, Some(0), Some(1), Some(2), Some(3)],
        &[Some("a"), None, Some("b"), Some("a")],
    );
    let rows = [5, 4, 3, 2, 1, 0];
    let mut together = col();
    together.vectorized_append(&input, &rows).unwrap();
    let mut one_by_one = col();
    for row in rows {
        one_by_one.append_val(&input, row).unwrap();
    }
    assert_eq!(together.len(), 6);
    let (together, one_by_one) = (together.build(), one_by_one.build());
    assert_eq!(
        plain_values(&together),
        strings(&[Some("a"), Some("b"), None, Some("a"), None, Some("b")])
    );
    assert_eq!(plain_values(&together), plain_values(&one_by_one));
    assert_eq!(dictionary_values(&together), dictionary_values(&one_by_one));
    assert_eq!(dictionary_values(&together), strings(&[Some("a"), Some("b")]));
}

#[test]
fn groups_are_equal_exactly_where_their_values_are() {
    let input = i32_dict(
        &[Some(0), None, Some(1), Some(2)],
        &[Some("a"), None, Some("b")],
    );
    let mut group_column = col();
    group_column.vectorized_append(&input, &[0, 1, 2, 3]).unwrap();
    let expected = [
        [true, false, false, false],
        [false, true, true, false],
        [false, true, true, false],
        [false, false, false, true],
    ];
    for (group, expected) in expected.iter().enumerate() {
        for (row, &expected) in expected.iter().enumerate() {
            assert_eq!(group_column.equal_to(group, &input, row), expected);
        }
        // By slot, and, for fewer rows than values, by value.
        let mut dense = equal_results(&[true; 4]);
        group_column.vectorized_equal_to(&[group; 4], &input, &[0, 1, 2, 3], &mut dense);
        let mut sparse = equal_results(&[true; 2]);
        group_column.vectorized_equal_to(&[group; 2], &input, &[1, 3], &mut sparse);
        for (row, &expected) in expected.iter().enumerate() {
            assert_eq!(dense.get_bit(row), expected);
        }
        assert_eq!(sparse.get_bit(0), expected[1]);
        assert_eq!(sparse.get_bit(1), expected[3]);
    }
}

#[test]
fn values_that_were_never_seen_equal_no_group() {
    let mut group_column = col();
    group_column
        .vectorized_append(&i32_dict(&[Some(0)], &[Some("a")]), &[0])
        .unwrap();
    let unseen = i32_dict(&[Some(0), None], &[Some("z")]);
    let mut equals = equal_results(&[true, true, true]);
    group_column.vectorized_equal_to(&[0, 0], &unseen, &[0, 1], &mut equals);
    assert!(!equals.get_bit(0));
    assert!(!equals.get_bit(1));
    // A bit without a pair stays as it is.
    assert!(equals.get_bit(2));
}

#[test]
fn take_n_splits_the_groups() {
    let input = i32_dict(
        &[Some(0), None, Some(1), Some(0), None, Some(2)],
        &[Some("a"), Some("b"), Some("c")],
    );
    let all = strings(&[Some("a"), None, Some("b"), Some("a"), None, Some("c")]);
    for n in 0..=6 {
        let mut group_column = col();
        group_column.vectorized_append(&input, &[0, 1, 2, 3, 4, 5]).unwrap();
        let emitted = group_column.take_n(n);
        assert_eq!(plain_values(&emitted), all[..n]);
        assert_eq!(emitted.data_type(), input.data_type());
        assert!(dictionary_values(&emitted).iter().all(|value| value.is_some()));
        assert_eq!(group_column.len(), 6 - n);
        // What is left can still be found, and takes more.
        group_column.append_val(&input, 0).unwrap();
        let output = group_column.build();
        let mut rest = all[n..].to_vec();
        rest.push(Some("a".to_string()));
        assert_eq!(plain_values(&output), rest);
        let mut distinct: Vec<Option<String>> = vec![];
        for value in rest {
            if value.is_some() && !distinct.contains(&value) {
                distinct.push(value);
            }
        }
        assert_eq!(dictionary_values(&output), distinct);
    }
}

#[test]
fn take_n_makes_room_for_more_keys() {
    let values: Vec<String> = (0..128).map(|index| format!("v{index}")).collect();
    let refs: Vec<Option<&str>> = values.iter().map(|value| Some(value.as_str())).collect();
    let keys: Vec<Option<i8>> = (0..128).map(|index| Some(index as i8)).collect();
    let mut group_column = int8_col();
    let rows: Vec<usize> = (0..128).collect();
    group_column.vectorized_append(&i8_dict(&keys, &refs), &rows).unwrap();
    let emitted = group_column.take_n(1);
    assert_eq!(dictionary_values(&emitted), strings(&[Some("v0")]));
    assert_eq!(
        group_column.append_val(&i8_dict(&[Some(0)], &[Some("w")]), 0),
        Ok(())
    );
}

#[test]
fn a_column_accepts_arrays_of_its_own_type() {
    let group_column = col();
    assert!(group_column.accepts(&i32_dict(&[Some(0)], &[Some("a")])));
    assert!(!group_column.accepts(&i8_dict(&[Some(0)], &[Some("a")])));
    assert!(!group_column.accepts(&StringArray::from(vec!["a"]).to_data()));
    let numbers = DictionaryArray::<arrow::datatypes::Int32Type>::new(
        Int32Array::from(vec![0]),
        Arc::new(Int64Array::from(vec![1])),
    );
    assert!(!group_column.accepts(&numbers.to_data()));
}

fn is_grouped(data_type: DataType) -> bool {
    let field = Field::new("", data_type, true);
    let column: Option<Column<Int32Type>> =
        DictionaryGroupValuesColumn::try_new(StringColumn::default(), &field);
    column.is_some_and(|column| column.len() == 0)
}

fn map_type(keys_nullable: bool, entries_nullable: bool) -> DataType {
    let entries = vec![
        Field::new("key", DataType::Utf8, keys_nullable),
        Field::new("value", DataType::Int64, true),
    ];
    let entries = Field::new("entries", DataType::Struct(entries.into()), entries_nullable);
    DataType::Map(Arc::new(entries), false)
}

#[test]
fn columns_are_made_for_types_with_a_mask() {
    let item = Arc::new(Field::new("item", DataType::Int64, true));
    let grouped = [
        DataType::Boolean,
        DataType::Int64,
        DataType::Date32,
        DataType::Time32(TimeUnit::Millisecond),
        DataType::Decimal128(38, 10),
        DataType::Utf8,
        DataType::LargeUtf8,
        DataType::Utf8View,
        DataType::Binary,
        DataType::LargeBinary,
        DataType::BinaryView,
        DataType::FixedSizeBinary(16),
        DataType::new_list(DataType::Int64, true),
        DataType::LargeList(item.clone()),
        DataType::ListView(item.clone()),
        DataType::LargeListView(item.clone()),
        DataType::new_list(DataType::new_list(DataType::Utf8, true), true),
        DataType::Struct(vec![Field::new("a", DataType::Int8, false)].into()),
        DataType::Struct(Vec::<Field>::new().into()),
        map_type(false, false),
    ];
    for data_type in grouped {
        assert!(is_grouped(data_type.clone()), "{data_type}");
    }
    let dictionary = DataType::Dictionary(Box::new(DataType::Int8), Box::new(DataType::Utf8));
    let others = [
        DataType::Null,
        dictionary.clone(),
        DataType::new_list(dictionary, true),
        DataType::FixedSizeBinary(0),
        DataType::FixedSizeBinary(-1),
        DataType::Time32(TimeUnit::Nanosecond),
        DataType::FixedSizeList(item.clone(), 2),
        DataType::new_list(DataType::ListView(item), true),
        DataType::Struct(vec![Field::new("a", DataType::Null, true)].into()),
        map_type(true, false),
        map_type(false, true),
    ];
    for data_type in others {
        assert!(!is_grouped(data_type.clone()), "{data_type}");
    }
    let mut nested = DataType::Int64;
    for _ in 0..100 {
        nested = DataType::new_list(nested, true);
    }
    assert!(is_grouped(nested));
}

/// A column of values of any type.
struct AnyColumn {
    rows: Vec<ArrayRef>,
    empty: ArrayRef,
}

impl AnyColumn {
    fn array(&self, rows: &[ArrayRef]) -> ArrayData {
        let mut parts: Vec<&dyn Array> = vec![&self.empty];
        parts.extend(rows.iter().map(|row| row.as_ref()));
        let rows: Vec<(usize, usize)> = (1..parts.len()).map(|part| (part, 0)).collect();
        interleave(&parts, &rows).unwrap().to_data()
    }
}

impl GroupColumn for AnyColumn {
    fn equal_to(&self, lhs_row: usize, array: &ArrayData, rhs_row: usize) -> bool {
        self.rows[lhs_row] == make_array(array.clone()).slice(rhs_row, 1)
    }

    fn append_val(&mut self, array: &ArrayData, row: usize) -> Result<(), GroupError> {
        self.rows.push(make_array(array.clone()).slice(row, 1));
        Ok(())
    }

    fn vectorized_equal_to(
        &self,
        lhs_rows: &[usize],
        array: &ArrayData,
        rhs_rows: &[usize],
        equal_to_results: &mut BooleanBufferBuilder,
    ) {
        for (idx, (&lhs_row, &rhs_row)) in lhs_rows.iter().zip(rhs_rows.iter()).enumerate() {
            if !self.equal_to(lhs_row, array, rhs_row) {
                equal_to_results.set_bit(idx, false);
            }
        }
    }

    fn vectorized_append(&mut self, array: &ArrayData, rows: &[usize]) -> Result<(), GroupError> {
        for &row in rows {
            self.append_val(array, row)?;
        }
        Ok(())
    }

    fn len(&self) -> usize {
        self.rows.len()
    }

    fn size(&self) -> usize {
        self.rows.iter().map(|row| row.get_array_memory_size()).sum()
    }

    fn build(self) -> ArrayData {
        self.array(&self.rows)
    }

    fn take_n(&mut self, n: usize) -> ArrayData {
        let rest = self.rows.split_off(n);
        let first = std::mem::replace(&mut self.rows, rest);
        self.array(&first)
    }
}

/// Groups by `values`: a value, a null, another value, and the first value again.
fn group_by_any(values: ArrayRef) {
    let keys = |keys: &[Option<i32>]| {
        let keys = Int32Array::from(keys.to_vec());
        DictionaryArray::<arrow::datatypes::Int32Type>::new(keys, values.clone()).to_data()
    };
    let empty = values.slice(0, 0);
    let inner = AnyColumn { rows: vec![], empty };
    let field = Field::new("", values.data_type().clone(), true);
    let mut group_column: DictionaryGroupValuesColumn<Int32Type, AnyColumn> =
        DictionaryGroupValuesColumn::new(inner, &field);

    let input = keys(&[Some(0), Some(2), None, Some(3), Some(1)]);
    group_column.vectorized_append(&input, &[0, 1, 2, 3, 4]).unwrap();
    group_column.append_val(&keys(&[Some(3)]), 0).unwrap();
    assert_eq!(group_column.len(), 6);
    assert!(group_column.equal_to(3, &input, 0));
    assert!(group_column.equal_to(2, &input, 4));
    assert!(!group_column.equal_to(0, &input, 1));
    let mut results = equal_results(&[true; 12]);
    let (lhs, rhs) = ([0, 1, 2, 3, 4, 5, 0, 1, 2, 3, 4, 5], [0, 1, 2, 0, 2, 3, 1, 0, 0, 4, 1, 2]);
    group_column.vectorized_equal_to(&lhs, &input, &rhs, &mut results);
    let results: Vec<bool> = (0..12).map(|idx| results.get_bit(idx)).collect();
    assert_eq!(results[..6], [true; 6]);
    assert_eq!(results[6..], [false; 6]);

    let emitted = make_array(group_column.take_n(1));
    let emitted = emitted.as_dictionary::<arrow::datatypes::Int32Type>();
    assert_eq!(emitted.keys(), &Int32Array::from(vec![0]));
    assert_eq!(emitted.values(), &values.slice(0, 1));
    let output = make_array(group_column.build());
    let output = output.as_dictionary::<arrow::datatypes::Int32Type>();
    let expected = vec![Some(0), None, Some(1), None, Some(1)];
    assert_eq!(output.keys(), &Int32Array::from(expected));
    assert_eq!(output.values(), &values.slice(2, 2));
}

#[test]
fn byte_strings_of_fixed_size_are_grouped() {
    let rows = vec![Some([1_u8, 2, 3]), None, Some([3, 2, 1]), Some([1, 2, 3])];
    let values = FixedSizeBinaryArray::try_from_sparse_iter_with_size(rows.into_iter(), 3).unwrap();
    group_by_any(Arc::new(values));
}

#[test]
fn booleans_in_the_middle_of_a_buffer_are_grouped() {
    let mut rows = vec![None; 21];
    rows[10..13].copy_from_slice(&[Some(true), None, Some(false)]);
    rows[13] = Some(true);
    group_by_any(Arc::new(BooleanArray::from(rows).slice(10, 4)));
}

fn lists() -> ListArray {
    ListArray::from_iter_primitive::<arrow::datatypes::Int64Type, _, _>(vec![
        Some(vec![Some(1), None]),
        None,
        Some(vec![]),
        Some(vec![Some(1), None]),
    ])
}

#[test]
fn lists_are_grouped() {
    group_by_any(Arc::new(lists()));
}

#[test]
fn structs_are_grouped() {
    let fields = vec![
        Field::new("name", DataType::Utf8, true),
        Field::new("list", lists().data_type().clone(), true),
    ];
    let names: ArrayRef = Arc::new(StringArray::from(vec![None, Some("a"), Some("b"), None]));
    let masked = vec![true, false, true, true];
    let values = StructArray::new(fields.into(), vec![names, Arc::new(lists())], Some(masked.into()));
    group_by_any(Arc::new(values));
}

#[test]
fn structs_whose_fields_are_cut_short_are_not_accepted() {
    let numbers: ArrayRef = Arc::new(Int64Array::from(vec![1, 2, 3]));
    let fields = vec![Field::new("number", DataType::Int64, false)];
    let values = StructArray::new(fields.into(), vec![numbers], None);
    let inner = AnyColumn { rows: vec![], empty: Arc::new(values.slice(0, 0)) };
    let field = Field::new("", values.data_type().clone(), true);
    let group_column: DictionaryGroupValuesColumn<Int32Type, AnyColumn> =
        DictionaryGroupValuesColumn::new(inner, &field);
    let dictionary = |values: ArrayData| {
        let keys = Int32Array::from(vec![0]).to_data().into_builder();
        let data_type = DataType::Dictionary(Box::new(DataType::Int32), Box::new(values.data_type().clone()));
        keys.data_type(data_type).add_child_data(values).build().unwrap()
    };
    assert!(group_column.accepts(&dictionary(values.to_data())));
    assert!(group_column.accepts(&dictionary(values.slice(1, 2).to_data())));
    assert!(group_column.accepts(&dictionary(values.to_data().slice(0, 2))));
    assert!(!group_column.accepts(&dictionary(values.to_data().slice(1, 2))));
}

/// A struct of one field, from row `offset` of `child` on.
fn struct_of(child: ArrayData, nullable: bool, offset: usize, nulls: &[bool]) -> ArrayData {
    let field = Field::new("field", child.data_type().clone(), nullable);
    let data_type = DataType::Struct(vec![field].into());
    ArrayData::builder(data_type)
        .len(nulls.len())
        .offset(offset)
        .nulls(Some(NullBuffer::from(nulls.to_vec())))
        .add_child_data(child)
        .build()
        .unwrap()
}

#[test]
fn structs_that_start_further_on_are_not_accepted() {
    let numbers = |values: Vec<Option<i32>>| Int32Array::from(values).to_data();
    let three = || numbers(vec![Some(1), Some(2), Some(3)]);
    let accepted = |values: ArrayData| {
        let field = Field::new("", values.data_type().clone(), true);
        let empty = make_array(ArrayData::new_empty(values.data_type()));
        let group_column: DictionaryGroupValuesColumn<Int32Type, AnyColumn> =
            DictionaryGroupValuesColumn::new(AnyColumn { rows: vec![], empty }, &field);
        let keys = Int32Array::from(vec![0]).to_data().into_builder();
        let data_type = DataType::Dictionary(Box::new(DataType::Int32), Box::new(values.data_type().clone()));
        group_column.accepts(&keys.data_type(data_type).add_child_data(values).build().unwrap())
    };
    // A struct in a struct, where one or the other starts at its second row.
    let inner = struct_of(three(), true, 0, &[true, true]);
    assert!(!accepted(struct_of(inner.clone(), true, 1, &[true])));
    assert!(accepted(struct_of(inner, true, 0, &[true])));
    let inner = struct_of(three(), true, 1, &[true, true]);
    assert!(!accepted(struct_of(inner.clone(), true, 0, &[true])));
    assert!(!accepted(struct_of(inner, true, 0, &[true, true])));
    // The mask of the struct is not held against the rows of its field that it has.
    let holes = numbers(vec![Some(1), None, Some(3)]);
    assert!(!accepted(struct_of(holes.clone(), false, 1, &[true, false])));
    assert!(accepted(struct_of(holes, false, 0, &[true, false])));
}

#[test]
fn maps_are_grouped() {
    let DataType::Map(entries, _) = map_type(false, false) else {
        panic!("a map");
    };
    let DataType::Struct(fields) = entries.data_type().clone() else {
        panic!("a struct");
    };
    let keys: ArrayRef = Arc::new(StringArray::from(vec!["x", "y", "x", "x"]));
    let numbers: ArrayRef = Arc::new(Int64Array::from(vec![Some(1), None, Some(2), Some(1)]));
    let pairs = StructArray::new(fields, vec![keys, numbers], None);
    let offsets = OffsetBuffer::new(vec![0, 1, 1, 3, 4].into());
    let masked = vec![true, false, true, true];
    let values = MapArray::new(entries, offsets, pairs, Some(masked.into()), false);
    group_by_any(Arc::new(values));
}

#[test]
fn a_column_that_ran_out_of_keys_stays_so() {
    let values: Vec<String> = (0..129).map(|index| format!("v{index}")).collect();
    let refs: Vec<Option<&str>> = values.iter().map(|value| Some(value.as_str())).collect();
    let mut group_column = int8_col();
    for value in &refs[..128] {
        assert_eq!(group_column.append_val(&i8_dict(&[Some(0)], &[*value]), 0), Ok(()));
    }
    assert_eq!(group_column.check_key_overflow(), Ok(()));
    let overflow = Err(GroupError::KeyOverflow { key_type: KeyType::Int8, distinct: 129 });
    assert_eq!(group_column.append_val(&i8_dict(&[Some(0)], &[refs[128]]), 0), overflow);
    assert_eq!(group_column.check_key_overflow(), overflow);
    let known = i8_dict(&[Some(0), None], &[refs[0]]);
    assert_eq!(group_column.append_val(&known, 0), overflow);
    assert_eq!(group_column.append_val(&known, 1), overflow);
    assert_eq!(group_column.vectorized_append(&known, &[0, 1]), overflow);
    assert_eq!(group_column.vectorized_append(&known, &[]), overflow);
    assert_eq!(group_column.len(), 133);
}

#[test]
fn parts_of_a_column_that_ran_out_of_keys_can_be_taken() {
    let values: Vec<String> = (0..130).map(|index| format!("v{index}")).collect();
    let mut group_column = int8_col();
    for value in &values {
        let _ = group_column.append_val(&i8_dict(&[Some(0), None], &[Some(value)]), 0);
    }
    assert!(group_column.check_key_overflow().is_err());
    assert!(!group_column.parts_fit(0));
    assert!(!group_column.parts_fit(1));
    assert!(group_column.parts_fit(2));
    assert!(group_column.parts_fit(128));
    assert!(!group_column.parts_fit(129));
    let emitted = group_column.take_n(2);
    assert_eq!(plain_values(&emitted), strings(&[Some("v0"), Some("v1")]));
    assert_eq!(group_column.check_key_overflow(), Ok(()));
    assert_eq!(group_column.len(), 128);
    assert_eq!(group_column.append_val(&i8_dict(&[None], &[]), 0), Ok(()));
    assert!(group_column.parts_fit(129));
    assert_eq!(
        group_column.append_val(&i8_dict(&[Some(0)], &[Some("v0")]), 0),
        Err(GroupError::KeyOverflow { key_type: KeyType::Int8, distinct: 129 })
    );
}

#[test]
fn the_error_of_the_store_is_handed_on() {
    let limited = || -> Column<Int32Type> {
        let inner = StringColumn { values: vec![], limit: Some(1) };
        DictionaryGroupValuesColumn::new(inner, &utf8_field())
    };
    let input = i32_dict(&[Some(0), Some(1), Some(0), None], &[Some("a"), Some("b")]);
    let mut group_column = limited();
    assert_eq!(group_column.append_val(&input, 0), Ok(()));
    assert_eq!(group_column.append_val(&input, 1), Err(GroupError::Rejected));
    assert_eq!(group_column.append_val(&input, 3), Err(GroupError::Rejected));
    assert_eq!(group_column.append_val(&input, 2), Ok(()));
    assert_eq!(group_column.len(), 2);
    let mut group_column = limited();
    assert_eq!(group_column.vectorized_append(&input, &[0, 2, 1, 2]), Err(GroupError::Rejected));
    assert_eq!(group_column.len(), 2);
    assert_eq!(group_column.append_reserved(true, &input, &[2, 3]), Err(GroupError::Rejected));
    assert_eq!(group_column.len(), 3);
}

#[test]
fn values_keep_their_slot() {
    let first = i32_dict(&[Some(1), Some(0), None], &[Some("a"), Some("b")]);
    let second = i32_dict(&[Some(2), Some(1), Some(0)], &[Some("b"), None, Some("a")]);
    let mut group_column = col();
    group_column.vectorized_append(&first, &[0, 1, 2]).unwrap();
    group_column.append_val(&second, 0).unwrap();
    group_column.vectorized_append(&second, &[1, 2]).unwrap();
    let (keys, values) = encoding(&group_column.build());
    let expected = vec![Some(0), Some(1), None, Some(1), None, Some(0)];
    assert_eq!(keys, Int32Array::from(expected));
    assert_eq!(values, strings(&[Some("b"), Some("a")]));
}

#[test]
fn rows_are_appended_where_there_is_room_for_them() {
    let input = i32_dict(&[Some(0), None, Some(1)], &[Some("a"), Some("b")]);
    let mut group_column = col();
    assert_eq!(
        group_column.append_reserved(false, &input, &[0, 1]),
        Err(GroupError::OutOfMemory)
    );
    assert_eq!(group_column.len(), 0);
    assert_eq!(group_column.append_reserved(true, &input, &[]), Ok(()));
    assert_eq!(group_column.vectorized_append(&input, &[]), Ok(()));
    assert_eq!(group_column.len(), 0);
    assert_eq!(group_column.append_reserved(true, &input, &[2, 1, 2]), Ok(()));
    assert_eq!(
        plain_values(&group_column.build()),
        strings(&[Some("b"), None, Some("b")])
    );
}

/// The keys and the values of a dictionary-encoded array.
fn encoding(array: &ArrayData) -> (Int32Array, Vec<Option<String>>) {
    let keys = make_array(array.clone());
    let keys = keys.as_dictionary::<arrow::datatypes::Int32Type>().keys().clone();
    (keys, dictionary_values(array))
}

#[test]
fn columns_with_the_same_groups_are_alike() {
    let values = [Some("c"), None, Some("a"), Some("b"), None, Some("a"), Some("d")];
    let keys: Vec<Option<i32>> = (0..7).map(Some).collect();
    let input = i32_dict(&keys, &values);
    for n in 0..=7 {
        let mut taken = col();
        taken.vectorized_append(&input, &[0, 1, 2, 3, 4, 5, 6]).unwrap();
        let emitted = taken.take_n(n);

        let mut first = col();
        let mut one_by_one = col();
        let mut together = col();
        for row in 0..n {
            first.append_val(&input, row).unwrap();
        }
        for row in n..7 {
            one_by_one.append_val(&input, row).unwrap();
        }
        let rows: Vec<usize> = (n..7).collect();
        together.vectorized_append(&input, &rows).unwrap();

        assert_eq!(encoding(&emitted), encoding(&first.build()));
        let rest = encoding(&taken.build());
        assert_eq!(rest, encoding(&one_by_one.build()));
        assert_eq!(rest, encoding(&together.build()));
    }
}

#[test]
fn every_key_type_is_taken_and_made() {
    let unsigned = DictionaryArray::<arrow::datatypes::UInt8Type>::new(
        UInt8Array::from(vec![Some(200), None, Some(0)]),
        Arc::new(StringArray::from(
            (0..201).map(|index| Some(format!("v{index}"))).collect::<Vec<_>>(),
        )),
    )
    .to_data();
    let mut group_column: Column<UInt8Type> =
        DictionaryGroupValuesColumn::new(StringColumn::default(), &utf8_field());
    assert!(group_column.accepts(&unsigned));
    group_column.vectorized_append(&unsigned, &[0, 1, 2]).unwrap();
    let output = group_column.build();
    assert_eq!(output.data_type(), unsigned.data_type());
    assert_eq!(plain_values(&output), strings(&[Some("v200"), None, Some("v0")]));

    let signed = DictionaryArray::<arrow::datatypes::Int64Type>::new(
        Int64Array::from(vec![Some(1), Some(0)]),
        Arc::new(StringArray::from(vec!["a", "b"])),
    )
    .to_data();
    let mut group_column: Column<Int64Type> =
        DictionaryGroupValuesColumn::new(StringColumn::default(), &utf8_field());
    group_column.vectorized_append(&signed, &[0, 1]).unwrap();
    let output = group_column.build();
    assert_eq!(output.data_type(), signed.data_type());
    assert_eq!(plain_values(&output), strings(&[Some("b"), Some("a")]));
}

#[test]
fn arrays_that_are_slices_are_read_from_their_offset() {
    let input = i32_dict(
        &[Some(0), Some(1), None, Some(0)],
        &[Some("a"), Some("b")],
    )
    .slice(1, 3);
    let mut group_column = col();
    group_column.vectorized_append(&input, &[0, 1, 2]).unwrap();
    assert!(group_column.equal_to(0, &input, 0));
    assert!(group_column.equal_to(1, &input, 1));
    assert!(!group_column.equal_to(2, &input, 0));
    assert_eq!(
        plain_values(&group_column.build()),
        strings(&[Some("b"), None, Some("a")])
    );
}

#[test]
fn the_size_grows_with_the_groups() {
    let mut group_column = col();
    let empty = group_column.size();
    let input = i32_dict(&[Some(0)], &[Some("a")]);
    group_column.vectorized_append(&input, &[0; 1000]).unwrap();
    assert!(group_column.size() >= empty.min(8000));
    assert!(group_column.size() >= 1000 * std::mem::size_of::<usize>());
    assert!(empty >= std::mem::size_of::<Column<Int32Type>>());
    assert!(empty < 10_000);
    assert!(group_column.size() < 1_000_000);
    let mut long = col();
    let text = "a".repeat(100_000);
    long.append_val(&i32_dict(&[Some(0)], &[Some(&text)]), 0).unwrap();
    let mut short = col();
    short.append_val(&input, 0).unwrap();
    assert_eq!(long.size() - short.size(), text.len() - 1);
}

#[test]
fn sizes_are_summed_without_overflow() {
    assert_eq!(total_size(&[]), 0);
    assert_eq!(total_size(&[1, 2, 40]), 43);
    assert_eq!(total_size(&[usize::MAX, 1, 5]), usize::MAX);
    assert_eq!(elements_size(3, 8), 24);
    assert_eq!(elements_size(usize::MAX, 2), usize::MAX);
}
