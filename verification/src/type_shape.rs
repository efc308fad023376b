//! What data types are made of, and what can be done with values of them.
use arrow::datatypes::{DataType, Field};
use datafusion_common::ScalarValue;
use datafusion_expr_common::operator::Operator;
use datafusion_expr_common::type_coercion::binary::BinaryTypeCoercer;
use vstd::prelude::*;

use crate::data_type::{
    boolean_data_type, boolean_type, field_data_type, field_type, same_data_type,
};
use crate::operator::{comparison, gives_boolean, is_supported_comparison_operator};

verus! {

/// The most digits that a decimal has, behind its point or in all.
pub const MAX_PRECISION: i16 = 76;

/// The least that a scale may be for the digits before the point of a decimal, and the
/// difference of two scales, to be counted in eight bits.
pub const MIN_SCALE: i16 = -51;

/// How many digits one decimal may have before its point and another behind it, for the
/// digits of a decimal that holds both to be counted in eight bits.
pub const MAX_DIGITS: i16 = 127;

/// The digits before the point of the decimals that stand for integers: any bound on
/// digits before the point leaves room for them.
pub const MIN_REACH: i16 = 20;

/// The largest bound on digits before the point that leaves room for the digits behind
/// it of the decimals that stand for floating point numbers.
pub const MAX_REACH: i16 = 112;

/// The name of a column.
pub uninterp spec fn field_name(field: Field) -> Seq<char>;

/// The column can hold nulls.
pub uninterp spec fn field_nullable(field: Field) -> bool;

/// The values are numbers, times or spans of time.
pub uninterp spec fn primitive_type(data_type: DataType) -> bool;

/// The values are strings.
pub uninterp spec fn string_type(data_type: DataType) -> bool;

/// The values are byte strings.
pub uninterp spec fn bytes_type(data_type: DataType) -> bool;

/// The values are made of other values, under an encoding or not.
pub uninterp spec fn nested_type(data_type: DataType) -> bool;

/// The values are nulls without a type.
pub uninterp spec fn null_type(data_type: DataType) -> bool;

/// The values can be the keys of a dictionary-encoded array.
pub uninterp spec fn key_type(data_type: DataType) -> bool;

/// The values can be the ends of the runs of a run-end-encoded array.
pub uninterp spec fn run_ends_type(data_type: DataType) -> bool;

/// There is a null of this type.
pub uninterp spec fn has_null(data_type: DataType) -> bool;

/// The precision and the scale of decimals.
pub uninterp spec fn decimal_of(data_type: DataType) -> Option<(u8, i8)>;

/// How many bytes each of the byte strings has, where that is fixed.
pub uninterp spec fn width_of(data_type: DataType) -> Option<i32>;

/// The items of lists that lie behind each other.
pub uninterp spec fn list_item_of(data_type: DataType) -> Option<Field>;

/// The items of lists that may share them.
pub uninterp spec fn list_view_item_of(data_type: DataType) -> Option<Field>;

/// The entries of maps.
pub uninterp spec fn map_entries_of(data_type: DataType) -> Option<Field>;

/// The fields of structs.
pub uninterp spec fn struct_fields_of(data_type: DataType) -> Option<Seq<Field>>;

/// The types that a type of lists, maps, structs or unions is made of.
pub uninterp spec fn nested_types_of(data_type: DataType) -> Seq<DataType>;

/// The types of the keys and of the values of a dictionary encoding.
pub uninterp spec fn dictionary_types_of(data_type: DataType) -> Option<(DataType, DataType)>;

/// The types of the ends of the runs and of the values of a run-end encoding.
pub uninterp spec fn run_end_types_of(data_type: DataType) -> Option<(DataType, DataType)>;

/// The type of the result of a binary operator, where it takes operands of these types.
pub uninterp spec fn binary_type(left: DataType, op: Operator, right: DataType) -> Option<DataType>;

/// `Field::name`: the name of the column.
#[verifier::external_body]
fn name_of_field(field: &Field) -> (name: String)
    ensures
        name@ == field_name(*field),
{
    field.name().clone()
}

/// `Field::is_nullable`: whether the column can hold nulls.
#[verifier::external_body]
fn is_nullable(field: &Field) -> (nullable: bool)
    ensures
        nullable == field_nullable(*field),
{
    field.is_nullable()
}

/// `DataType::is_primitive`: numbers, times and spans of time.
#[verifier::external_body]
fn is_primitive(data_type: &DataType) -> (primitive: bool)
    ensures
        primitive == primitive_type(*data_type),
{
    data_type.is_primitive()
}

/// `DataType::is_string`: strings, however they are laid out.
#[verifier::external_body]
fn is_string(data_type: &DataType) -> (string: bool)
    ensures
        string == string_type(*data_type),
{
    data_type.is_string()
}

/// `DataType::is_binary`: byte strings, however they are laid out.
#[verifier::external_body]
fn is_binary(data_type: &DataType) -> (bytes: bool)
    ensures
        bytes == bytes_type(*data_type),
{
    data_type.is_binary()
}

/// `DataType::is_nested`: lists, maps, structs and unions, and encodings of them.
#[verifier::external_body]
fn is_nested(data_type: &DataType) -> (nested: bool)
    ensures
        nested == nested_type(*data_type),
{
    data_type.is_nested()
}

/// `DataType::is_null`: nulls without a type.
#[verifier::external_body]
fn is_null_type(data_type: &DataType) -> (null: bool)
    ensures
        null == null_type(*data_type),
{
    data_type.is_null()
}

/// `DataType::is_dictionary_key_type`: the types that keys can have.
#[verifier::external_body]
fn is_dictionary_key_type(data_type: &DataType) -> (key: bool)
    ensures
        key == key_type(*data_type),
{
    data_type.is_dictionary_key_type()
}

/// `DataType::is_run_ends_type`: the types that the ends of runs can have.
#[verifier::external_body]
fn is_run_ends_type(data_type: &DataType) -> (run_ends: bool)
    ensures
        run_ends == run_ends_type(*data_type),
{
    data_type.is_run_ends_type()
}

/// `ScalarValue::try_new_null`: whether it makes a null of this type. It makes none of
/// times whose unit is too fine or too coarse for their size, which no array holds.
#[verifier::external_body]
fn null_exists(data_type: &DataType) -> (exists_one: bool)
    requires
        !nested_type(*data_type),
    ensures
        exists_one == has_null(*data_type),
{
    ScalarValue::try_new_null(data_type).is_ok()
}

/// What the variants of `DataType` for decimals hold.
#[verifier::external_body]
fn decimal_parts(data_type: &DataType) -> (parts: Option<(u8, i8)>)
    ensures
        parts == decimal_of(*data_type),
{
    match data_type {
        DataType::Decimal32(precision, scale) => Some((*precision, *scale)),
        DataType::Decimal64(precision, scale) => Some((*precision, *scale)),
        DataType::Decimal128(precision, scale) => Some((*precision, *scale)),
        DataType::Decimal256(precision, scale) => Some((*precision, *scale)),
        _ => None,
    }
}

/// What the variant `DataType::FixedSizeBinary` holds.
#[verifier::external_body]
fn binary_width(data_type: &DataType) -> (width: Option<i32>)
    ensures
        width == width_of(*data_type),
{
    match data_type {
        DataType::FixedSizeBinary(width) => Some(*width),
        _ => None,
    }
}

/// What the variants `DataType::List` and `DataType::LargeList` hold.
#[verifier::external_body]
fn list_item(data_type: &DataType) -> (item: Option<Field>)
    ensures
        item == list_item_of(*data_type),
{
    match data_type {
        DataType::List(item) => Some(item.as_ref().clone()),
        DataType::LargeList(item) => Some(item.as_ref().clone()),
        _ => None,
    }
}

/// What the variants `DataType::ListView` and `DataType::LargeListView` hold.
#[verifier::external_body]
fn list_view_item(data_type: &DataType) -> (item: Option<Field>)
    ensures
        item == list_view_item_of(*data_type),
{
    match data_type {
        DataType::ListView(item) => Some(item.as_ref().clone()),
        DataType::LargeListView(item) => Some(item.as_ref().clone()),
        _ => None,
    }
}

/// The column that the variant `DataType::Map` holds.
#[verifier::external_body]
fn map_entries(data_type: &DataType) -> (entries: Option<Field>)
    ensures
        entries == map_entries_of(*data_type),
{
    match data_type {
        DataType::Map(entries, _) => Some(entries.as_ref().clone()),
        _ => None,
    }
}

/// The columns that the variant `DataType::Struct` holds.
#[verifier::external_body]
pub(crate) fn struct_fields(data_type: &DataType) -> (fields: Option<Vec<Field>>)
    ensures
        fields is Some == struct_fields_of(*data_type) is Some,
        fields matches Some(fields) ==> struct_fields_of(*data_type) == Some(fields@),
{
    match data_type {
        DataType::Struct(fields) => Some(fields.iter().map(|field| field.as_ref().clone()).collect()),
        _ => None,
    }
}

/// The types of the columns that the variants of `DataType` for lists, maps, structs and
/// unions hold.
#[verifier::external_body]
fn nested_types(data_type: &DataType) -> (types: Vec<DataType>)
    ensures
        types@ == nested_types_of(*data_type),
{
    match data_type {
        DataType::List(item) | DataType::LargeList(item) => vec![item.data_type().clone()],
        DataType::ListView(item) | DataType::LargeListView(item) => vec![item.data_type().clone()],
        DataType::FixedSizeList(item, _) | DataType::Map(item, _) => vec![item.data_type().clone()],
        DataType::Struct(fields) => fields.iter().map(|field| field.data_type().clone()).collect(),
        DataType::Union(fields, _) => fields.iter().map(|(_, field)| field.data_type().clone()).collect(),
        _ => vec![],
    }
}

/// What the variant `DataType::Dictionary` holds.
#[verifier::external_body]
fn dictionary_types(data_type: &DataType) -> (types: Option<(DataType, DataType)>)
    ensures
        types == dictionary_types_of(*data_type),
{
    match data_type {
        DataType::Dictionary(key, value) => Some((key.as_ref().clone(), value.as_ref().clone())),
        _ => None,
    }
}

/// The types of the columns that the variant `DataType::RunEndEncoded` holds.
#[verifier::external_body]
fn run_end_types(data_type: &DataType) -> (types: Option<(DataType, DataType)>)
    ensures
        types == run_end_types_of(*data_type),
{
    match data_type {
        DataType::RunEndEncoded(ends, values) => {
            Some((ends.data_type().clone(), values.data_type().clone()))
        },
        _ => None,
    }
}

/// The values are not made of other values, and there are arrays of them.
pub open spec fn flat_type(data_type: DataType) -> bool {
    &&& primitive_type(data_type) || string_type(data_type) || bytes_type(data_type) || data_type
        == boolean_type()
    &&& width_of(data_type) matches Some(width) ==> width > 0
    &&& !nested_type(data_type)
    &&& has_null(data_type)
}

/// The columns that make up maps: entries that are never null, of a key that is never
/// null and a value.
pub open spec fn entries_of_maps(entries: Field) -> bool {
    &&& !field_nullable(entries)
    &&& struct_fields_of(field_type(entries)) matches Some(fields) && fields.len() == 2 && !field_nullable(
        fields[0],
    )
}

/// Flat values, and lists, maps and structs of them. No more than `depth` types lie in each
/// other.
pub open spec fn plain_type(data_type: DataType, depth: nat) -> bool
    decreases depth, 0int,
{
    depth > 0 && {
        ||| flat_type(data_type)
        ||| list_item_of(data_type) matches Some(item) && plain_type(field_type(item), (depth - 1) as nat)
        ||| map_entries_of(data_type) matches Some(entries) && entries_of_maps(entries) && plain_type(
            field_type(entries),
            (depth - 1) as nat,
        )
        ||| struct_fields_of(data_type) matches Some(fields) && all_plain(fields, (depth - 1) as nat)
    }
}

/// The values of all these columns are flat, or lists, maps or structs of flat values.
pub open spec fn all_plain(fields: Seq<Field>, depth: nat) -> bool
    decreases depth, 1int,
{
    forall|i: int| 0 <= i < fields.len() ==> plain_type(field_type(#[trigger] fields[i]), depth)
}

/// A data type whose arrays tell by their validity mask which rows are null, can be hashed,
/// and can be taken from row by row: flat values, and lists, maps and structs of them.
///
/// Memory holds no type with more types in each other than are allowed for here.
///
/// Types that are encoded, unions and the type of nulls are none: their arrays have no
/// mask, or one that is not all. Neither are lists of a fixed size: rows are taken from
/// them at positions of 32 bits, which are too small for an array of many items. Lists
/// that may share items are one, but not in another type: they are copied there without
/// sharing.
pub open spec fn groupable(data_type: DataType) -> bool {
    ||| plain_type(data_type, usize::MAX as nat)
    ||| list_view_item_of(data_type) matches Some(item) && plain_type(field_type(item), usize::MAX as nat)
}

/// Whether values of this type are flat.
fn is_flat(data_type: &DataType) -> (flat: bool)
    ensures
        flat == flat_type(*data_type),
{
    let wide = match binary_width(data_type) {
        Some(width) => width > 0,
        None => true,
    };
    (is_primitive(data_type) || is_string(data_type) || is_binary(data_type) || same_data_type(
        data_type,
        &boolean_data_type(),
    )) && wide && !is_nested(data_type) && null_exists(data_type)
}

/// Whether these columns make up maps.
fn are_map_entries(entries: &Field) -> (entries_are: bool)
    ensures
        entries_are == entries_of_maps(*entries),
{
    if is_nullable(entries) {
        return false;
    }
    match struct_fields(&field_data_type(entries)) {
        Some(fields) => fields.len() == 2 && !is_nullable(&fields[0]),
        None => false,
    }
}

/// Whether values of this type are flat, or lists, maps or structs of flat values.
fn is_plain(data_type: &DataType, depth: usize) -> (plain: bool)
    ensures
        plain == plain_type(*data_type, depth as nat),
    decreases depth, 0int,
{
    if depth == 0 {
        return false;
    }
    if is_flat(data_type) {
        return true;
    }
    if let Some(item) = list_item(data_type) {
        if is_plain(&field_data_type(&item), depth - 1) {
            return true;
        }
    }
    if let Some(entries) = map_entries(data_type) {
        if are_map_entries(&entries) && is_plain(&field_data_type(&entries), depth - 1) {
            return true;
        }
    }
    match struct_fields(data_type) {
        Some(fields) => are_plain(&fields, depth - 1),
        None => false,
    }
}

/// Whether the values of these columns are all flat, or lists, maps or structs of flat
/// values.
fn are_plain(fields: &Vec<Field>, depth: usize) -> (plain: bool)
    ensures
        plain == all_plain(fields@, depth as nat),
    decreases depth, 1int,
{
    let mut i: usize = 0;
    while i < fields.len()
        invariant
            i <= fields@.len(),
            forall|j: int| 0 <= j < i ==> plain_type(field_type(#[trigger] fields@[j]), depth as nat),
        decreases fields@.len() - i,
    {
        if !is_plain(&field_data_type(&fields[i]), depth) {
            assert(!plain_type(field_type(fields@[i as int]), depth as nat));
            return false;
        }
        i += 1;
    }
    true
}

/// Whether arrays of this type can be grouped.
pub(crate) fn is_groupable(data_type: &DataType) -> (can_group: bool)
    ensures
        can_group == groupable(*data_type),
{
    if is_plain(data_type, usize::MAX) {
        return true;
    }
    match list_view_item(data_type) {
        Some(item) => is_plain(&field_data_type(&item), usize::MAX),
        None => false,
    }
}

/// The names of columns are all different.
pub open spec fn distinct_names(fields: Seq<Field>) -> bool {
    forall|i: int, j: int|
        0 <= i < j < fields.len() ==> field_name(#[trigger] fields[i]) != field_name(#[trigger] fields[j])
}

/// A decimal with at most `reach` digits before its point, and with as many behind it as
/// are left.
pub open spec fn bounded_decimal(precision: u8, scale: i8, reach: int) -> bool {
    &&& 1 <= precision <= MAX_PRECISION
    &&& MIN_SCALE <= scale <= MAX_PRECISION
    &&& scale <= MAX_DIGITS - reach
    &&& precision - scale <= reach
}

/// Nothing that a type is made of is malformed or out of bounds: the digits of decimals,
/// the widths of byte strings, the names of the fields of structs, and the types of the keys
/// and of the ends of runs in encodings. No more than `depth` types lie in each
/// other.
pub open spec fn bounded_type(data_type: DataType, depth: nat, reach: int) -> bool
    decreases depth,
{
    &&& depth > 0
    &&& decimal_of(data_type) matches Some((precision, scale)) ==> bounded_decimal(
        precision,
        scale,
        reach,
    )
    &&& width_of(data_type) matches Some(width) ==> 0 <= width
    &&& struct_fields_of(data_type) matches Some(fields) ==> distinct_names(fields)
    &&& dictionary_types_of(data_type) matches Some((key, value)) ==> key_type(key) && bounded_type(
        value,
        (depth - 1) as nat,
        reach,
    )
    &&& run_end_types_of(data_type) matches Some((ends, values)) ==> run_ends_type(ends) && bounded_type(
        values,
        (depth - 1) as nat,
        reach,
    )
    &&& forall|i: int|
        0 <= i < nested_types_of(data_type).len() ==> bounded_type(
            #[trigger] nested_types_of(data_type)[i],
            (depth - 1) as nat,
            reach,
        )
}

/// Both types are bounded, with one bound on the digits of their decimals.
pub open spec fn bounded_types(left: DataType, right: DataType, reach: int) -> bool {
    &&& MIN_REACH <= reach <= MAX_REACH
    &&& bounded_type(left, usize::MAX as nat, reach)
    &&& bounded_type(right, usize::MAX as nat, reach)
}

/// The operators that compute with numbers and times.
pub open spec fn arithmetic(op: Operator) -> bool {
    op is Plus || op is Minus || op is Multiply || op is Divide || op is Modulo
}

/// Values of this type can be computed with, or there are arrays at least on which that
/// can be tried.
pub open spec fn computable(data_type: DataType) -> bool {
    !nested_type(data_type) && has_null(data_type)
}

/// The types are one, or one of them is that of nulls: then nothing has to be found that
/// holds both.
pub open spec fn alike(left: DataType, right: DataType) -> bool {
    left == right || null_type(left) || null_type(right)
}

/// Byte strings of this width followed by byte strings of that width have a width.
pub open spec fn sum_fits(left: i32, right: i32) -> bool {
    i32::MIN <= left + right <= i32::MAX
}

/// Byte strings of fixed widths have a width one behind the other. A null is taken for a
/// byte string as wide as the other one.
pub open spec fn concatenable(left: DataType, right: DataType) -> bool {
    match (width_of(left), width_of(right)) {
        (Some(left_width), Some(right_width)) => sum_fits(left_width, right_width),
        (Some(width), None) => null_type(right) ==> sum_fits(width, width),
        (None, Some(width)) => null_type(left) ==> sum_fits(width, width),
        (None, None) => true,
    }
}

/// A binary operator can be asked for the type of its result on operands of these types.
pub open spec fn in_range(left: DataType, op: Operator, right: DataType) -> bool {
    &&& comparison(op) ==> alike(left, right) || exists|reach: int| bounded_types(left, right, reach)
    &&& arithmetic(op) ==> computable(left) && computable(right) && exists|reach: int|
        bounded_types(left, right, reach)
    &&& op is StringConcat ==> concatenable(left, right)
}

/// The type of the result of a binary operator, where it takes operands of these types.
/// It takes none of different types that are malformed, nor decimals with so many digits
/// before or behind the point that no decimal holds both.
pub open spec fn result_type(left: DataType, op: Operator, right: DataType) -> Option<DataType> {
    if in_range(left, op, right) {
        binary_type(left, op, right)
    } else {
        None
    }
}

/// `BinaryTypeCoercer::get_result_type`. AND, OR, the comparisons and the matches of
/// patterns have a Boolean result, if any, and the comparisons of one type have one.
///
/// A comparison of different types, and arithmetic, computes with the digits of decimals
/// in eight bits; a comparison looks fields of structs up by their names; arithmetic makes
/// arrays of its operands' types. A concatenation adds the widths of byte strings in 32
/// bits.
#[verifier::external_body]
fn get_result_type(left: &DataType, op: Operator, right: &DataType) -> (data_type: Option<DataType>)
    requires
        in_range(*left, op, *right),
    ensures
        data_type == binary_type(*left, op, *right),
        gives_boolean(op) ==> (data_type matches Some(result) ==> result == boolean_type()),
        comparison(op) && *left == *right ==> data_type == Some(boolean_type()),
{
    BinaryTypeCoercer::new(left, &op, right).get_result_type().ok()
}

/// Whether the names of columns are all different.
fn have_distinct_names(fields: &Vec<Field>) -> (distinct: bool)
    ensures
        distinct == distinct_names(fields@),
{
    let mut i: usize = 0;
    while i < fields.len()
        invariant
            i <= fields@.len(),
            forall|k: int, j: int|
                0 <= k < j < i ==> field_name(#[trigger] fields@[k]) != field_name(#[trigger] fields@[j]),
        decreases fields@.len() - i,
    {
        let name = name_of_field(&fields[i]);
        let mut k: usize = 0;
        while k < i
            invariant
                k <= i < fields@.len(),
                name@ == field_name(fields@[i as int]),
                forall|j: int| 0 <= j < k ==> field_name(#[trigger] fields@[j]) != name@,
            decreases i - k,
        {
            if name_of_field(&fields[k]) == name {
                assert(field_name(fields@[k as int]) == field_name(fields@[i as int]));
                return false;
            }
            k += 1;
        }
        i += 1;
    }
    true
}

/// Whether nothing that a type is made of is malformed or out of bounds.
fn is_bounded(data_type: &DataType, depth: usize, reach: i16) -> (bounded: bool)
    requires
        MIN_REACH <= reach <= MAX_REACH,
    ensures
        bounded == bounded_type(*data_type, depth as nat, reach as int),
    decreases depth,
{
    if depth == 0 {
        return false;
    }
    if let Some((precision, scale)) = decimal_parts(data_type) {
        let (precision, scale): (i16, i16) = (precision as i16, scale as i16);
        if precision < 1 || precision > MAX_PRECISION || scale < MIN_SCALE || scale > MAX_PRECISION || scale
            > MAX_DIGITS - reach || precision - scale > reach {
            return false;
        }
    }
    if let Some(width) = binary_width(data_type) {
        if width < 0 {
            return false;
        }
    }
    if let Some(fields) = struct_fields(data_type) {
        if !have_distinct_names(&fields) {
            return false;
        }
    }
    if let Some((key, value)) = dictionary_types(data_type) {
        if !is_dictionary_key_type(&key) || !is_bounded(&value, depth - 1, reach) {
            return false;
        }
    }
    if let Some((ends, values)) = run_end_types(data_type) {
        if !is_run_ends_type(&ends) || !is_bounded(&values, depth - 1, reach) {
            return false;
        }
    }
    let types = nested_types(data_type);
    let mut i: usize = 0;
    while i < types.len()
        invariant
            i <= types@.len(),
            depth > 0,
            MIN_REACH <= reach <= MAX_REACH,
            types@ == nested_types_of(*data_type),
            forall|j: int|
                0 <= j < i ==> bounded_type(#[trigger] types@[j], (depth - 1) as nat, reach as int),
        decreases types@.len() - i,
    {
        if !is_bounded(&types[i], depth - 1, reach) {
            assert(!bounded_type(nested_types_of(*data_type)[i as int], (depth - 1) as nat, reach as int));
            return false;
        }
        i += 1;
    }
    true
}

/// Whether both types are bounded, with one bound on the digits of their decimals.
fn are_bounded(left: &DataType, right: &DataType) -> (bounded: bool)
    ensures
        bounded == exists|reach: int| bounded_types(*left, *right, reach),
{
    let mut reach: i16 = MAX_REACH;
    while reach >= MIN_REACH
        invariant
            MIN_REACH - 1 <= reach <= MAX_REACH,
            forall|other: int| reach < other ==> !bounded_types(*left, *right, other),
        decreases reach,
    {
        if is_bounded(left, usize::MAX, reach) && is_bounded(right, usize::MAX, reach) {
            assert(bounded_types(*left, *right, reach as int));
            return true;
        }
        reach -= 1;
    }
    false
}

/// Whether values of this type can be computed with.
fn is_computable(data_type: &DataType) -> (can_compute: bool)
    ensures
        can_compute == computable(*data_type),
{
    !is_nested(data_type) && null_exists(data_type)
}

/// Whether byte strings of fixed widths have a width one behind the other.
fn are_concatenable(left: &DataType, right: &DataType) -> (concatenate: bool)
    ensures
        concatenate == concatenable(*left, *right),
{
    match (binary_width(left), binary_width(right)) {
        (Some(left_width), Some(right_width)) => left_width.checked_add(right_width).is_some(),
        (Some(width), None) => !is_null_type(right) || width.checked_add(width).is_some(),
        (None, Some(width)) => !is_null_type(left) || width.checked_add(width).is_some(),
        (None, None) => true,
    }
}

/// The type of the result of a binary operator, where it takes operands of these types.
/// A comparison of one type with itself has a Boolean result.
pub fn binary_result_type(left: &DataType, op: Operator, right: &DataType) -> (data_type: Option<DataType>)
    ensures
        data_type == result_type(*left, op, *right),
        gives_boolean(op) ==> (data_type matches Some(result) ==> result == boolean_type()),
        comparison(op) && *left == *right ==> data_type == Some(boolean_type()),
{
    let in_range = match op {
        Operator::Plus | Operator::Minus | Operator::Multiply | Operator::Divide | Operator::Modulo => is_computable(
            left,
        ) && is_computable(right) && are_bounded(left, right),
        Operator::StringConcat => are_concatenable(left, right),
        _ => !is_supported_comparison_operator(op) || same_data_type(left, right) || is_null_type(left)
            || is_null_type(right) || are_bounded(left, right),
    };
    if !in_range {
        return None;
    }
    get_result_type(left, op, right)
}

/// The type is made of no other types, and is no decimal: what bounds types says nothing of
/// it, but that byte strings have no negative width.
pub open spec fn simple_type(data_type: DataType) -> bool {
    &&& decimal_of(data_type) is None
    &&& unencoded_type(data_type)
}

/// The type is made of no other types, and byte strings have no negative width.
pub open spec fn unencoded_type(data_type: DataType) -> bool {
    &&& width_of(data_type) matches Some(width) ==> width >= 0
    &&& struct_fields_of(data_type) is None
    &&& dictionary_types_of(data_type) is None
    &&& run_end_types_of(data_type) is None
    &&& nested_types_of(data_type).len() == 0
}

/// A result is always the one that the engine gives. The engine is asked about comparisons of
/// one type, or with a null; about what is no comparison, arithmetic nor concatenation; and
/// about all types that are simple.
pub proof fn law_results_are_what_the_engine_gives(
    left: DataType,
    op: Operator,
    right: DataType,
    data_type: Option<DataType>,
)
    requires
        call_ensures(binary_result_type, (&left, op, &right), data_type),
    ensures
        data_type is Some ==> data_type == binary_type(left, op, right),
        data_type == binary_type(left, op, right) || data_type is None,
        comparison(op) && (left == right || null_type(left) || null_type(right)) ==> data_type == binary_type(
            left,
            op,
            right,
        ),
        !comparison(op) && !(op is Plus) && !(op is Minus) && !(op is Multiply) && !(op is Divide) && !(op is Modulo)
            && !(op is StringConcat) ==> data_type == binary_type(left, op, right),
        op is StringConcat && width_of(left) is None && width_of(right) is None ==> data_type == binary_type(
            left,
            op,
            right,
        ),
        op is StringConcat && !null_type(left) && !null_type(right) && (width_of(left) is None || width_of(right) is None)
            ==> data_type == binary_type(left, op, right),
        op is StringConcat && width_of(left) is Some && width_of(right) is Some && i32::MIN <= width_of(left)->0
            + width_of(right)->0 <= i32::MAX ==> data_type == binary_type(left, op, right),
        comparison(op) && simple_type(left) && simple_type(right) ==> data_type == binary_type(left, op, right),
        (op is Plus || op is Minus || op is Multiply || op is Divide || op is Modulo) && simple_type(left)
            && simple_type(right) && !nested_type(left) && !nested_type(right) && has_null(left) && has_null(right)
            ==> data_type == binary_type(left, op, right),
{
    if simple_type(left) && simple_type(right) {
        assert(bounded_types(left, right, 20));
    }
}

/// Two decimals can be compared and computed with where the digits before the point of one
/// of them, or of an integer, and those behind the point of one of them, or of a floating
/// point number, are few enough together.
pub proof fn law_decimals_are_computed_with(
    left: DataType,
    op: Operator,
    right: DataType,
    reach: int,
    data_type: Option<DataType>,
)
    requires
        call_ensures(binary_result_type, (&left, op, &right), data_type),
        20 <= reach <= 112,
        unencoded_type(left),
        unencoded_type(right),
        decimal_of(left) matches Some((precision, scale)) ==> 1 <= precision <= 76 && -51 <= scale <= 76 && precision
            - scale <= reach && scale + reach <= 127,
        decimal_of(right) matches Some((precision, scale)) ==> 1 <= precision <= 76 && -51 <= scale <= 76 && precision
            - scale <= reach && scale + reach <= 127,
    ensures
        comparison(op) ==> data_type == binary_type(left, op, right),
        (op is Plus || op is Minus || op is Multiply || op is Divide || op is Modulo) && !nested_type(left)
            && !nested_type(right) && has_null(left) && has_null(right) ==> data_type == binary_type(left, op, right),
{
    assert(bounded_types(left, right, reach));
}

/// Types that are bounded can be compared, and computed with where they are not nested and
/// there are arrays of them.
pub proof fn law_bounded_types_are_asked_about(
    left: DataType,
    op: Operator,
    right: DataType,
    reach: int,
    data_type: Option<DataType>,
)
    requires
        call_ensures(binary_result_type, (&left, op, &right), data_type),
        20 <= reach <= 112,
        bounded_type(left, usize::MAX as nat, reach),
        bounded_type(right, usize::MAX as nat, reach),
    ensures
        comparison(op) ==> data_type == binary_type(left, op, right),
        (op is Plus || op is Minus || op is Multiply || op is Divide || op is Modulo) && !nested_type(left)
            && !nested_type(right) && has_null(left) && has_null(right) ==> data_type == binary_type(left, op, right),
{
    assert(bounded_types(left, right, reach));
}

/// What is made of types that are bounded is bounded: encodings with keys or ends of runs of
/// the right types, lists, maps and unions, and structs whose fields have different names.
pub proof fn law_types_made_of_bounded_types_are_bounded(data_type: DataType, depth: nat, reach: int)
    requires
        decimal_of(data_type) is None,
        width_of(data_type) is None,
        dictionary_types_of(data_type) matches Some((key, value)) ==> key_type(key) && bounded_type(value, depth, reach),
        run_end_types_of(data_type) matches Some((ends, values)) ==> run_ends_type(ends) && bounded_type(
            values,
            depth,
            reach,
        ),
        struct_fields_of(data_type) matches Some(fields) ==> forall|i: int, j: int|
            0 <= i < j < fields.len() ==> field_name(#[trigger] fields[i]) != field_name(#[trigger] fields[j]),
        forall|i: int|
            0 <= i < nested_types_of(data_type).len() ==> bounded_type(
                #[trigger] nested_types_of(data_type)[i],
                depth,
                reach,
            ),
    ensures
        bounded_type(data_type, depth + 1, reach),
{
}

/// Numbers, times, strings, byte strings that are not empty, and Booleans can be grouped.
pub proof fn law_flat_types_are_grouped(data_type: DataType)
    requires
        primitive_type(data_type) || string_type(data_type) || bytes_type(data_type) || data_type == boolean_type(),
        width_of(data_type) matches Some(width) ==> width > 0,
        !nested_type(data_type),
        has_null(data_type),
    ensures
        groupable(data_type),
        forall|depth: nat| depth > 0 ==> #[trigger] plain_type(data_type, depth),
{
    assert forall|depth: nat| depth > 0 implies #[trigger] plain_type(data_type, depth) by {
        reveal_with_fuel(plain_type, 2);
    }
    assert(plain_type(data_type, usize::MAX as nat));
}

/// Lists and structs of what can be grouped can be, and so can maps whose entries and keys
/// are never null, and lists that may share items.
pub proof fn law_types_made_of_plain_types_are_grouped(data_type: DataType, depth: nat)
    requires
        0 < depth < usize::MAX,
    ensures
        list_item_of(data_type) matches Some(item) ==> (plain_type(field_type(item), depth) ==> plain_type(
            data_type,
            depth + 1,
        )),
        struct_fields_of(data_type) matches Some(fields) ==> ((forall|i: int|
            0 <= i < fields.len() ==> plain_type(field_type(#[trigger] fields[i]), depth)) ==> plain_type(
            data_type,
            depth + 1,
        )),
        map_entries_of(data_type) matches Some(entries) ==> (plain_type(field_type(entries), depth) && !field_nullable(
            entries,
        ) && (struct_fields_of(field_type(entries)) matches Some(fields) && fields.len() == 2 && !field_nullable(
            fields[0],
        )) ==> plain_type(data_type, depth + 1)),
        plain_type(data_type, usize::MAX as nat) ==> groupable(data_type),
        list_view_item_of(data_type) matches Some(item) ==> (plain_type(field_type(item), usize::MAX as nat)
            ==> groupable(data_type)),
{
    reveal_with_fuel(plain_type, 2);
    reveal_with_fuel(all_plain, 2);
}

/// What can be grouped is flat, a list, a map or a struct.
pub proof fn law_nothing_else_is_grouped(data_type: DataType)
    requires
        groupable(data_type),
    ensures
        list_item_of(data_type) is Some || list_view_item_of(data_type) is Some || map_entries_of(data_type) is Some
            || struct_fields_of(data_type) is Some || ((primitive_type(data_type) || string_type(data_type) || bytes_type(
            data_type,
        ) || data_type == boolean_type()) && has_null(data_type) && !nested_type(data_type)),
{
}

} // verus!
