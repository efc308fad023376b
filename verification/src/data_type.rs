//! Data types, columns, schemas and scalars.
use arrow::datatypes::{DataType, Field, Schema};
use arrow::util::display::FormatOptions;
use datafusion_common::datatype::DataTypeExt;
use datafusion_common::format::DEFAULT_FORMAT_OPTIONS;
use datafusion_common::ScalarValue;
use vstd::prelude::*;

verus! {

/// Arrow's description of the type of values.
#[verifier::external_type_specification]
#[verifier::external_body]
pub struct ExDataType(DataType);

/// Arrow's description of a column: a name, a data type, whether it can hold nulls, and
/// metadata.
#[verifier::external_type_specification]
#[verifier::external_body]
pub struct ExField(Field);

/// Arrow's description of the columns of a table.
#[verifier::external_type_specification]
#[verifier::external_body]
pub struct ExSchema(Schema);

/// Arrow's choice of how values are written as text.
#[verifier::external_type_specification]
#[verifier::external_body]
pub struct ExFormatOptions<'a>(FormatOptions<'a>);

/// One value of some data type, or the null of that type.
#[verifier::external_type_specification]
#[verifier::external_body]
pub struct ExScalarValue(ScalarValue);

/// The data type of a column.
pub uninterp spec fn field_type(field: Field) -> DataType;

/// The column of a data type that has no name and no metadata and can hold nulls.
pub uninterp spec fn nullable_field(data_type: DataType) -> Field;

/// The data types of the columns of a schema, in order.
pub uninterp spec fn schema_types(schema: Schema) -> Seq<DataType>;

/// Values are written as text the way the engine does it by default.
pub uninterp spec fn default_format(options: FormatOptions<'static>) -> bool;

/// The data type of a scalar.
pub uninterp spec fn scalar_type(value: ScalarValue) -> DataType;

/// The Boolean, or the null, that a scalar of type Boolean holds; nothing where the
/// scalar is of another type.
pub uninterp spec fn boolean_of(value: ScalarValue) -> Option<Option<bool>>;

/// The scalar of type Boolean that holds `value`.
pub uninterp spec fn boolean_scalar(value: Option<bool>) -> ScalarValue;

/// The data type Boolean.
pub open spec fn boolean_type() -> DataType {
    scalar_type(boolean_scalar(None))
}

/// `Field::data_type`: the data type of the column.
#[verifier::external_body]
pub(crate) fn field_data_type(field: &Field) -> (data_type: DataType)
    ensures
        data_type == field_type(*field),
{
    field.data_type().clone()
}

/// `DataTypeExt::into_nullable_field`: a column of this data type without a name.
#[verifier::external_body]
pub(crate) fn into_nullable_field(data_type: DataType) -> (field: Field)
    ensures
        field == nullable_field(data_type),
        field_type(field) == data_type,
{
    data_type.into_nullable_field()
}

/// `Field::eq`: whether two columns are described alike.
#[verifier::external_body]
pub(crate) fn same_field(left: &Field, right: &Field) -> (same: bool)
    ensures
        same == (*left == *right),
{
    left == right
}

/// `Field::clone`: the same column.
#[verifier::external_body]
pub(crate) fn clone_field(field: &Field) -> (same: Field)
    ensures
        same == *field,
{
    field.clone()
}

/// `DataType::clone`: the same data type.
#[verifier::external_body]
pub(crate) fn clone_data_type(data_type: &DataType) -> (same: DataType)
    ensures
        same == *data_type,
{
    data_type.clone()
}

/// `DataType::eq`: whether two data types are the same.
#[verifier::external_body]
pub(crate) fn same_data_type(left: &DataType, right: &DataType) -> (same: bool)
    ensures
        same == (*left == *right),
{
    left == right
}

/// `Schema::fields`: the data type of the column at `index`.
#[verifier::external_body]
pub(crate) fn schema_column_type(schema: &Schema, index: usize) -> (data_type: Option<DataType>)
    ensures
        data_type == if index < schema_types(*schema).len() {
            Some(schema_types(*schema)[index as int])
        } else {
            None
        },
{
    schema.fields().get(index).map(|field| field.data_type().clone())
}

/// `FormatOptions::eq` with `DEFAULT_FORMAT_OPTIONS`.
#[verifier::external_body]
pub(crate) fn is_default_format(options: &FormatOptions<'static>) -> (default: bool)
    ensures
        default == default_format(*options),
{
    options == &DEFAULT_FORMAT_OPTIONS
}

/// `FormatOptions::eq`: whether values are written alike.
#[verifier::external_body]
pub(crate) fn same_format(left: &FormatOptions<'static>, right: &FormatOptions<'static>) -> (same: bool)
    ensures
        same == (*left == *right),
{
    left == right
}

/// `FormatOptions::clone`: the same choice.
#[verifier::external_body]
pub(crate) fn clone_format(options: &FormatOptions<'static>) -> (same: FormatOptions<'static>)
    ensures
        same == *options,
{
    options.clone()
}

/// `ScalarValue::data_type`: the data type of the scalar.
#[verifier::external_body]
pub(crate) fn scalar_data_type(value: &ScalarValue) -> (data_type: DataType)
    ensures
        data_type == scalar_type(*value),
{
    value.data_type()
}

/// `ScalarValue::clone`: the same scalar.
#[verifier::external_body]
pub(crate) fn clone_scalar(value: &ScalarValue) -> (same: ScalarValue)
    ensures
        same == *value,
{
    value.clone()
}

/// `ScalarValue::eq`. It does not look at the time zone of a timestamp nor at the width of
/// a binary of fixed size, which are part of the data type: two scalars of one data type
/// that it takes for equal hold the same.
#[verifier::external_body]
pub(crate) fn equal_scalar(left: &ScalarValue, right: &ScalarValue) -> (equal: bool)
    ensures
        *left == *right ==> equal,
        equal && scalar_type(*left) == scalar_type(*right) ==> *left == *right,
{
    left == right
}

/// Whether two scalars are of one data type and hold the same.
pub(crate) fn same_scalar(left: &ScalarValue, right: &ScalarValue) -> (same: bool)
    ensures
        same == (*left == *right),
{
    same_data_type(&scalar_data_type(left), &scalar_data_type(right)) && equal_scalar(left, right)
}

/// What the variant `ScalarValue::Boolean` holds.
#[verifier::external_body]
pub(crate) fn as_boolean(value: &ScalarValue) -> (boolean: Option<Option<bool>>)
    ensures
        boolean == boolean_of(*value),
{
    match value {
        ScalarValue::Boolean(boolean) => Some(*boolean),
        _ => None,
    }
}

/// The variant `ScalarValue::Boolean` that holds `value`.
#[verifier::external_body]
pub(crate) fn scalar_from_boolean(value: Option<bool>) -> (scalar: ScalarValue)
    ensures
        scalar == boolean_scalar(value),
        boolean_of(scalar) == Some(value),
        scalar_type(scalar) == boolean_type(),
{
    ScalarValue::Boolean(value)
}

/// `DataType::Boolean`.
#[verifier::external_body]
pub(crate) fn boolean_data_type() -> (data_type: DataType)
    ensures
        data_type == boolean_type(),
{
    DataType::Boolean
}

} // verus!
