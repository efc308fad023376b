use arrow::array::{
    Array, ArrayRef, AsArray, BooleanArray, Date64Array, Decimal128Array, Int32Array, Int64Array,
    StringArray, StringDictionaryBuilder, TimestampMillisecondArray, TimestampNanosecondArray,
};
use arrow::compute::kernels::{cmp, numeric};
use arrow::compute::{and_kleene, cast_with_options, is_not_null, is_null, not, or_kleene};
use arrow::datatypes::{DataType, Field, Schema, TimeUnit, UInt8Type};
use arrow::record_batch::{RecordBatch, RecordBatchOptions};
use datafusion_common::format::DEFAULT_FORMAT_OPTIONS;
use datafusion_common::ScalarValue;
use datafusion_expr_common::operator::Operator;
use query_core::answers::{
    Answers, ExactPreimageQuestion, PreimageAnswer, PreimageQuestion, Question, Step,
};
use query_core::expr::{CastOptions, Expr, ExprError, ExprList, Transformed};
use query_core::operator::is_supported_comparison_operator;
use query_core::simplifier::const_evaluator::is_constant;
use query_core::simplifier::not::simplify_not_expr;
use query_core::simplifier::type_laws::{
    do_booleans_agree, is_typed_literal, is_typed_preimage, is_well_typed,
};
use query_core::simplifier::unwrap_cast::{
    extract_cast_info, rewrite_with_preimage, try_unwrap_cast_binary, try_unwrap_cast_comparison,
    unwrap_cast_in_comparison,
};
use query_core::simplifier::PhysicalExprSimplifier;
use query_core::simplify_expressions::cast_preimage::{
    cast_input_and_type, rewrite_cast_predicate_for_binary, rewrite_cast_predicate_for_inlist,
    supports_cast_predicate_for_binary, supports_cast_predicate_for_inlist,
};
use query_core::type_shape::binary_result_type;
use std::collections::HashMap;
use std::sync::Arc;

// Expressions.

fn col(name: &str, schema: &Schema) -> Arc<Expr> {
    Arc::new(Expr::Column { index: schema.index_of(name).unwrap() })
}

fn lit(value: ScalarValue) -> Arc<Expr> {
    query_core::expr::lit(value)
}

fn lit_i32(value: i32) -> Arc<Expr> {
    lit(ScalarValue::Int32(Some(value)))
}

fn lit_i64(value: i64) -> Arc<Expr> {
    lit(ScalarValue::Int64(Some(value)))
}

fn lit_str(value: &str) -> Arc<Expr> {
    lit(ScalarValue::Utf8(Some(value.to_string())))
}

fn lit_bool(value: Option<bool>) -> Arc<Expr> {
    lit(ScalarValue::Boolean(value))
}

fn lit_decimal(value: i128, precision: u8, scale: i8) -> Arc<Expr> {
    lit(ScalarValue::Decimal128(Some(value), precision, scale))
}

fn lit_timestamp_nano(value: i64) -> Arc<Expr> {
    lit(ScalarValue::TimestampNanosecond(Some(value), None))
}

fn lit_timestamp_millis(value: i64) -> Arc<Expr> {
    lit(ScalarValue::TimestampMillisecond(Some(value), None))
}

fn timestamp_nano_type() -> DataType {
    DataType::Timestamp(TimeUnit::Nanosecond, None)
}

fn timestamp_millis_type() -> DataType {
    DataType::Timestamp(TimeUnit::Millisecond, None)
}

fn binary(left: Arc<Expr>, op: Operator, right: Arc<Expr>) -> Arc<Expr> {
    query_core::expr::binary(left, op, right)
}

fn negate(arg: Arc<Expr>) -> Arc<Expr> {
    query_core::expr::not(arg)
}

fn default_options() -> CastOptions {
    CastOptions { safe: false, format_options: DEFAULT_FORMAT_OPTIONS }
}

fn cast_to_field(expr: Arc<Expr>, target_field: Field, options: CastOptions) -> Arc<Expr> {
    Arc::new(Expr::Cast { expr, target_field, options })
}

fn cast(expr: Arc<Expr>, target: DataType) -> Arc<Expr> {
    cast_to_field(expr, Field::new("", target, true), default_options())
}

fn try_cast(expr: Arc<Expr>, target: DataType) -> Arc<Expr> {
    Arc::new(Expr::TryCast { expr, target_field: Field::new("", target, true) })
}

fn in_list(expr: Arc<Expr>, list: Vec<Arc<Expr>>, negated: bool) -> Arc<Expr> {
    Arc::new(Expr::InList { expr, list: ExprList::from_vec(list), negated })
}

fn as_literal(expr: &Arc<Expr>) -> &ScalarValue {
    match &**expr {
        Expr::Literal { value } => value,
        other => panic!("Expected a literal, got: {other:?}"),
    }
}

fn as_binary(expr: &Arc<Expr>) -> (&Arc<Expr>, Operator, &Arc<Expr>) {
    match &**expr {
        Expr::Binary { left, op, right } => (left, *op, right),
        other => panic!("Expected a binary expression, got: {other:?}"),
    }
}

fn is_cast_expr(expr: &Expr) -> bool {
    matches!(expr, Expr::Cast { .. } | Expr::TryCast { .. })
}

fn children(expr: &Expr) -> Vec<Arc<Expr>> {
    match expr {
        Expr::Column { .. } | Expr::Literal { .. } => vec![],
        Expr::Binary { left, right, .. } => vec![left.clone(), right.clone()],
        Expr::Cast { expr, .. } | Expr::TryCast { expr, .. } => vec![expr.clone()],
        Expr::Not { arg } | Expr::IsNull { arg } | Expr::IsNotNull { arg } => vec![arg.clone()],
        Expr::InList { expr, list, .. } => {
            let mut children = vec![expr.clone()];
            children.extend(list.to_vec());
            children
        }
        Expr::Other { children, .. } => children.to_vec(),
    }
}

fn contains_cast(expr: &Expr) -> bool {
    is_cast_expr(expr) || children(expr).iter().any(|child| contains_cast(child))
}

fn assert_same(result: &Arc<Expr>, expected: &Arc<Expr>) {
    assert!(result.same(expected), "got: {result:?}\nexpected: {expected:?}");
}

// The engine that answers questions.

fn integer_bounds(data_type: &DataType) -> Option<(i128, i128)> {
    Some(match data_type {
        DataType::Int8 => (i8::MIN.into(), i8::MAX.into()),
        DataType::Int16 => (i16::MIN.into(), i16::MAX.into()),
        DataType::Int32 => (i32::MIN.into(), i32::MAX.into()),
        DataType::Int64 => (i64::MIN.into(), i64::MAX.into()),
        _ => return None,
    })
}

fn integer_scalar(data_type: &DataType, value: Option<i128>) -> Option<ScalarValue> {
    let (min, max) = integer_bounds(data_type)?;
    if value.is_some_and(|value| value < min || value > max) {
        return None;
    }
    Some(match data_type {
        DataType::Int8 => ScalarValue::Int8(value.map(|value| value as i8)),
        DataType::Int16 => ScalarValue::Int16(value.map(|value| value as i16)),
        DataType::Int32 => ScalarValue::Int32(value.map(|value| value as i32)),
        _ => ScalarValue::Int64(value.map(|value| value as i64)),
    })
}

fn integer_of(value: &ScalarValue) -> Option<Option<i128>> {
    Some(match value {
        ScalarValue::Int8(value) => value.map(i128::from),
        ScalarValue::Int16(value) => value.map(i128::from),
        ScalarValue::Int32(value) => value.map(i128::from),
        ScalarValue::Int64(value) => value.map(i128::from),
        _ => return None,
    })
}

fn units_per_second(unit: &TimeUnit) -> i128 {
    match unit {
        TimeUnit::Second => 1,
        TimeUnit::Millisecond => 1_000,
        TimeUnit::Microsecond => 1_000_000,
        TimeUnit::Nanosecond => 1_000_000_000,
    }
}

fn timestamp_scalar(unit: TimeUnit, value: i64, timezone: Option<Arc<str>>) -> ScalarValue {
    match unit {
        TimeUnit::Second => ScalarValue::TimestampSecond(Some(value), timezone),
        TimeUnit::Millisecond => ScalarValue::TimestampMillisecond(Some(value), timezone),
        TimeUnit::Microsecond => ScalarValue::TimestampMicrosecond(Some(value), timezone),
        TimeUnit::Nanosecond => ScalarValue::TimestampNanosecond(Some(value), timezone),
    }
}

fn timestamp_of(value: &ScalarValue) -> Option<i128> {
    match value {
        ScalarValue::TimestampSecond(value, _)
        | ScalarValue::TimestampMillisecond(value, _)
        | ScalarValue::TimestampMicrosecond(value, _)
        | ScalarValue::TimestampNanosecond(value, _) => value.map(i128::from),
        _ => None,
    }
}

/// Which source values does a cast map to values that meet a comparison with a literal?
fn preimage(source: &DataType, target: &DataType, op: Operator, literal: &ScalarValue) -> PreimageAnswer {
    if source == target {
        return PreimageAnswer::Exact(literal.clone());
    }
    if let DataType::Dictionary(_, values) = source {
        if **values == *target && literal.data_type() == *target {
            return PreimageAnswer::Exact(literal.clone());
        }
    }
    let distinguishes = matches!(
        op,
        Operator::Eq | Operator::NotEq | Operator::IsDistinctFrom | Operator::IsNotDistinctFrom
    );
    if let (Some(_), DataType::Utf8, ScalarValue::Utf8(Some(text))) =
        (integer_bounds(source), target, literal)
    {
        let value = text.parse::<i128>().ok().filter(|value| value.to_string() == *text);
        return match value.and_then(|value| integer_scalar(source, Some(value))) {
            Some(value) if distinguishes => PreimageAnswer::Exact(value),
            _ => PreimageAnswer::Unknown,
        };
    }
    if literal.data_type() != *target {
        return PreimageAnswer::Unknown;
    }
    let exact = match (source, target) {
        (source, target) if integer_bounds(source).is_some() && integer_bounds(target).is_some() => {
            let (narrow, wide) = (integer_bounds(source).unwrap(), integer_bounds(target).unwrap());
            if wide.0 <= narrow.0 && narrow.1 <= wide.1 {
                integer_of(literal).and_then(|value| integer_scalar(source, value))
            } else {
                None
            }
        }
        (DataType::Decimal128(precision, scale), DataType::Decimal128(wide, target_scale))
            if target_scale >= scale && wide - *target_scale as u8 >= precision - *scale as u8 =>
        {
            match literal {
                ScalarValue::Decimal128(Some(value), _, _) => {
                    let unit = 10_i128.pow((target_scale - scale) as u32);
                    let fits = (value / unit).abs() < 10_i128.pow(u32::from(*precision));
                    (value % unit == 0 && fits)
                        .then_some(ScalarValue::Decimal128(Some(value / unit), *precision, *scale))
                }
                _ => None,
            }
        }
        (DataType::Timestamp(source_unit, zone), DataType::Timestamp(target_unit, target_zone))
            if zone == target_zone =>
        {
            let (from, to) = (units_per_second(source_unit), units_per_second(target_unit));
            let Some(value) = timestamp_of(literal) else {
                return PreimageAnswer::Unknown;
            };
            let scalar = |value: i128| {
                i64::try_from(value).ok().map(|value| timestamp_scalar(*source_unit, value, zone.clone()))
            };
            if from < to {
                let unit = to / from;
                let (floor, aligned) = (value.div_euclid(unit), value.rem_euclid(unit) == 0);
                let ceil = if aligned { floor } else { floor + 1 };
                match op {
                    Operator::Gt | Operator::LtEq => scalar(floor),
                    Operator::Lt | Operator::GtEq => scalar(ceil),
                    _ if aligned => scalar(floor),
                    _ => None,
                }
            } else {
                // A cast to a coarser unit truncates toward zero.
                let unit = from / to;
                let start = |value: i128| if value > 0 { value * unit } else { value * unit - (unit - 1) };
                return match (scalar(start(value)), scalar(start(value + 1))) {
                    (Some(lower), Some(upper)) => PreimageAnswer::Range { lower, upper },
                    _ => PreimageAnswer::Unknown,
                };
            }
        }
        _ => None,
    };
    match exact {
        Some(value) => PreimageAnswer::Exact(value),
        None => PreimageAnswer::Unknown,
    }
}

/// Which is the one source value that a cast maps to a literal?
fn exact_preimage(source: &DataType, target: &DataType, literal: &ScalarValue) -> Option<ScalarValue> {
    if *target == DataType::Utf8 && source != target {
        return None;
    }
    match preimage(source, target, Operator::Eq, literal) {
        PreimageAnswer::Exact(value) => Some(value),
        _ => None,
    }
}

fn evaluate(expr: &Expr, batch: &RecordBatch) -> Result<ArrayRef, String> {
    let text = |error: arrow::error::ArrowError| error.to_string();
    let boolean = |array: BooleanArray| -> ArrayRef { Arc::new(array) };
    Ok(match expr {
        Expr::Column { index } => batch.column(*index).clone(),
        Expr::Literal { value } => value.to_array_of_size(batch.num_rows()).unwrap(),
        Expr::Binary { left, op, right } => {
            let (left, right) = (evaluate(left, batch)?, evaluate(right, batch)?);
            match op {
                Operator::Eq => boolean(cmp::eq(&left, &right).map_err(text)?),
                Operator::NotEq => boolean(cmp::neq(&left, &right).map_err(text)?),
                Operator::Lt => boolean(cmp::lt(&left, &right).map_err(text)?),
                Operator::LtEq => boolean(cmp::lt_eq(&left, &right).map_err(text)?),
                Operator::Gt => boolean(cmp::gt(&left, &right).map_err(text)?),
                Operator::GtEq => boolean(cmp::gt_eq(&left, &right).map_err(text)?),
                Operator::IsDistinctFrom => boolean(cmp::distinct(&left, &right).map_err(text)?),
                Operator::IsNotDistinctFrom => boolean(cmp::not_distinct(&left, &right).map_err(text)?),
                Operator::And => boolean(and_kleene(left.as_boolean(), right.as_boolean()).map_err(text)?),
                Operator::Or => boolean(or_kleene(left.as_boolean(), right.as_boolean()).map_err(text)?),
                Operator::Plus => numeric::add(&left, &right).map_err(text)?,
                Operator::Minus => numeric::sub(&left, &right).map_err(text)?,
                Operator::Multiply => numeric::mul(&left, &right).map_err(text)?,
                Operator::Divide => numeric::div(&left, &right).map_err(text)?,
                Operator::StringConcat => {
                    let rows = left.as_string::<i32>().iter().zip(right.as_string::<i32>().iter());
                    let joined = rows.map(|(left, right)| Some(format!("{}{}", left?, right?)));
                    Arc::new(StringArray::from_iter(joined))
                }
                other => return Err(format!("{other:?}")),
            }
        }
        Expr::Cast { expr, target_field, options } => {
            let options = arrow::compute::CastOptions {
                safe: options.safe,
                format_options: options.format_options.clone(),
            };
            cast_with_options(&evaluate(expr, batch)?, target_field.data_type(), &options).map_err(text)?
        }
        Expr::TryCast { expr, target_field } => {
            let options = arrow::compute::CastOptions { safe: true, format_options: DEFAULT_FORMAT_OPTIONS };
            cast_with_options(&evaluate(expr, batch)?, target_field.data_type(), &options).map_err(text)?
        }
        Expr::Not { arg } => boolean(not(evaluate(arg, batch)?.as_boolean()).map_err(text)?),
        Expr::IsNull { arg } => boolean(is_null(&evaluate(arg, batch)?).map_err(text)?),
        Expr::IsNotNull { arg } => boolean(is_not_null(&evaluate(arg, batch)?).map_err(text)?),
        Expr::InList { expr, list, negated } => {
            let value = evaluate(expr, batch)?;
            let mut among = BooleanArray::from(vec![false; batch.num_rows()]);
            for item in list.to_vec() {
                let equal = cmp::eq(&value, &evaluate(&item, batch)?).map_err(text)?;
                among = or_kleene(&among, &equal).map_err(text)?;
            }
            if *negated {
                among = not(&among).map_err(text)?;
            }
            boolean(among)
        }
        Expr::Other { .. } => Arc::new(Int32Array::from(vec![0; batch.num_rows()])),
    })
}

fn constant_value(expr: &Expr) -> Option<ScalarValue> {
    let options = RecordBatchOptions::new().with_row_count(Some(1));
    let dummy = RecordBatch::try_new_with_options(Arc::new(Schema::empty()), vec![], &options).unwrap();
    let array = evaluate(expr, &dummy).ok()?;
    ScalarValue::try_from_array(&array, 0).ok()
}

/// Answers a question, which is never one that has an answer.
fn answer(answers: &mut Answers, question: Question) {
    match question {
        Question::Preimage(question) => {
            assert!(answers.preimages.get(&question).is_none());
            let answer = preimage(&question.source, &question.target, question.op, &question.literal);
            answers.preimages.insert(question, answer);
        }
        Question::ExactPreimage(question) => {
            assert!(answers.exact_preimages.get(&question).is_none());
            let answer = exact_preimage(&question.source, &question.target, &question.literal);
            answers.exact_preimages.insert(question, answer);
        }
        Question::Constant(expr) => {
            assert!(answers.constants.get(&expr).is_none());
            let value = constant_value(&expr);
            answers.constants.insert(expr, value);
        }
    }
}

/// Goes through a rewrite until it needs no more answers.
fn drive<T>(mut rewrite: impl FnMut(&Answers) -> Step<T>) -> Result<T, ExprError> {
    let mut answers = Answers::new();
    loop {
        match rewrite(&answers) {
            Step::Done(result) => return Ok(result),
            Step::Failed(error) => return Err(error),
            Step::Ask(question) => answer(&mut answers, question),
        }
    }
}

fn simplify(schema: &Schema, expr: &Arc<Expr>) -> Arc<Expr> {
    let simplifier = PhysicalExprSimplifier::new(schema);
    drive(|answers| simplifier.simplify(expr.clone(), answers)).unwrap()
}

fn unwrap_cast(expr: &Arc<Expr>, schema: &Schema) -> Transformed {
    drive(|answers| unwrap_cast_in_comparison(expr.clone(), schema, answers)).unwrap()
}

/// Unwraps casts from the top of an expression down.
fn unwrap_casts_down(expr: &Arc<Expr>, schema: &Schema) -> Transformed {
    let top = unwrap_cast(expr, schema);
    let below = match &*top.data {
        Expr::Binary { left, op, right } => {
            let (left, right) = (unwrap_casts_down(left, schema), unwrap_casts_down(right, schema));
            Transformed {
                transformed: left.transformed || right.transformed,
                data: binary(left.data, *op, right.data),
            }
        }
        _ => Transformed { data: top.data.clone(), transformed: false },
    };
    Transformed { transformed: top.transformed || below.transformed, data: below.data }
}

fn boolean_values(expr: &Expr, batch: &RecordBatch) -> Result<Vec<Option<bool>>, String> {
    Ok(evaluate(expr, batch)?.as_boolean().iter().collect())
}

/// Verifies that a cast rewrite preserves every row's Boolean or NULL result.
fn assert_cast_predicate_equivalent(
    name: &str,
    schema: &Schema,
    batch: &RecordBatch,
    original: Arc<Expr>,
) -> Arc<Expr> {
    let simplified = simplify(schema, &original);
    assert_eq!(
        boolean_values(&original, batch),
        boolean_values(&simplified, batch),
        "{name}: cast unwrapping changed predicate results\n  original: {original:?}\n  simplified: {simplified:?}"
    );
    simplified
}

fn assert_comparison_left_cast_removed(name: &str, expr: &Arc<Expr>) {
    let (left, _, _) = as_binary(expr);
    assert!(
        !is_cast_expr(left),
        "{name}: simplification must remove the comparison's left cast, got: {expr:?}"
    );
}

fn assert_simplify(schema: &Schema, input: Arc<Expr>, expected: Arc<Expr>) {
    assert_same(&simplify(schema, &input), &expected);
}

fn batch_of(schema: &Schema, column: ArrayRef) -> RecordBatch {
    RecordBatch::try_new(Arc::new(schema.clone()), vec![column]).unwrap()
}

fn test_schema() -> Schema {
    Schema::new(vec![
        Field::new("c1", DataType::Int32, false),
        Field::new("c2", DataType::Int64, false),
        Field::new("c3", DataType::Utf8, false),
    ])
}

fn not_test_schema() -> Schema {
    Schema::new(vec![
        Field::new("a", DataType::Boolean, false),
        Field::new("b", DataType::Boolean, false),
        Field::new("c", DataType::Int32, false),
    ])
}

// Simplification.

#[test]
fn narrowing_try_cast_equality_retains_cast_and_nulls() {
    let schema = Schema::new(vec![Field::new("i", DataType::Int64, true)]);
    let values = Int64Array::from(vec![Some(0), Some(i64::from(i32::MAX) + 1), None]);
    let batch = batch_of(&schema, Arc::new(values));
    let original = binary(
        try_cast(col("i", &schema), DataType::Int32),
        Operator::Eq,
        lit_i32(0),
    );
    let simplified =
        assert_cast_predicate_equivalent("Int64 -> Int32 equality", &schema, &batch, original);
    assert!(contains_cast(&simplified));
}

#[test]
fn decimal_scale_narrowing_equality_retains_cast() {
    let schema = Schema::new(vec![Field::new("d", DataType::Decimal128(10, 3), true)]);
    let values = Decimal128Array::from(vec![Some(1_001), Some(1_000), None])
        .with_precision_and_scale(10, 3)
        .unwrap();
    let batch = batch_of(&schema, Arc::new(values));
    let original = binary(
        cast(col("d", &schema), DataType::Decimal128(10, 2)),
        Operator::Eq,
        lit_decimal(100, 10, 2),
    );
    let simplified = assert_cast_predicate_equivalent(
        "decimal scale narrowing equality",
        &schema,
        &batch,
        original,
    );
    assert!(contains_cast(&simplified));
}

#[test]
fn decimal_scale_narrowing_literal_left_inequality_retains_cast() {
    let schema = Schema::new(vec![Field::new("d", DataType::Decimal128(10, 3), false)]);
    let values = Decimal128Array::from(vec![1_001]).with_precision_and_scale(10, 3).unwrap();
    let batch = batch_of(&schema, Arc::new(values));
    let original = binary(
        lit_decimal(100, 10, 2),
        Operator::Lt,
        cast(col("d", &schema), DataType::Decimal128(10, 2)),
    );
    let simplified = assert_cast_predicate_equivalent(
        "decimal scale narrowing literal-left strict inequality",
        &schema,
        &batch,
        original,
    );
    assert!(contains_cast(&simplified));
}

#[test]
fn decimal_scale_narrowing_distinctness_retains_cast() {
    let schema = Schema::new(vec![Field::new("d", DataType::Decimal128(10, 3), true)]);
    let values = Decimal128Array::from(vec![Some(1_001), None])
        .with_precision_and_scale(10, 3)
        .unwrap();
    let batch = batch_of(&schema, Arc::new(values));
    let outcomes = [Operator::IsDistinctFrom, Operator::IsNotDistinctFrom].map(|op| {
        let original = binary(
            cast(col("d", &schema), DataType::Decimal128(10, 2)),
            op,
            lit_decimal(100, 10, 2),
        );
        let simplified = simplify(&schema, &original);
        (
            boolean_values(&original, &batch).unwrap(),
            boolean_values(&simplified, &batch).unwrap(),
            contains_cast(&simplified),
        )
    });
    let [(distinct_original, distinct_simplified, distinct_retains_cast), (not_distinct_original, not_distinct_simplified, not_distinct_retains_cast)] =
        outcomes;
    assert_eq!(
        (distinct_original, not_distinct_original),
        (distinct_simplified, not_distinct_simplified),
        "decimal scale narrowing changed nullable IS DISTINCT FROM and IS NOT DISTINCT FROM results"
    );
    assert!(distinct_retains_cast && not_distinct_retains_cast);
}

#[test]
fn date64_to_int32_try_cast_retains_cast() {
    let schema = Schema::new(vec![Field::new("d", DataType::Date64, false)]);
    let batch = batch_of(&schema, Arc::new(Date64Array::from(vec![2_147_483_648])));
    let original = binary(
        try_cast(col("d", &schema), DataType::Int32),
        Operator::Eq,
        lit_i32(i32::MIN),
    );
    let simplified =
        assert_cast_predicate_equivalent("Date64 -> Int32 equality", &schema, &batch, original);
    assert!(contains_cast(&simplified));
}

#[test]
fn timestamp_narrowing_equality_uses_half_open_range() {
    let schema = Schema::new(vec![Field::new("ts", timestamp_nano_type(), false)]);
    let values = TimestampNanosecondArray::from(vec![
        -1_000_001, -1_000_000, -1, 0, 1, 999_999, 1_000_000, 1_000_001,
    ]);
    let batch = batch_of(&schema, Arc::new(values));
    let original = binary(
        cast(col("ts", &schema), timestamp_millis_type()),
        Operator::Eq,
        lit_timestamp_millis(0),
    );
    let simplified =
        assert_cast_predicate_equivalent("timestamp ns -> ms buckets", &schema, &batch, original);
    let (_, op, _) = as_binary(&simplified);
    assert_eq!(op, Operator::And);
    assert!(!contains_cast(&simplified));
}

#[test]
fn timestamp_narrowing_literal_left_swaps_to_source_range() {
    let schema = Schema::new(vec![Field::new("ts", timestamp_nano_type(), false)]);
    let batch = batch_of(&schema, Arc::new(TimestampNanosecondArray::from(vec![-1, 0, 1_000_000])));
    let original = binary(
        lit_timestamp_millis(-1),
        Operator::Lt,
        cast(col("ts", &schema), timestamp_millis_type()),
    );
    let simplified = assert_cast_predicate_equivalent(
        "timestamp narrowing literal-left strict inequality",
        &schema,
        &batch,
        original,
    );
    let (_, op, right) = as_binary(&simplified);
    assert_eq!(op, Operator::GtEq);
    assert_eq!(as_literal(right), &ScalarValue::TimestampNanosecond(Some(-999_999), None));
    assert!(!contains_cast(&simplified));
}

#[test]
fn timestamp_narrowing_distinctness_uses_null_aware_range() {
    let schema = Schema::new(vec![Field::new("ts", timestamp_nano_type(), true)]);
    let values = TimestampNanosecondArray::from(vec![Some(-1), Some(0), Some(1_000_000), None]);
    let batch = batch_of(&schema, Arc::new(values));
    for op in [Operator::IsDistinctFrom, Operator::IsNotDistinctFrom] {
        let original = binary(
            cast(col("ts", &schema), timestamp_millis_type()),
            op,
            lit_timestamp_millis(0),
        );
        let simplified = assert_cast_predicate_equivalent(
            "timestamp narrowing nullable distinctness",
            &schema,
            &batch,
            original,
        );
        assert!(!contains_cast(&simplified));
    }
}

#[test]
fn timestamp_timezone_metadata_change_retains_cast() {
    let target_type = DataType::Timestamp(TimeUnit::Nanosecond, Some(Arc::from("+05:30")));
    let schema = Schema::new(vec![Field::new("ts", timestamp_nano_type(), false)]);
    let batch = batch_of(&schema, Arc::new(TimestampNanosecondArray::from(vec![0])));
    let original = binary(
        cast(col("ts", &schema), target_type),
        Operator::Eq,
        lit(ScalarValue::TimestampNanosecond(Some(0), Some(Arc::from("+05:30")))),
    );
    let simplified =
        assert_cast_predicate_equivalent("timestamp timezone metadata", &schema, &batch, original);
    let (left, _, _) = as_binary(&simplified);
    assert!(
        matches!(**left, Expr::Cast { .. }),
        "timezone metadata cast must not be removed: {simplified:?}"
    );
}

#[test]
fn timestamp_coarse_to_fine_cast_overflow_equality_is_accepted_policy() {
    let schema = Schema::new(vec![Field::new("ts", timestamp_millis_type(), true)]);
    let values = TimestampMillisecondArray::from(vec![Some(9_223_372_036_855)]);
    let batch = batch_of(&schema, Arc::new(values));
    let original = binary(
        cast(col("ts", &schema), timestamp_nano_type()),
        Operator::Eq,
        lit_timestamp_nano(0),
    );
    let simplified = simplify(&schema, &original);
    assert!(!contains_cast(&simplified));
    assert!(boolean_values(&original, &batch).is_err());
    assert_eq!(boolean_values(&simplified, &batch).unwrap(), vec![Some(false)]);
}

#[test]
fn timestamp_coarse_to_fine_try_cast_overflow_equality_is_accepted_policy() {
    let schema = Schema::new(vec![Field::new("ts", timestamp_millis_type(), true)]);
    let values = TimestampMillisecondArray::from(vec![Some(9_223_372_036_855)]);
    let batch = batch_of(&schema, Arc::new(values));
    let original = binary(
        try_cast(col("ts", &schema), timestamp_nano_type()),
        Operator::Eq,
        lit_timestamp_nano(0),
    );
    let simplified = simplify(&schema, &original);
    assert!(!contains_cast(&simplified));
    assert_eq!(boolean_values(&original, &batch).unwrap(), vec![None]);
    assert_eq!(boolean_values(&simplified, &batch).unwrap(), vec![Some(false)]);
}

#[test]
fn timestamp_coarse_to_fine_ordered_overflow_is_accepted_policy() {
    let schema = Schema::new(vec![Field::new("ts", timestamp_millis_type(), true)]);
    let values = TimestampMillisecondArray::from(vec![Some(9_223_372_036_855)]);
    let batch = batch_of(&schema, Arc::new(values));
    for tries in [false, true] {
        let cast_expr = if tries {
            try_cast(col("ts", &schema), timestamp_nano_type())
        } else {
            cast(col("ts", &schema), timestamp_nano_type())
        };
        let original = binary(cast_expr, Operator::GtEq, lit_timestamp_nano(0));
        let simplified = simplify(&schema, &original);
        let (_, op, right) = as_binary(&simplified);
        assert_eq!(op, Operator::GtEq);
        assert_eq!(as_literal(right), &ScalarValue::TimestampMillisecond(Some(0), None));
        assert!(!contains_cast(&simplified));

        if tries {
            assert_eq!(boolean_values(&original, &batch).unwrap(), vec![None]);
        } else {
            assert!(boolean_values(&original, &batch).is_err());
        }
        assert_eq!(boolean_values(&simplified, &batch).unwrap(), vec![Some(true)]);
    }
}

#[test]
fn dictionary_encoding_overflow_retains_cast_and_error() {
    let schema = Schema::new(vec![Field::new("s", DataType::Utf8, false)]);
    let values = StringArray::from_iter_values((0..257).map(|index| format!("value-{index}")));
    let batch = batch_of(&schema, Arc::new(values));
    let dictionary_type = DataType::Dictionary(Box::new(DataType::UInt8), Box::new(DataType::Utf8));
    let original = binary(
        cast(col("s", &schema), dictionary_type),
        Operator::Eq,
        lit_str("value-256"),
    );
    let simplified = simplify(&schema, &original);
    let original_error = boolean_values(&original, &batch)
        .expect_err("257 distinct Utf8 values must overflow Dictionary(UInt8, Utf8) keys");
    let simplified_result = boolean_values(&simplified, &batch);
    let (left, _, _) = as_binary(&simplified);
    assert_eq!(
        (
            original_error.contains("Dictionary key bigger than the key type"),
            simplified_result.is_err(),
            matches!(**left, Expr::Cast { .. }),
        ),
        (true, true, true),
        "dictionary encoding must preserve its key-overflow error and retain the cast\n  original: {original:?}\n  simplified: {simplified:?}"
    );
}

#[test]
fn dictionary_identity_and_decode_controls_remain_equivalent() {
    let dictionary_type = DataType::Dictionary(Box::new(DataType::UInt8), Box::new(DataType::Utf8));
    let schema = Schema::new(vec![Field::new("d", dictionary_type.clone(), true)]);
    let mut builder = StringDictionaryBuilder::<UInt8Type>::new();
    builder.append("one").unwrap();
    builder.append("two").unwrap();
    builder.append_null();
    let batch = batch_of(&schema, Arc::new(builder.finish()));

    let identity = binary(
        cast(col("d", &schema), dictionary_type),
        Operator::Eq,
        lit_str("one"),
    );
    let simplified =
        assert_cast_predicate_equivalent("dictionary identity", &schema, &batch, identity);
    assert_comparison_left_cast_removed("dictionary identity", &simplified);

    let decode = binary(cast(col("d", &schema), DataType::Utf8), Operator::Eq, lit_str("one"));
    let simplified = assert_cast_predicate_equivalent("dictionary decode", &schema, &batch, decode);
    assert_comparison_left_cast_removed("dictionary decode", &simplified);
}

#[test]
fn nondefault_cast_options_and_target_fields_retain_cast() {
    let schema = Schema::new(vec![Field::new("i", DataType::Int32, false)]);
    let batch = batch_of(&schema, Arc::new(Int32Array::from(vec![1])));
    let target_type = DataType::Int64;
    let plain_field = Field::new("", target_type.clone(), true);
    let cases = [
        (
            "safe cast options",
            plain_field.clone(),
            CastOptions { safe: true, format_options: DEFAULT_FORMAT_OPTIONS },
        ),
        (
            "format cast options",
            plain_field.clone(),
            CastOptions { safe: false, format_options: DEFAULT_FORMAT_OPTIONS.with_null("NULL") },
        ),
        (
            "named target field",
            Field::new("named_target", target_type.clone(), true),
            default_options(),
        ),
        (
            "nonnullable target field",
            Field::new("", target_type, false),
            default_options(),
        ),
        (
            "metadata-bearing target field",
            plain_field.with_metadata(HashMap::from([(
                "semantic".to_string(),
                "preserve".to_string(),
            )])),
            default_options(),
        ),
    ];
    let retained = cases.map(|(name, field, options)| {
        let original = binary(
            cast_to_field(col("i", &schema), field, options),
            Operator::Eq,
            lit_i64(1),
        );
        let simplified = assert_cast_predicate_equivalent(name, &schema, &batch, original);
        let (left, _, _) = as_binary(&simplified);
        matches!(**left, Expr::Cast { .. })
    });
    assert_eq!(
        retained,
        [true; 5],
        "case order: safe options, format options, named field, nonnullable field, metadata-bearing field"
    );
}

#[test]
fn default_cast_options_and_target_field_control_rewrites() {
    let schema = Schema::new(vec![Field::new("i", DataType::Int32, false)]);
    let original = binary(cast(col("i", &schema), DataType::Int64), Operator::Eq, lit_i64(1));
    let simplified = simplify(&schema, &original);
    let (left, _, _) = as_binary(&simplified);
    assert!(
        !matches!(**left, Expr::Cast { .. }),
        "default casts should remain eligible for unwrapping"
    );
}

#[test]
fn widening_cast_controls_unwrap_safely() {
    let int_schema = Schema::new(vec![Field::new("i", DataType::Int32, true)]);
    let int_batch = batch_of(&int_schema, Arc::new(Int32Array::from(vec![Some(0), Some(1), None])));
    let int_original =
        binary(cast(col("i", &int_schema), DataType::Int64), Operator::Gt, lit_i64(0));
    let simplified = assert_cast_predicate_equivalent(
        "Int32 -> Int64 widening",
        &int_schema,
        &int_batch,
        int_original,
    );
    assert!(!contains_cast(&simplified));

    let decimal_schema = Schema::new(vec![Field::new("d", DataType::Decimal128(10, 2), false)]);
    let values = Decimal128Array::from(vec![101]).with_precision_and_scale(10, 2).unwrap();
    let decimal_batch = batch_of(&decimal_schema, Arc::new(values));
    let decimal_original = binary(
        cast(col("d", &decimal_schema), DataType::Decimal128(20, 4)),
        Operator::Eq,
        lit_decimal(10_100, 20, 4),
    );
    let simplified = assert_cast_predicate_equivalent(
        "decimal scale widening",
        &decimal_schema,
        &decimal_batch,
        decimal_original,
    );
    assert!(!contains_cast(&simplified));
}

#[test]
fn test_simplify() {
    let schema = test_schema();
    // cast(c2 as INT32) != INT32(99)
    let expr = binary(cast(col("c2", &schema), DataType::Int32), Operator::NotEq, lit_i32(99));
    let optimized = simplify(&schema, &expr);
    // Int64 -> Int32 is narrowing, so it must remain cast-bearing.
    let (left, _, _) = as_binary(&optimized);
    assert!(is_cast_expr(left));
}

#[test]
fn test_nested_expression_simplification() {
    let schema = test_schema();
    // (cast(c1 as INT64) > INT64(5)) OR (cast(c2 as INT32) <= INT32(10))
    let c1 = binary(cast(col("c1", &schema), DataType::Int64), Operator::Gt, lit_i64(5));
    let c2 = binary(cast(col("c2", &schema), DataType::Int32), Operator::LtEq, lit_i32(10));
    let optimized = simplify(&schema, &binary(c1, Operator::Or, c2));

    let (left, _, right) = as_binary(&optimized);
    // c1 > INT32(5)
    let (left_left, _, left_right) = as_binary(left);
    assert!(!is_cast_expr(left_left));
    assert_eq!(as_literal(left_right), &ScalarValue::Int32(Some(5)));
    // The right side remains cast-bearing: Int64 -> Int32 narrows.
    let (right_left, _, _) = as_binary(right);
    assert!(is_cast_expr(right_left));
}

#[test]
fn test_double_negation_elimination() {
    let schema = not_test_schema();
    // NOT(NOT(c > 5)) -> c > 5
    let inner = binary(col("c", &schema), Operator::Gt, lit_i32(5));
    assert_simplify(&schema, negate(negate(inner.clone())), inner);
}

#[test]
fn test_not_literal() {
    let schema = not_test_schema();
    // NOT(TRUE) -> FALSE
    assert_simplify(&schema, negate(lit_bool(Some(true))), lit_bool(Some(false)));
    // NOT(FALSE) -> TRUE
    assert_simplify(&schema, negate(lit_bool(Some(false))), lit_bool(Some(true)));
}

#[test]
fn test_negate_comparison() {
    let schema = not_test_schema();
    // NOT(c = 5) -> c != 5
    assert_simplify(
        &schema,
        negate(binary(col("c", &schema), Operator::Eq, lit_i32(5))),
        binary(col("c", &schema), Operator::NotEq, lit_i32(5)),
    );
}

#[test]
fn test_demorgans_law_and() {
    let schema = not_test_schema();
    // NOT(a AND b) -> NOT a OR NOT b
    assert_simplify(
        &schema,
        negate(binary(col("a", &schema), Operator::And, col("b", &schema))),
        binary(negate(col("a", &schema)), Operator::Or, negate(col("b", &schema))),
    );
}

#[test]
fn test_demorgans_law_or() {
    let schema = not_test_schema();
    // NOT(a OR b) -> NOT a AND NOT b
    assert_simplify(
        &schema,
        negate(binary(col("a", &schema), Operator::Or, col("b", &schema))),
        binary(negate(col("a", &schema)), Operator::And, negate(col("b", &schema))),
    );
}

#[test]
fn test_demorgans_with_comparison_simplification() {
    let schema = not_test_schema();
    // NOT(c = 1 AND c = 2) -> c != 1 OR c != 2
    let eq1 = binary(col("c", &schema), Operator::Eq, lit_i32(1));
    let eq2 = binary(col("c", &schema), Operator::Eq, lit_i32(2));
    assert_simplify(
        &schema,
        negate(binary(eq1, Operator::And, eq2)),
        binary(
            binary(col("c", &schema), Operator::NotEq, lit_i32(1)),
            Operator::Or,
            binary(col("c", &schema), Operator::NotEq, lit_i32(2)),
        ),
    );
}

#[test]
fn test_not_of_not_and_not() {
    let schema = not_test_schema();
    // NOT(NOT(a) AND NOT(b)) -> a OR b
    let and = binary(negate(col("a", &schema)), Operator::And, negate(col("b", &schema)));
    assert_simplify(
        &schema,
        negate(and),
        binary(col("a", &schema), Operator::Or, col("b", &schema)),
    );
}

fn one_two_three() -> Vec<Arc<Expr>> {
    vec![lit_i32(1), lit_i32(2), lit_i32(3)]
}

#[test]
fn test_not_in_list() {
    let schema = not_test_schema();
    // NOT(c IN (1, 2, 3)) -> c NOT IN (1, 2, 3)
    assert_simplify(
        &schema,
        negate(in_list(col("c", &schema), one_two_three(), false)),
        in_list(col("c", &schema), one_two_three(), true),
    );
}

#[test]
fn test_not_not_in_list() {
    let schema = not_test_schema();
    // NOT(c NOT IN (1, 2, 3)) -> c IN (1, 2, 3)
    assert_simplify(
        &schema,
        negate(in_list(col("c", &schema), one_two_three(), true)),
        in_list(col("c", &schema), one_two_three(), false),
    );
}

#[test]
fn test_double_not_in_list() {
    let schema = not_test_schema();
    // NOT(NOT(c IN (1, 2, 3))) -> c IN (1, 2, 3)
    assert_simplify(
        &schema,
        negate(negate(in_list(col("c", &schema), one_two_three(), false))),
        in_list(col("c", &schema), one_two_three(), false),
    );
}

#[test]
fn test_deeply_nested_not() {
    let schema = not_test_schema();
    // NOT(NOT(NOT(...NOT(c > 5)...)))
    let inner = binary(col("c", &schema), Operator::Gt, lit_i32(5));
    let mut expr = inner.clone();
    for _ in 0..200 {
        expr = negate(expr);
    }
    // With 200 NOTs (even number), should simplify back to the original expression.
    assert_simplify(&schema, expr, inner);
}

#[test]
fn test_simplify_literal_binary_expr() {
    // 1 + 2 -> 3
    let result = simplify(&Schema::empty(), &binary(lit_i32(1), Operator::Plus, lit_i32(2)));
    assert_eq!(as_literal(&result), &ScalarValue::Int32(Some(3)));
}

#[test]
fn test_simplify_literal_comparison() {
    // 5 > 3 -> true
    let result = simplify(&Schema::empty(), &binary(lit_i32(5), Operator::Gt, lit_i32(3)));
    assert_eq!(as_literal(&result), &ScalarValue::Boolean(Some(true)));
    // 2 > 3 -> false
    let result = simplify(&Schema::empty(), &binary(lit_i32(2), Operator::Gt, lit_i32(3)));
    assert_eq!(as_literal(&result), &ScalarValue::Boolean(Some(false)));
}

#[test]
fn test_simplify_nested_literal_expr() {
    // (1 + 2) * 3 -> 9
    let inner = binary(lit_i32(1), Operator::Plus, lit_i32(2));
    let result = simplify(&Schema::empty(), &binary(inner, Operator::Multiply, lit_i32(3)));
    assert_eq!(as_literal(&result), &ScalarValue::Int32(Some(9)));
}

#[test]
fn test_simplify_deeply_nested_literals() {
    // ((1 + 2) * 3) + ((4 - 1) * 2) -> 9 + 6 -> 15
    let left = binary(
        binary(lit_i32(1), Operator::Plus, lit_i32(2)),
        Operator::Multiply,
        lit_i32(3),
    );
    let right = binary(
        binary(lit_i32(4), Operator::Minus, lit_i32(1)),
        Operator::Multiply,
        lit_i32(2),
    );
    let result = simplify(&Schema::empty(), &binary(left, Operator::Plus, right));
    assert_eq!(as_literal(&result), &ScalarValue::Int32(Some(15)));
}

#[test]
fn test_no_simplify_with_column() {
    let schema = test_schema();
    // c1 + 2 should NOT be simplified (has column reference)
    let result = simplify(&schema, &binary(col("c1", &schema), Operator::Plus, lit_i32(2)));
    assert!(matches!(*result, Expr::Binary { .. }));
}

#[test]
fn test_partial_simplify_with_column() {
    let schema = test_schema();
    // (1 + 2) + c1 should simplify the literal part: 3 + c1
    let literal_part = binary(lit_i32(1), Operator::Plus, lit_i32(2));
    let result = simplify(&schema, &binary(literal_part, Operator::Plus, col("c1", &schema)));
    let (left, _, _) = as_binary(&result);
    assert_eq!(as_literal(left), &ScalarValue::Int32(Some(3)));
}

#[test]
fn test_no_simplify_opaque_leaf_expr() {
    // A leaf that is neither a literal nor a column must not be folded: it has no operands
    // to derive constness from.
    let opaque = Arc::new(Expr::Other {
        id: 7,
        children: ExprList::from_vec(vec![]),
        data_type: DataType::Int32,
        volatile: false,
    });
    let result = simplify(&Schema::empty(), &opaque);
    assert!(
        !matches!(*result, Expr::Literal { .. }),
        "opaque leaf must not be rewritten to a literal, got: {result:?}"
    );
    assert_same(&result, &opaque);
}

#[test]
fn test_simplify_literal_string_concat() {
    // 'hello' || ' world' -> 'hello world'
    let expr = binary(lit_str("hello"), Operator::StringConcat, lit_str(" world"));
    let result = simplify(&Schema::empty(), &expr);
    assert_eq!(as_literal(&result), &ScalarValue::Utf8(Some("hello world".to_string())));
}

// Removal of casts from comparisons.

/// Check if a binary expression is suitable for cast unwrapping.
fn is_binary_expr_with_cast_and_literal(expr: &Arc<Expr>) -> bool {
    let (left, _, right) = as_binary(expr);
    let is_literal = |expr: &Expr| matches!(expr, Expr::Literal { .. });
    (is_cast_expr(left) && is_literal(right)) || (is_literal(left) && is_cast_expr(right))
}

fn assert_timestamp_widening_unwrap(
    source_unit: TimeUnit,
    target_unit: TimeUnit,
    timezone: Option<Arc<str>>,
    op: Operator,
    target_value: i64,
    expected_value: i64,
    tries: bool,
) {
    let source_type = DataType::Timestamp(source_unit, timezone.clone());
    let target_type = DataType::Timestamp(target_unit, timezone.clone());
    let schema = Schema::new(vec![Field::new("ts", source_type, true)]);
    let inner = col("ts", &schema);
    let cast_expr = if tries { try_cast(inner, target_type) } else { cast(inner, target_type) };
    let input = binary(
        cast_expr,
        op,
        lit(timestamp_scalar(target_unit, target_value, timezone.clone())),
    );
    let result = unwrap_cast(&input, &schema);
    assert!(result.transformed);
    let (left, result_op, right) = as_binary(&result.data);
    assert_eq!(result_op, op);
    assert!(!is_cast_expr(left));
    assert_eq!(
        as_literal(right),
        &timestamp_scalar(source_unit, expected_value, timezone)
    );
}

#[test]
fn test_timestamp_widening_ordered_cast_and_try_cast() {
    for (source_unit, target_unit, quotient) in [
        (TimeUnit::Second, TimeUnit::Millisecond, 1_000_i128),
        (TimeUnit::Second, TimeUnit::Microsecond, 1_000_000),
        (TimeUnit::Second, TimeUnit::Nanosecond, 1_000_000_000),
        (TimeUnit::Millisecond, TimeUnit::Microsecond, 1_000),
        (TimeUnit::Millisecond, TimeUnit::Nanosecond, 1_000_000),
        (TimeUnit::Microsecond, TimeUnit::Nanosecond, 1_000),
    ] {
        for (target_value, floor, ceil) in [
            (quotient + 1, 1, 2),
            (1 - quotient, -1, 0),
            (123 * quotient, 123, 123),
            (-123 * quotient, -123, -123),
        ] {
            for (op, expected) in [
                (Operator::GtEq, ceil),
                (Operator::Gt, floor),
                (Operator::Lt, ceil),
                (Operator::LtEq, floor),
            ] {
                for tries in [false, true] {
                    assert_timestamp_widening_unwrap(
                        source_unit,
                        target_unit,
                        None,
                        op,
                        i64::try_from(target_value).unwrap(),
                        expected,
                        tries,
                    );
                }
            }
        }

        for target_value in [i128::from(i64::MIN), i128::from(i64::MAX)] {
            let floor = target_value.div_euclid(quotient);
            let ceil = floor + if target_value.rem_euclid(quotient) != 0 { 1 } else { 0 };
            for (op, expected) in [
                (Operator::GtEq, ceil),
                (Operator::Gt, floor),
                (Operator::Lt, ceil),
                (Operator::LtEq, floor),
            ] {
                assert_timestamp_widening_unwrap(
                    source_unit,
                    target_unit,
                    None,
                    op,
                    i64::try_from(target_value).unwrap(),
                    i64::try_from(expected).unwrap(),
                    false,
                );
            }
        }
    }
}

#[test]
fn test_timestamp_widening_literal_left_and_timezone() {
    let timezone: Option<Arc<str>> = Some(Arc::from("+05:30"));
    let schema = Schema::new(vec![Field::new(
        "ts",
        DataType::Timestamp(TimeUnit::Millisecond, timezone.clone()),
        true,
    )]);
    for (op, expected_op, expected_value) in [
        (Operator::Lt, Operator::Gt, 123),
        (Operator::LtEq, Operator::GtEq, 124),
        (Operator::Gt, Operator::Lt, 124),
        (Operator::GtEq, Operator::LtEq, 123),
    ] {
        for tries in [false, true] {
            let inner = col("ts", &schema);
            let target = DataType::Timestamp(TimeUnit::Nanosecond, timezone.clone());
            let cast_expr = if tries { try_cast(inner, target) } else { cast(inner, target) };
            let input = binary(
                lit(timestamp_scalar(TimeUnit::Nanosecond, 123_456_789, timezone.clone())),
                op,
                cast_expr,
            );
            let result = unwrap_cast(&input, &schema);
            assert!(result.transformed);
            let (_, result_op, right) = as_binary(&result.data);
            assert_eq!(result_op, expected_op);
            assert_eq!(
                as_literal(right),
                &timestamp_scalar(TimeUnit::Millisecond, expected_value, timezone.clone())
            );
        }
    }
}

#[test]
fn test_timestamp_widening_unaligned_equality_and_guards_retain_cast() {
    let schema = Schema::new(vec![Field::new("ts", timestamp_millis_type(), true)]);
    for (op, literal) in [
        (Operator::Eq, ScalarValue::TimestampNanosecond(Some(123_000_001), None)),
        (Operator::GtEq, ScalarValue::TimestampNanosecond(None, None)),
        (Operator::GtEq, ScalarValue::TimestampMicrosecond(Some(123_456), None)),
    ] {
        let input = binary(cast(col("ts", &schema), timestamp_nano_type()), op, lit(literal));
        assert!(!unwrap_cast(&input, &schema).transformed);
    }
}

#[test]
fn test_unwrap_cast_in_binary_comparison() {
    let schema = test_schema();
    // cast(c1 as INT64) > INT64(10)
    let input = binary(cast(col("c1", &schema), DataType::Int64), Operator::Gt, lit_i64(10));
    let result = unwrap_cast(&input, &schema);
    assert!(result.transformed);
    // c1 > INT32(10)
    let (left, _, right) = as_binary(&result.data);
    assert!(!is_cast_expr(left));
    assert_eq!(as_literal(right), &ScalarValue::Int32(Some(10)));
}

#[test]
fn test_unwrap_cast_with_literal_on_left() {
    let schema = test_schema();
    // INT64(10) < cast(c1 as INT64)
    let input = binary(lit_i64(10), Operator::Lt, cast(col("c1", &schema), DataType::Int64));
    let result = unwrap_cast(&input, &schema);
    assert!(result.transformed);
    // Equivalent to: c1 > INT32(10)
    let (_, op, _) = as_binary(&result.data);
    assert_eq!(op, Operator::Gt);
}

#[test]
fn test_no_unwrap_date64_to_date32_narrowing() {
    let schema = Schema::new(vec![Field::new("d64", DataType::Date64, false)]);
    // cast(d64 AS Date32) = Date32(20089) must NOT unwrap: narrowing a Date64 column to
    // Date32 truncates milliseconds to the day (many-to-one), so the rewritten
    // `d64 = <midnight ms>` would drop sub-day rows.
    let input = binary(
        cast(col("d64", &schema), DataType::Date32),
        Operator::Eq,
        lit(ScalarValue::Date32(Some(20089))),
    );
    assert!(!unwrap_cast(&input, &schema).transformed);
}

#[test]
fn test_no_unwrap_when_types_unsupported() {
    let schema = Schema::new(vec![Field::new("f1", DataType::Float32, false)]);
    // cast(f1 as FLOAT64) > FLOAT64(10.5)
    let input = binary(
        cast(col("f1", &schema), DataType::Float64),
        Operator::Gt,
        lit(ScalarValue::Float64(Some(10.5))),
    );
    // Should NOT be transformed (floating point types not supported)
    assert!(!unwrap_cast(&input, &schema).transformed);
}

#[test]
fn test_is_binary_expr_with_cast_and_literal() {
    let schema = test_schema();
    let expr = binary(cast(col("c1", &schema), DataType::Int64), Operator::Gt, lit_i64(10));
    assert!(is_binary_expr_with_cast_and_literal(&expr));
}

#[test]
fn test_unwrap_cast_literal_on_left_side() {
    // literal <= cast(column)
    let schema = Schema::new(vec![Field::new("decimal_col", DataType::Decimal128(9, 2), true)]);
    // Decimal128(400) <= cast(decimal_col as Decimal128(22, 2))
    let input = binary(
        lit_decimal(400, 22, 2),
        Operator::LtEq,
        cast(col("decimal_col", &schema), DataType::Decimal128(22, 2)),
    );
    let result = unwrap_cast(&input, &schema);
    assert!(result.transformed);
    // decimal_col >= Decimal128(400, 9, 2)
    let (left, op, right) = as_binary(&result.data);
    assert_eq!(op, Operator::GtEq);
    assert!(!is_cast_expr(left));
    assert_eq!(as_literal(right).data_type(), DataType::Decimal128(9, 2));
}

#[test]
fn test_unwrap_cast_with_different_comparison_operators() {
    let schema = Schema::new(vec![Field::new("int_col", DataType::Int32, false)]);
    for (original_op, expected_op) in [
        (Operator::Lt, Operator::Gt),
        (Operator::LtEq, Operator::GtEq),
        (Operator::Gt, Operator::Lt),
        (Operator::GtEq, Operator::LtEq),
        (Operator::Eq, Operator::Eq),
        (Operator::NotEq, Operator::NotEq),
    ] {
        // INT64(100) op cast(int_col as INT64)
        let input =
            binary(lit_i64(100), original_op, cast(col("int_col", &schema), DataType::Int64));
        let result = unwrap_cast(&input, &schema);
        assert!(result.transformed);
        let (left, op, right) = as_binary(&result.data);
        assert_eq!(op, expected_op, "Failed for operator {original_op:?} -> {expected_op:?}");
        assert!(!is_cast_expr(left));
        assert_eq!(as_literal(right), &ScalarValue::Int32(Some(100)));
    }
}

#[test]
fn test_unwrap_cast_with_decimal_types() {
    // (column_precision, column_scale, cast_precision, cast_scale, value)
    for (col_p, col_s, cast_p, cast_s, value) in
        [(9, 2, 22, 2, 400), (10, 3, 20, 3, 1000), (5, 1, 10, 1, 99)]
    {
        let schema =
            Schema::new(vec![Field::new("decimal_col", DataType::Decimal128(col_p, col_s), true)]);
        let cast_expr = cast(col("decimal_col", &schema), DataType::Decimal128(cast_p, cast_s));
        let literal = lit_decimal(value, cast_p, cast_s);

        // cast(column) > literal
        let input = binary(cast_expr.clone(), Operator::Gt, literal.clone());
        assert!(unwrap_cast(&input, &schema).transformed);

        // literal < cast(column)
        let input = binary(literal, Operator::Lt, cast_expr);
        assert!(unwrap_cast(&input, &schema).transformed);
    }
}

#[test]
fn test_unwrap_cast_with_null_literals() {
    let schema = Schema::new(vec![Field::new("int_col", DataType::Int32, true)]);
    // cast(int_col as INT64) = NULL
    let input = binary(
        cast(col("int_col", &schema), DataType::Int64),
        Operator::Eq,
        lit(ScalarValue::Int64(None)),
    );
    let result = unwrap_cast(&input, &schema);
    assert!(result.transformed);
    // The NULL was cast to the column type.
    let (_, _, right) = as_binary(&result.data);
    assert_eq!(as_literal(right), &ScalarValue::Int32(None));
}

#[test]
fn test_unwrap_cast_with_try_cast() {
    let schema = Schema::new(vec![Field::new("str_col", DataType::Utf8, true)]);
    // try_cast(str_col as INT64) > INT64(100)
    let input =
        binary(try_cast(col("str_col", &schema), DataType::Int64), Operator::Gt, lit_i64(100));
    // Should NOT be transformed (string to int cast not supported)
    assert!(!unwrap_cast(&input, &schema).transformed);
}

#[test]
fn test_unwrap_cast_preserves_non_comparison_operators() {
    let schema = Schema::new(vec![Field::new("int_col", DataType::Int32, false)]);
    // cast(int_col as INT64) > INT64(10) AND cast(int_col as INT64) < INT64(20)
    let compare1 =
        binary(cast(col("int_col", &schema), DataType::Int64), Operator::Gt, lit_i64(10));
    let compare2 =
        binary(cast(col("int_col", &schema), DataType::Int64), Operator::Lt, lit_i64(20));
    let result = unwrap_casts_down(&binary(compare1, Operator::And, compare2), &schema);
    assert!(result.transformed);
    let (left, op, right) = as_binary(&result.data);
    assert_eq!(op, Operator::And);
    // Both sides should have their casts unwrapped.
    assert!(!is_cast_expr(as_binary(left).0));
    assert!(!is_cast_expr(as_binary(right).0));
}

#[test]
fn test_try_cast_unwrapping() {
    let schema = test_schema();
    // try_cast(c1 as INT64) <= INT64(100)
    let input =
        binary(try_cast(col("c1", &schema), DataType::Int64), Operator::LtEq, lit_i64(100));
    let result = unwrap_cast(&input, &schema);
    // c1 <= INT32(100)
    assert!(result.transformed);
    let (left, _, right) = as_binary(&result.data);
    assert!(!is_cast_expr(left));
    assert_eq!(as_literal(right), &ScalarValue::Int32(Some(100)));
}

#[test]
fn test_non_swappable_operator() {
    let schema = Schema::new(vec![Field::new("int_col", DataType::Int32, false)]);
    // INT64(10) + cast(int_col as INT64): Plus cannot be swapped.
    let input =
        binary(lit_i64(10), Operator::Plus, cast(col("int_col", &schema), DataType::Int64));
    assert!(!unwrap_cast(&input, &schema).transformed);
}

#[test]
fn test_cast_that_cannot_be_unwrapped_overflow() {
    let schema = Schema::new(vec![Field::new("small_int", DataType::Int8, false)]);
    // cast(small_int as INT64) > INT64(1000): 1000 cannot fit in Int8.
    let input =
        binary(cast(col("small_int", &schema), DataType::Int64), Operator::Gt, lit_i64(1000));
    assert!(!unwrap_cast(&input, &schema).transformed);
}

#[test]
fn test_unwrap_timestamp_precision_narrowing_to_range() {
    let schema = Schema::new(vec![Field::new("ts", timestamp_nano_type(), false)]);
    let input = binary(
        cast(col("ts", &schema), timestamp_millis_type()),
        Operator::Eq,
        lit_timestamp_millis(1),
    );
    let result = unwrap_cast(&input, &schema);
    assert!(result.transformed);
    let (lower, op, upper) = as_binary(&result.data);
    assert_eq!(op, Operator::And);
    let (_, lower_op, lower_bound) = as_binary(lower);
    assert_eq!(lower_op, Operator::GtEq);
    assert_eq!(
        as_literal(lower_bound),
        &ScalarValue::TimestampNanosecond(Some(1_000_000), None)
    );
    let (_, upper_op, upper_bound) = as_binary(upper);
    assert_eq!(upper_op, Operator::Lt);
    assert_eq!(
        as_literal(upper_bound),
        &ScalarValue::TimestampNanosecond(Some(2_000_000), None)
    );
}

#[test]
fn test_unwrap_timestamp_precision_widening_equality() {
    let schema = Schema::new(vec![Field::new("ts", timestamp_millis_type(), false)]);
    let input = binary(
        cast(col("ts", &schema), timestamp_nano_type()),
        Operator::Eq,
        lit_timestamp_nano(1_000_000),
    );
    let result = unwrap_cast(&input, &schema);
    assert!(result.transformed);
    let (left, op, right) = as_binary(&result.data);
    assert_eq!(op, Operator::Eq);
    assert_eq!(as_literal(right), &ScalarValue::TimestampMillisecond(Some(1), None));
    assert!(!is_cast_expr(left));
}

#[test]
fn test_complex_nested_expression() {
    let schema = test_schema();
    // (cast(c1 as INT64) > INT64(10)) AND (cast(c2 as INT32) = INT32(20))
    let c1 = binary(cast(col("c1", &schema), DataType::Int64), Operator::Gt, lit_i64(10));
    let c2 = binary(cast(col("c2", &schema), DataType::Int32), Operator::Eq, lit_i32(20));
    let result = unwrap_casts_down(&binary(c1, Operator::And, c2), &schema);
    assert!(result.transformed);
    let (left, _, right) = as_binary(&result.data);
    // c1 > INT32(10)
    let (left_left, _, left_right) = as_binary(left);
    assert!(!is_cast_expr(left_left));
    assert_eq!(as_literal(left_right), &ScalarValue::Int32(Some(10)));
    // CAST(c2 AS INT32) = INT32(20) remains: narrowing casts have no exact source-domain
    // preimage.
    let (right_left, _, _) = as_binary(right);
    assert!(is_cast_expr(right_left));
}

// Rewrites of predicates over casts.

fn eq(left: Arc<Expr>, right: Arc<Expr>) -> Arc<Expr> {
    binary(left, Operator::Eq, right)
}

fn gt(left: Arc<Expr>, right: Arc<Expr>) -> Arc<Expr> {
    binary(left, Operator::Gt, right)
}

fn gt_eq(left: Arc<Expr>, right: Arc<Expr>) -> Arc<Expr> {
    binary(left, Operator::GtEq, right)
}

fn lt(left: Arc<Expr>, right: Arc<Expr>) -> Arc<Expr> {
    binary(left, Operator::Lt, right)
}

fn and(left: Arc<Expr>, right: Arc<Expr>) -> Arc<Expr> {
    binary(left, Operator::And, right)
}

fn or(left: Arc<Expr>, right: Arc<Expr>) -> Arc<Expr> {
    binary(left, Operator::Or, right)
}

/// Removes tests for null of columns that hold none.
fn without_null_tests(expr: &Arc<Expr>, schema: &Schema) -> Arc<Expr> {
    let never_null =
        |expr: &Expr| matches!(expr, Expr::Column { index } if !schema.field(*index).is_nullable());
    let Expr::Binary { left, op, right } = &**expr else {
        return expr.clone();
    };
    match (op, &**left, &**right) {
        (Operator::And, Expr::IsNotNull { arg }, _) if never_null(arg) => right.clone(),
        (Operator::Or, _, Expr::IsNull { arg }) if never_null(arg) => left.clone(),
        _ => binary(without_null_tests(left, schema), *op, without_null_tests(right, schema)),
    }
}

/// Rewrites a predicate over a cast where that is supported: a literal on the left is
/// first brought to the right, and short lists of values of a column are written out.
fn optimize_test(expr: Arc<Expr>, schema: &Schema) -> Arc<Expr> {
    match &*expr {
        Expr::Binary { left, op, right } => {
            let swapped = op.swap().map(|op| (right, op, left));
            for (cast_expr, op, literal) in [Some((left, *op, right)), swapped].into_iter().flatten() {
                let supported = drive(|answers| {
                    supports_cast_predicate_for_binary(schema, answers, cast_expr, op, literal)
                });
                if supported.unwrap() {
                    let rewritten = drive(|answers| {
                        rewrite_cast_predicate_for_binary(schema, answers, cast_expr, literal, op)
                    })
                    .unwrap();
                    assert!(rewritten.transformed);
                    return without_null_tests(&rewritten.data, schema);
                }
            }
            expr
        }
        Expr::InList { expr: tested, list, negated } => {
            let supported =
                drive(|answers| supports_cast_predicate_for_inlist(schema, answers, tested, list));
            if !supported.unwrap() {
                return expr;
            }
            let rewritten = drive(|answers| {
                rewrite_cast_predicate_for_inlist(schema, answers, tested, list, *negated)
            })
            .unwrap();
            assert!(rewritten.transformed);
            match &*rewritten.data {
                Expr::InList { expr: column, list, negated: false } if list.to_vec().len() <= 3 => {
                    let tests = list.to_vec().into_iter().map(|item| eq(column.clone(), item));
                    tests.reduce(or).unwrap()
                }
                _ => rewritten.data,
            }
        }
        _ => expr,
    }
}

fn expr_test_schema() -> Schema {
    Schema::new(vec![
        Field::new("c1", DataType::Int32, false),
        Field::new("c2", DataType::Int64, false),
        Field::new("c3", DataType::Decimal128(18, 2), false),
        Field::new("d", DataType::Date64, false),
        Field::new("ts_seconds", DataType::Timestamp(TimeUnit::Second, None), false),
        Field::new("ts_milli", timestamp_millis_type(), false),
        Field::new("ts_nano", timestamp_nano_type(), false),
        Field::new("ts_nano_none", DataType::Timestamp(TimeUnit::Nanosecond, None), false),
    ])
}

#[test]
fn exact_preimage_unwraps_binary_and_literal_left() {
    let schema = expr_test_schema();
    let c1 = || col("c1", &schema);

    let expr = gt(cast(c1(), DataType::Int64), lit_i64(10));
    assert_same(&optimize_test(expr, &schema), &gt(c1(), lit_i32(10)));

    let expr = gt(try_cast(c1(), DataType::Int64), lit_i64(10));
    assert_same(&optimize_test(expr, &schema), &gt(c1(), lit_i32(10)));

    let expr = lt(lit_i64(10), cast(c1(), DataType::Int64));
    assert_same(&optimize_test(expr, &schema), &gt(c1(), lit_i32(10)));
}

#[test]
fn integer_string_round_trip_uses_exact_preimage() {
    let schema = expr_test_schema();
    let c1 = || col("c1", &schema);

    let expr = eq(cast(c1(), DataType::Utf8), lit_str("123"));
    assert_same(&optimize_test(expr, &schema), &eq(c1(), lit_i32(123)));

    let expr = eq(cast(c1(), DataType::Utf8), lit_str("0123"));
    assert_same(&optimize_test(expr.clone(), &schema), &expr);
}

#[test]
fn exact_preimage_in_and_not_in_preserve_typed_nulls() {
    let schema = expr_test_schema();
    for negated in [false, true] {
        let expr = in_list(
            cast(col("c1", &schema), DataType::Int64),
            vec![
                lit_i64(0),
                lit(ScalarValue::Int64(None)),
                lit_i64(1),
                lit_i64(2),
                lit_i64(3),
                lit_i64(4),
            ],
            negated,
        );
        let expected = in_list(
            col("c1", &schema),
            vec![
                lit_i32(0),
                lit(ScalarValue::Int32(None)),
                lit_i32(1),
                lit_i32(2),
                lit_i32(3),
                lit_i32(4),
            ],
            negated,
        );
        assert_same(&optimize_test(expr, &schema), &expected);
    }
}

#[test]
fn timestamp_narrowing_uses_half_open_truncation_toward_zero_ranges() {
    let schema = expr_test_schema();
    let ts_nano = || col("ts_nano", &schema);
    for (literal_ms, lower, upper) in [
        (1000, 1_000_000_000, 1_001_000_000),
        (0, -999_999, 1_000_000),
        (-1, -1_999_999, -999_999),
    ] {
        let expected = and(
            gt_eq(ts_nano(), lit_timestamp_nano(lower)),
            lt(ts_nano(), lit_timestamp_nano(upper)),
        );
        let expr = eq(cast(ts_nano(), timestamp_millis_type()), lit_timestamp_millis(literal_ms));
        assert_same(&optimize_test(expr, &schema), &expected);
    }
}

#[test]
fn nested_timestamp_cast_uses_a_range_over_the_inner_cast() {
    let schema = Schema::new(vec![Field::new("n", DataType::Int64, false)]);
    let inner_cast = || cast(col("n", &schema), timestamp_nano_type());
    let expr = eq(cast(inner_cast(), timestamp_millis_type()), lit_timestamp_millis(1));
    let expected = and(
        gt_eq(inner_cast(), lit_timestamp_nano(1_000_000)),
        lt(inner_cast(), lit_timestamp_nano(2_000_000)),
    );
    assert_same(&optimize_test(expr.clone(), &schema), &expected);
    assert_same(&simplify(&schema, &expr), &expected);
}

#[test]
fn timestamp_narrowing_uses_correct_inequality_and_distinctness_preimages() {
    let schema = expr_test_schema();
    let ts_nano = || col("ts_nano", &schema);
    for (op, literal_ms, expected) in [
        (Operator::Gt, 1000, gt_eq(ts_nano(), lit_timestamp_nano(1_001_000_000))),
        (Operator::Lt, 0, lt(ts_nano(), lit_timestamp_nano(-999_999))),
        (
            Operator::IsNotDistinctFrom,
            0,
            and(
                gt_eq(ts_nano(), lit_timestamp_nano(-999_999)),
                lt(ts_nano(), lit_timestamp_nano(1_000_000)),
            ),
        ),
        (
            Operator::IsDistinctFrom,
            0,
            or(
                lt(ts_nano(), lit_timestamp_nano(-999_999)),
                gt_eq(ts_nano(), lit_timestamp_nano(1_000_000)),
            ),
        ),
    ] {
        let expr =
            binary(cast(ts_nano(), timestamp_millis_type()), op, lit_timestamp_millis(literal_ms));
        assert_same(&optimize_test(expr, &schema), &expected);
    }
}

#[test]
fn timestamp_narrowing_swaps_literal_left_operators() {
    let schema = expr_test_schema();
    let ts_nano = || col("ts_nano", &schema);
    for (op, expected) in [
        (Operator::Lt, gt_eq(ts_nano(), lit_timestamp_nano(1_001_000_000))),
        (Operator::LtEq, gt_eq(ts_nano(), lit_timestamp_nano(1_000_000_000))),
        (Operator::Gt, lt(ts_nano(), lit_timestamp_nano(1_000_000_000))),
        (
            Operator::Eq,
            and(
                gt_eq(ts_nano(), lit_timestamp_nano(1_000_000_000)),
                lt(ts_nano(), lit_timestamp_nano(1_001_000_000)),
            ),
        ),
    ] {
        let expr = binary(lit_timestamp_millis(1000), op, cast(ts_nano(), timestamp_millis_type()));
        assert_same(&optimize_test(expr, &schema), &expected);
    }
}

#[test]
fn unsafe_narrowing_and_timezone_casts_remain() {
    let schema = expr_test_schema();
    let zoned = DataType::Timestamp(TimeUnit::Nanosecond, Some("+05:30".into()));
    for expr in [
        eq(cast(col("c2", &schema), DataType::Int32), lit_i32(5)),
        eq(try_cast(col("c2", &schema), DataType::Int32), lit_i32(5)),
        eq(cast(col("c3", &schema), DataType::Decimal128(18, 1)), lit_decimal(12, 18, 1)),
        eq(cast(col("d", &schema), DataType::Int32), lit_i32(0)),
        eq(
            cast(col("ts_nano_none", &schema), zoned),
            lit(ScalarValue::TimestampNanosecond(Some(0), Some("+05:30".into()))),
        ),
    ] {
        assert_same(&optimize_test(expr.clone(), &schema), &expr);
    }
}

#[test]
fn timestamp_widening_equality_and_in_rewrite_aligned_literals() {
    let units = [
        (TimeUnit::Second, TimeUnit::Millisecond, [123_000, -456_000]),
        (TimeUnit::Second, TimeUnit::Microsecond, [123_000_000, -456_000_000]),
        (TimeUnit::Second, TimeUnit::Nanosecond, [123_000_000_000, -456_000_000_000]),
        (TimeUnit::Millisecond, TimeUnit::Microsecond, [123_000, -456_000]),
        (TimeUnit::Millisecond, TimeUnit::Nanosecond, [123_000_000, -456_000_000]),
        (TimeUnit::Microsecond, TimeUnit::Nanosecond, [123_000, -456_000]),
    ];
    for (source_unit, target_unit, target_values) in units {
        let source_literals = [123, -456].map(|value| timestamp_scalar(source_unit, value, None));
        let target_literals =
            target_values.map(|value| timestamp_scalar(target_unit, value, None));
        let target_type = DataType::Timestamp(target_unit, None);
        let schema =
            Schema::new(vec![Field::new("ts", DataType::Timestamp(source_unit, None), false)]);
        for (source_literal, target_literal) in source_literals.iter().zip(target_literals.iter()) {
            let expected = eq(col("ts", &schema), lit(source_literal.clone()));
            for cast_expr in [
                cast(col("ts", &schema), target_type.clone()),
                try_cast(col("ts", &schema), target_type.clone()),
            ] {
                let expr = eq(cast_expr, lit(target_literal.clone()));
                assert_same(&optimize_test(expr, &schema), &expected);
            }
        }

        let expr = in_list(
            cast(col("ts", &schema), target_type),
            target_literals.iter().cloned().map(lit).collect(),
            false,
        );
        let expected = or(
            eq(col("ts", &schema), lit(source_literals[0].clone())),
            eq(col("ts", &schema), lit(source_literals[1].clone())),
        );
        assert_same(&optimize_test(expr, &schema), &expected);
    }

    let schema = expr_test_schema();
    let expr = in_list(
        cast(col("ts_milli", &schema), timestamp_nano_type()),
        vec![lit_timestamp_nano(123_000_000), lit_timestamp_nano(123_456_789)],
        false,
    );
    assert_same(&optimize_test(expr.clone(), &schema), &expr);
}

#[test]
fn timestamp_widening_ordered_cast_and_try_cast_rewrite() {
    let schema = expr_test_schema();
    let ts_milli = || col("ts_milli", &schema);
    for (literal, floor, ceil) in [(123_456_789, 123, 124), (-123_456_789, -124, -123)] {
        for (op, bound) in [
            (Operator::GtEq, ceil),
            (Operator::Gt, floor),
            (Operator::Lt, ceil),
            (Operator::LtEq, floor),
        ] {
            for cast_expr in [
                cast(ts_milli(), timestamp_nano_type()),
                try_cast(ts_milli(), timestamp_nano_type()),
            ] {
                let expr = binary(cast_expr, op, lit_timestamp_nano(literal));
                let expected = binary(ts_milli(), op, lit_timestamp_millis(bound));
                assert_same(&optimize_test(expr, &schema), &expected);
            }
        }
    }

    for (op, expected_op, expected_value) in [
        (Operator::Lt, Operator::Gt, 123),
        (Operator::LtEq, Operator::GtEq, 124),
        (Operator::Gt, Operator::Lt, 124),
        (Operator::GtEq, Operator::LtEq, 123),
    ] {
        let expr = binary(
            lit_timestamp_nano(123_456_789),
            op,
            cast(ts_milli(), timestamp_nano_type()),
        );
        let expected = binary(ts_milli(), expected_op, lit_timestamp_millis(expected_value));
        assert_same(&optimize_test(expr, &schema), &expected);
    }
}

#[test]
fn in_lists_only_rewrite_exact_preimages() {
    let schema = expr_test_schema();
    for negated in [false, true] {
        let expr = in_list(
            cast(col("c2", &schema), DataType::Int32),
            vec![lit_i32(5), lit(ScalarValue::Int32(None)), lit_i32(5), lit_i32(6)],
            negated,
        );
        assert_same(&optimize_test(expr.clone(), &schema), &expr);

        let expr = in_list(
            cast(col("ts_nano", &schema), timestamp_millis_type()),
            vec![
                lit_timestamp_millis(0),
                lit_timestamp_millis(1),
                lit_timestamp_millis(2),
                lit_timestamp_millis(3),
            ],
            negated,
        );
        assert_same(&optimize_test(expr.clone(), &schema), &expr);
    }
}

#[test]
fn integer_string_distinctness_uses_the_exact_preimage() {
    let schema = expr_test_schema();
    let c1 = || col("c1", &schema);

    let expr =
        binary(cast(c1(), DataType::Utf8), Operator::IsNotDistinctFrom, lit_str("123"));
    assert_same(
        &optimize_test(expr, &schema),
        &binary(c1(), Operator::IsNotDistinctFrom, lit_i32(123)),
    );

    let expr = binary(cast(c1(), DataType::Utf8), Operator::IsDistinctFrom, lit_str("0123"));
    assert_same(&optimize_test(expr.clone(), &schema), &expr);
}

// Questions and answers.

fn int_schema() -> Schema {
    Schema::new(vec![Field::new("i", DataType::Int32, true), Field::new("s", DataType::Utf8, true)])
}

fn widened(op: Operator, literal: i64) -> PreimageQuestion {
    PreimageQuestion {
        source: DataType::Int32,
        target: DataType::Int64,
        op,
        literal: ScalarValue::Int64(Some(literal)),
    }
}

#[test]
fn a_missing_answer_is_asked_for() {
    let schema = int_schema();
    let expr = gt(lit_i64(10), cast(col("i", &schema), DataType::Int64));
    let simplifier = PhysicalExprSimplifier::new(&schema);
    let mut answers = Answers::new();
    match simplifier.simplify(expr.clone(), &answers) {
        Step::Ask(Question::Preimage(question)) => {
            // The literal is on the right in the question, so the comparison is swapped.
            assert_eq!(question.source, DataType::Int32);
            assert_eq!(question.target, DataType::Int64);
            assert_eq!(question.op, Operator::Lt);
            assert_eq!(question.literal, ScalarValue::Int64(Some(10)));
        }
        other => panic!("expected a question, got: {other:?}"),
    }
    answers.preimages.insert(
        widened(Operator::Lt, 10),
        PreimageAnswer::Exact(ScalarValue::Int32(Some(10))),
    );
    match simplifier.simplify(expr, &answers) {
        Step::Done(result) => assert_same(&result, &lt(col("i", &schema), lit_i32(10))),
        other => panic!("expected a result, got: {other:?}"),
    }
}

#[test]
fn the_last_answer_counts() {
    let mut answers = Answers::new();
    assert!(answers.preimages.get(&widened(Operator::Eq, 1)).is_none());
    answers.preimages.insert(widened(Operator::Eq, 1), PreimageAnswer::Failed);
    answers.preimages.insert(widened(Operator::Eq, 2), PreimageAnswer::Unknown);
    answers.preimages.insert(
        widened(Operator::Eq, 1),
        PreimageAnswer::Exact(ScalarValue::Int32(Some(1))),
    );
    assert!(matches!(
        answers.preimages.get(&widened(Operator::Eq, 1)),
        Some(PreimageAnswer::Exact(ScalarValue::Int32(Some(1))))
    ));
    assert!(matches!(
        answers.preimages.get(&widened(Operator::Eq, 2)),
        Some(PreimageAnswer::Unknown)
    ));
    assert!(answers.preimages.get(&widened(Operator::NotEq, 1)).is_none());
    let exact = |literal| ExactPreimageQuestion {
        source: DataType::Int32,
        target: DataType::Int64,
        literal: ScalarValue::Int64(Some(literal)),
    };
    answers.exact_preimages.insert(exact(1), None);
    assert!(matches!(answers.exact_preimages.get(&exact(1)), Some(None)));
    assert!(answers.exact_preimages.get(&exact(2)).is_none());
}

fn lit_in_zone(value: i64, zone: &str) -> Arc<Expr> {
    lit(ScalarValue::TimestampMillisecond(Some(value), Some(zone.into())))
}

#[test]
fn literals_of_different_types_are_asked_about_one_by_one() {
    // The scalars are equal to each other: their equality does not look at time zones.
    let zones = ["+00:00", "+02:00"];
    let literals = zones.map(|zone| as_literal(&lit_in_zone(1, zone)).clone());
    assert_eq!(literals[0], literals[1]);

    let questions = || {
        literals.clone().map(|literal| PreimageQuestion {
            source: DataType::Int32,
            target: literal.data_type(),
            op: Operator::Eq,
            literal,
        })
    };
    let same_target = |literal: &ScalarValue| PreimageQuestion {
        source: DataType::Int32,
        target: DataType::Int64,
        op: Operator::Eq,
        literal: literal.clone(),
    };
    let exact = |literal: &ScalarValue| ExactPreimageQuestion {
        source: DataType::Int32,
        target: DataType::Int64,
        literal: literal.clone(),
    };
    let mut answers = Answers::new();
    let [first, second] = questions();
    answers.preimages.insert(first, PreimageAnswer::Exact(ScalarValue::Int32(Some(1))));
    assert!(answers.preimages.get(&second).is_none());
    answers.preimages.insert(same_target(&literals[0]), PreimageAnswer::Unknown);
    assert!(answers.preimages.get(&same_target(&literals[0])).is_some());
    assert!(answers.preimages.get(&same_target(&literals[1])).is_none());
    answers.exact_preimages.insert(exact(&literals[0]), None);
    assert!(answers.exact_preimages.get(&exact(&literals[0])).is_some());
    assert!(answers.exact_preimages.get(&exact(&literals[1])).is_none());
    let [first, second] = zones.map(|zone| query_core::expr::is_null(lit_in_zone(1, zone)));
    answers.constants.insert(first.clone(), Some(ScalarValue::Boolean(Some(false))));
    assert!(answers.constants.get(&first).is_some());
    assert!(answers.constants.get(&second).is_none());
}

#[test]
fn a_failed_answer_fails_the_rewrite() {
    let schema = int_schema();
    let expr = eq(cast(col("i", &schema), DataType::Int64), lit_i64(1));
    let mut answers = Answers::new();
    answers.preimages.insert(widened(Operator::Eq, 1), PreimageAnswer::Failed);
    assert!(matches!(
        PhysicalExprSimplifier::new(&schema).simplify(expr.clone(), &answers),
        Step::Failed(ExprError::PreimageFailed)
    ));
    let (cast_expr, op, literal) = as_binary(&expr);
    assert!(matches!(
        rewrite_cast_predicate_for_binary(&schema, &answers, cast_expr, literal, op),
        Step::Failed(ExprError::PreimageFailed)
    ));
    assert!(matches!(
        supports_cast_predicate_for_binary(&schema, &answers, cast_expr, op, literal),
        Step::Done(false)
    ));
}

#[test]
fn an_expression_without_a_type_fails_the_rewrite() {
    let schema = int_schema();
    let unknown = Arc::new(Expr::Column { index: 9 });
    let expr = eq(cast(unknown.clone(), DataType::Int64), lit_i64(1));
    let answers = Answers::new();
    assert!(matches!(
        unwrap_cast_in_comparison(expr.clone(), &schema, &answers),
        Step::Failed(ExprError::UnknownColumn { index: 9 })
    ));
    let (cast_expr, op, literal) = as_binary(&expr);
    assert!(matches!(
        rewrite_cast_predicate_for_binary(&schema, &answers, cast_expr, literal, op),
        Step::Failed(ExprError::UnknownColumn { index: 9 })
    ));
    assert!(matches!(
        supports_cast_predicate_for_binary(&schema, &answers, cast_expr, op, literal),
        Step::Done(false)
    ));
    let list = ExprList::from_vec(vec![lit_i64(1)]);
    assert!(matches!(
        rewrite_cast_predicate_for_inlist(&schema, &answers, cast_expr, &list, false),
        Step::Failed(ExprError::UnknownColumn { index: 9 })
    ));
    assert!(matches!(
        supports_cast_predicate_for_inlist(&schema, &answers, cast_expr, &list),
        Step::Done(false)
    ));

    // AND does not take integers.
    let mixed = and(col("i", &schema), lit_bool(Some(true)));
    assert!(matches!(
        mixed.data_type(&schema),
        Err(ExprError::IncompatibleTypes { op: Operator::And })
    ));
    assert!(matches!(
        eq(unknown, lit_i64(1)).data_type(&schema),
        Err(ExprError::UnknownColumn { index: 9 })
    ));
}

#[test]
fn what_is_no_cast_of_a_literal_is_not_rewritten() {
    let schema = int_schema();
    let answers = Answers::new();
    let column = col("i", &schema);
    let cast_expr = cast(column.clone(), DataType::Int64);
    let literal = lit_i64(1);
    let list = ExprList::from_vec(vec![literal.clone(), column.clone()]);
    assert!(matches!(
        rewrite_cast_predicate_for_binary(&schema, &answers, &column, &literal, Operator::Eq),
        Step::Failed(ExprError::ExpectedCast)
    ));
    assert!(matches!(
        rewrite_cast_predicate_for_binary(&schema, &answers, &cast_expr, &column, Operator::Eq),
        Step::Failed(ExprError::ExpectedLiteral)
    ));
    assert!(matches!(
        rewrite_cast_predicate_for_inlist(&schema, &answers, &column, &list, false),
        Step::Failed(ExprError::ExpectedCast)
    ));
    assert!(matches!(
        drive(|answers| rewrite_cast_predicate_for_inlist(&schema, answers, &cast_expr, &list, false)),
        Err(ExprError::ExpectedLiteral)
    ));
    for (expr, op, other) in [
        (&column, Operator::Eq, &literal),
        (&cast_expr, Operator::Eq, &column),
        (&cast_expr, Operator::Plus, &literal),
        (&cast_expr, Operator::RegexMatch, &literal),
    ] {
        assert!(matches!(
            supports_cast_predicate_for_binary(&schema, &answers, expr, op, other),
            Step::Done(false)
        ));
    }
    assert!(matches!(
        supports_cast_predicate_for_inlist(&schema, &answers, &column, &list),
        Step::Done(false)
    ));
    let supported =
        drive(|answers| supports_cast_predicate_for_inlist(&schema, answers, &cast_expr, &list));
    assert!(!supported.unwrap());
}

#[test]
fn a_predicate_without_a_preimage_is_not_rewritten() {
    let schema = expr_test_schema();
    let cast_expr = cast(col("c2", &schema), DataType::Int32);
    let literal = lit_i32(5);
    let rewritten = drive(|answers| {
        rewrite_cast_predicate_for_binary(&schema, answers, &cast_expr, &literal, Operator::Eq)
    });
    assert!(matches!(rewritten, Err(ExprError::NoPreimage)));
    let list = ExprList::from_vec(vec![literal]);
    let rewritten =
        drive(|answers| rewrite_cast_predicate_for_inlist(&schema, answers, &cast_expr, &list, true));
    assert!(matches!(rewritten, Err(ExprError::NoPreimage)));
}

#[test]
fn a_range_is_for_comparisons_only() {
    let schema = int_schema();
    let cast_expr = cast(col("i", &schema), DataType::Int64);
    let mut answers = Answers::new();
    let range = || PreimageAnswer::Range {
        lower: ScalarValue::Int32(Some(1)),
        upper: ScalarValue::Int32(Some(3)),
    };
    answers.preimages.insert(widened(Operator::LikeMatch, 1), range());
    answers.preimages.insert(widened(Operator::Eq, 1), range());
    assert!(matches!(
        rewrite_cast_predicate_for_binary(
            &schema,
            &answers,
            &cast_expr,
            &lit_i64(1),
            Operator::LikeMatch
        ),
        Step::Failed(ExprError::ExpectedComparison)
    ));
    match rewrite_cast_predicate_for_binary(&schema, &answers, &cast_expr, &lit_i64(1), Operator::Eq) {
        Step::Done(result) => assert_same(
            &result.data,
            &and(
                gt_eq(col("i", &schema), lit_i32(1)),
                lt(col("i", &schema), lit_i32(3)),
            ),
        ),
        other => panic!("expected a result, got: {other:?}"),
    }
}

#[test]
fn an_empty_list_needs_no_answers() {
    let schema = int_schema();
    let answers = Answers::new();
    let cast_expr = cast(col("i", &schema), DataType::Int64);
    let list = ExprList::from_vec(vec![]);
    assert!(matches!(
        supports_cast_predicate_for_inlist(&schema, &answers, &cast_expr, &list),
        Step::Done(true)
    ));
    match rewrite_cast_predicate_for_inlist(&schema, &answers, &cast_expr, &list, true) {
        Step::Done(result) => {
            assert_same(&result.data, &in_list(col("i", &schema), vec![], true))
        }
        other => panic!("expected a result, got: {other:?}"),
    }
}

// The parts.

#[test]
fn a_range_is_written_for_each_comparison() {
    let schema = int_schema();
    let column = || col("i", &schema);
    let (lower, upper) = (ScalarValue::Int32(Some(-3)), ScalarValue::Int32(Some(4)));
    let from_lower = || gt_eq(column(), lit_i32(-3));
    let below_lower = || lt(column(), lit_i32(-3));
    let from_upper = || gt_eq(column(), lit_i32(4));
    let below_upper = || lt(column(), lit_i32(4));
    for (op, expected) in [
        (Operator::Lt, below_lower()),
        (Operator::LtEq, below_upper()),
        (Operator::Gt, from_upper()),
        (Operator::GtEq, from_lower()),
        (Operator::Eq, and(from_lower(), below_upper())),
        (Operator::NotEq, or(below_lower(), from_upper())),
        (
            Operator::IsNotDistinctFrom,
            and(
                and(query_core::expr::is_not_null(column()), from_lower()),
                below_upper(),
            ),
        ),
        (
            Operator::IsDistinctFrom,
            or(
                or(below_lower(), from_upper()),
                query_core::expr::is_null(column()),
            ),
        ),
    ] {
        let result = rewrite_with_preimage(lower.clone(), upper.clone(), op, column());
        assert_same(&result, &expected);
    }
}

#[test]
fn a_range_gives_what_the_cast_gave() {
    // For every comparison and on both sides of every bound, null included.
    let schema = Schema::new(vec![Field::new("ts", timestamp_nano_type(), true)]);
    let bounds = [-2_000_001, -2_000_000, -1_999_999, -1_000_000, -999_999, -1, 0, 999_999, 1_000_000];
    let values = TimestampNanosecondArray::from_iter(bounds.into_iter().map(Some).chain([None]));
    let batch = batch_of(&schema, Arc::new(values));
    for op in [
        Operator::Eq,
        Operator::NotEq,
        Operator::Lt,
        Operator::LtEq,
        Operator::Gt,
        Operator::GtEq,
        Operator::IsDistinctFrom,
        Operator::IsNotDistinctFrom,
    ] {
        for literal in [-2, -1, 0, 1] {
            let cast_expr = cast(col("ts", &schema), timestamp_millis_type());
            for original in [
                binary(cast_expr.clone(), op, lit_timestamp_millis(literal)),
                binary(lit_timestamp_millis(literal), op, cast_expr),
            ] {
                let name = format!("{op:?} {literal}");
                let simplified =
                    assert_cast_predicate_equivalent(&name, &schema, &batch, original);
                assert!(!contains_cast(&simplified));
            }
        }
    }
}

#[test]
fn the_predicates_over_a_range_divide_the_values() {
    let schema = Schema::new(vec![Field::new("i", DataType::Int32, true)]);
    let values = Int32Array::from_iter((-5..8).map(Some).chain([None]));
    let batch = batch_of(&schema, Arc::new(values));
    for (lower, upper) in [(-3, 4), (2, 2), (-5, 7)] {
        let holds = |op| {
            let (lower, upper) = (ScalarValue::Int32(Some(lower)), ScalarValue::Int32(Some(upper)));
            let predicate = rewrite_with_preimage(lower, upper, op, col("i", &schema));
            let results = evaluate(&predicate, &batch).unwrap();
            let results = results.as_boolean();
            (0..results.len())
                .map(|row| results.is_valid(row).then_some(results.value(row)))
                .collect::<Vec<_>>()
        };
        let (less, equal, more) = (holds(Operator::Lt), holds(Operator::Eq), holds(Operator::Gt));
        let (at_most, at_least) = (holds(Operator::LtEq), holds(Operator::GtEq));
        let not_equal = holds(Operator::NotEq);
        let (distinct, same) = (holds(Operator::IsDistinctFrom), holds(Operator::IsNotDistinctFrom));
        let null = batch.num_rows() - 1;
        for row in 0..null {
            let decided = [less[row], equal[row], more[row]].map(|result| result.unwrap());
            assert_eq!(decided.iter().filter(|result| **result).count(), 1, "row {row}");
            assert_eq!(at_most[row], Some(decided[0] || decided[1]));
            assert_eq!(at_least[row], Some(decided[2] || decided[1]));
            assert_eq!(not_equal[row], Some(!decided[1]));
            assert_eq!(distinct[row], Some(!same[row].unwrap()));
        }
        assert_eq!(less[null], None);
        assert_eq!((distinct[null], same[null]), (Some(true), Some(false)));
    }
}

#[test]
fn only_plain_casts_are_looked_through() {
    let schema = int_schema();
    let column = || col("i", &schema);
    let info = extract_cast_info(&cast(column(), DataType::Int64)).unwrap();
    assert!(info.0.same(&column()));
    assert_eq!(info.1, DataType::Int64);
    let named = Field::new("named", DataType::Int64, false);
    let tried = Arc::new(Expr::TryCast { expr: column(), target_field: named.clone() });
    assert_eq!(extract_cast_info(&tried).unwrap().1, DataType::Int64);
    let special = cast_to_field(column(), named, default_options());
    assert!(extract_cast_info(&special).is_none());
    assert!(extract_cast_info(&column()).is_none());
    // Where the target alone counts, any cast has an input.
    assert_eq!(cast_input_and_type(&special).unwrap().1, DataType::Int64);
    assert!(cast_input_and_type(&tried).unwrap().0.same(&column()));
    assert!(cast_input_and_type(&column()).is_none());
    assert!(default_options().is_default());
    assert!(!CastOptions { safe: true, ..default_options() }.is_default());
    assert!(default_options().same_options().is_default());
}

#[test]
fn comparisons_that_are_not_supported_are_left_alone() {
    let schema = int_schema();
    let answers = Answers::new();
    let cast_expr = cast(col("i", &schema), DataType::Int64);
    for op in [Operator::Plus, Operator::And, Operator::RegexMatch, Operator::LikeMatch] {
        assert!(!is_supported_comparison_operator(op));
        assert!(matches!(
            try_unwrap_cast_binary(&cast_expr, op, &lit_i64(1), &schema, &answers),
            Step::Done(None)
        ));
    }
    // Two columns, and two casts.
    assert!(matches!(
        try_unwrap_cast_binary(&cast_expr, Operator::Eq, &cast_expr, &schema, &answers),
        Step::Done(None)
    ));
    assert!(matches!(
        try_unwrap_cast_binary(&lit_i64(1), Operator::Eq, &lit_i64(1), &schema, &answers),
        Step::Done(None)
    ));
    assert!(matches!(
        try_unwrap_cast_comparison(
            col("i", &schema),
            &DataType::Int64,
            &ScalarValue::Int64(Some(1)),
            Operator::Eq,
            &schema,
            &answers
        ),
        Step::Ask(Question::Preimage(_))
    ));
}

#[test]
fn negations_move_inwards() {
    let schema = not_test_schema();
    let (a, b, c) = (|| col("a", &schema), || col("b", &schema), || col("c", &schema));
    for (arg, expected) in [
        (lit_bool(None), lit_bool(None)),
        (lt(c(), lit_i32(1)), gt_eq(c(), lit_i32(1))),
        (
            binary(a(), Operator::IsDistinctFrom, b()),
            binary(a(), Operator::IsNotDistinctFrom, b()),
        ),
        (
            binary(a(), Operator::LikeMatch, b()),
            binary(a(), Operator::NotLikeMatch, b()),
        ),
        (
            binary(a(), Operator::RegexNotIMatch, b()),
            binary(a(), Operator::RegexIMatch, b()),
        ),
        (and(a(), b()), or(negate(a()), negate(b()))),
        (or(a(), b()), and(negate(a()), negate(b()))),
    ] {
        let result = simplify_not_expr(negate(arg));
        assert!(result.transformed);
        assert_same(&result.data, &expected);
    }
    for kept in [
        a(),
        negate(a()),
        negate(lit_i32(1)),
        negate(binary(a(), Operator::BitwiseAnd, b())),
        negate(query_core::expr::is_null(a())),
        and(a(), b()),
    ] {
        let result = simplify_not_expr(kept.clone());
        assert!(!result.transformed);
        assert_same(&result.data, &kept);
    }
}

#[test]
fn constants_have_literal_operands_and_are_not_volatile() {
    let schema = int_schema();
    let other = |children, volatile| {
        Arc::new(Expr::Other {
            id: 1,
            children: ExprList::from_vec(children),
            data_type: DataType::Int32,
            volatile,
        })
    };
    for constant in [
        binary(lit_i32(1), Operator::Plus, lit_i32(2)),
        cast(lit_i32(1), DataType::Int64),
        try_cast(lit_i32(1), DataType::Int64),
        negate(lit_bool(Some(true))),
        query_core::expr::is_null(lit_i32(1)),
        query_core::expr::is_not_null(lit_i32(1)),
        in_list(lit_i32(1), vec![lit_i32(1), lit_i32(2)], false),
        other(vec![lit_i32(1)], false),
    ] {
        assert!(is_constant(&constant), "{constant:?}");
    }
    for varying in [
        col("i", &schema),
        lit_i32(1),
        binary(col("i", &schema), Operator::Plus, lit_i32(2)),
        cast(col("i", &schema), DataType::Int64),
        in_list(lit_i32(1), vec![lit_i32(1), col("i", &schema)], false),
        in_list(col("i", &schema), vec![lit_i32(1)], false),
        other(vec![], false),
        other(vec![lit_i32(1)], true),
        other(vec![col("i", &schema)], false),
    ] {
        assert!(!is_constant(&varying), "{varying:?}");
    }
}

#[test]
fn constants_that_cannot_be_evaluated_stay() {
    let expr = binary(lit_i32(1), Operator::Divide, lit_i32(0));
    assert_same(&simplify(&Schema::empty(), &expr), &expr);
    let volatile = Arc::new(Expr::Other {
        id: 3,
        children: ExprList::from_vec(vec![binary(lit_i32(1), Operator::Plus, lit_i32(1))]),
        data_type: DataType::Int32,
        volatile: true,
    });
    let expected = Arc::new(Expr::Other {
        id: 3,
        children: ExprList::from_vec(vec![lit_i32(2)]),
        data_type: DataType::Int32,
        volatile: true,
    });
    assert_same(&simplify(&Schema::empty(), &volatile), &expected);
}

#[test]
fn operands_of_every_expression_are_simplified() {
    let schema = Schema::new(vec![Field::new("i", DataType::Int32, true)]);
    let sum = || binary(lit_i32(1), Operator::Plus, lit_i32(2));
    let times = |expr| binary(col("i", &schema), Operator::Multiply, expr);
    for (expr, expected) in [
        (
            cast(times(sum()), DataType::Int64),
            cast(times(lit_i32(3)), DataType::Int64),
        ),
        (
            try_cast(times(sum()), DataType::Int64),
            try_cast(times(lit_i32(3)), DataType::Int64),
        ),
        (
            query_core::expr::is_null(times(sum())),
            query_core::expr::is_null(times(lit_i32(3))),
        ),
        (
            query_core::expr::is_not_null(times(sum())),
            query_core::expr::is_not_null(times(lit_i32(3))),
        ),
        (
            in_list(times(sum()), vec![sum(), lit_i32(5)], true),
            in_list(times(lit_i32(3)), vec![lit_i32(3), lit_i32(5)], true),
        ),
        (
            negate(query_core::expr::is_null(times(sum()))),
            negate(query_core::expr::is_null(times(lit_i32(3)))),
        ),
    ] {
        assert_same(&simplify(&schema, &expr), &expected);
        // What is simplified stays as it is.
        assert_same(&simplify(&schema, &expected), &expected);
    }
}

#[test]
fn an_expression_is_gone_through_a_limited_number_of_times() {
    // A negation moves one AND further inwards each time.
    let schema = not_test_schema();
    let a = || col("a", &schema);
    let mut expr = a();
    for _ in 0..7 {
        expr = and(expr, a());
    }
    let once = simplify(&schema, &negate(expr.clone()));
    let mut expected = negate(and(and(a(), a()), a()));
    for _ in 0..5 {
        expected = or(expected, negate(a()));
    }
    assert_same(&once, &expected);
    // Another time finishes it.
    let mut expected = negate(a());
    for _ in 0..7 {
        expected = or(expected, negate(a()));
    }
    assert_same(&simplify(&schema, &once), &expected);
}

#[test]
fn expressions_keep_their_type() {
    let schema = test_schema();
    let c1 = || col("c1", &schema);
    for expr in [
        gt(cast(c1(), DataType::Int64), lit_i64(5)),
        negate(and(eq(c1(), lit_i32(1)), gt(c1(), lit_i32(2)))),
        binary(binary(lit_i32(1), Operator::Plus, lit_i32(2)), Operator::Plus, c1()),
        cast(binary(lit_i32(1), Operator::Plus, lit_i32(2)), DataType::Utf8),
    ] {
        let simplified = simplify(&schema, &expr);
        assert!(!simplified.same(&expr));
        assert_eq!(
            simplified.data_type(&schema).unwrap(),
            expr.data_type(&schema).unwrap()
        );
    }
}

#[test]
fn double_negations_keep_the_type_of_booleans() {
    let schema = not_test_schema();
    let null = || {
        Arc::new(Expr::Other {
            id: 1,
            children: ExprList::from_vec(vec![]),
            data_type: DataType::Null,
            volatile: false,
        })
    };
    let boolean = || col("a", &schema);
    assert!(do_booleans_agree(&DataType::Null));
    assert!(!do_booleans_agree(&DataType::Int32));
    for expr in [
        negate(negate(boolean())),
        negate(null()),
        negate(negate(negate(null()))),
        negate(col("c", &schema)),
        and(boolean(), null()),
        or(null(), null()),
        negate(and(negate(col("b", &schema)), null())),
        negate(or(negate(col("a", &schema)), negate(eq(col("c", &schema), lit_i32(1))))),
        in_list(negate(negate(boolean())), vec![lit_bool(None)], true),
    ] {
        assert!(is_well_typed(&expr, &DataType::Null, &schema), "{expr:?}");
        let simplified = simplify(&schema, &expr);
        assert_eq!(
            simplified.data_type(&schema).unwrap(),
            expr.data_type(&schema).unwrap(),
            "{expr:?}"
        );
        assert!(is_well_typed(&simplified, &DataType::Null, &schema));
    }
    for expr in [
        negate(negate(null())),
        query_core::expr::is_null(negate(negate(null()))),
        and(negate(col("c", &schema)), boolean()),
        eq(col("a", &schema), Arc::new(Expr::Column { index: 9 })),
        binary(col("a", &schema), Operator::Plus, col("b", &schema)),
    ] {
        assert!(!is_well_typed(&expr, &DataType::Null, &schema), "{expr:?}");
    }
    // The type of a double negation is not kept where it is not of a Boolean.
    let twice = negate(negate(null()));
    assert_eq!(twice.data_type(&schema).unwrap(), DataType::Boolean);
    assert_eq!(simplify(&schema, &twice).data_type(&schema).unwrap(), DataType::Null);
}

#[test]
fn answers_are_of_the_types_that_are_compared() {
    let number = |value| ScalarValue::Int32(Some(value));
    let text = || ScalarValue::Binary(Some(vec![1]));
    for (answer, typed) in [
        (PreimageAnswer::Unknown, true),
        (PreimageAnswer::Failed, true),
        (PreimageAnswer::Exact(number(1)), true),
        (PreimageAnswer::Exact(text()), false),
        (PreimageAnswer::Range { lower: number(1), upper: number(2) }, true),
        (PreimageAnswer::Range { lower: number(1), upper: text() }, false),
        (PreimageAnswer::Range { lower: text(), upper: number(2) }, false),
    ] {
        assert_eq!(is_typed_preimage(&widened(Operator::Eq, 1), &answer), typed, "{answer:?}");
    }
    assert!(is_typed_literal(&ScalarValue::Boolean(None)));
    assert!(is_typed_literal(&ScalarValue::Null));
}

fn list_of(item: DataType) -> DataType {
    DataType::new_list(item, true)
}

fn dictionary_of(key: DataType, value: DataType) -> DataType {
    DataType::Dictionary(Box::new(key), Box::new(value))
}

#[test]
fn operands_out_of_range_have_no_result() {
    let decimal = DataType::Decimal256;
    let fixed = DataType::FixedSizeBinary;
    let named = |names: &[&str]| {
        let fields = names.iter().map(|name| Field::new(*name, DataType::Int32, true));
        DataType::Struct(fields.collect())
    };
    let boolean = Some(DataType::Boolean);
    for (left, op, right, expected) in [
        (DataType::Int32, Operator::Eq, DataType::Int64, boolean.clone()),
        (DataType::Int32, Operator::Plus, DataType::Int64, Some(DataType::Int64)),
        (DataType::Null, Operator::And, DataType::Boolean, boolean.clone()),
        (DataType::Int32, Operator::And, DataType::Boolean, None),
        (decimal(76, 0), Operator::Lt, decimal(76, 50), boolean.clone()),
        (decimal(76, 0), Operator::Lt, decimal(76, 76), None),
        (decimal(76, -76), Operator::Eq, decimal(76, -75), None),
        (decimal(40, -20), Operator::Eq, DataType::Float64, boolean.clone()),
        (DataType::Decimal128(38, 10), Operator::Eq, DataType::Int64, boolean.clone()),
        (
            DataType::Decimal128(10, 2),
            Operator::Plus,
            DataType::Decimal128(10, 4),
            Some(DataType::Decimal128(13, 4)),
        ),
        (decimal(200, 0), Operator::Plus, DataType::Int32, None),
        (DataType::Decimal32(9, 107), Operator::Divide, DataType::Decimal32(9, -51), None),
        (decimal(76, 107), Operator::Minus, decimal(20, 0), None),
        (list_of(decimal(76, 0)), Operator::Eq, list_of(decimal(76, 2)), boolean.clone()),
        (list_of(decimal(76, 0)), Operator::Eq, list_of(decimal(76, 76)), None),
        (
            dictionary_of(DataType::Int8, decimal(76, 0)),
            Operator::Eq,
            dictionary_of(DataType::Int8, decimal(76, 76)),
            None,
        ),
        (
            dictionary_of(DataType::Int8, DataType::Int32),
            Operator::Plus,
            DataType::Int32,
            Some(DataType::Int32),
        ),
        (dictionary_of(DataType::Utf8, DataType::Int32), Operator::Plus, DataType::Int32, None),
        (fixed(2), Operator::StringConcat, fixed(3), Some(fixed(5))),
        (fixed(i32::MAX), Operator::StringConcat, fixed(1), None),
        (fixed(-1), Operator::StringConcat, fixed(1), Some(fixed(0))),
        (fixed(i32::MIN), Operator::StringConcat, fixed(-1), None),
        (DataType::Null, Operator::StringConcat, fixed(3), Some(fixed(6))),
        (DataType::Null, Operator::StringConcat, fixed(0x4000_0000), None),
        (fixed(0x4000_0000), Operator::StringConcat, DataType::Null, None),
        (fixed(0x4000_0000), Operator::Eq, fixed(0x4000_0000), boolean.clone()),
        (fixed(0x4000_0000), Operator::Lt, DataType::Binary, boolean.clone()),
        (decimal(76, -60), Operator::Eq, decimal(76, -60), boolean.clone()),
        (decimal(76, -60), Operator::IsDistinctFrom, DataType::Null, boolean.clone()),
        (DataType::Null, Operator::GtEq, decimal(76, -60), boolean.clone()),
        (decimal(76, -60), Operator::Plus, decimal(76, -60), None),
        (decimal(76, -60), Operator::Plus, DataType::Null, None),
        (named(&["a", "a"]), Operator::NotEq, named(&["a", "a"]), boolean.clone()),
        (decimal(76, -76), Operator::Or, decimal(76, -75), None),
        (decimal(76, -76), Operator::LikeMatch, DataType::Utf8, None),
        (named(&["a", "b"]), Operator::Eq, named(&["b", "c"]), boolean.clone()),
        (named(&["a", "a"]), Operator::Eq, named(&["b", "c"]), None),
        (list_of(DataType::Int32), Operator::Plus, list_of(DataType::Int32), None),
        (
            DataType::Time32(TimeUnit::Nanosecond),
            Operator::Minus,
            DataType::Time32(TimeUnit::Second),
            None,
        ),
        (DataType::Null, Operator::Plus, DataType::Null, Some(DataType::Int64)),
    ] {
        assert_eq!(binary_result_type(&left, op, &right), expected, "{left} {op} {right}");
    }
    let schema = Schema::new(vec![
        Field::new("whole", decimal(76, 0), true),
        Field::new("part", decimal(76, 76), true),
        Field::new("large", decimal(76, -60), true),
    ]);
    // A cast over a comparison of one type with itself can be removed.
    let same = eq(col("large", &schema), col("large", &schema));
    let cast_expr = eq(cast(same.clone(), DataType::Boolean), lit_bool(Some(true)));
    assert_same(&simplify(&schema, &cast_expr), &eq(same, lit_bool(Some(true))));
    assert!(matches!(
        eq(col("whole", &schema), col("part", &schema)).data_type(&schema),
        Err(ExprError::IncompatibleTypes { op: Operator::Eq })
    ));
}

#[test]
fn expressions_have_types() {
    let schema = int_schema();
    let column = || col("i", &schema);
    let other = Arc::new(Expr::Other {
        id: 1,
        children: ExprList::from_vec(vec![]),
        data_type: DataType::Date32,
        volatile: false,
    });
    for (expr, data_type) in [
        (column(), DataType::Int32),
        (col("s", &schema), DataType::Utf8),
        (lit_i64(1), DataType::Int64),
        (eq(column(), lit_i64(1)), DataType::Boolean),
        (binary(column(), Operator::Plus, lit_i64(1)), DataType::Int64),
        (binary(col("s", &schema), Operator::LikeMatch, lit_str("a%")), DataType::Boolean),
        (cast(column(), DataType::Float64), DataType::Float64),
        (try_cast(column(), DataType::Int8), DataType::Int8),
        (negate(lit_bool(None)), DataType::Boolean),
        (query_core::expr::is_null(column()), DataType::Boolean),
        (query_core::expr::is_not_null(column()), DataType::Boolean),
        (in_list(column(), vec![lit_i32(1)], false), DataType::Boolean),
        (other, DataType::Date32),
    ] {
        assert_eq!(expr.data_type(&schema).unwrap(), data_type);
    }
}

#[test]
fn expressions_are_told_apart() {
    let schema = int_schema();
    let column = || col("i", &schema);
    let other = |id, data_type, volatile| {
        Arc::new(Expr::Other {
            id,
            children: ExprList::from_vec(vec![lit_i32(1)]),
            data_type,
            volatile,
        })
    };
    let expressions = [
        column(),
        col("s", &schema),
        lit_i32(1),
        lit_i64(1),
        lit(ScalarValue::Int32(None)),
        lit_timestamp_millis(1),
        lit_in_zone(1, "+00:00"),
        lit_in_zone(1, "+02:00"),
        lit(ScalarValue::FixedSizeBinary(2, None)),
        lit(ScalarValue::FixedSizeBinary(3, None)),
        eq(column(), lit_i32(1)),
        eq(lit_i32(1), column()),
        gt(column(), lit_i32(1)),
        cast(column(), DataType::Int64),
        cast(column(), DataType::Int8),
        cast_to_field(column(), Field::new("n", DataType::Int64, true), default_options()),
        cast_to_field(
            column(),
            Field::new("", DataType::Int64, true),
            CastOptions { safe: true, ..default_options() },
        ),
        cast_to_field(
            column(),
            Field::new("", DataType::Int64, true),
            CastOptions { safe: false, format_options: DEFAULT_FORMAT_OPTIONS.with_null("NULL") },
        ),
        try_cast(column(), DataType::Int64),
        try_cast(column(), DataType::Int8),
        negate(column()),
        negate(negate(column())),
        query_core::expr::is_null(column()),
        query_core::expr::is_not_null(column()),
        in_list(column(), vec![], false),
        in_list(column(), vec![], true),
        in_list(column(), vec![lit_i32(1)], false),
        in_list(column(), vec![lit_i32(1), lit_i32(2)], false),
        other(1, DataType::Int32, false),
        other(2, DataType::Int32, false),
        other(1, DataType::Int64, false),
        other(1, DataType::Int32, true),
    ];
    for (i, left) in expressions.iter().enumerate() {
        for (j, right) in expressions.iter().enumerate() {
            assert_eq!(left.same(right), i == j, "{left:?} {right:?}");
        }
    }
}

#[test]
fn lists_keep_the_order_of_their_expressions() {
    let items = vec![lit_i32(3), lit_i32(1), lit_i32(2)];
    let list = ExprList::from_vec(items.clone());
    let back = list.to_vec();
    assert_eq!(back.len(), 3);
    for (item, back) in items.iter().zip(back.iter()) {
        assert_same(back, item);
    }
    assert!(ExprList::from_vec(vec![]).to_vec().is_empty());
}

#[test]
fn operators_are_swapped_and_negated_as_the_engine_does() {
    // For each comparison: what it gives on 1 and 2, swapped on 2 and 1, and negated.
    let schema = Schema::empty();
    for op in [
        Operator::Eq,
        Operator::NotEq,
        Operator::Lt,
        Operator::LtEq,
        Operator::Gt,
        Operator::GtEq,
        Operator::IsDistinctFrom,
        Operator::IsNotDistinctFrom,
    ] {
        for (left, right) in [(1, 2), (2, 1), (1, 1)] {
            let value = |op, left, right| {
                let result = simplify(&schema, &binary(lit_i32(left), op, lit_i32(right)));
                match as_literal(&result) {
                    ScalarValue::Boolean(Some(value)) => *value,
                    other => panic!("expected a Boolean, got: {other:?}"),
                }
            };
            let given = value(op, left, right);
            assert_eq!(value(op.swap().unwrap(), right, left), given);
            assert_eq!(value(op.negate().unwrap(), left, right), !given);
        }
    }
}
