use runar_macros::convert::{convert, Arg, ConversionError, Number, TypeTag};
use runar_macros::extract::{extract, value_or, ExtractionError, ParameterSpec};
use runar_macros::value::{lookup, Value, ValueKind};

fn param(name: &str, tag: TypeTag) -> ParameterSpec {
    ParameterSpec { name: name.to_string(), tag }
}

fn dict(entries: Vec<(&str, Value)>) -> Value {
    Value::Dict(entries.into_iter().map(|(k, v)| (k.to_string(), v)).collect())
}

#[test]
fn int32_in_range_and_overflow() {
    assert_eq!(convert(&Value::Int(-5), TypeTag::Int32), Ok(Arg::Int32(-5)));
    assert_eq!(convert(&Value::Int(i32::MAX as i64), TypeTag::Int32), Ok(Arg::Int32(i32::MAX)));
    assert_eq!(
        convert(&Value::Int(i32::MAX as i64 + 1), TypeTag::Int32),
        Err(ConversionError::Overflow { expected: TypeTag::Int32 })
    );
    assert_eq!(
        convert(&Value::Int(i32::MIN as i64 - 1), TypeTag::Int32),
        Err(ConversionError::Overflow { expected: TypeTag::Int32 })
    );
}

#[test]
fn int64_and_float_rules() {
    assert_eq!(convert(&Value::Int(i64::MIN), TypeTag::Int64), Ok(Arg::Int64(i64::MIN)));
    assert_eq!(
        convert(&Value::Float(1.5f64.to_bits()), TypeTag::Int64),
        Err(ConversionError::TypeMismatch { expected: TypeTag::Int64, actual: ValueKind::Float })
    );
    assert_eq!(convert(&Value::Int(4), TypeTag::Float64), Ok(Arg::Float64(Number::Int(4))));
    assert_eq!(
        convert(&Value::Float(0.25f64.to_bits()), TypeTag::Float64),
        Ok(Arg::Float64(Number::Float(0.25f64.to_bits())))
    );
}

#[test]
fn bool_and_string_are_not_coerced() {
    assert_eq!(convert(&Value::Bool(true), TypeTag::Bool), Ok(Arg::Bool(true)));
    assert_eq!(
        convert(&Value::Int(1), TypeTag::Bool),
        Err(ConversionError::TypeMismatch { expected: TypeTag::Bool, actual: ValueKind::Int })
    );
    assert_eq!(convert(&Value::Str("x".to_string()), TypeTag::Str), Ok(Arg::Str("x".to_string())));
    assert_eq!(
        convert(&Value::Int(7), TypeTag::Str),
        Err(ConversionError::TypeMismatch { expected: TypeTag::Str, actual: ValueKind::Int })
    );
}

#[test]
fn struct_conversion() {
    let nested = dict(vec![("x", Value::Int(1)), ("tags", Value::List(vec![Value::Null]))]);
    assert_eq!(convert(&nested, TypeTag::Struct(3)), Ok(Arg::Struct(3, nested.duplicate())));
    let tagged = Value::Struct(3, vec![1, 2]);
    assert_eq!(convert(&tagged, TypeTag::Struct(3)), Ok(Arg::Struct(3, Value::Struct(3, vec![1, 2]))));
    assert_eq!(
        convert(&Value::Struct(4, vec![]), TypeTag::Struct(3)),
        Err(ConversionError::Deserialize { type_id: 3, found: ValueKind::Struct })
    );
    assert_eq!(
        convert(&Value::Bytes(vec![0]), TypeTag::Struct(3)),
        Err(ConversionError::Deserialize { type_id: 3, found: ValueKind::Bytes })
    );
}

#[test]
fn into_value_encodes_each_argument() {
    assert_eq!(Arg::Int64(-2).into_value(), Value::Int(-2));
    assert_eq!(Arg::Float64(Number::Int(3)).into_value(), Value::Int(3));
    assert_eq!(Arg::Bool(false).into_value(), Value::Bool(false));
    assert_eq!(Arg::Str("s".to_string()).into_value(), Value::Str("s".to_string()));
    assert_eq!(Arg::Struct(1, Value::Null).into_value(), Value::Null);
}

#[test]
fn duplicate_is_a_deep_copy() {
    let v = dict(vec![("a", Value::List(vec![Value::Int(1), Value::Bytes(vec![9])])), ("b", Value::Null)]);
    assert_eq!(v.duplicate(), v);
}

#[test]
fn lookup_takes_first_entry() {
    let entries = vec![("k".to_string(), Value::Int(1)), ("k".to_string(), Value::Int(2))];
    assert_eq!(lookup(&entries, &"k".to_string()), Some(&Value::Int(1)));
    assert_eq!(lookup(&entries, &"z".to_string()), None);
}

#[test]
fn extract_without_parameters_ignores_payload() {
    assert_eq!(extract(&vec![], &Value::Int(3)), Ok(vec![]));
}

#[test]
fn extract_several_parameters_in_declared_order() {
    let params = vec![param("n", TypeTag::Int32), param("s", TypeTag::Str), param("f", TypeTag::Bool)];
    let payload = dict(vec![("f", Value::Bool(true)), ("s", Value::Str("t".to_string())), ("n", Value::Int(4))]);
    assert_eq!(
        extract(&params, &payload),
        Ok(vec![Arg::Int32(4), Arg::Str("t".to_string()), Arg::Bool(true)])
    );
}

#[test]
fn extract_stops_at_first_failure() {
    let params = vec![param("a", TypeTag::Int32), param("b", TypeTag::Int32)];
    let payload = dict(vec![("a", Value::Int(1i64 << 40))]);
    let err = extract(&params, &payload).unwrap_err();
    assert_eq!(
        err,
        ExtractionError::Conversion {
            name: "a".to_string(),
            error: ConversionError::Overflow { expected: TypeTag::Int32 }
        }
    );
    assert_eq!(err.message(), "parameter a: value out of range for Int32");
}

#[test]
fn extract_missing_parameter() {
    let params = vec![param("a", TypeTag::Int64), param("b", TypeTag::Int64)];
    let err = extract(&params, &dict(vec![("a", Value::Int(1))])).unwrap_err();
    assert_eq!(err, ExtractionError::MissingParameter("b".to_string()));
}

#[test]
fn extract_single_parameter_from_map_without_its_key() {
    let params = vec![param("x", TypeTag::Int64)];
    let err = extract(&params, &dict(vec![("y", Value::Int(1))])).unwrap_err();
    assert_eq!(err, ExtractionError::MissingParameter("x".to_string()));
    let bare = extract(&params, &Value::Bool(true)).unwrap_err();
    assert_eq!(
        bare,
        ExtractionError::TypeMismatch { name: "x".to_string(), expected: TypeTag::Int64, actual: ValueKind::Bool }
    );
    assert_eq!(bare.message(), "parameter x: expected Int64, found bool");
}

#[test]
fn extract_single_struct_parameter_takes_whole_map() {
    let params = vec![param("p", TypeTag::Struct(8))];
    let payload = dict(vec![("p", Value::Int(1))]);
    assert_eq!(extract(&params, &payload), Ok(vec![Arg::Struct(8, payload.duplicate())]));
}

#[test]
fn extract_not_a_map() {
    let params = vec![param("a", TypeTag::Int64), param("b", TypeTag::Int64)];
    let err = extract(&params, &Value::List(vec![])).unwrap_err();
    assert_eq!(err, ExtractionError::NotAMap { actual: ValueKind::List });
    assert_eq!(err.message(), "expected a map of named parameters, found list");
}

#[test]
fn deserialize_error_message() {
    let params = vec![param("a", TypeTag::Struct(2)), param("b", TypeTag::Int64)];
    let err = extract(&params, &dict(vec![("a", Value::Int(1)), ("b", Value::Int(2))])).unwrap_err();
    assert_eq!(err.message(), "parameter a: cannot deserialize a structured value from int");
}

#[test]
fn value_or_reads_typed_entry_or_default() {
    let payload = dict(vec![("name", Value::Str("John".to_string())), ("age", Value::Int(30)), ("big", Value::Int(1i64 << 40))]);
    let key = |k: &str| k.to_string();
    assert_eq!(value_or(&payload, &key("name"), Arg::Str("Unknown".to_string())), Arg::Str("John".to_string()));
    assert_eq!(value_or(&payload, &key("age"), Arg::Int32(0)), Arg::Int32(30));
    assert_eq!(value_or(&payload, &key("age"), Arg::Float64(Number::Int(0))), Arg::Float64(Number::Int(30)));
    assert_eq!(value_or(&payload, &key("age"), Arg::Bool(false)), Arg::Bool(false));
    assert_eq!(value_or(&payload, &key("big"), Arg::Int32(-1)), Arg::Int32(-1));
    assert_eq!(value_or(&payload, &key("missing"), Arg::Int64(5)), Arg::Int64(5));
    assert_eq!(value_or(&Value::Int(3), &key("age"), Arg::Int64(5)), Arg::Int64(5));
    assert_eq!(Arg::Struct(4, Value::Null).tag(), TypeTag::Struct(4));
}
