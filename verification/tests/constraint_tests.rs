use table_routes::constraint::{ColumnDefaultConstraint, ConcreteDataType, Error, Value};

#[test]
fn test_null_default_constraint() {
    let constraint = ColumnDefaultConstraint::null_value();
    assert!(constraint.maybe_null());
    let constraint = ColumnDefaultConstraint::Value(Value::Int32(10));
    assert!(!constraint.maybe_null());
}

#[test]
fn test_validate_null_constraint() {
    let constraint = ColumnDefaultConstraint::null_value();
    let data_type = ConcreteDataType::int32_datatype();
    assert!(constraint.validate(&data_type, false).is_err());
    constraint.validate(&data_type, true).unwrap();
}

#[test]
fn test_validate_value_constraint() {
    let constraint = ColumnDefaultConstraint::Value(Value::Int32(10));
    let data_type = ConcreteDataType::int32_datatype();
    constraint.validate(&data_type, false).unwrap();
    constraint.validate(&data_type, true).unwrap();

    assert!(constraint
        .validate(&ConcreteDataType::uint32_datatype(), true)
        .is_err());
}

#[test]
fn test_validate_function_constraint() {
    let constraint = ColumnDefaultConstraint::Function("current_timestamp()".to_string());
    constraint
        .validate(&ConcreteDataType::timestamp_millisecond_datatype(), false)
        .unwrap();
    assert!(constraint
        .validate(&ConcreteDataType::boolean_datatype(), false)
        .is_err());

    let constraint = ColumnDefaultConstraint::Function("hello()".to_string());
    assert!(constraint
        .validate(&ConcreteDataType::timestamp_millisecond_datatype(), false)
        .is_err());
}

#[test]
fn test_create_default_vector_by_null() {
    let constraint = ColumnDefaultConstraint::null_value();
    let data_type = ConcreteDataType::int32_datatype();
    assert!(constraint
        .create_default_vector(&data_type, false, 10, 0)
        .is_err());

    let constraint = ColumnDefaultConstraint::null_value();
    let v = constraint
        .create_default_vector(&data_type, true, 3, 0)
        .unwrap();
    assert_eq!(3, v.len());
    for i in 0..v.len() {
        assert_eq!(Value::Null, v[i]);
    }
}

#[test]
fn test_create_default_vector_by_value() {
    let constraint = ColumnDefaultConstraint::Value(Value::Int32(10));
    let data_type = ConcreteDataType::int32_datatype();
    let v = constraint
        .create_default_vector(&data_type, false, 4, 0)
        .unwrap();
    let expect = vec![Value::Int32(10); 4];
    assert_eq!(expect, v);
}

#[test]
fn test_create_default_vector_by_func() {
    let constraint = ColumnDefaultConstraint::Function("current_timestamp()".to_string());
    // Timestamp type.
    let data_type = ConcreteDataType::timestamp_millisecond_datatype();
    let v = constraint
        .create_default_vector(&data_type, false, 4, 1234)
        .unwrap();
    assert_eq!(4, v.len());
    assert!(
        matches!(v[0], Value::Timestamp(_)),
        "v {:?} is not timestamp",
        v[0]
    );

    // Int64 type.
    let data_type = ConcreteDataType::int64_datatype();
    let v = constraint
        .create_default_vector(&data_type, false, 4, 1234)
        .unwrap();
    assert_eq!(4, v.len());
    assert!(
        matches!(v[0], Value::Int64(_)),
        "v {:?} is not timestamp",
        v[0]
    );

    let constraint = ColumnDefaultConstraint::Function("no".to_string());
    let data_type = ConcreteDataType::timestamp_millisecond_datatype();
    assert!(constraint
        .create_default_vector(&data_type, false, 4, 1234)
        .is_err());
}

#[test]
fn test_create_by_func_and_invalid_type() {
    let constraint = ColumnDefaultConstraint::Function("current_timestamp()".to_string());
    let data_type = ConcreteDataType::boolean_datatype();
    let err = constraint
        .create_default_vector(&data_type, false, 4, 0)
        .unwrap_err();
    assert!(matches!(err, Error::DefaultValueType { .. }), "{err:?}");
}

#[test]
fn test_constraint_error_variants() {
    let constraint = ColumnDefaultConstraint::null_value();
    let err = constraint
        .validate(&ConcreteDataType::int32_datatype(), false)
        .unwrap_err();
    assert!(matches!(err, Error::NullDefault));

    let constraint = ColumnDefaultConstraint::Function("hello()".to_string());
    let err = constraint
        .validate(&ConcreteDataType::timestamp_millisecond_datatype(), false)
        .unwrap_err();
    assert!(matches!(err, Error::UnsupportedDefaultExpr { .. }));

    let constraint = ColumnDefaultConstraint::Value(Value::Int32(10));
    let err = constraint
        .validate(&ConcreteDataType::int64_datatype(), false)
        .unwrap_err();
    assert!(matches!(err, Error::DefaultValueType { .. }));

    // A current-timestamp default materialized into the Timestamp and Int64
    // types carries the injected milliseconds.
    let constraint = ColumnDefaultConstraint::Function("current_timestamp()".to_string());
    let v = constraint
        .create_default_vector(&ConcreteDataType::timestamp_millisecond_datatype(), false, 2, 777)
        .unwrap();
    assert_eq!(vec![Value::Timestamp(777), Value::Timestamp(777)], v);
}
