use orm::data::{DetectDataType, ValueConvert};
use orm::{DataType, ObjectId, Value};

#[test]
fn object_id_round_trip() {
    let id = ObjectId::new(42);
    assert_eq!(id.into_i64(), 42);
    assert_eq!(ObjectId::new(-7).into_i64(), -7);
    assert_eq!(ObjectId::new(42), id);
}

#[test]
fn data_type_names() {
    assert_eq!(DataType::String.name(), "String");
    assert_eq!(DataType::Bytes.name(), "Bytes");
    assert_eq!(DataType::Int64.name(), "Int64");
    assert_eq!(DataType::Float64.name(), "Float64");
    assert_eq!(DataType::Bool.name(), "Bool");
}

#[test]
fn value_data_types() {
    assert_eq!(Value::String(String::from("x")).data_type(), DataType::String);
    assert_eq!(Value::Bytes(vec![1, 2]).data_type(), DataType::Bytes);
    assert_eq!(Value::Int64(5).data_type(), DataType::Int64);
    assert_eq!(Value::Float64(1.5f64.to_bits()).data_type(), DataType::Float64);
    assert_eq!(Value::Bool(true).data_type(), DataType::Bool);
}

#[test]
fn value_sql_types() {
    assert_eq!(Value::String(String::from("x")).sql_type(), "Text");
    assert_eq!(Value::Bytes(vec![]).sql_type(), "Blob");
    assert_eq!(Value::Int64(0).sql_type(), "Integer");
    assert_eq!(Value::Bool(false).sql_type(), "Integer");
    assert_eq!(Value::Float64(0f64.to_bits()).sql_type(), "Real");
}

#[test]
fn detected_data_types_match_value_tags() {
    assert_eq!(<String as DetectDataType>::data_type(), DataType::String);
    assert_eq!(<Vec<u8> as DetectDataType>::data_type(), DataType::Bytes);
    assert_eq!(<i64 as DetectDataType>::data_type(), DataType::Int64);
    assert_eq!(<bool as DetectDataType>::data_type(), DataType::Bool);
    assert_eq!(
        String::from("x").to_value().data_type(),
        <String as DetectDataType>::data_type()
    );
}

#[test]
fn i64_value_round_trip() {
    let v = (-12345i64).to_value();
    assert!(matches!(v, Value::Int64(-12345)));
    assert_eq!(i64::from_value(&v), -12345);
    assert_eq!(v.convert::<i64>(), -12345);
}

#[test]
fn bool_value_round_trip() {
    let v = true.to_value();
    assert!(matches!(v, Value::Bool(true)));
    assert!(bool::from_value(&v));
    assert!(!bool::from_value(&false.to_value()));
}

#[test]
fn string_value_round_trip() {
    let s = String::from("hello world");
    let v = s.to_value();
    assert_eq!(String::from_value(&v), "hello world");
    assert_eq!(v.convert::<String>(), s);
}

#[test]
fn bytes_value_round_trip() {
    let b: Vec<u8> = vec![0, 255, 7, 42];
    let v = b.to_value();
    assert_eq!(Vec::<u8>::from_value(&v), b);
    assert_eq!(v.convert::<Vec<u8>>(), b);
}

#[test]
fn clone_value_preserves_contents() {
    let v = Value::String(String::from("abc"));
    assert!(matches!(v.clone_value(), Value::String(s) if s == "abc"));
    let b = Value::Bytes(vec![9, 8]);
    assert!(matches!(b.clone_value(), Value::Bytes(x) if x == vec![9, 8]));
}
