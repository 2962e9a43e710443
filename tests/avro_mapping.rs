use interchange::avro::{value_from_avro, value_to_avro, value_to_string, describe, AvroValue};
use interchange::error::Error;
use interchange::value::Value;

fn round_trip(v: Value) -> Value {
    let a = value_to_avro(&v).expect("encodes");
    value_from_avro(&a).expect("decodes")
}

#[test]
fn primitives_round_trip() {
    assert_eq!(round_trip(Value::Bool(true)), Value::Bool(true));
    assert_eq!(round_trip(Value::I32(-17)), Value::I32(-17));
    assert_eq!(round_trip(Value::I64(i64::MIN)), Value::I64(i64::MIN));
    let bits = 2.5f64.to_bits();
    assert_eq!(round_trip(Value::F64(bits)), Value::F64(bits));
    assert_eq!(round_trip(Value::String("héllo".to_string())), Value::String("héllo".to_string()));
    assert_eq!(round_trip(Value::Bytes(vec![0, 255, 7])), Value::Bytes(vec![0, 255, 7]));
}

#[test]
fn u64_max_is_a_format_error() {
    match value_to_avro(&Value::U64(u64::MAX)) {
        Err(Error::Format { msg }) => assert_eq!(
            msg,
            "Avro output does not support unsigned 64 bit integer: 18446744073709551615"
        ),
        other => panic!("unexpected {:?}", other),
    }
}

#[test]
fn u64_that_fits_reads_back_as_i64() {
    assert_eq!(value_to_avro(&Value::U64(42)).unwrap(), AvroValue::Long(42));
    // The signedness is not kept: an unsigned value comes back signed.
    assert_eq!(round_trip(Value::U64(42)), Value::I64(42));
}

#[test]
fn small_integers_widen() {
    assert_eq!(value_to_avro(&Value::I8(-3)).unwrap(), AvroValue::Int(-3));
    assert_eq!(value_to_avro(&Value::U16(65535)).unwrap(), AvroValue::Int(65535));
    assert_eq!(value_to_avro(&Value::U32(u32::MAX)).unwrap(), AvroValue::Long(4294967295));
    assert_eq!(round_trip(Value::U8(9)), Value::I32(9));
}

#[test]
fn non_string_key_is_a_format_error() {
    let map = Value::Mapping(vec![(Value::I32(1), Value::Bool(true))]);
    match value_to_avro(&map) {
        Err(Error::Format { msg }) => {
            assert_eq!(msg, "Avro can only output string keys, got: I32(1)");
        }
        other => panic!("unexpected {:?}", other),
    }
}

#[test]
fn string_and_char_keys_make_a_record() {
    let map = Value::Mapping(vec![
        (Value::String("b".to_string()), Value::I64(1)),
        (Value::Char('a'), Value::Unit),
    ]);
    assert_eq!(
        value_to_avro(&map).unwrap(),
        AvroValue::Record(vec![
            ("b".to_string(), AvroValue::Long(1)),
            ("a".to_string(), AvroValue::Null),
        ])
    );
}

#[test]
fn nested_failure_surfaces() {
    let seq = Value::Sequence(vec![Value::I32(1), Value::U64(u64::MAX)]);
    assert!(matches!(value_to_avro(&seq), Err(Error::Format { .. })));
    let inner = Value::Mapping(vec![(Value::Unit, Value::Unit)]);
    let outer = Value::Mapping(vec![(Value::String("k".to_string()), inner)]);
    assert!(matches!(value_to_avro(&outer), Err(Error::Format { .. })));
}

#[test]
fn key_text_and_description() {
    assert_eq!(value_to_string(&Value::Char('x')).unwrap(), "x");
    assert_eq!(value_to_string(&Value::String("key".to_string())).unwrap(), "key");
    assert_eq!(describe(&Value::I64(-5)), "I64(-5)");
    assert_eq!(describe(&Value::Bool(false)), "Bool(false)");
    assert_eq!(describe(&Value::Sequence(vec![])), "Sequence([])");
    assert_eq!(describe(&Value::F64(2.5f64.to_bits())), "F64(4612811918334230528)");
    assert_eq!(describe(&Value::Bytes(vec![1, 2])), "Bytes([1, 2])");
    assert_eq!(
        describe(&Value::Mapping(vec![(Value::String("k".to_string()), Value::Unit), (Value::Char('c'), Value::U8(3))])),
        "Mapping([(String(\"k\"), Unit), (Char('c'), U8(3))])"
    );
    assert_eq!(
        describe(&Value::Sequence(vec![Value::I32(1), Value::Sequence(vec![Value::Unit])])),
        "Sequence([I32(1), Sequence([Unit])])"
    );
}

#[test]
fn union_of_long_decodes_to_its_branch() {
    let u = AvroValue::Union(Box::new(AvroValue::Long(7)));
    assert_eq!(value_from_avro(&u).unwrap(), Value::I64(7));
    let nested = AvroValue::Union(Box::new(AvroValue::Union(Box::new(AvroValue::Null))));
    assert_eq!(value_from_avro(&nested).unwrap(), Value::Unit);
}

#[test]
fn date_and_decimal_are_unimplemented() {
    assert!(matches!(value_from_avro(&AvroValue::Date(3)), Err(Error::Unimplemented { .. })));
    assert!(matches!(value_from_avro(&AvroValue::Decimal), Err(Error::Unimplemented { .. })));
    let arr = AvroValue::Array(vec![AvroValue::Int(1), AvroValue::Decimal]);
    assert!(matches!(value_from_avro(&arr), Err(Error::Unimplemented { .. })));
}

#[test]
fn decoding_each_kind() {
    assert_eq!(value_from_avro(&AvroValue::Enum(2, "RED".to_string())).unwrap(), Value::String("RED".to_string()));
    assert_eq!(value_from_avro(&AvroValue::Fixed(2, vec![1, 2])).unwrap(), Value::Bytes(vec![1, 2]));
    assert_eq!(value_from_avro(&AvroValue::TimeMillis(5)).unwrap(), Value::I32(5));
    assert_eq!(value_from_avro(&AvroValue::TimestampMicros(6)).unwrap(), Value::I64(6));
    assert_eq!(value_from_avro(&AvroValue::Uuid(vec![9; 16])).unwrap(), Value::Bytes(vec![9; 16]));
    assert_eq!(value_from_avro(&AvroValue::Float(1.5f32.to_bits())).unwrap(), Value::F32(1.5f32.to_bits()));
    let rec = AvroValue::Record(vec![
        ("z".to_string(), AvroValue::Boolean(false)),
        ("a".to_string(), AvroValue::Array(vec![AvroValue::Int(1), AvroValue::Int(2)])),
    ]);
    assert_eq!(
        value_from_avro(&rec).unwrap(),
        Value::Mapping(vec![
            (Value::String("z".to_string()), Value::Bool(false)),
            (Value::String("a".to_string()), Value::Sequence(vec![Value::I32(1), Value::I32(2)])),
        ])
    );
    assert_eq!(value_from_avro(&AvroValue::Mapping(vec![])).unwrap(), Value::Mapping(vec![]));
}

#[test]
fn key_error_names_a_compound_key() {
    let key = Value::Sequence(vec![Value::I8(-1), Value::Bytes(vec![7])]);
    match value_to_string(&key) {
        Err(Error::Format { msg }) => assert_eq!(
            msg,
            "Avro can only output string keys, got: Sequence([I8(-1), Bytes([7])])"
        ),
        other => panic!("unexpected {:?}", other),
    }
    match value_to_string(&Value::F32(1.0f32.to_bits())) {
        Err(Error::Format { msg }) => assert_eq!(msg, "Avro can only output string keys, got: F32(1065353216)"),
        other => panic!("unexpected {:?}", other),
    }
}

#[test]
fn bad_key_wins_over_bad_value() {
    let map = Value::Mapping(vec![(Value::I32(1), Value::U64(u64::MAX))]);
    match value_to_avro(&map) {
        Err(Error::Format { msg }) => assert_eq!(msg, "Avro can only output string keys, got: I32(1)"),
        other => panic!("unexpected {:?}", other),
    }
}

#[test]
fn first_failing_element_decides_the_error() {
    let seq = Value::Sequence(vec![
        Value::I32(1),
        Value::U64(u64::MAX - 1),
        Value::Mapping(vec![(Value::Unit, Value::Unit)]),
    ]);
    match value_to_avro(&seq) {
        Err(Error::Format { msg }) => assert_eq!(
            msg,
            "Avro output does not support unsigned 64 bit integer: 18446744073709551614"
        ),
        other => panic!("unexpected {:?}", other),
    }
    let map = Value::Mapping(vec![
        (Value::String("a".to_string()), Value::Sequence(vec![Value::Mapping(vec![(Value::Bool(true), Value::Unit)])])),
        (Value::I64(9), Value::Unit),
    ]);
    match value_to_avro(&map) {
        Err(Error::Format { msg }) => assert_eq!(msg, "Avro can only output string keys, got: Bool(true)"),
        other => panic!("unexpected {:?}", other),
    }
}
