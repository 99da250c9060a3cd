use firestore_serde::datum::{Datum, Field};
use firestore_serde::deserialize::error::DeserializationError;
use firestore_serde::deserialize::shaped::{
    INVALID_LENGTH_MESSAGE, UNIT_FOR_NEWTYPE_MESSAGE, UNIT_FOR_STRUCT_MESSAGE,
    UNIT_FOR_TUPLE_MESSAGE, VALUE_BEFORE_KEY_MESSAGE,
};
use firestore_serde::deserialize::{EnumSource, SeqSource};
use firestore_serde::firestore::{FieldMap, Timestamp, WireValue};
use firestore_serde::shape::{FieldShape, PayloadShape, Shape, VariantShape};
use firestore_serde::{from_grpc_value, ValueDeserializer};

fn map_of(entries: Vec<(&str, WireValue)>) -> WireValue {
    WireValue::MapValue(FieldMap::from_entries(
        entries
            .into_iter()
            .map(|(k, v)| (k.to_string(), v))
            .collect(),
    ))
}

fn text(s: &str) -> WireValue {
    WireValue::StringValue(s.to_string())
}

fn sum_type() -> Shape {
    Shape::Enum(vec![
        VariantShape {
            name: "Unit".to_string(),
            payload: PayloadShape::Unit,
        },
        VariantShape {
            name: "One".to_string(),
            payload: PayloadShape::Newtype(Box::new(Shape::I32)),
        },
        VariantShape {
            name: "Pair".to_string(),
            payload: PayloadShape::Tuple(vec![Shape::I32, Shape::Bool]),
        },
        VariantShape {
            name: "Record".to_string(),
            payload: PayloadShape::Struct(vec![FieldShape {
                name: "x".to_string(),
                shape: Shape::I32,
            }]),
        },
    ])
}

fn check_range(shape: Shape, kind: &'static str, low: i64, high: i64, at_low: Datum, at_high: Datum) {
    assert_eq!(
        at_low,
        from_grpc_value(&WireValue::IntegerValue(low), &shape).unwrap()
    );
    assert_eq!(
        at_high,
        from_grpc_value(&WireValue::IntegerValue(high), &shape).unwrap()
    );
    if low > i64::MIN {
        assert_eq!(
            DeserializationError::IntRange(kind, low - 1),
            from_grpc_value(&WireValue::IntegerValue(low - 1), &shape).unwrap_err()
        );
    }
    if high < i64::MAX {
        assert_eq!(
            DeserializationError::IntRange(kind, high + 1),
            from_grpc_value(&WireValue::IntegerValue(high + 1), &shape).unwrap_err()
        );
    }
    assert_eq!(
        DeserializationError::WrongType(kind, WireValue::BooleanValue(true)),
        from_grpc_value(&WireValue::BooleanValue(true), &shape).unwrap_err()
    );
}

#[test]
fn integers_are_taken_within_their_range_only() {
    check_range(Shape::I8, "i8", -128, 127, Datum::I8(i8::MIN), Datum::I8(i8::MAX));
    check_range(
        Shape::I16,
        "i16",
        -32768,
        32767,
        Datum::I16(i16::MIN),
        Datum::I16(i16::MAX),
    );
    check_range(
        Shape::I32,
        "i32",
        -2147483648,
        2147483647,
        Datum::I32(i32::MIN),
        Datum::I32(i32::MAX),
    );
    check_range(
        Shape::I64,
        "i64",
        i64::MIN,
        i64::MAX,
        Datum::I64(i64::MIN),
        Datum::I64(i64::MAX),
    );
    check_range(Shape::U8, "u8", 0, 255, Datum::U8(0), Datum::U8(u8::MAX));
    check_range(Shape::U16, "u16", 0, 65535, Datum::U16(0), Datum::U16(u16::MAX));
    check_range(
        Shape::U32,
        "u32",
        0,
        4294967295,
        Datum::U32(0),
        Datum::U32(u32::MAX),
    );
    check_range(
        Shape::U64,
        "u64",
        0,
        i64::MAX,
        Datum::U64(0),
        Datum::U64(i64::MAX as u64),
    );
}

#[test]
fn the_decoder_reads_each_width_by_itself() {
    let value = WireValue::IntegerValue(300);
    let decoder = ValueDeserializer(&value);
    assert_eq!(
        DeserializationError::IntRange("i8", 300),
        decoder.deserialize_i8().unwrap_err()
    );
    assert_eq!(
        DeserializationError::IntRange("u8", 300),
        decoder.deserialize_u8().unwrap_err()
    );
    assert_eq!(300, decoder.deserialize_i16().unwrap());
    assert_eq!(300, decoder.deserialize_i32().unwrap());
    assert_eq!(300, decoder.deserialize_i64().unwrap());
    assert_eq!(300, decoder.deserialize_u16().unwrap());
    assert_eq!(300, decoder.deserialize_u32().unwrap());
    assert_eq!(300, decoder.deserialize_u64().unwrap());
    let negative = WireValue::IntegerValue(-1);
    assert_eq!(
        DeserializationError::IntRange("u64", -1),
        ValueDeserializer(&negative).deserialize_u64().unwrap_err()
    );
}

#[test]
fn a_character_is_read_from_a_string_of_one() {
    assert_eq!(
        Datum::Char('é'),
        from_grpc_value(&text("é"), &Shape::Char).unwrap()
    );
    assert_eq!(
        DeserializationError::WrongType("char", text("")),
        from_grpc_value(&text(""), &Shape::Char).unwrap_err()
    );
    assert_eq!(
        DeserializationError::WrongType("char", text("ab")),
        from_grpc_value(&text("ab"), &Shape::Char).unwrap_err()
    );
    assert_eq!(
        DeserializationError::WrongType("char", WireValue::IntegerValue(97)),
        from_grpc_value(&WireValue::IntegerValue(97), &Shape::Char).unwrap_err()
    );
}

#[test]
fn text_is_read_from_a_string() {
    assert_eq!(
        Datum::Str("t".to_string()),
        from_grpc_value(&text("t"), &Shape::Str).unwrap()
    );
    assert_eq!(
        DeserializationError::WrongType("str", WireValue::NullValue),
        from_grpc_value(&WireValue::NullValue, &Shape::Str).unwrap_err()
    );
    assert_eq!(
        DeserializationError::WrongType("string", WireValue::NullValue),
        from_grpc_value(&WireValue::NullValue, &Shape::Text).unwrap_err()
    );
}

#[test]
fn a_boolean_and_a_double_are_read_from_their_kind_only() {
    assert_eq!(
        DeserializationError::WrongType("bool", WireValue::IntegerValue(1)),
        from_grpc_value(&WireValue::IntegerValue(1), &Shape::Bool).unwrap_err()
    );
    assert_eq!(
        DeserializationError::WrongType("f32", WireValue::IntegerValue(1)),
        from_grpc_value(&WireValue::IntegerValue(1), &Shape::F32).unwrap_err()
    );
    assert_eq!(
        DeserializationError::WrongType("f64", WireValue::IntegerValue(1)),
        from_grpc_value(&WireValue::IntegerValue(1), &Shape::F64).unwrap_err()
    );
    let half = WireValue::DoubleValue(0.5f64.to_bits());
    assert_eq!(
        Datum::F64(0.5f64.to_bits()),
        from_grpc_value(&half, &Shape::F64).unwrap()
    );
}

#[test]
fn bytes_are_read_as_a_buffer_and_as_a_sequence() {
    let value = WireValue::BytesValue(vec![7, 0, 255]);
    assert_eq!(
        Datum::Bytes(vec![7, 0, 255]),
        from_grpc_value(&value, &Shape::Bytes).unwrap()
    );
    assert_eq!(
        Datum::Bytes(vec![7, 0, 255]),
        from_grpc_value(&value, &Shape::ByteBuf).unwrap()
    );
    assert_eq!(
        Datum::Sequence(vec![Datum::U8(7), Datum::U8(0), Datum::U8(255)]),
        from_grpc_value(&value, &Shape::Sequence(Box::new(Shape::U8))).unwrap()
    );
    // Each byte is offered as the integer that it is: a target too small refuses it.
    assert_eq!(
        DeserializationError::IntRange("i8", 255),
        from_grpc_value(&value, &Shape::Sequence(Box::new(Shape::I8))).unwrap_err()
    );
    assert_eq!(
        DeserializationError::WrongType("tuple", WireValue::BytesValue(vec![7, 0, 255])),
        from_grpc_value(&value, &Shape::Tuple(vec![Shape::U8])).unwrap_err()
    );
    assert_eq!(
        Datum::TupleStruct(vec![Datum::U8(7), Datum::U16(0)]),
        from_grpc_value(&value, &Shape::TupleStruct(vec![Shape::U8, Shape::U16])).unwrap()
    );
    assert_eq!(
        DeserializationError::WrongType("bytes", WireValue::IntegerValue(1)),
        from_grpc_value(&WireValue::IntegerValue(1), &Shape::Bytes).unwrap_err()
    );
    assert_eq!(
        DeserializationError::WrongType("byte_buf", WireValue::IntegerValue(1)),
        from_grpc_value(&WireValue::IntegerValue(1), &Shape::ByteBuf).unwrap_err()
    );
}

#[test]
fn a_timestamp_is_read_as_a_buffer_of_its_layout() {
    let value = WireValue::TimestampValue(Timestamp {
        seconds: 150,
        nanos: 200,
    });
    assert_eq!(
        Datum::Bytes(vec![0x08, 0x96, 0x01, 0x10, 0xc8, 0x01]),
        from_grpc_value(&value, &Shape::ByteBuf).unwrap()
    );
    assert_eq!(
        vec![0x08, 0x96, 0x01, 0x10, 0xc8, 0x01],
        ValueDeserializer(&value).deserialize_byte_buf().unwrap()
    );
    // Only an owned buffer is made up on the way; borrowed bytes must be there.
    assert_eq!(
        DeserializationError::WrongType(
            "bytes",
            WireValue::TimestampValue(Timestamp {
                seconds: 150,
                nanos: 200
            })
        ),
        from_grpc_value(&value, &Shape::Bytes).unwrap_err()
    );
}

#[test]
fn an_option_is_empty_for_null_only() {
    let optional = Shape::Optional(Box::new(Shape::Bool));
    assert_eq!(
        Datum::Absent,
        from_grpc_value(&WireValue::NullValue, &optional).unwrap()
    );
    assert_eq!(
        Datum::Present(Box::new(Datum::Bool(false))),
        from_grpc_value(&WireValue::BooleanValue(false), &optional).unwrap()
    );
    assert_eq!(
        DeserializationError::WrongType("bool", WireValue::IntegerValue(0)),
        from_grpc_value(&WireValue::IntegerValue(0), &optional).unwrap_err()
    );
    let value = WireValue::NullValue;
    assert!(ValueDeserializer(&value).deserialize_option().is_none());
}

#[test]
fn some_targets_cannot_be_read_at_all() {
    let value = WireValue::NullValue;
    assert_eq!(
        DeserializationError::Unrepresentable("unit"),
        from_grpc_value(&value, &Shape::Unit).unwrap_err()
    );
    assert_eq!(
        DeserializationError::Unrepresentable("unit_struct"),
        from_grpc_value(&value, &Shape::UnitStruct).unwrap_err()
    );
    assert_eq!(
        DeserializationError::Unrepresentable("identifier"),
        from_grpc_value(&value, &Shape::Identifier).unwrap_err()
    );
    assert_eq!(
        DeserializationError::Unrepresentable("any"),
        from_grpc_value(&value, &Shape::Any).unwrap_err()
    );
}

#[test]
fn a_target_that_ignores_takes_anything() {
    assert_eq!(
        Datum::Unit,
        from_grpc_value(&WireValue::Unset, &Shape::IgnoredAny).unwrap()
    );
    assert_eq!(
        Datum::Unit,
        from_grpc_value(&map_of(vec![("a", text("b"))]), &Shape::IgnoredAny).unwrap()
    );
}

#[test]
fn a_value_of_no_kind_is_refused_and_handed_back() {
    let value = WireValue::Unset;
    assert_eq!(
        DeserializationError::WrongType("bool", WireValue::Unset),
        from_grpc_value(&value, &Shape::Bool).unwrap_err()
    );
    assert_eq!(
        DeserializationError::WrongType("i64", WireValue::Unset),
        from_grpc_value(&value, &Shape::I64).unwrap_err()
    );
    assert_eq!(
        DeserializationError::WrongType("string", WireValue::Unset),
        from_grpc_value(&value, &Shape::Optional(Box::new(Shape::Text))).unwrap_err()
    );
    assert_eq!(
        DeserializationError::WrongType("seq", WireValue::Unset),
        from_grpc_value(&value, &Shape::Sequence(Box::new(Shape::Bool))).unwrap_err()
    );
    assert_eq!(
        DeserializationError::WrongType("map", WireValue::Unset),
        from_grpc_value(&value, &Shape::Struct(vec![])).unwrap_err()
    );
    assert_eq!(
        DeserializationError::WrongType("enum", WireValue::Unset),
        from_grpc_value(&value, &sum_type()).unwrap_err()
    );
}

#[test]
fn kinds_that_pass_through_are_refused_by_every_target() {
    let reference = WireValue::ReferenceValue("projects/p/databases/d/documents/c/x".to_string());
    assert_eq!(
        DeserializationError::WrongType(
            "string",
            WireValue::ReferenceValue("projects/p/databases/d/documents/c/x".to_string())
        ),
        from_grpc_value(&reference, &Shape::Text).unwrap_err()
    );
    let point = WireValue::GeoPointValue(1.5f64.to_bits(), 2.5f64.to_bits());
    assert_eq!(
        DeserializationError::WrongType(
            "f64",
            WireValue::GeoPointValue(1.5f64.to_bits(), 2.5f64.to_bits())
        ),
        from_grpc_value(&point, &Shape::F64).unwrap_err()
    );
}

#[test]
fn a_tuple_takes_as_many_items_as_it_has_shapes() {
    let pair = Shape::Tuple(vec![Shape::I32, Shape::Bool]);
    let three = WireValue::ArrayValue(vec![
        WireValue::IntegerValue(1),
        WireValue::BooleanValue(true),
        text("more"),
    ]);
    assert_eq!(
        Datum::Tuple(vec![Datum::I32(1), Datum::Bool(true)]),
        from_grpc_value(&three, &pair).unwrap()
    );
    let one = WireValue::ArrayValue(vec![WireValue::IntegerValue(1)]);
    assert_eq!(
        DeserializationError::Message(INVALID_LENGTH_MESSAGE.to_string()),
        from_grpc_value(&one, &pair).unwrap_err()
    );
    let wrong = WireValue::ArrayValue(vec![text("x"), text("y")]);
    assert_eq!(
        DeserializationError::WrongType("i32", text("x")),
        from_grpc_value(&wrong, &pair).unwrap_err()
    );
    assert_eq!(
        DeserializationError::WrongType("tuple", text("x")),
        from_grpc_value(&text("x"), &pair).unwrap_err()
    );
    assert_eq!(
        Datum::Tuple(vec![]),
        from_grpc_value(&one, &Shape::Tuple(vec![])).unwrap()
    );
}

#[test]
fn a_sequence_takes_every_item() {
    let items = WireValue::ArrayValue(vec![
        WireValue::IntegerValue(1),
        WireValue::IntegerValue(2),
        WireValue::BooleanValue(true),
        WireValue::IntegerValue(1000),
    ]);
    // The first item that cannot be read is the one reported.
    assert_eq!(
        DeserializationError::WrongType("u8", WireValue::BooleanValue(true)),
        from_grpc_value(&items, &Shape::Sequence(Box::new(Shape::U8))).unwrap_err()
    );
    assert_eq!(
        Datum::Sequence(vec![]),
        from_grpc_value(
            &WireValue::ArrayValue(vec![]),
            &Shape::Sequence(Box::new(Shape::U8))
        )
        .unwrap()
    );
    let nested = WireValue::ArrayValue(vec![
        WireValue::ArrayValue(vec![WireValue::IntegerValue(1)]),
        WireValue::ArrayValue(vec![]),
    ]);
    assert_eq!(
        Datum::Sequence(vec![
            Datum::Sequence(vec![Datum::U8(1)]),
            Datum::Sequence(vec![])
        ]),
        from_grpc_value(
            &nested,
            &Shape::Sequence(Box::new(Shape::Sequence(Box::new(Shape::U8))))
        )
        .unwrap()
    );
}

#[test]
fn the_sources_of_a_sequence_hand_out_item_by_item() {
    let items = WireValue::ArrayValue(vec![WireValue::IntegerValue(1), text("x")]);
    match ValueDeserializer(&items).deserialize_seq().unwrap() {
        SeqSource::Values(mut seq) => {
            assert_eq!(Some(&WireValue::IntegerValue(1)), seq.next());
            assert_eq!(Some(&text("x")), seq.next());
            assert_eq!(None, seq.next());
            assert_eq!(None, seq.next());
        }
        SeqSource::Bytes(_) => panic!("an array is no bytes"),
    }
    let bytes = WireValue::BytesValue(vec![9, 8]);
    match ValueDeserializer(&bytes).deserialize_seq().unwrap() {
        SeqSource::Bytes(mut seq) => {
            assert_eq!(Some(9), seq.next());
            assert_eq!(
                Some(Datum::U16(8)),
                seq.next_element_seed(&Shape::U16).unwrap()
            );
            assert_eq!(None, seq.next());
        }
        SeqSource::Values(_) => panic!("bytes are no array"),
    }
}

#[test]
fn a_map_is_read_entry_by_entry() {
    let value = map_of(vec![
        ("a", WireValue::IntegerValue(1)),
        ("b", WireValue::IntegerValue(2)),
    ]);
    let by_char = Shape::Mapping(Box::new(Shape::Char), Box::new(Shape::I8));
    assert_eq!(
        Datum::Mapping(vec![
            (Datum::Char('a'), Datum::I8(1)),
            (Datum::Char('b'), Datum::I8(2)),
        ]),
        from_grpc_value(&value, &by_char).unwrap()
    );
    let by_number = Shape::Mapping(Box::new(Shape::I32), Box::new(Shape::I8));
    assert_eq!(
        DeserializationError::WrongType("i32", text("a")),
        from_grpc_value(&value, &by_number).unwrap_err()
    );
    assert_eq!(
        DeserializationError::WrongType("map", WireValue::ArrayValue(vec![])),
        from_grpc_value(&WireValue::ArrayValue(vec![]), &by_char).unwrap_err()
    );
    let mut entries = ValueDeserializer(&value).deserialize_map().unwrap();
    assert!(!entries.has_pending_value());
    assert_eq!(Some("a"), entries.next_key());
    assert!(entries.has_pending_value());
    assert_eq!(Some(&WireValue::IntegerValue(1)), entries.next_value());
    assert_eq!(None, entries.next_value());
    assert_eq!(
        DeserializationError::Message(VALUE_BEFORE_KEY_MESSAGE.to_string()),
        entries.next_value_seed(&Shape::U8).unwrap_err()
    );
    assert_eq!(
        Some(Datum::Str("b".to_string())),
        entries.next_key_seed(&Shape::Text).unwrap()
    );
    assert_eq!(
        Datum::U8(2),
        entries.next_value_seed(&Shape::U8).unwrap()
    );
    assert_eq!(None, entries.next_key());
    assert_eq!(Some(&WireValue::IntegerValue(2)), entries.field("b"));
    assert_eq!(None, entries.field("c"));
}

#[test]
fn a_struct_is_read_by_the_names_of_its_fields() {
    let shape = Shape::Struct(vec![
        FieldShape {
            name: "second".to_string(),
            shape: Shape::Bool,
        },
        FieldShape {
            name: "first".to_string(),
            shape: Shape::I32,
        },
    ]);
    let value = map_of(vec![
        ("first", WireValue::IntegerValue(1)),
        ("unknown", WireValue::NullValue),
        ("second", WireValue::BooleanValue(true)),
    ]);
    assert_eq!(
        Datum::Struct(vec![
            Field {
                name: "second".to_string(),
                value: Datum::Bool(true),
                skip: false
            },
            Field {
                name: "first".to_string(),
                value: Datum::I32(1),
                skip: false
            },
        ]),
        from_grpc_value(&value, &shape).unwrap()
    );
    let lacking = map_of(vec![("second", WireValue::BooleanValue(true))]);
    assert_eq!(
        DeserializationError::Message("missing field `first`".to_string()),
        from_grpc_value(&lacking, &shape).unwrap_err()
    );
    assert_eq!(
        DeserializationError::WrongType("map", text("x")),
        from_grpc_value(&text("x"), &shape).unwrap_err()
    );
}

#[test]
fn a_sum_type_is_read_from_a_name() {
    assert_eq!(
        Datum::UnitVariant("Unit".to_string()),
        from_grpc_value(&text("Unit"), &sum_type()).unwrap()
    );
    assert_eq!(
        DeserializationError::Message("unknown variant `Nope`".to_string()),
        from_grpc_value(&text("Nope"), &sum_type()).unwrap_err()
    );
    assert_eq!(
        DeserializationError::Message(UNIT_FOR_NEWTYPE_MESSAGE.to_string()),
        from_grpc_value(&text("One"), &sum_type()).unwrap_err()
    );
    assert_eq!(
        DeserializationError::Message(UNIT_FOR_TUPLE_MESSAGE.to_string()),
        from_grpc_value(&text("Pair"), &sum_type()).unwrap_err()
    );
    assert_eq!(
        DeserializationError::Message(UNIT_FOR_STRUCT_MESSAGE.to_string()),
        from_grpc_value(&text("Record"), &sum_type()).unwrap_err()
    );
    assert_eq!(
        DeserializationError::WrongType("enum", WireValue::IntegerValue(0)),
        from_grpc_value(&WireValue::IntegerValue(0), &sum_type()).unwrap_err()
    );
}

#[test]
fn a_sum_type_is_read_from_a_tagged_map() {
    let one = map_of(vec![("type", text("One")), ("value", WireValue::IntegerValue(5))]);
    assert_eq!(
        Datum::NewtypeVariant("One".to_string(), Box::new(Datum::I32(5))),
        from_grpc_value(&one, &sum_type()).unwrap()
    );
    // The order of the entries does not matter.
    let turned = map_of(vec![("value", WireValue::IntegerValue(5)), ("type", text("One"))]);
    assert_eq!(
        Datum::NewtypeVariant("One".to_string(), Box::new(Datum::I32(5))),
        from_grpc_value(&turned, &sum_type()).unwrap()
    );
    let record = map_of(vec![
        ("type", text("Record")),
        ("values", map_of(vec![("x", WireValue::IntegerValue(7))])),
    ]);
    assert_eq!(
        Datum::StructVariant(
            "Record".to_string(),
            vec![Field {
                name: "x".to_string(),
                value: Datum::I32(7),
                skip: false
            }]
        ),
        from_grpc_value(&record, &sum_type()).unwrap()
    );
}

#[test]
fn a_tagged_map_must_hold_a_name_and_a_payload() {
    let no_type = map_of(vec![("value", WireValue::IntegerValue(5))]);
    assert_eq!(
        DeserializationError::MissingField("type"),
        from_grpc_value(&no_type, &sum_type()).unwrap_err()
    );
    let no_value = map_of(vec![("type", text("One"))]);
    assert_eq!(
        DeserializationError::MissingField("value"),
        from_grpc_value(&no_value, &sum_type()).unwrap_err()
    );
    let empty = WireValue::MapValue(FieldMap::new());
    assert_eq!(
        DeserializationError::MissingField("type"),
        from_grpc_value(&empty, &sum_type()).unwrap_err()
    );
    let numbered = map_of(vec![
        ("type", WireValue::IntegerValue(1)),
        ("value", WireValue::IntegerValue(5)),
    ]);
    assert_eq!(
        DeserializationError::WrongType("string", WireValue::IntegerValue(1)),
        from_grpc_value(&numbered, &sum_type()).unwrap_err()
    );
    // A name that is no string is reported even where the payload is missing too.
    let numbered_only = map_of(vec![("type", WireValue::IntegerValue(1))]);
    assert_eq!(
        DeserializationError::WrongType("string", WireValue::IntegerValue(1)),
        from_grpc_value(&numbered_only, &sum_type()).unwrap_err()
    );
}

#[test]
fn the_payload_must_suit_the_variant() {
    let unknown = map_of(vec![("type", text("Nope")), ("value", WireValue::NullValue)]);
    assert_eq!(
        DeserializationError::Message("unknown variant `Nope`".to_string()),
        from_grpc_value(&unknown, &sum_type()).unwrap_err()
    );
    let unit = map_of(vec![("type", text("Unit")), ("value", WireValue::NullValue)]);
    assert_eq!(
        DeserializationError::WrongType("unit_variant", WireValue::NullValue),
        from_grpc_value(&unit, &sum_type()).unwrap_err()
    );
    let pair = map_of(vec![
        ("type", text("Pair")),
        ("values", WireValue::BytesValue(vec![1, 0])),
    ]);
    assert_eq!(
        DeserializationError::WrongType("tuple", WireValue::BytesValue(vec![1, 0])),
        from_grpc_value(&pair, &sum_type()).unwrap_err()
    );
    let record = map_of(vec![("type", text("Record")), ("values", WireValue::ArrayValue(vec![]))]);
    assert_eq!(
        DeserializationError::WrongType("map", WireValue::ArrayValue(vec![])),
        from_grpc_value(&record, &sum_type()).unwrap_err()
    );
    let wrong = map_of(vec![("type", text("One")), ("value", text("five"))]);
    assert_eq!(
        DeserializationError::WrongType("i32", text("five")),
        from_grpc_value(&wrong, &sum_type()).unwrap_err()
    );
}

#[test]
fn of_two_payloads_the_later_one_is_read() {
    let both = map_of(vec![
        ("value", WireValue::IntegerValue(1)),
        ("type", text("One")),
        ("values", WireValue::IntegerValue(2)),
    ]);
    assert_eq!(
        Datum::NewtypeVariant("One".to_string(), Box::new(Datum::I32(2))),
        from_grpc_value(&both, &sum_type()).unwrap()
    );
    let turned = map_of(vec![
        ("values", WireValue::IntegerValue(2)),
        ("value", WireValue::IntegerValue(1)),
        ("type", text("One")),
    ]);
    assert_eq!(
        Datum::NewtypeVariant("One".to_string(), Box::new(Datum::I32(1))),
        from_grpc_value(&turned, &sum_type()).unwrap()
    );
}

#[test]
fn the_source_of_a_sum_type_tells_name_from_tagged_map() {
    let name = text("Unit");
    match ValueDeserializer(&name).deserialize_enum("E", &["Unit"]).unwrap() {
        EnumSource::Unit(variant) => assert_eq!("Unit", variant),
        EnumSource::Tagged(_) => panic!("a string is no tagged map"),
    }
    let tagged = map_of(vec![("type", text("One")), ("value", WireValue::IntegerValue(5))]);
    match ValueDeserializer(&tagged).deserialize_enum("E", &["One"]).unwrap() {
        EnumSource::Tagged(access) => {
            assert_eq!("One", access.variant_name());
            assert_eq!(5, access.newtype_variant().deserialize_i32().unwrap());
        }
        EnumSource::Unit(_) => panic!("a tagged map is no string"),
    }
}

#[test]
fn a_wrapper_is_read_from_the_value_itself() {
    let shape = Shape::NewtypeStruct("Meters".to_string(), Box::new(Shape::U32));
    assert_eq!(
        Datum::NewtypeStruct("Meters".to_string(), Box::new(Datum::U32(5))),
        from_grpc_value(&WireValue::IntegerValue(5), &shape).unwrap()
    );
    assert_eq!(
        DeserializationError::IntRange("u32", -5),
        from_grpc_value(&WireValue::IntegerValue(-5), &shape).unwrap_err()
    );
}

#[test]
fn a_custom_failure_carries_its_message() {
    assert_eq!(
        DeserializationError::Message("why".to_string()),
        DeserializationError::custom("why")
    );
}
