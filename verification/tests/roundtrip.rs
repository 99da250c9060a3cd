use firestore_serde::datum::{Datum, Field};
use firestore_serde::firestore::{FieldMap, WireValue};
use firestore_serde::serialize::error::SerializationError;
use firestore_serde::shape::{FieldShape, PayloadShape, Shape, VariantShape};
use firestore_serde::{from_grpc_value, to_grpc_value, TYPE, VALUES};

fn map_of(entries: Vec<(&str, WireValue)>) -> WireValue {
    WireValue::MapValue(FieldMap::from_entries(
        entries
            .into_iter()
            .map(|(k, v)| (k.to_string(), v))
            .collect(),
    ))
}

fn just_an_enum() -> Shape {
    Shape::Enum(vec![
        VariantShape {
            name: "TagUnitVariant".to_string(),
            payload: PayloadShape::Unit,
        },
        VariantShape {
            name: "ANewtypeVariant".to_string(),
            payload: PayloadShape::Newtype(Box::new(Shape::U32)),
        },
        VariantShape {
            name: "ATupleVariant".to_string(),
            payload: PayloadShape::Tuple(vec![Shape::U8, Shape::Bool]),
        },
        VariantShape {
            name: "ARecordVariant".to_string(),
            payload: PayloadShape::Struct(vec![
                FieldShape {
                    name: "an_int".to_string(),
                    shape: Shape::U32,
                },
                FieldShape {
                    name: "a_bool".to_string(),
                    shape: Shape::Bool,
                },
            ]),
        },
    ])
}

fn field(name: &str, value: Datum) -> Field {
    Field {
        name: name.to_string(),
        value,
        skip: false,
    }
}

#[test]
fn test_serialize_string() {
    let result = to_grpc_value(&Datum::Str("blah".to_string())).unwrap();

    assert_eq!(WireValue::StringValue("blah".to_string()), result);

    assert_eq!(
        Datum::Str("blah".to_string()),
        from_grpc_value(&result, &Shape::Text).unwrap()
    )
}

#[test]
fn test_serialize_bytes() {
    let v: &[u8] = b"blah";
    let result = to_grpc_value(&Datum::Bytes(v.to_vec())).unwrap();

    assert_eq!(WireValue::BytesValue(v.to_vec()), result);

    assert_eq!(
        Datum::Bytes(v.to_vec()),
        from_grpc_value(&result, &Shape::ByteBuf).unwrap()
    );

    // The same bytes can be read as a sequence of small integers.
    assert_eq!(
        Datum::Sequence(v.iter().cloned().map(Datum::U8).collect::<Vec<Datum>>()),
        from_grpc_value(&result, &Shape::Sequence(Box::new(Shape::U8))).unwrap()
    )
}

#[test]
fn test_serialize_char() {
    let result = to_grpc_value(&Datum::Char('a')).unwrap();

    assert_eq!(WireValue::StringValue("a".to_string()), result);

    assert_eq!(
        Datum::Char('a'),
        from_grpc_value(&result, &Shape::Char).unwrap()
    )
}

#[test]
fn test_serialize_option() {
    let optional = Shape::Optional(Box::new(Shape::U32));
    let p = Datum::Absent;
    let result = to_grpc_value(&p).unwrap();

    assert_eq!(WireValue::NullValue, result);

    assert_eq! {
        p,
        from_grpc_value(&result, &optional).unwrap()
    }

    let result = to_grpc_value(&Datum::Present(Box::new(Datum::I32(100)))).unwrap();

    assert_eq!(WireValue::IntegerValue(100), result);

    assert_eq! {
        Datum::Present(Box::new(Datum::U32(100))),
        from_grpc_value(&result, &optional).unwrap()
    }
}

fn check_int(num: Datum, shape: Shape, exp_val: i64) {
    let result = to_grpc_value(&num).unwrap();

    assert_eq!(WireValue::IntegerValue(exp_val), result);

    assert_eq!(num, from_grpc_value(&result, &shape).unwrap());
}

#[test]
fn test_serialize_int() {
    check_int(Datum::U8(4u8), Shape::U8, 4);
    check_int(Datum::U16(4u16), Shape::U16, 4);
    check_int(Datum::U32(4u32), Shape::U32, 4);
    check_int(Datum::U64(4u64), Shape::U64, 4);

    check_int(Datum::I8(4i8), Shape::I8, 4);
    check_int(Datum::I16(4i16), Shape::I16, 4);
    check_int(Datum::I32(4i32), Shape::I32, 4);
    check_int(Datum::I64(4i64), Shape::I64, 4);

    assert_eq!(
        SerializationError::OutsideIntRange(u64::MAX),
        to_grpc_value(&Datum::U64(u64::MAX)).unwrap_err()
    );
}

#[test]
fn test_serialize_float() {
    let single = f64::from(99.9f32).to_bits();
    let result = to_grpc_value(&Datum::F32(single)).unwrap();

    assert_eq!(WireValue::DoubleValue(f64::from(99.9f32).to_bits()), result);

    match from_grpc_value(&result, &Shape::F32).unwrap() {
        Datum::F32(bits) => assert_eq!(99.9f32, f64::from_bits(bits) as f32),
        other => panic!("not a single-precision number: {:?}", other),
    }

    let result = to_grpc_value(&Datum::F64(99.9f64.to_bits())).unwrap();

    assert_eq!(WireValue::DoubleValue(99.9f64.to_bits()), result);

    match from_grpc_value(&result, &Shape::F64).unwrap() {
        Datum::F64(bits) => assert_eq!(99.9f64, f64::from_bits(bits)),
        other => panic!("not a double-precision number: {:?}", other),
    }
}

#[test]
fn test_serialize_bool() {
    let result_true = to_grpc_value(&Datum::Bool(true)).unwrap();

    assert_eq!(WireValue::BooleanValue(true), result_true);

    assert_eq!(
        Datum::Bool(true),
        from_grpc_value(&result_true, &Shape::Bool).unwrap()
    );

    let result_false = to_grpc_value(&Datum::Bool(false)).unwrap();

    assert_eq!(WireValue::BooleanValue(false), result_false);

    assert_eq!(
        Datum::Bool(false),
        from_grpc_value(&result_false, &Shape::Bool).unwrap()
    );
}

#[test]
fn test_unrepresentable() {
    assert_eq!(
        SerializationError::Unrepresentable("()".to_string()),
        to_grpc_value(&Datum::Unit).unwrap_err()
    );

    assert_eq!(
        SerializationError::Unrepresentable("unit_struct".to_string()),
        to_grpc_value(&Datum::UnitStruct).unwrap_err()
    );
}

#[test]
fn test_serialize_enum_record() {
    let v = Datum::StructVariant(
        "ARecordVariant".to_string(),
        vec![
            field("an_int", Datum::U32(4)),
            field("a_bool", Datum::Bool(false)),
        ],
    );
    let result = to_grpc_value(&v).unwrap();

    assert_eq!(
        map_of(vec![
            (TYPE, WireValue::StringValue("ARecordVariant".to_string())),
            (
                VALUES,
                map_of(vec![
                    ("an_int", WireValue::IntegerValue(4)),
                    ("a_bool", WireValue::BooleanValue(false)),
                ])
            ),
        ]),
        result
    );

    assert_eq!(v, from_grpc_value(&result, &just_an_enum()).unwrap());
}

#[test]
fn test_serialize_enum_unit() {
    let v = Datum::UnitVariant("TagUnitVariant".to_string());
    let result = to_grpc_value(&v).unwrap();

    assert_eq!(WireValue::StringValue("TagUnitVariant".to_string()), result);

    assert_eq!(v, from_grpc_value(&result, &just_an_enum()).unwrap());
}

#[test]
fn test_serialize_enum_newtype() {
    let v = Datum::NewtypeVariant("ANewtypeVariant".to_string(), Box::new(Datum::U32(55)));
    let result = to_grpc_value(&v).unwrap();

    assert_eq!(
        map_of(vec![
            ("type", WireValue::StringValue("ANewtypeVariant".to_string())),
            ("value", WireValue::IntegerValue(55)),
        ]),
        result
    );

    assert_eq!(v, from_grpc_value(&result, &just_an_enum()).unwrap());
}

#[test]
fn test_serialize_enum_tuple() {
    let v = Datum::TupleVariant(
        "ATupleVariant".to_string(),
        vec![Datum::U8(55), Datum::Bool(false)],
    );
    let result = to_grpc_value(&v).unwrap();

    assert_eq!(
        map_of(vec![
            ("type", WireValue::StringValue("ATupleVariant".to_string())),
            (
                "values",
                WireValue::ArrayValue(vec![
                    WireValue::IntegerValue(55),
                    WireValue::BooleanValue(false),
                ])
            ),
        ]),
        result
    );

    assert_eq!(v, from_grpc_value(&result, &just_an_enum()).unwrap());
}

#[test]
fn serialize_tuple() {
    let v = Datum::Tuple(vec![
        Datum::I32(3),
        Datum::Bool(false),
        Datum::Str("okay".to_string()),
    ]);
    let result = to_grpc_value(&v).unwrap();

    assert_eq!(
        WireValue::ArrayValue(vec![
            WireValue::IntegerValue(3),
            WireValue::BooleanValue(false),
            WireValue::StringValue("okay".to_string()),
        ]),
        result
    );

    assert_eq!(
        v,
        from_grpc_value(
            &result,
            &Shape::Tuple(vec![Shape::I32, Shape::Bool, Shape::Text])
        )
        .unwrap()
    );
}

#[test]
fn serialize_slice() {
    let v = Datum::Tuple(vec![Datum::U32(9), Datum::U32(5), Datum::U32(1)]);
    let result = to_grpc_value(&v).unwrap();

    assert_eq!(
        WireValue::ArrayValue(vec![
            WireValue::IntegerValue(9),
            WireValue::IntegerValue(5),
            WireValue::IntegerValue(1),
        ]),
        result
    );

    assert_eq!(
        v,
        from_grpc_value(
            &result,
            &Shape::Tuple(vec![Shape::U32, Shape::U32, Shape::U32])
        )
        .unwrap()
    );
}

#[test]
fn serialize_vector() {
    let v = Datum::Sequence(vec![Datum::U32(9), Datum::U32(5), Datum::U32(1)]);
    let result = to_grpc_value(&v).unwrap();

    assert_eq!(
        WireValue::ArrayValue(vec![
            WireValue::IntegerValue(9),
            WireValue::IntegerValue(5),
            WireValue::IntegerValue(1),
        ]),
        result
    );

    assert_eq!(
        v,
        from_grpc_value(&result, &Shape::Sequence(Box::new(Shape::U32))).unwrap()
    );
}

#[test]
fn serialize_tuple_struct() {
    let v = Datum::TupleStruct(vec![
        Datum::U32(3),
        Datum::Bool(false),
        Datum::Str("okay".to_string()),
    ]);
    let result = to_grpc_value(&v).unwrap();

    assert_eq!(
        WireValue::ArrayValue(vec![
            WireValue::IntegerValue(3),
            WireValue::BooleanValue(false),
            WireValue::StringValue("okay".to_string()),
        ]),
        result
    );

    assert_eq!(
        v,
        from_grpc_value(
            &result,
            &Shape::TupleStruct(vec![Shape::U32, Shape::Bool, Shape::Text])
        )
        .unwrap()
    );
}

#[test]
fn serialize_record_struct() {
    let v = Datum::Struct(vec![
        field("an_int_field", Datum::U32(8)),
        field("a_string_field", Datum::Str("blah".to_string())),
        field(
            "a_vec_field",
            Datum::Sequence(vec![
                Datum::Bool(false),
                Datum::Bool(false),
                Datum::Bool(true),
            ]),
        ),
    ]);
    let result = to_grpc_value(&v).unwrap();

    assert_eq!(
        map_of(vec![
            ("an_int_field", WireValue::IntegerValue(8)),
            ("a_string_field", WireValue::StringValue("blah".to_string())),
            (
                "a_vec_field",
                WireValue::ArrayValue(vec![
                    WireValue::BooleanValue(false),
                    WireValue::BooleanValue(false),
                    WireValue::BooleanValue(true),
                ])
            ),
        ]),
        result
    );

    let shape = Shape::Struct(vec![
        FieldShape {
            name: "an_int_field".to_string(),
            shape: Shape::U32,
        },
        FieldShape {
            name: "a_string_field".to_string(),
            shape: Shape::Text,
        },
        FieldShape {
            name: "a_vec_field".to_string(),
            shape: Shape::Sequence(Box::new(Shape::Bool)),
        },
    ]);
    assert_eq!(v, from_grpc_value(&result, &shape).unwrap());
}

#[test]
fn serialize_map() {
    let map = Datum::Mapping(vec![
        (Datum::Str("foo".to_string()), Datum::U32(5)),
        (Datum::Str("bar".to_string()), Datum::U32(50)),
    ]);

    let result = to_grpc_value(&map).unwrap();

    assert_eq!(
        map_of(vec![
            ("foo", WireValue::IntegerValue(5)),
            ("bar", WireValue::IntegerValue(50)),
        ]),
        result
    );

    assert_eq!(
        map,
        from_grpc_value(
            &result,
            &Shape::Mapping(Box::new(Shape::Text), Box::new(Shape::U32))
        )
        .unwrap()
    );
}

#[test]
fn serialize_newtype_struct() {
    let record = Datum::NewtypeStruct("ANewtypeStruct".to_string(), Box::new(Datum::U32(55)));

    let result = to_grpc_value(&record).unwrap();

    assert_eq!(WireValue::IntegerValue(55), result);

    assert_eq!(
        record,
        from_grpc_value(
            &result,
            &Shape::NewtypeStruct("ANewtypeStruct".to_string(), Box::new(Shape::U32))
        )
        .unwrap()
    );
}
