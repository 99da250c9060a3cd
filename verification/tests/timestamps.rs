use firestore_serde::datum::{Datum, Field};
use firestore_serde::firestore::{FieldMap, Timestamp, WireValue};
use firestore_serde::shape::{FieldShape, Shape};
use firestore_serde::timestamp::{deserialize, from_datum, serialize, shape, to_datum};
use firestore_serde::{from_grpc_value, to_grpc_value, ValueDeserializer, ValueSerializer};

#[test]
fn test_serialize_date() {
    let date = Timestamp {
        seconds: 150,
        nanos: 200,
    };

    let result = serialize(&date, ValueSerializer).unwrap();

    assert_eq!(
        WireValue::TimestampValue(Timestamp {
            seconds: 150,
            nanos: 200
        }),
        result
    );

    assert_eq!(date, deserialize(&ValueDeserializer(&result)).unwrap());
}

#[test]
fn test_serialize_in_struct() {
    let date = Timestamp {
        seconds: 150,
        nanos: 200,
    };
    let st = Datum::Struct(vec![Field {
        name: "date".to_string(),
        value: to_datum(&date),
        skip: false,
    }]);

    let result = to_grpc_value(&st).unwrap();

    assert_eq!(
        WireValue::MapValue(FieldMap::from_entries(vec![(
            "date".to_string(),
            WireValue::TimestampValue(Timestamp {
                seconds: 150,
                nanos: 200
            })
        )])),
        result
    );

    let target = Shape::Struct(vec![FieldShape {
        name: "date".to_string(),
        shape: shape(),
    }]);
    let back = from_grpc_value(&result, &target).unwrap();
    assert_eq!(st, back);
    match back {
        Datum::Struct(fields) => assert_eq!(Some(date), from_datum(&fields[0].value)),
        other => panic!("not a struct: {:?}", other),
    }
}
