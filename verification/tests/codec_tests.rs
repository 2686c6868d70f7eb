use tagcodec::codec::{decode, encode, DecodeError};
use tagcodec::model::{ArmDecl, ArmShape, FieldDecl, FieldType, Model, PrimKind};
use tagcodec::shapes::{
    data_model, EnumData, EnumDataOne, EnumDataThree, EnumDataThreeV1, EnumDataThreeV2,
    EnumDataTwo, EnumDataTwoV1, EnumDataTwoV2, SHAPE_DATA, SHAPE_DATA_ONE, SHAPE_DATA_THREE,
};
use tagcodec::value::{check_value, eq_value, Value};
use tagcodec::wire::WireValue;

fn obj_get<'a>(w: &'a WireValue, key: &str) -> Option<&'a WireValue> {
    match w {
        WireValue::Object(entries) => {
            for e in entries {
                if e.0 == key {
                    return Some(&e.1);
                }
            }
            None
        }
        _ => None,
    }
}

fn obj_len(w: &WireValue) -> usize {
    match w {
        WireValue::Object(entries) => entries.len(),
        _ => panic!("not an object"),
    }
}

fn as_text(w: &WireValue) -> &str {
    match w {
        WireValue::Text(s) => s,
        _ => panic!("not a text node"),
    }
}

fn as_int(w: &WireValue) -> i64 {
    match w {
        WireValue::Int(n) => *n,
        _ => panic!("not an integer node"),
    }
}

fn as_bool(w: &WireValue) -> bool {
    match w {
        WireValue::Bool(b) => *b,
        _ => panic!("not a boolean node"),
    }
}

fn wire_eq(a: &WireValue, b: &WireValue) -> bool {
    match (a, b) {
        (WireValue::Text(x), WireValue::Text(y)) => x == y,
        (WireValue::Int(x), WireValue::Int(y)) => x == y,
        (WireValue::Bool(x), WireValue::Bool(y)) => x == y,
        (WireValue::Object(xs), WireValue::Object(ys)) => {
            xs.len() == ys.len()
                && xs
                    .iter()
                    .zip(ys.iter())
                    .all(|(p, q)| p.0 == q.0 && wire_eq(&p.1, &q.1))
        }
        _ => false,
    }
}

fn expect_err(r: Result<Value, DecodeError>) -> DecodeError {
    match r {
        Err(e) => e,
        Ok(v) => panic!("expected a decode error, got {:?}", v),
    }
}

fn text(s: &str) -> WireValue {
    WireValue::Text(s.to_string())
}

fn obj(entries: Vec<(&str, WireValue)>) -> WireValue {
    WireValue::Object(
        entries
            .into_iter()
            .map(|(k, v)| (k.to_string(), v))
            .collect(),
    )
}

fn data_one() -> EnumData {
    EnumData::One(EnumDataOne {
        f1: "My String".to_string(),
        f2: 42,
        f3: true,
    })
}

#[test]
fn scenario_flat_record() {
    let m = data_model().unwrap();
    let d1 = data_one();
    assert_eq!(d1, data_one());
    let v = d1.to_value();
    assert!(check_value(&m, FieldType::Entity(SHAPE_DATA), &v));
    let w = encode(&m, FieldType::Entity(SHAPE_DATA), &v);
    assert_eq!(as_text(obj_get(&w, "type").unwrap()), "one");
    let payload = obj_get(&w, "data").unwrap();
    assert_eq!(obj_len(payload), 3);
    assert_eq!(as_text(obj_get(payload, "f1").unwrap()), "My String");
    assert_eq!(as_int(obj_get(payload, "f2").unwrap()), 42);
    assert_eq!(as_bool(obj_get(payload, "f3").unwrap()), true);
    let back = decode(&m, SHAPE_DATA, &w, false).unwrap();
    assert!(eq_value(&back, &v));
    assert!(eq_value(&back, &data_one().to_value()));
}

fn data_two(inner: EnumDataTwoV1) -> EnumData {
    EnumData::Two(EnumDataTwo {
        f1: "Another String".to_string(),
        f2: 100,
        f3: inner,
    })
}

#[test]
fn scenario_inline_field_arm() {
    let m = data_model().unwrap();
    let d2 = data_two(EnumDataTwoV1::V1 {
        f1: "Inner String".to_string(),
        f2: 200,
        f3: true,
    });
    let v = d2.to_value();
    let w = encode(&m, FieldType::Entity(SHAPE_DATA), &v);
    assert_eq!(as_text(obj_get(&w, "type").unwrap()), "two");
    let outer = obj_get(&w, "data").unwrap();
    let f3 = obj_get(outer, "f3").unwrap();
    assert_eq!(as_text(obj_get(f3, "type").unwrap()), "V1");
    let inner = obj_get(f3, "data").unwrap();
    assert_eq!(obj_len(inner), 3);
    assert_eq!(as_text(obj_get(inner, "f1").unwrap()), "Inner String");
    assert_eq!(as_int(obj_get(inner, "f2").unwrap()), 200);
    assert_eq!(as_bool(obj_get(inner, "f3").unwrap()), true);
    let back = decode(&m, SHAPE_DATA, &w, false).unwrap();
    assert!(eq_value(&back, &v));
}

#[test]
fn scenario_payload_arm() {
    let m = data_model().unwrap();
    let nested = EnumDataTwoV2 {
        f4: "Inner String V2".to_string(),
        f5: 300,
        f6: false,
    };
    let nested_wire = encode(
        &m,
        FieldType::Entity(tagcodec::shapes::SHAPE_DATA_TWO_V2),
        &nested.to_value(),
    );
    let d2 = data_two(EnumDataTwoV1::V2(nested));
    let v = d2.to_value();
    let w = encode(&m, FieldType::Entity(SHAPE_DATA), &v);
    let f3 = obj_get(obj_get(&w, "data").unwrap(), "f3").unwrap();
    assert_eq!(as_text(obj_get(f3, "type").unwrap()), "V2");
    // The payload slot holds the nested record's own encoding.
    assert!(wire_eq(obj_get(f3, "data").unwrap(), &nested_wire));
    let back = decode(&m, SHAPE_DATA, &w, false).unwrap();
    assert!(eq_value(&back, &v));
}

#[test]
fn scenario_disjoint_field_arm() {
    let m = data_model().unwrap();
    let d2 = data_two(EnumDataTwoV1::V3 {
        f7: "Inner String V3".to_string(),
        f8: 400,
        f9: true,
    });
    let v = d2.to_value();
    let w = encode(&m, FieldType::Entity(SHAPE_DATA), &v);
    let f3 = obj_get(obj_get(&w, "data").unwrap(), "f3").unwrap();
    assert_eq!(as_text(obj_get(f3, "type").unwrap()), "V3");
    let back = decode(&m, SHAPE_DATA, &w, false).unwrap();
    assert!(eq_value(&back, &v));
    // The decoded inner union holds the third arm, not either other one.
    match &back {
        Value::Union(_, outer) => match outer.as_ref() {
            Value::Record(fields) => match &fields[2] {
                Value::Union(arm, _) => assert_eq!(*arm, 2),
                other => panic!("inner field is not a union: {:?}", other),
            },
            other => panic!("payload is not a record: {:?}", other),
        },
        other => panic!("decoded value is not a union: {:?}", other),
    }
}

#[test]
fn scenario_nested_union_arm() {
    let m = data_model().unwrap();
    let d3 = EnumData::Three(EnumDataThree::V1(EnumDataThreeV1 {
        f1: "Deep".to_string(),
        f2: 7,
        f3: false,
    }));
    let v = d3.to_value();
    let w = encode(&m, FieldType::Entity(SHAPE_DATA), &v);
    assert_eq!(as_text(obj_get(&w, "type").unwrap()), "three");
    let inner = obj_get(&w, "data").unwrap();
    assert_eq!(as_text(obj_get(inner, "type").unwrap()), "V1");
    let back = decode(&m, SHAPE_DATA, &w, false).unwrap();
    assert!(eq_value(&back, &v));

    let d3b = EnumData::Three(EnumDataThree::V2(EnumDataThreeV2 {
        f4: "Deep2".to_string(),
        f5: -5,
        f6: true,
    }));
    let vb = d3b.to_value();
    let wb = encode(&m, FieldType::Entity(SHAPE_DATA), &vb);
    let backb = decode(&m, SHAPE_DATA, &wb, false).unwrap();
    assert!(eq_value(&backb, &vb));
    assert!(!eq_value(&backb, &v));
}

#[test]
fn round_trip_in_strict_mode() {
    let m = data_model().unwrap();
    let v = data_two(EnumDataTwoV1::V1 {
        f1: "s".to_string(),
        f2: 1,
        f3: false,
    })
    .to_value();
    let w = encode(&m, FieldType::Entity(SHAPE_DATA), &v);
    let back = decode(&m, SHAPE_DATA, &w, true).unwrap();
    assert!(eq_value(&back, &v));
}

#[test]
fn encoding_is_deterministic() {
    let m = data_model().unwrap();
    let v1 = data_one().to_value();
    let v2 = data_one().to_value();
    let w1 = encode(&m, FieldType::Entity(SHAPE_DATA), &v1);
    let w2 = encode(&m, FieldType::Entity(SHAPE_DATA), &v2);
    assert!(wire_eq(&w1, &w2));
}

#[test]
fn unknown_tag_is_rejected() {
    let m = data_model().unwrap();
    let w = obj(vec![
        ("type", text("nope")),
        ("data", obj(vec![("f1", text("x"))])),
    ]);
    let r = decode(&m, SHAPE_DATA, &w, false);
    assert_eq!(expect_err(r), DecodeError::UnknownVariant("nope".to_string()));
}

#[test]
fn missing_field_is_rejected() {
    let m = data_model().unwrap();
    let w = obj(vec![("f1", text("x")), ("f3", WireValue::Bool(true))]);
    let r = decode(&m, SHAPE_DATA_ONE, &w, false);
    assert_eq!(expect_err(r), DecodeError::MissingField("f2".to_string()));
}

#[test]
fn type_mismatch_names_field_and_kind() {
    let m = data_model().unwrap();
    let w = obj(vec![
        ("f1", text("x")),
        ("f2", text("not a number")),
        ("f3", WireValue::Bool(true)),
    ]);
    let r = decode(&m, SHAPE_DATA_ONE, &w, false);
    assert_eq!(
        expect_err(r),
        DecodeError::TypeMismatch("f2".to_string(), FieldType::Prim(PrimKind::Int32))
    );
}

#[test]
fn integer_out_of_range_is_a_mismatch() {
    let m = data_model().unwrap();
    let w = obj(vec![
        ("f1", text("x")),
        ("f2", WireValue::Int(2147483648)),
        ("f3", WireValue::Bool(true)),
    ]);
    let r = decode(&m, SHAPE_DATA_ONE, &w, false);
    assert_eq!(
        expect_err(r),
        DecodeError::TypeMismatch("f2".to_string(), FieldType::Prim(PrimKind::Int32))
    );
}

#[test]
fn full_primitive_ranges_round_trip() {
    let mut m = Model::new();
    let rid = m
        .declare_record(
            "R".to_string(),
            vec![
                FieldDecl {
                    name: "i".to_string(),
                    ty: FieldType::Prim(PrimKind::Int32),
                },
                FieldDecl {
                    name: "u".to_string(),
                    ty: FieldType::Prim(PrimKind::UInt32),
                },
            ],
        )
        .unwrap();
    let v = Value::Record(vec![Value::Int(i32::MIN), Value::UInt(u32::MAX)]);
    let w = encode(&m, FieldType::Entity(rid), &v);
    assert_eq!(as_int(obj_get(&w, "i").unwrap()), -2147483648);
    assert_eq!(as_int(obj_get(&w, "u").unwrap()), 4294967295);
    let back = decode(&m, rid, &w, true).unwrap();
    assert!(eq_value(&back, &v));
}

#[test]
fn negative_int_rejected_for_unsigned_field() {
    let mut m = Model::new();
    let rid = m
        .declare_record(
            "R".to_string(),
            vec![FieldDecl {
                name: "u".to_string(),
                ty: FieldType::Prim(PrimKind::UInt32),
            }],
        )
        .unwrap();
    let w = obj(vec![("u", WireValue::Int(-1))]);
    let r = decode(&m, rid, &w, false);
    assert_eq!(
        expect_err(r),
        DecodeError::TypeMismatch("u".to_string(), FieldType::Prim(PrimKind::UInt32))
    );
}

#[test]
fn malformed_wire_nodes_are_rejected() {
    let m = data_model().unwrap();
    // A record shape needs an object.
    assert_eq!(
        expect_err(decode(&m, SHAPE_DATA_ONE, &WireValue::Int(3), false)),
        DecodeError::MalformedWireNode
    );
    // A union node without its tag slot.
    assert_eq!(
        expect_err(decode(&m, SHAPE_DATA, &obj(vec![("data", text("x"))]), false)),
        DecodeError::MalformedWireNode
    );
    // A union node whose tag slot is not text.
    assert_eq!(
        expect_err(decode(
            &m,
            SHAPE_DATA,
            &obj(vec![("type", WireValue::Int(1)), ("data", text("x"))]),
            false
        )),
        DecodeError::MalformedWireNode
    );
    // A union node without its payload slot.
    assert_eq!(
        expect_err(decode(&m, SHAPE_DATA, &obj(vec![("type", text("one"))]), false)),
        DecodeError::MalformedWireNode
    );
}

#[test]
fn lax_mode_ignores_unknown_keys() {
    let m = data_model().unwrap();
    let w = obj(vec![
        ("f1", text("x")),
        ("extra", text("ignored")),
        ("f2", WireValue::Int(1)),
        ("f3", WireValue::Bool(false)),
    ]);
    let back = decode(&m, SHAPE_DATA_ONE, &w, false).unwrap();
    let expected = EnumDataOne {
        f1: "x".to_string(),
        f2: 1,
        f3: false,
    }
    .to_value();
    assert!(eq_value(&back, &expected));
}

#[test]
fn strict_mode_rejects_unknown_keys() {
    let m = data_model().unwrap();
    let w = obj(vec![
        ("f1", text("x")),
        ("extra", text("ignored")),
        ("f2", WireValue::Int(1)),
        ("f3", WireValue::Bool(false)),
    ]);
    let r = decode(&m, SHAPE_DATA_ONE, &w, true);
    assert_eq!(expect_err(r), DecodeError::MalformedWireNode);
}

#[test]
fn strict_mode_rejects_extra_union_keys() {
    let m = data_model().unwrap();
    let v = data_one().to_value();
    let w = encode(&m, FieldType::Entity(SHAPE_DATA), &v);
    let with_extra = match w {
        WireValue::Object(mut entries) => {
            entries.push(("noise".to_string(), WireValue::Bool(true)));
            WireValue::Object(entries)
        }
        _ => panic!("encoded union is not an object"),
    };
    assert!(decode(&m, SHAPE_DATA, &with_extra, false).is_ok());
    assert_eq!(
        expect_err(decode(&m, SHAPE_DATA, &with_extra, true)),
        DecodeError::MalformedWireNode
    );
}

#[test]
fn identical_payloads_are_disambiguated_by_tag_only() {
    let mut m = Model::new();
    let rid = m
        .declare_record(
            "Payload".to_string(),
            vec![FieldDecl {
                name: "x".to_string(),
                ty: FieldType::Prim(PrimKind::Int32),
            }],
        )
        .unwrap();
    let uid = m
        .declare_union(
            "U".to_string(),
            vec![
                ArmDecl {
                    tag: "a".to_string(),
                    name: "A".to_string(),
                    shape: ArmShape::Entity(rid),
                },
                ArmDecl {
                    tag: "b".to_string(),
                    name: "B".to_string(),
                    shape: ArmShape::Entity(rid),
                },
            ],
        )
        .unwrap();
    let va = Value::Union(0, Box::new(Value::Record(vec![Value::Int(9)])));
    let vb = Value::Union(1, Box::new(Value::Record(vec![Value::Int(9)])));
    let wa = encode(&m, FieldType::Entity(uid), &va);
    let wb = encode(&m, FieldType::Entity(uid), &vb);
    assert_eq!(as_text(obj_get(&wa, "type").unwrap()), "a");
    assert_eq!(as_text(obj_get(&wb, "type").unwrap()), "b");
    let back_a = decode(&m, uid, &wa, true).unwrap();
    let back_b = decode(&m, uid, &wb, true).unwrap();
    assert!(eq_value(&back_a, &va));
    assert!(eq_value(&back_b, &vb));
    assert!(!eq_value(&back_a, &vb));
    assert!(!eq_value(&back_b, &va));
}

#[test]
fn eq_value_is_structural() {
    let a = data_one().to_value();
    let b = data_one().to_value();
    assert!(eq_value(&a, &b));
    let c = EnumData::One(EnumDataOne {
        f1: "My String".to_string(),
        f2: 43,
        f3: true,
    })
    .to_value();
    assert!(!eq_value(&a, &c));
    let d = Value::Union(0, Box::new(Value::Int(1)));
    let e = Value::Union(1, Box::new(Value::Int(1)));
    assert!(!eq_value(&d, &e));
    assert!(!eq_value(&Value::Int(1), &Value::UInt(1)));
}

#[test]
fn check_value_matches_the_declared_shape() {
    let m = data_model().unwrap();
    let good = data_one().to_value();
    assert!(check_value(&m, FieldType::Entity(SHAPE_DATA), &good));
    assert!(!check_value(&m, FieldType::Entity(SHAPE_DATA_ONE), &good));
    assert!(!check_value(
        &m,
        FieldType::Entity(SHAPE_DATA_THREE),
        &good
    ));
    assert!(check_value(
        &m,
        FieldType::Prim(PrimKind::Text),
        &Value::Text("t".to_string())
    ));
    assert!(!check_value(
        &m,
        FieldType::Prim(PrimKind::Text),
        &Value::Int(1)
    ));
    // Wrong arity of a record value.
    let short = Value::Union(0, Box::new(Value::Record(vec![Value::Text("x".to_string())])));
    assert!(!check_value(&m, FieldType::Entity(SHAPE_DATA), &short));
}

#[test]
fn undeclared_shape_index_is_malformed() {
    let m = data_model().unwrap();
    let w = obj(vec![("f1", text("x"))]);
    assert_eq!(
        expect_err(decode(&m, 99, &w, false)),
        DecodeError::MalformedWireNode
    );
}

#[test]
fn record_shape_decodes_directly() {
    let m = data_model().unwrap();
    let one = EnumDataOne {
        f1: "direct".to_string(),
        f2: -7,
        f3: false,
    };
    let v = one.to_value();
    let w = encode(&m, FieldType::Entity(SHAPE_DATA_ONE), &v);
    assert_eq!(obj_len(&w), 3);
    let back = decode(&m, SHAPE_DATA_ONE, &w, true).unwrap();
    assert!(eq_value(&back, &v));
}

#[test]
fn empty_record_round_trips() {
    let mut m = Model::new();
    let rid = m.declare_record("Empty".to_string(), vec![]).unwrap();
    let v = Value::Record(vec![]);
    let w = encode(&m, FieldType::Entity(rid), &v);
    assert_eq!(obj_len(&w), 0);
    let back = decode(&m, rid, &w, true).unwrap();
    assert!(eq_value(&back, &v));
}
