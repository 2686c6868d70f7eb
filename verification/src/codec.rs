//! The codec: bidirectional conversion between constructed values and wire
//! nodes, driven by the model.
//!
//! A record encodes as an object holding one entry per declared field, in
//! declaration order.  A union encodes as an object with exactly two
//! entries: the active arm's wire tag under the tag slot, and the arm's
//! payload under the payload slot.  Decoding reverses both, reporting a
//! typed error for every ill-formed input; in strict mode an object entry
//! under a key the model does not declare is rejected as malformed.

use vstd::prelude::*;

use crate::model::{
    ArmDeclV, ArmShape, ArmShapeV, FieldDecl, FieldDeclV, FieldType, Model, ModelV, PrimKind,
    Shape, ShapeV, arms_view, decls_view, lemma_tag_index, tag_index,
};
use crate::value::{Value, ValueV, value_view, values_view};
use crate::wire::{entries_view, find_key, key_index, wire_view, WireV, WireValue};

verus! {

/// Why a wire node was rejected during decoding.
#[derive(Clone, PartialEq, Eq, Debug)]
pub enum DecodeError {
    /// A declared record field is absent from the wire object.
    MissingField(String),
    /// A field is present but does not hold the declared kind; carries the
    /// field's name and its declared type.
    TypeMismatch(String, FieldType),
    /// The wire tag names no arm of the union being decoded.
    UnknownVariant(String),
    /// The wire node is not the keyed structure the shape calls for, a
    /// union node is missing its tag or payload slot, or, in strict mode,
    /// an object holds an undeclared key.
    MalformedWireNode,
}

/// Mathematical view of a decode error.
pub ghost enum DecodeErrorV {
    MissingField(Seq<char>),
    TypeMismatch(Seq<char>, FieldType),
    UnknownVariant(Seq<char>),
    MalformedWireNode,
}

impl View for DecodeError {
    type V = DecodeErrorV;

    open spec fn view(&self) -> DecodeErrorV {
        match self {
            DecodeError::MissingField(s) => DecodeErrorV::MissingField(s@),
            DecodeError::TypeMismatch(s, t) => DecodeErrorV::TypeMismatch(s@, *t),
            DecodeError::UnknownVariant(s) => DecodeErrorV::UnknownVariant(s@),
            DecodeError::MalformedWireNode => DecodeErrorV::MalformedWireNode,
        }
    }
}

/// The key of a union object's tag slot.
pub open spec fn type_key() -> Seq<char> {
    "type"@
}

/// The key of a union object's payload slot.
pub open spec fn data_key() -> Seq<char> {
    "data"@
}

/// The wire form of one primitive value.
pub open spec fn encode_prim(v: ValueV) -> WireV {
    match v {
        ValueV::Text(s) => WireV::Text(s),
        ValueV::Int(n) => WireV::Int(n as i64),
        ValueV::UInt(n) => WireV::Int(n as i64),
        ValueV::Bool(b) => WireV::Bool(b),
        _ => WireV::Bool(false),
    }
}

/// The wire form of a value against a field type.  Total as a function;
/// meaningful on values that conform to the type (`encode` requires that).
pub open spec fn encode_spec(m: ModelV, ty: FieldType, v: ValueV) -> WireV
    decreases v, 1int,
{
    match ty {
        FieldType::Prim(_) => encode_prim(v),
        FieldType::Entity(s) => {
            if (s as int) >= m.shapes.len() {
                WireV::Bool(false)
            } else {
                match m.shapes[s as int] {
                    ShapeV::Record { fields, .. } => match v {
                        ValueV::Record(vs) => WireV::Object(encode_fields_spec(m, fields, vs)),
                        _ => WireV::Bool(false),
                    },
                    ShapeV::Union { arms, .. } => match v {
                        ValueV::Union(arm, payload) => {
                            if (arm as int) >= arms.len() {
                                WireV::Bool(false)
                            } else {
                                let pw = match arms[arm as int].shape {
                                    ArmShapeV::Inline(fields) => match *payload {
                                        ValueV::Record(vs) => WireV::Object(
                                            encode_fields_spec(m, fields, vs),
                                        ),
                                        _ => WireV::Bool(false),
                                    },
                                    ArmShapeV::Entity(s2) => encode_spec(
                                        m,
                                        FieldType::Entity(s2),
                                        *payload,
                                    ),
                                };
                                WireV::Object(
                                    seq![
                                        (type_key(), WireV::Text(arms[arm as int].tag)),
                                        (data_key(), pw),
                                    ],
                                )
                            }
                        },
                        _ => WireV::Bool(false),
                    },
                }
            }
        },
    }
}

/// The wire entries of a record: one entry per declared field, the field's
/// name keyed to the encoded field value, in declaration order.
pub open spec fn encode_fields_spec(m: ModelV, fields: Seq<FieldDeclV>, vs: Seq<ValueV>) -> Seq<
    (Seq<char>, WireV),
>
    decreases vs, 2int,
{
    Seq::new(
        vs.len(),
        |i: int|
            if 0 <= i < vs.len() {
                (fields[i].name, encode_spec(m, fields[i].ty, vs[i]))
            } else {
                (Seq::empty(), WireV::Bool(false))
            },
    )
}

/// The decoded value of one primitive, or the error naming the field.
pub open spec fn decode_prim_spec(k: PrimKind, fname: Seq<char>, w: WireV) -> Result<
    ValueV,
    DecodeErrorV,
> {
    match (k, w) {
        (PrimKind::Text, WireV::Text(s)) => Ok(ValueV::Text(s)),
        (PrimKind::Int32, WireV::Int(n)) => {
            if -2147483648 <= (n as int) <= 2147483647 {
                Ok(ValueV::Int(n as i32))
            } else {
                Err(DecodeErrorV::TypeMismatch(fname, FieldType::Prim(k)))
            }
        },
        (PrimKind::UInt32, WireV::Int(n)) => {
            if 0 <= (n as int) <= 4294967295 {
                Ok(ValueV::UInt(n as u32))
            } else {
                Err(DecodeErrorV::TypeMismatch(fname, FieldType::Prim(k)))
            }
        },
        (PrimKind::Boolean, WireV::Bool(b)) => Ok(ValueV::Bool(b)),
        _ => Err(DecodeErrorV::TypeMismatch(fname, FieldType::Prim(k))),
    }
}

/// Some declared field carries this name.
pub open spec fn key_declared(fields: Seq<FieldDeclV>, key: Seq<char>) -> bool {
    exists|i: int| 0 <= i < fields.len() && (#[trigger] fields[i].name) == key
}

/// In strict mode, every key of a record object must be a declared field
/// name.
pub open spec fn record_keys_ok(fields: Seq<FieldDeclV>, ofs: Seq<(Seq<char>, WireV)>) -> bool {
    forall|j: int| 0 <= j < ofs.len() ==> key_declared(fields, (#[trigger] ofs[j]).0)
}

/// In strict mode, every key of a union object must be the tag or payload
/// slot.
pub open spec fn union_keys_ok(ofs: Seq<(Seq<char>, WireV)>) -> bool {
    forall|j: int|
        0 <= j < ofs.len() ==> (#[trigger] ofs[j]).0 == type_key() || ofs[j].0 == data_key()
}

/// The decoded value of a wire node against a field type, or the first
/// error, exactly as the decoder reports it.  `fname` is the name of the
/// field being decoded, carried into primitive mismatch errors.
pub open spec fn decode_spec(
    m: ModelV,
    ty: FieldType,
    fname: Seq<char>,
    w: WireV,
    strict: bool,
) -> Result<ValueV, DecodeErrorV>
    decreases w, 1int, 0int,
{
    match ty {
        FieldType::Prim(k) => decode_prim_spec(k, fname, w),
        FieldType::Entity(s) => {
            if (s as int) >= m.shapes.len() {
                Err(DecodeErrorV::MalformedWireNode)
            } else {
                match m.shapes[s as int] {
                    ShapeV::Record { fields, .. } => match w {
                        WireV::Object(ofs) => {
                            if strict && !record_keys_ok(fields, ofs) {
                                Err(DecodeErrorV::MalformedWireNode)
                            } else {
                                match decode_fields_from(m, fields, 0, ofs, strict) {
                                    Ok(vals) => Ok(ValueV::Record(vals)),
                                    Err(e) => Err(e),
                                }
                            }
                        },
                        _ => Err(DecodeErrorV::MalformedWireNode),
                    },
                    ShapeV::Union { arms, .. } => match w {
                        WireV::Object(ofs) => {
                            let ti = key_index(ofs, type_key());
                            if !(0 <= ti < ofs.len() && ofs[ti].0 == type_key()) {
                                Err(DecodeErrorV::MalformedWireNode)
                            } else {
                                match ofs[ti].1 {
                                    WireV::Text(tag) => {
                                        let ai = tag_index(arms, tag);
                                        if !(0 <= ai < arms.len() && arms[ai].tag == tag) {
                                            Err(DecodeErrorV::UnknownVariant(tag))
                                        } else {
                                            let di = key_index(ofs, data_key());
                                            if !(0 <= di < ofs.len() && ofs[di].0 == data_key()) {
                                                Err(DecodeErrorV::MalformedWireNode)
                                            } else if strict && !union_keys_ok(ofs) {
                                                Err(DecodeErrorV::MalformedWireNode)
                                            } else {
                                                match arms[ai].shape {
                                                    ArmShapeV::Inline(fields) => match ofs[di].1 {
                                                        WireV::Object(pofs) => {
                                                            if strict && !record_keys_ok(
                                                                fields,
                                                                pofs,
                                                            ) {
                                                                Err(DecodeErrorV::MalformedWireNode)
                                                            } else {
                                                                match decode_fields_from(
                                                                    m,
                                                                    fields,
                                                                    0,
                                                                    pofs,
                                                                    strict,
                                                                ) {
                                                                    Ok(vals) => Ok(
                                                                        ValueV::Union(
                                                                            ai as usize,
                                                                            Box::new(
                                                                                ValueV::Record(vals),
                                                                            ),
                                                                        ),
                                                                    ),
                                                                    Err(e) => Err(e),
                                                                }
                                                            }
                                                        },
                                                        _ => Err(DecodeErrorV::MalformedWireNode),
                                                    },
                                                    ArmShapeV::Entity(s2) => {
                                                        match decode_spec(
                                                            m,
                                                            FieldType::Entity(s2),
                                                            fname,
                                                            ofs[di].1,
                                                            strict,
                                                        ) {
                                                            Ok(pv) => Ok(
                                                                ValueV::Union(
                                                                    ai as usize,
                                                                    Box::new(pv),
                                                                ),
                                                            ),
                                                            Err(e) => Err(e),
                                                        }
                                                    },
                                                }
                                            }
                                        }
                                    },
                                    _ => Err(DecodeErrorV::MalformedWireNode),
                                }
                            }
                        },
                        _ => Err(DecodeErrorV::MalformedWireNode),
                    },
                }
            }
        },
    }
}

/// The decoded values of a record's declared fields from index `at` on:
/// each field is looked up by name and decoded against its declared type;
/// the first failure is the result.
pub open spec fn decode_fields_from(
    m: ModelV,
    fields: Seq<FieldDeclV>,
    at: int,
    ofs: Seq<(Seq<char>, WireV)>,
    strict: bool,
) -> Result<Seq<ValueV>, DecodeErrorV>
    decreases ofs, 2int, fields.len() - at,
{
    if at < 0 || at >= fields.len() {
        Ok(Seq::empty())
    } else {
        let ki = key_index(ofs, fields[at].name);
        if !(0 <= ki < ofs.len() && ofs[ki].0 == fields[at].name) {
            Err(DecodeErrorV::MissingField(fields[at].name))
        } else {
            match decode_spec(m, fields[at].ty, fields[at].name, ofs[ki].1, strict) {
                Ok(v) => match decode_fields_from(m, fields, at + 1, ofs, strict) {
                    Ok(rest) => Ok(seq![v] + rest),
                    Err(e) => Err(e),
                },
                Err(e) => Err(e),
            }
        }
    }
}


/// The tag-slot key as an executable string.
fn type_key_string() -> (r: String)
    ensures
        r@ == type_key(),
{
    "type".to_owned()
}

/// The payload-slot key as an executable string.
fn data_key_string() -> (r: String)
    ensures
        r@ == data_key(),
{
    "data".to_owned()
}

/// Encode one primitive value.
fn encode_prim_exec(v: &Value) -> (r: WireValue)
    requires
        !(v@ is Record) && !(v@ is Union),
    ensures
        r@ == encode_prim(v@),
{
    match v {
        Value::Text(s) => WireValue::Text(s.clone()),
        Value::Int(n) => WireValue::Int(*n as i64),
        Value::UInt(n) => WireValue::Int(*n as i64),
        Value::Bool(b) => WireValue::Bool(*b),
        _ => {
            proof {
                assert(false);
            }
            WireValue::Bool(false)
        },
    }
}

/// Encode a conforming value against a field type, yielding exactly its
/// wire form.  Encoding is total on conforming values: it has no error
/// path.
#[verifier::loop_isolation(false)]
pub fn encode(m: &Model, ty: FieldType, v: &Value) -> (r: WireValue)
    requires
        crate::value::conforms(m@, ty, v@),
    ensures
        r@ == encode_spec(m@, ty, v@),
    decreases *v,
{
    proof {
        reveal_with_fuel(value_view, 2);
        reveal_with_fuel(values_view, 2);
    }
    match ty {
        FieldType::Prim(_) => encode_prim_exec(v),
        FieldType::Entity(s) => {
            proof {
                assert(s < m@.shapes.len());
                assert(m@.shapes[s as int] == m.shapes@[s as int]@);
            }
            match &m.shapes[s] {
                Shape::Record { fields, .. } => match v {
                    Value::Record(vs) => {
                        proof {
                            assert(*v == Value::Record(*vs));
                        }
                        let entries = encode_fields(m, fields, vs);
                        WireValue::Object(entries)
                    },
                    _ => {
                        proof {
                            assert(false);
                        }
                        WireValue::Bool(false)
                    },
                },
                Shape::Union { arms, .. } => match v {
                    Value::Union(arm, payload) => {
                        proof {
                            assert(*v == Value::Union(*arm, *payload));
                            assert(v@ is Union && v@->Union_0 == *arm);
                            assert((*v@->Union_1) == value_view(**payload));
                            assert(arms_view(arms@)[*arm as int] == arms@[*arm as int]@);
                        }
                        let tag = arms[*arm].tag.clone();
                        let pw = match &arms[*arm].shape {
                            ArmShape::Inline(fields) => match &**payload {
                                Value::Record(ps) => {
                                    proof {
                                        assert(**payload == Value::Record(*ps));
                                    }
                                    WireValue::Object(encode_fields(m, fields, ps))
                                },
                                _ => {
                                    proof {
                                        assert(false);
                                    }
                                    WireValue::Bool(false)
                                },
                            },
                            ArmShape::Entity(s2) => encode(m, FieldType::Entity(*s2), payload),
                        };
                        let mut entries: Vec<(String, WireValue)> = Vec::new();
                        entries.push((type_key_string(), WireValue::Text(tag)));
                        entries.push((data_key_string(), pw));
                        let r = WireValue::Object(entries);
                        proof {
                            assert(entries_view(entries@) =~= seq![
                                (type_key(), WireV::Text(arms_view(arms@)[*arm as int].tag)),
                                (data_key(), pw@),
                            ]);
                        }
                        r
                    },
                    _ => {
                        proof {
                            assert(false);
                        }
                        WireValue::Bool(false)
                    },
                },
            }
        },
    }
}

/// Encode each field value of a record under its declared field name.
#[verifier::loop_isolation(false)]
fn encode_fields(m: &Model, fields: &Vec<FieldDecl>, vs: &Vec<Value>) -> (r: Vec<
    (String, WireValue),
>)
    requires
        fields@.len() == vs@.len(),
        forall|i: int|
            0 <= i < vs@.len() ==> crate::value::conforms(
                m@,
                decls_view(fields@)[i].ty,
                #[trigger] values_view(vs@)[i],
            ),
    ensures
        entries_view(r@) == encode_fields_spec(m@, decls_view(fields@), values_view(vs@)),
    decreases vs@,
{
    proof {
        reveal_with_fuel(value_view, 2);
        reveal_with_fuel(values_view, 2);
    }
    let ghost fv = decls_view(fields@);
    let ghost vv = values_view(vs@);
    let mut entries: Vec<(String, WireValue)> = Vec::new();
    let mut i: usize = 0;
    while i < vs.len()
        invariant
            0 <= i <= vs.len(),
            entries@.len() == i,
            forall|k: int|
                0 <= k < i ==> #[trigger] entries_view(entries@)[k] == encode_fields_spec(
                    m@,
                    fv,
                    vv,
                )[k],
        decreases vs.len() - i,
    {
        proof {
            assert(vv[i as int] == value_view(vs@[i as int]));
            assert(crate::value::conforms(m@, fv[i as int].ty, vv[i as int]));
        }
        let w = encode(m, fields[i].ty, &vs[i]);
        let ghost old_entries = entries@;
        entries.push((fields[i].name.clone(), w));
        proof {
            assert(entries@ == old_entries.push((fields@[i as int].name, w)));
            assert forall|k: int| 0 <= k < i + 1 implies #[trigger] entries_view(entries@)[k]
                == encode_fields_spec(m@, fv, vv)[k] by {
                if k < i {
                    assert(entries@[k] == old_entries[k]);
                    assert(entries_view(entries@)[k] == entries_view(old_entries)[k]);
                } else {
                    assert(entries@[k] == (fields@[i as int].name, w));
                }
            }
        }
        i += 1;
    }
    proof {
        assert(entries_view(entries@) =~= encode_fields_spec(m@, fv, vv));
    }
    entries
}


/// Decode one primitive wire node for the named field.
fn decode_prim_exec(k: PrimKind, fname: &String, w: &WireValue) -> (r: Result<Value, DecodeError>)
    ensures
        match r {
            Ok(v) => decode_prim_spec(k, fname@, w@) == Ok::<ValueV, DecodeErrorV>(v@),
            Err(e) => decode_prim_spec(k, fname@, w@) == Err::<ValueV, DecodeErrorV>(e@),
        },
{
    match (k, w) {
        (PrimKind::Text, WireValue::Text(s)) => Ok(Value::Text(s.clone())),
        (PrimKind::Int32, WireValue::Int(n)) => {
            if -2147483648i64 <= *n && *n <= 2147483647i64 {
                Ok(Value::Int(*n as i32))
            } else {
                Err(DecodeError::TypeMismatch(fname.clone(), FieldType::Prim(k)))
            }
        },
        (PrimKind::UInt32, WireValue::Int(n)) => {
            if 0i64 <= *n && *n <= 4294967295i64 {
                Ok(Value::UInt(*n as u32))
            } else {
                Err(DecodeError::TypeMismatch(fname.clone(), FieldType::Prim(k)))
            }
        },
        (PrimKind::Boolean, WireValue::Bool(b)) => Ok(Value::Bool(*b)),
        _ => Err(DecodeError::TypeMismatch(fname.clone(), FieldType::Prim(k))),
    }
}

/// In strict mode: is every key of a record object a declared field name?
#[verifier::loop_isolation(false)]
fn check_record_keys(fields: &Vec<FieldDecl>, entries: &Vec<(String, WireValue)>) -> (r: bool)
    ensures
        r == record_keys_ok(decls_view(fields@), entries_view(entries@)),
{
    let ghost fv = decls_view(fields@);
    let ghost ev = entries_view(entries@);
    let mut j: usize = 0;
    while j < entries.len()
        invariant
            0 <= j <= entries.len(),
            forall|q: int| 0 <= q < j ==> key_declared(fv, (#[trigger] ev[q]).0),
        decreases entries.len() - j,
    {
        proof {
            assert(ev[j as int].0 == entries@[j as int].0@);
        }
        let mut found = false;
        let mut i: usize = 0;
        while i < fields.len()
            invariant
                0 <= i <= fields.len(),
                found ==> key_declared(fv, ev[j as int].0),
                !found ==> forall|p: int| 0 <= p < i ==> (#[trigger] fv[p].name) != ev[j as int].0,
            decreases fields.len() - i,
        {
            if !found && fields[i].name.eq(&entries[j].0) {
                found = true;
                proof {
                    assert(fv[i as int].name == ev[j as int].0);
                }
            }
            i += 1;
        }
        if !found {
            proof {
                assert(!key_declared(fv, ev[j as int].0));
                assert(!record_keys_ok(fv, ev));
            }
            return false;
        }
        j += 1;
    }
    true
}

/// In strict mode: is every key of a union object the tag or payload slot?
#[verifier::loop_isolation(false)]
fn check_union_keys(entries: &Vec<(String, WireValue)>) -> (r: bool)
    ensures
        r == union_keys_ok(entries_view(entries@)),
{
    let ghost ev = entries_view(entries@);
    let tkey = type_key_string();
    let dkey = data_key_string();
    let mut j: usize = 0;
    while j < entries.len()
        invariant
            0 <= j <= entries.len(),
            forall|q: int|
                0 <= q < j ==> (#[trigger] ev[q]).0 == type_key() || ev[q].0 == data_key(),
        decreases entries.len() - j,
    {
        proof {
            assert(ev[j as int].0 == entries@[j as int].0@);
        }
        let ok = entries[j].0.eq(&tkey) || entries[j].0.eq(&dkey);
        if !ok {
            proof {
                assert(!union_keys_ok(ev));
            }
            return false;
        }
        j += 1;
    }
    true
}

/// Find the arm carrying this wire tag, returning its index.
#[verifier::loop_isolation(false)]
fn find_arm(arms: &Vec<crate::model::ArmDecl>, tag: &String) -> (r: Option<usize>)
    ensures
        match r {
            Some(ix) => {
                &&& ix as int == tag_index(arms_view(arms@), tag@)
                &&& ix < arms@.len()
                &&& arms_view(arms@)[ix as int].tag == tag@
            },
            None => tag_index(arms_view(arms@), tag@) < 0,
        },
{
    let ghost av = arms_view(arms@);
    proof {
        assert(av.skip(0) =~= av);
    }
    let mut i: usize = 0;
    while i < arms.len()
        invariant
            0 <= i <= arms.len(),
            tag_index(av, tag@) == (if tag_index(av.skip(i as int), tag@) < 0 {
                -1int
            } else {
                tag_index(av.skip(i as int), tag@) + i
            }),
        decreases arms.len() - i,
    {
        let ghost pre = av.skip(i as int);
        proof {
            assert(pre[0] == av[i as int]);
        }
        if arms[i].tag.eq(tag) {
            return Some(i);
        }
        proof {
            assert(pre.drop_first() =~= av.skip(i + 1));
        }
        i += 1;
    }
    proof {
        assert(av.skip(i as int) =~= Seq::<ArmDeclV>::empty());
    }
    None
}

/// Decode a wire node against a declared shape.  No conditions are placed
/// on the input: every ill-formed wire node yields the error that
/// `decode_spec` names for it.
pub fn decode(m: &Model, shape: usize, w: &WireValue, strict: bool) -> (r: Result<
    Value,
    DecodeError,
>)
    ensures
        match r {
            Ok(v) => decode_spec(m@, FieldType::Entity(shape), Seq::empty(), w@, strict)
                == Ok::<ValueV, DecodeErrorV>(v@),
            Err(e) => decode_spec(m@, FieldType::Entity(shape), Seq::empty(), w@, strict)
                == Err::<ValueV, DecodeErrorV>(e@),
        },
{
    let root = String::new();
    decode_field(m, FieldType::Entity(shape), &root, w, strict)
}

/// Decode a wire node against a field type, for the named field.
#[verifier::loop_isolation(false)]
fn decode_field(m: &Model, ty: FieldType, fname: &String, w: &WireValue, strict: bool) -> (r:
    Result<Value, DecodeError>)
    ensures
        match r {
            Ok(v) => decode_spec(m@, ty, fname@, w@, strict) == Ok::<ValueV, DecodeErrorV>(v@),
            Err(e) => decode_spec(m@, ty, fname@, w@, strict) == Err::<ValueV, DecodeErrorV>(e@),
        },
    decreases *w,
{
    proof {
        reveal_with_fuel(wire_view, 2);
        reveal_with_fuel(entries_view, 2);
    }
    match ty {
        FieldType::Prim(k) => decode_prim_exec(k, fname, w),
        FieldType::Entity(s) => {
            if s >= m.shapes.len() {
                return Err(DecodeError::MalformedWireNode);
            }
            proof {
                assert(m@.shapes[s as int] == m.shapes@[s as int]@);
            }
            match &m.shapes[s] {
                Shape::Record { fields, .. } => match w {
                    WireValue::Object(entries) => {
                        proof {
                            assert(*w == WireValue::Object(*entries));
                            assert(w@ is Object && w@->Object_0 == entries_view(entries@));
                        }
                        if strict {
                            if !check_record_keys(fields, entries) {
                                return Err(DecodeError::MalformedWireNode);
                            }
                        }
                        match decode_fields(m, fields, entries, strict) {
                            Ok(vals) => {
                                let r = Value::Record(vals);
                                proof {
                                    reveal_with_fuel(value_view, 2);
                                }
                                Ok(r)
                            },
                            Err(e) => Err(e),
                        }
                    },
                    _ => Err(DecodeError::MalformedWireNode),
                },
                Shape::Union { arms, .. } => match w {
                    WireValue::Object(entries) => {
                        proof {
                            assert(*w == WireValue::Object(*entries));
                            assert(w@ is Object && w@->Object_0 == entries_view(entries@));
                        }
                        let ghost ofs = entries_view(entries@);
                        let tkey = type_key_string();
                        let ti = match find_key(entries, &tkey) {
                            Some(ti) => ti,
                            None => {
                                return Err(DecodeError::MalformedWireNode);
                            },
                        };
                        match &entries[ti].1 {
                            WireValue::Text(tag) => {
                                proof {
                                    assert(ofs[ti as int].1 == wire_view(entries@[ti as int].1));
                                    assert(ofs[ti as int].1 == WireV::Text(tag@));
                                }
                                let ai = match find_arm(arms, tag) {
                                    Some(ai) => ai,
                                    None => {
                                        proof {
                                            lemma_tag_index(arms_view(arms@), tag@);
                                        }
                                        return Err(DecodeError::UnknownVariant(tag.clone()));
                                    },
                                };
                                proof {
                                    assert(arms_view(arms@)[ai as int] == arms@[ai as int]@);
                                }
                                let dkey = data_key_string();
                                let di = match find_key(entries, &dkey) {
                                    Some(di) => di,
                                    None => {
                                        return Err(DecodeError::MalformedWireNode);
                                    },
                                };
                                if strict {
                                    if !check_union_keys(entries) {
                                        return Err(DecodeError::MalformedWireNode);
                                    }
                                }
                                proof {
                                    assert(ofs[di as int].1 == wire_view(entries@[di as int].1));
                                }
                                match &arms[ai].shape {
                                    ArmShape::Inline(fields) => match &entries[di].1 {
                                        WireValue::Object(pentries) => {
                                            proof {
                                                assert(entries@[di as int].1 == WireValue::Object(
                                                    *pentries,
                                                ));
                                                assert(ofs[di as int].1 == WireV::Object(
                                                    entries_view(pentries@),
                                                ));
                                            }
                                            if strict {
                                                if !check_record_keys(fields, pentries) {
                                                    return Err(DecodeError::MalformedWireNode);
                                                }
                                            }
                                            match decode_fields(m, fields, pentries, strict) {
                                                Ok(vals) => {
                                                    let r = Value::Union(
                                                        ai,
                                                        Box::new(Value::Record(vals)),
                                                    );
                                                    proof {
                                                        reveal_with_fuel(value_view, 3);
                                                    }
                                                    Ok(r)
                                                },
                                                Err(e) => Err(e),
                                            }
                                        },
                                        _ => Err(DecodeError::MalformedWireNode),
                                    },
                                    ArmShape::Entity(s2) => {
                                        match decode_field(
                                            m,
                                            FieldType::Entity(*s2),
                                            fname,
                                            &entries[di].1,
                                            strict,
                                        ) {
                                            Ok(pv) => {
                                                let r = Value::Union(ai, Box::new(pv));
                                                proof {
                                                    reveal_with_fuel(value_view, 2);
                                                }
                                                Ok(r)
                                            },
                                            Err(e) => Err(e),
                                        }
                                    },
                                }
                            },
                            _ => {
                                proof {
                                    assert(ofs[ti as int].1 == wire_view(entries@[ti as int].1));
                                    assert(!(ofs[ti as int].1 is Text));
                                }
                                Err(DecodeError::MalformedWireNode)
                            },
                        }
                    },
                    _ => Err(DecodeError::MalformedWireNode),
                },
            }
        },
    }
}

/// Decode each declared field of a record from a wire object.
#[verifier::loop_isolation(false)]
fn decode_fields(
    m: &Model,
    fields: &Vec<FieldDecl>,
    entries: &Vec<(String, WireValue)>,
    strict: bool,
) -> (r: Result<Vec<Value>, DecodeError>)
    ensures
        match r {
            Ok(vals) => decode_fields_from(
                m@,
                decls_view(fields@),
                0,
                entries_view(entries@),
                strict,
            ) == Ok::<Seq<ValueV>, DecodeErrorV>(values_view(vals@)),
            Err(e) => decode_fields_from(
                m@,
                decls_view(fields@),
                0,
                entries_view(entries@),
                strict,
            ) == Err::<Seq<ValueV>, DecodeErrorV>(e@),
        },
    decreases entries@,
{
    proof {
        reveal_with_fuel(value_view, 2);
        reveal_with_fuel(values_view, 2);
    }
    let ghost fv = decls_view(fields@);
    let ghost ofs = entries_view(entries@);
    let mut vals: Vec<Value> = Vec::new();
    let mut i: usize = 0;
    while i < fields.len()
        invariant
            0 <= i <= fields.len(),
            vals@.len() == i,
            decode_fields_from(m@, fv, 0, ofs, strict) == (match decode_fields_from(
                m@,
                fv,
                i as int,
                ofs,
                strict,
            ) {
                Ok(rest) => Ok::<Seq<ValueV>, DecodeErrorV>(values_view(vals@) + rest),
                Err(e) => Err::<Seq<ValueV>, DecodeErrorV>(e),
            }),
        decreases fields.len() - i,
    {
        let ki = match find_key(entries, &fields[i].name) {
            Some(ki) => ki,
            None => {
                return Err(DecodeError::MissingField(fields[i].name.clone()));
            },
        };
        proof {
            assert(ofs[ki as int].1 == wire_view(entries@[ki as int].1));
        }
        let v = match decode_field(m, fields[i].ty, &fields[i].name, &entries[ki].1, strict) {
            Ok(v) => v,
            Err(e) => {
                return Err(e);
            },
        };
        let ghost old_vals = vals@;
        vals.push(v);
        proof {
            assert(values_view(vals@) =~= values_view(old_vals).push(v@));
            assert(values_view(vals@) + (match decode_fields_from(m@, fv, i + 1, ofs, strict) {
                Ok(rest) => rest,
                Err(_) => Seq::<ValueV>::empty(),
            }) =~= values_view(old_vals) + (seq![v@] + (match decode_fields_from(
                m@,
                fv,
                i + 1,
                ofs,
                strict,
            ) {
                Ok(rest) => rest,
                Err(_) => Seq::<ValueV>::empty(),
            })));
        }
        i += 1;
    }
    proof {
        assert(values_view(vals@) + Seq::<ValueV>::empty() =~= values_view(vals@));
    }
    Ok(vals)
}

} // verus!
