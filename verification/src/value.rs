//! Constructed values of the type model, and what it means for a value to
//! conform to a declared shape.

use vstd::prelude::*;

use crate::model::{FieldType, ModelV, PrimKind, ArmShapeV, ShapeV, Model, arms_view};

verus! {

/// A constructed value.  A `Record` holds its field values in declaration
/// order; a `Union` holds the index of its one active arm and that arm's
/// payload (for an inline-field arm, a `Record` of the arm's fields).
#[derive(Debug)]
pub enum Value {
    Text(String),
    Int(i32),
    UInt(u32),
    Bool(bool),
    Record(Vec<Value>),
    Union(usize, Box<Value>),
}

/// Mathematical view of a value.
pub ghost enum ValueV {
    Text(Seq<char>),
    Int(i32),
    UInt(u32),
    Bool(bool),
    Record(Seq<ValueV>),
    Union(usize, Box<ValueV>),
}

/// The view of a value: the same tree over sequences.
pub open spec fn value_view(v: Value) -> ValueV
    decreases v, 1int,
{
    match v {
        Value::Text(s) => ValueV::Text(s@),
        Value::Int(n) => ValueV::Int(n),
        Value::UInt(n) => ValueV::UInt(n),
        Value::Bool(b) => ValueV::Bool(b),
        Value::Record(vs) => ValueV::Record(values_view(vs@)),
        Value::Union(arm, payload) => ValueV::Union(arm, Box::new(value_view(*payload))),
    }
}

/// The views of a sequence of values, elementwise.
pub open spec fn values_view(vs: Seq<Value>) -> Seq<ValueV>
    decreases vs, 2int,
{
    Seq::new(
        vs.len(),
        |i: int|
            if 0 <= i < vs.len() {
                value_view(vs[i])
            } else {
                ValueV::Bool(false)
            },
    )
}

impl View for Value {
    type V = ValueV;

    open spec fn view(&self) -> ValueV {
        value_view(*self)
    }
}

/// A value conforms to a field type under a model: a primitive value of the
/// declared kind, or, for an entity reference, a value of the referenced
/// shape — a record with one conforming value per declared field, or a union
/// whose active arm is declared and whose payload conforms to that arm.
pub open spec fn conforms(m: ModelV, ty: FieldType, v: ValueV) -> bool
    decreases v,
{
    match ty {
        FieldType::Prim(k) => match k {
            PrimKind::Text => v is Text,
            PrimKind::Int32 => v is Int,
            PrimKind::UInt32 => v is UInt,
            PrimKind::Boolean => v is Bool,
        },
        FieldType::Entity(s) => {
            &&& (s as int) < m.shapes.len()
            &&& match m.shapes[s as int] {
                ShapeV::Record { fields, .. } => match v {
                    ValueV::Record(vs) => {
                        &&& vs.len() == fields.len()
                        &&& forall|i: int|
                            0 <= i < vs.len() ==> conforms(m, fields[i].ty, #[trigger] vs[i])
                    },
                    _ => false,
                },
                ShapeV::Union { arms, .. } => match v {
                    ValueV::Union(arm, payload) => {
                        &&& (arm as int) < arms.len()
                        &&& match arms[arm as int].shape {
                            ArmShapeV::Inline(fields) => match *payload {
                                ValueV::Record(vs) => {
                                    &&& vs.len() == fields.len()
                                    &&& forall|i: int|
                                        0 <= i < vs.len() ==> conforms(
                                            m,
                                            fields[i].ty,
                                            #[trigger] vs[i],
                                        )
                                },
                                _ => false,
                            },
                            ArmShapeV::Entity(s2) => conforms(m, FieldType::Entity(s2), *payload),
                        }
                    },
                    _ => false,
                },
            }
        },
    }
}

/// Structural equality of two values: the same constructor, the same active
/// arm for unions, and equal field values throughout, exactly when the two
/// mathematical views are equal.
#[verifier::loop_isolation(false)]
pub fn eq_value(a: &Value, b: &Value) -> (r: bool)
    ensures
        r == (a@ == b@),
    decreases *a,
{
    proof {
        reveal_with_fuel(value_view, 2);
        reveal_with_fuel(values_view, 2);
    }
    match (a, b) {
        (Value::Text(x), Value::Text(y)) => x.eq(y),
        (Value::Int(x), Value::Int(y)) => *x == *y,
        (Value::UInt(x), Value::UInt(y)) => *x == *y,
        (Value::Bool(x), Value::Bool(y)) => *x == *y,
        (Value::Record(xs), Value::Record(ys)) => {
            proof {
                assert(*a == Value::Record(*xs));
                assert(*b == Value::Record(*ys));
            }
            if xs.len() != ys.len() {
                proof {
                    assert(a@ is Record);
                    assert(b@ is Record);
                    assert(a@->Record_0.len() == xs@.len());
                    assert(b@->Record_0.len() == ys@.len());
                    assert(a@ != b@);
                }
                return false;
            }
            let ghost va = a@->Record_0;
            let ghost vb = b@->Record_0;
            let mut i: usize = 0;
            while i < xs.len()
                invariant
                    0 <= i <= xs.len(),
                    forall|k: int| 0 <= k < i ==> va[k] == vb[k],
                decreases xs.len() - i,
            {
                if !eq_value(&xs[i], &ys[i]) {
                    assert(va[i as int] != vb[i as int]);
                    return false;
                }
                i += 1;
            }
            proof {
                assert(va =~= vb);
            }
            true
        },
        (Value::Union(ai, ap), Value::Union(bi, bp)) => {
            if *ai != *bi {
                return false;
            }
            eq_value(ap, bp)
        },
        _ => {
            false
        },
    }
}

/// Whether a value is a primitive of the given kind.
fn prim_conforms(k: PrimKind, v: &Value) -> (r: bool)
    ensures
        r == conforms(ModelV { shapes: Seq::empty() }, FieldType::Prim(k), v@),
        r == match k {
            PrimKind::Text => v@ is Text,
            PrimKind::Int32 => v@ is Int,
            PrimKind::UInt32 => v@ is UInt,
            PrimKind::Boolean => v@ is Bool,
        },
{
    match (k, v) {
        (PrimKind::Text, Value::Text(_)) => true,
        (PrimKind::Int32, Value::Int(_)) => true,
        (PrimKind::UInt32, Value::UInt(_)) => true,
        (PrimKind::Boolean, Value::Bool(_)) => true,
        _ => false,
    }
}

/// Check a value against a field type under a model, returning exactly
/// whether it conforms.
#[verifier::loop_isolation(false)]
pub fn check_value(m: &Model, ty: FieldType, v: &Value) -> (r: bool)
    ensures
        r == conforms(m@, ty, v@),
    decreases *v,
{
    proof {
        reveal_with_fuel(value_view, 2);
        reveal_with_fuel(values_view, 2);
    }
    match ty {
        FieldType::Prim(k) => {
            let pr = prim_conforms(k, v);
            proof {
                assert(pr == conforms(m@, ty, v@));
            }
            pr
        },
        FieldType::Entity(s) => {
            if s >= m.shapes.len() {
                proof {
                    assert(false == conforms(m@, ty, v@));
                }
                return false;
            }
            proof {
                assert(m@.shapes[s as int] == m.shapes@[s as int]@);
            }
            let res: bool = match &m.shapes[s] {
                crate::model::Shape::Record { fields, .. } => match v {
                    Value::Record(vs) => {
                        let rr = check_fields_conform(m, fields, vs);
                        proof {
                            assert(m.shapes@[s as int] matches crate::model::Shape::Record { fields: f, .. }
                                && f == *fields);
                            assert(m@.shapes[s as int] matches ShapeV::Record { fields: fv, .. }
                                && fv == crate::model::decls_view(fields@));
                            assert(*v == Value::Record(*vs));
                            assert(v@ is Record);
                            assert(v@->Record_0.len() == vs@.len());
                            assert forall|i: int| 0 <= i < vs@.len() implies #[trigger] v@->Record_0[i]
                                == value_view(vs@[i]) by {}
                            assert forall|i: int| 0 <= i < vs@.len() implies v@->Record_0[i]
                                == #[trigger] value_view(vs@[i]) by {}
                            assert(rr == conforms(m@, ty, v@));
                        }
                        rr
                    },
                    _ => {
                        proof {
                            assert(!(v@ is Record));
                            assert(false == conforms(m@, ty, v@));
                        }
                        false
                    },
                },
                crate::model::Shape::Union { arms, .. } => match v {
                    Value::Union(arm, payload) => {
                        proof {
                            assert(*v == Value::Union(*arm, *payload));
                            assert(v@ is Union);
                            assert(v@->Union_0 == *arm);
                            assert((*v@->Union_1) == value_view(**payload));
                        }
                        if *arm >= arms.len() {
                            proof {
                                assert(false == conforms(m@, ty, v@));
                            }
                            return false;
                        }
                        proof {
                            assert(arms_view(arms@)[*arm as int] == arms@[*arm as int]@);
                        }
                        let ru: bool = match &arms[*arm].shape {
                            crate::model::ArmShape::Inline(fields) => match &**payload {
                                Value::Record(vs) => {
                                    let rr = check_fields_conform(m, fields, vs);
                                    proof {
                                        assert(**payload == Value::Record(*vs));
                                        assert((*v@->Union_1) is Record);
                                        assert((*v@->Union_1)->Record_0.len() == vs@.len());
                                        assert forall|i: int| 0 <= i < vs@.len() implies #[trigger] (
                                        *v@->Union_1)->Record_0[i] == value_view(vs@[i]) by {}
                                        assert forall|i: int| 0 <= i < vs@.len() implies (
                                        *v@->Union_1)->Record_0[i] == #[trigger] value_view(vs@[i]) by {}
                                        assert(rr == conforms(m@, ty, v@));
                                    }
                                    rr
                                },
                                _ => {
                                    proof {
                                        assert(!((*v@->Union_1) is Record));
                                        assert(false == conforms(m@, ty, v@));
                                    }
                                    false
                                },
                            },
                            crate::model::ArmShape::Entity(s2) => {
                                let rr = check_value(m, FieldType::Entity(*s2), payload);
                                proof {
                                    assert(rr == conforms(m@, ty, v@));
                                }
                                rr
                            },
                        };
                        proof {
                            assert(ru == conforms(m@, ty, v@));
                        }
                        ru
                    },
                    _ => {
                        proof {
                            assert(!(v@ is Union));
                            assert(false == conforms(m@, ty, v@));
                        }
                        false
                    },
                },
            };
            proof {
                assert(res == conforms(m@, ty, v@));
            }
            res
        },
    }
}

/// Check each value of a record against its declared field type.
#[verifier::loop_isolation(false)]
fn check_fields_conform(m: &Model, fields: &Vec<crate::model::FieldDecl>, vs: &Vec<Value>) -> (r:
    bool)
    ensures
        r == ({
            &&& vs@.len() == fields@.len()
            &&& forall|i: int|
                0 <= i < vs@.len() ==> conforms(
                    m@,
                    crate::model::decls_view(fields@)[i].ty,
                    #[trigger] value_view(vs@[i]),
                )
        }),
    decreases vs@,
{
    proof {
        reveal_with_fuel(value_view, 2);
        reveal_with_fuel(values_view, 2);
    }
    if vs.len() != fields.len() {
        return false;
    }
    let mut i: usize = 0;
    while i < vs.len()
        invariant
            0 <= i <= vs.len(),
            forall|k: int|
                0 <= k < i ==> conforms(
                    m@,
                    crate::model::decls_view(fields@)[k].ty,
                    #[trigger] value_view(vs@[k]),
                ),
        decreases vs.len() - i,
    {
        if !check_value(m, fields[i].ty, &vs[i]) {
            return false;
        }
        i += 1;
    }
    true
}

} // verus!
