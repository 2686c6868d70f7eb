//! The example data shapes: plain records, a union with inline-field,
//! payload and disjoint-field arms, a union of payload arms, and a
//! top-level union with renamed wire tags — together with the model that
//! declares them and the conversion of each typed value into a model value.

use vstd::prelude::*;

use crate::model::{
    arm_ok, arms_ok, arms_view, decls_view, field_type_ok, fields_ok, lemma_arms_err_none,
    lemma_fields_err_none, valid_model, ArmDecl, ArmDeclV, ArmShape, ArmShapeV, FieldDecl,
    FieldDeclV, FieldType, Model, ModelError, ModelV, PrimKind, ShapeV,
};
use crate::value::conforms;
use crate::value::{value_view, values_view, Value, ValueV};

verus! {

/// A flat record of one text, one signed integer and one boolean field.
#[derive(Debug, PartialEq)]
pub struct EnumDataOne {
    pub f1: String,
    pub f2: i32,
    pub f3: bool,
}

/// A record whose third field is itself a tagged union.
#[derive(Debug, PartialEq)]
pub struct EnumDataTwo {
    pub f1: String,
    pub f2: i32,
    pub f3: EnumDataTwoV1,
}

/// A union with an inline-field arm, a payload arm wrapping a record, and
/// a second inline-field arm whose field names are disjoint from the first.
#[derive(Debug, PartialEq)]
pub enum EnumDataTwoV1 {
    V1 { f1: String, f2: u32, f3: bool },
    V2(EnumDataTwoV2),
    V3 { f7: String, f8: i32, f9: bool },
}

/// The record wrapped by the payload arm of `EnumDataTwoV1`.
#[derive(Debug, PartialEq)]
pub struct EnumDataTwoV2 {
    pub f4: String,
    pub f5: i32,
    pub f6: bool,
}

/// A union of two payload arms whose records have identical field layouts
/// up to names; only the wire tag tells them apart.
#[derive(Debug, PartialEq)]
pub enum EnumDataThree {
    V1(EnumDataThreeV1),
    V2(EnumDataThreeV2),
}

/// The record wrapped by the first arm of `EnumDataThree`.
#[derive(Debug, PartialEq)]
pub struct EnumDataThreeV1 {
    pub f1: String,
    pub f2: u32,
    pub f3: bool,
}

/// The record wrapped by the second arm of `EnumDataThree`.
#[derive(Debug, PartialEq)]
pub struct EnumDataThreeV2 {
    pub f4: String,
    pub f5: i32,
    pub f6: bool,
}

/// The top-level union: each arm wraps one entity and is renamed on the
/// wire ("one", "two", "three").
#[derive(Debug, PartialEq)]
pub enum EnumData {
    One(EnumDataOne),
    Two(EnumDataTwo),
    Three(EnumDataThree),
}

/// Shape index of `EnumDataOne` in the model `data_model` builds.
pub const SHAPE_DATA_ONE: usize = 0;

/// Shape index of `EnumDataTwoV2`.
pub const SHAPE_DATA_TWO_V2: usize = 1;

/// Shape index of `EnumDataTwoV1`.
pub const SHAPE_DATA_TWO_V1: usize = 2;

/// Shape index of `EnumDataTwo`.
pub const SHAPE_DATA_TWO: usize = 3;

/// Shape index of `EnumDataThreeV1`.
pub const SHAPE_DATA_THREE_V1: usize = 4;

/// Shape index of `EnumDataThreeV2`.
pub const SHAPE_DATA_THREE_V2: usize = 5;

/// Shape index of `EnumDataThree`.
pub const SHAPE_DATA_THREE: usize = 6;

/// Shape index of `EnumData`.
pub const SHAPE_DATA: usize = 7;

/// A field declaration view with a primitive kind.
pub open spec fn prim_field_v(name: Seq<char>, k: PrimKind) -> FieldDeclV {
    FieldDeclV { name: name, ty: FieldType::Prim(k) }
}

/// The declared fields of `EnumDataOne`.
pub open spec fn data_one_fields() -> Seq<FieldDeclV> {
    seq![
        prim_field_v("f1"@, PrimKind::Text),
        prim_field_v("f2"@, PrimKind::Int32),
        prim_field_v("f3"@, PrimKind::Boolean),
    ]
}

/// The declared fields of `EnumDataTwoV2`.
pub open spec fn data_two_v2_fields() -> Seq<FieldDeclV> {
    seq![
        prim_field_v("f4"@, PrimKind::Text),
        prim_field_v("f5"@, PrimKind::Int32),
        prim_field_v("f6"@, PrimKind::Boolean),
    ]
}

/// The inline fields of arm `V1` of `EnumDataTwoV1`.
pub open spec fn data_two_v1_inline_fields() -> Seq<FieldDeclV> {
    seq![
        prim_field_v("f1"@, PrimKind::Text),
        prim_field_v("f2"@, PrimKind::UInt32),
        prim_field_v("f3"@, PrimKind::Boolean),
    ]
}

/// The inline fields of arm `V3` of `EnumDataTwoV1`.
pub open spec fn data_two_v3_inline_fields() -> Seq<FieldDeclV> {
    seq![
        prim_field_v("f7"@, PrimKind::Text),
        prim_field_v("f8"@, PrimKind::Int32),
        prim_field_v("f9"@, PrimKind::Boolean),
    ]
}

/// The declared arms of `EnumDataTwoV1`.
pub open spec fn data_two_v1_arms() -> Seq<ArmDeclV> {
    seq![
        ArmDeclV { tag: "V1"@, name: "V1"@, shape: ArmShapeV::Inline(data_two_v1_inline_fields()) },
        ArmDeclV { tag: "V2"@, name: "V2"@, shape: ArmShapeV::Entity(SHAPE_DATA_TWO_V2) },
        ArmDeclV { tag: "V3"@, name: "V3"@, shape: ArmShapeV::Inline(data_two_v3_inline_fields()) },
    ]
}

/// The declared fields of `EnumDataTwo`.
pub open spec fn data_two_fields() -> Seq<FieldDeclV> {
    seq![
        prim_field_v("f1"@, PrimKind::Text),
        prim_field_v("f2"@, PrimKind::Int32),
        FieldDeclV { name: "f3"@, ty: FieldType::Entity(SHAPE_DATA_TWO_V1) },
    ]
}

/// The declared fields of `EnumDataThreeV1`.
pub open spec fn data_three_v1_fields() -> Seq<FieldDeclV> {
    seq![
        prim_field_v("f1"@, PrimKind::Text),
        prim_field_v("f2"@, PrimKind::UInt32),
        prim_field_v("f3"@, PrimKind::Boolean),
    ]
}

/// The declared fields of `EnumDataThreeV2`.
pub open spec fn data_three_v2_fields() -> Seq<FieldDeclV> {
    seq![
        prim_field_v("f4"@, PrimKind::Text),
        prim_field_v("f5"@, PrimKind::Int32),
        prim_field_v("f6"@, PrimKind::Boolean),
    ]
}

/// The declared arms of `EnumDataThree`.
pub open spec fn data_three_arms() -> Seq<ArmDeclV> {
    seq![
        ArmDeclV { tag: "V1"@, name: "V1"@, shape: ArmShapeV::Entity(SHAPE_DATA_THREE_V1) },
        ArmDeclV { tag: "V2"@, name: "V2"@, shape: ArmShapeV::Entity(SHAPE_DATA_THREE_V2) },
    ]
}

/// The declared arms of `EnumData`.
pub open spec fn data_arms() -> Seq<ArmDeclV> {
    seq![
        ArmDeclV { tag: "one"@, name: "One"@, shape: ArmShapeV::Entity(SHAPE_DATA_ONE) },
        ArmDeclV { tag: "two"@, name: "Two"@, shape: ArmShapeV::Entity(SHAPE_DATA_TWO) },
        ArmDeclV { tag: "three"@, name: "Three"@, shape: ArmShapeV::Entity(SHAPE_DATA_THREE) },
    ]
}

/// The whole model `data_model` builds, shape by shape.
pub open spec fn data_model_spec() -> ModelV {
    ModelV {
        shapes: seq![
            ShapeV::Record { name: "EnumDataOne"@, fields: data_one_fields() },
            ShapeV::Record { name: "EnumDataTwoV2"@, fields: data_two_v2_fields() },
            ShapeV::Union { name: "EnumDataTwoV1"@, arms: data_two_v1_arms() },
            ShapeV::Record { name: "EnumDataTwo"@, fields: data_two_fields() },
            ShapeV::Record { name: "EnumDataThreeV1"@, fields: data_three_v1_fields() },
            ShapeV::Record { name: "EnumDataThreeV2"@, fields: data_three_v2_fields() },
            ShapeV::Union { name: "EnumDataThree"@, arms: data_three_arms() },
            ShapeV::Union { name: "EnumData"@, arms: data_arms() },
        ],
    }
}

impl View for EnumDataOne {
    type V = ValueV;

    open spec fn view(&self) -> ValueV {
        ValueV::Record(
            seq![ValueV::Text(self.f1@), ValueV::Int(self.f2), ValueV::Bool(self.f3)],
        )
    }
}

impl View for EnumDataTwoV2 {
    type V = ValueV;

    open spec fn view(&self) -> ValueV {
        ValueV::Record(
            seq![ValueV::Text(self.f4@), ValueV::Int(self.f5), ValueV::Bool(self.f6)],
        )
    }
}

impl View for EnumDataTwoV1 {
    type V = ValueV;

    open spec fn view(&self) -> ValueV {
        match self {
            EnumDataTwoV1::V1 { f1, f2, f3 } => ValueV::Union(
                0,
                Box::new(
                    ValueV::Record(
                        seq![ValueV::Text(f1@), ValueV::UInt(*f2), ValueV::Bool(*f3)],
                    ),
                ),
            ),
            EnumDataTwoV1::V2(inner) => ValueV::Union(1, Box::new(inner@)),
            EnumDataTwoV1::V3 { f7, f8, f9 } => ValueV::Union(
                2,
                Box::new(
                    ValueV::Record(
                        seq![ValueV::Text(f7@), ValueV::Int(*f8), ValueV::Bool(*f9)],
                    ),
                ),
            ),
        }
    }
}

impl View for EnumDataTwo {
    type V = ValueV;

    open spec fn view(&self) -> ValueV {
        ValueV::Record(seq![ValueV::Text(self.f1@), ValueV::Int(self.f2), self.f3@])
    }
}

impl View for EnumDataThreeV1 {
    type V = ValueV;

    open spec fn view(&self) -> ValueV {
        ValueV::Record(
            seq![ValueV::Text(self.f1@), ValueV::UInt(self.f2), ValueV::Bool(self.f3)],
        )
    }
}

impl View for EnumDataThreeV2 {
    type V = ValueV;

    open spec fn view(&self) -> ValueV {
        ValueV::Record(
            seq![ValueV::Text(self.f4@), ValueV::Int(self.f5), ValueV::Bool(self.f6)],
        )
    }
}

impl View for EnumDataThree {
    type V = ValueV;

    open spec fn view(&self) -> ValueV {
        match self {
            EnumDataThree::V1(inner) => ValueV::Union(0, Box::new(inner@)),
            EnumDataThree::V2(inner) => ValueV::Union(1, Box::new(inner@)),
        }
    }
}

impl View for EnumData {
    type V = ValueV;

    open spec fn view(&self) -> ValueV {
        match self {
            EnumData::One(inner) => ValueV::Union(0, Box::new(inner@)),
            EnumData::Two(inner) => ValueV::Union(1, Box::new(inner@)),
            EnumData::Three(inner) => ValueV::Union(2, Box::new(inner@)),
        }
    }
}

/// Build a record value from three already-built field values.
fn record3(a: Value, b: Value, c: Value) -> (r: Value)
    ensures
        r@ == ValueV::Record(seq![a@, b@, c@]),
{
    let mut vs: Vec<Value> = Vec::new();
    vs.push(a);
    vs.push(b);
    vs.push(c);
    let r = Value::Record(vs);
    proof {
        reveal_with_fuel(value_view, 2);
        reveal_with_fuel(values_view, 2);
        assert(values_view(vs@) =~= seq![value_view(vs@[0]), value_view(vs@[1]), value_view(
            vs@[2],
        )]);
    }
    r
}

impl EnumDataOne {
    /// This record as a model value of shape `SHAPE_DATA_ONE`.
    pub fn to_value(&self) -> (r: Value)
        ensures
            r@ == self@,
    {
        record3(Value::Text(self.f1.clone()), Value::Int(self.f2), Value::Bool(self.f3))
    }
}

impl EnumDataTwoV2 {
    /// This record as a model value of shape `SHAPE_DATA_TWO_V2`.
    pub fn to_value(&self) -> (r: Value)
        ensures
            r@ == self@,
    {
        record3(Value::Text(self.f4.clone()), Value::Int(self.f5), Value::Bool(self.f6))
    }
}

impl EnumDataTwoV1 {
    /// This union value as a model value of shape `SHAPE_DATA_TWO_V1`.
    pub fn to_value(&self) -> (r: Value)
        ensures
            r@ == self@,
    {
        proof {
            reveal_with_fuel(value_view, 2);
        }
        match self {
            EnumDataTwoV1::V1 { f1, f2, f3 } => Value::Union(
                0,
                Box::new(record3(Value::Text(f1.clone()), Value::UInt(*f2), Value::Bool(*f3))),
            ),
            EnumDataTwoV1::V2(inner) => Value::Union(1, Box::new(inner.to_value())),
            EnumDataTwoV1::V3 { f7, f8, f9 } => Value::Union(
                2,
                Box::new(record3(Value::Text(f7.clone()), Value::Int(*f8), Value::Bool(*f9))),
            ),
        }
    }
}

impl EnumDataTwo {
    /// This record as a model value of shape `SHAPE_DATA_TWO`.
    pub fn to_value(&self) -> (r: Value)
        ensures
            r@ == self@,
    {
        record3(Value::Text(self.f1.clone()), Value::Int(self.f2), self.f3.to_value())
    }
}

impl EnumDataThreeV1 {
    /// This record as a model value of shape `SHAPE_DATA_THREE_V1`.
    pub fn to_value(&self) -> (r: Value)
        ensures
            r@ == self@,
    {
        record3(Value::Text(self.f1.clone()), Value::UInt(self.f2), Value::Bool(self.f3))
    }
}

impl EnumDataThreeV2 {
    /// This record as a model value of shape `SHAPE_DATA_THREE_V2`.
    pub fn to_value(&self) -> (r: Value)
        ensures
            r@ == self@,
    {
        record3(Value::Text(self.f4.clone()), Value::Int(self.f5), Value::Bool(self.f6))
    }
}

impl EnumDataThree {
    /// This union value as a model value of shape `SHAPE_DATA_THREE`.
    pub fn to_value(&self) -> (r: Value)
        ensures
            r@ == self@,
    {
        proof {
            reveal_with_fuel(value_view, 2);
        }
        match self {
            EnumDataThree::V1(inner) => Value::Union(0, Box::new(inner.to_value())),
            EnumDataThree::V2(inner) => Value::Union(1, Box::new(inner.to_value())),
        }
    }
}

impl EnumData {
    /// This union value as a model value of shape `SHAPE_DATA`.
    pub fn to_value(&self) -> (r: Value)
        ensures
            r@ == self@,
    {
        proof {
            reveal_with_fuel(value_view, 2);
        }
        match self {
            EnumData::One(inner) => Value::Union(0, Box::new(inner.to_value())),
            EnumData::Two(inner) => Value::Union(1, Box::new(inner.to_value())),
            EnumData::Three(inner) => Value::Union(2, Box::new(inner.to_value())),
        }
    }
}

/// One field declaration with a primitive kind.
fn prim_field(name: &str, k: PrimKind) -> (r: FieldDecl)
    ensures
        r@.name == name@,
        r@.ty == FieldType::Prim(k),
{
    FieldDecl { name: name.to_owned(), ty: FieldType::Prim(k) }
}

/// One field declaration referencing an already-declared shape.
fn entity_field(name: &str, shape: usize) -> (r: FieldDecl)
    ensures
        r@.name == name@,
        r@.ty == FieldType::Entity(shape),
{
    FieldDecl { name: name.to_owned(), ty: FieldType::Entity(shape) }
}

/// One union arm referencing an already-declared shape.
fn entity_arm(tag: &str, name: &str, shape: usize) -> (r: ArmDecl)
    ensures
        r@.tag == tag@,
        r@.name == name@,
        r@.shape == crate::model::ArmShapeV::Entity(shape),
{
    ArmDecl { tag: tag.to_owned(), name: name.to_owned(), shape: ArmShape::Entity(shape) }
}

/// Three fields with pairwise distinct names and well-formed types make a
/// well-formed field list.
proof fn lemma_fields3_ok(n: int, dv: Seq<FieldDeclV>, a: Seq<char>, b: Seq<char>, c: Seq<char>)
    requires
        dv.len() == 3,
        dv[0].name == a,
        dv[1].name == b,
        dv[2].name == c,
        a != b,
        a != c,
        b != c,
        field_type_ok(n, dv[0].ty),
        field_type_ok(n, dv[1].ty),
        field_type_ok(n, dv[2].ty),
    ensures
        fields_ok(n, dv),
{
    assert forall|i: int, j: int| 0 <= i < j < dv.len() implies #[trigger] dv[i].name
        != #[trigger] dv[j].name by {}
    assert forall|i: int| 0 <= i < dv.len() implies field_type_ok(n, #[trigger] dv[i].ty) by {}
}

/// The field-name trio "f1", "f2", "f3" is pairwise distinct (so are the
/// other trios; each is proved where it is used).
proof fn lemma_distinct_trio(a: Seq<char>, b: Seq<char>, c: Seq<char>, ca: char, cb: char, cc: char)
    requires
        a.len() > 0 && b.len() > 0 && c.len() > 0,
        a[a.len() - 1] == ca,
        b[b.len() - 1] == cb,
        c[c.len() - 1] == cc,
        ca != cb,
        ca != cc,
        cb != cc,
        a.len() == b.len() && b.len() == c.len(),
    ensures
        a != b,
        a != c,
        b != c,
{
}

/// The model declaring all the example shapes, at the `SHAPE_*` indices.
/// Every declaration in it validates, so building the model always
/// succeeds, and the result is exactly `data_model_spec()`.
pub fn data_model() -> (r: Result<Model, ModelError>)
    ensures
        r is Ok,
        r matches Ok(m) ==> m@ == data_model_spec() && valid_model(m@),
{
    let mut m = Model::new();

    let mut fs: Vec<FieldDecl> = Vec::new();
    fs.push(prim_field("f1", PrimKind::Text));
    fs.push(prim_field("f2", PrimKind::Int32));
    fs.push(prim_field("f3", PrimKind::Boolean));
    let ghost gfs0 = fs@;
    proof {
        reveal_strlit("f1");
        reveal_strlit("f2");
        reveal_strlit("f3");
        lemma_distinct_trio("f1"@, "f2"@, "f3"@, '1', '2', '3');
        lemma_fields3_ok(m@.shapes.len() as int, decls_view(fs@), "f1"@, "f2"@, "f3"@);
        lemma_fields_err_none(m@.shapes.len() as int, decls_view(fs@));
    }
    match m.declare_record("EnumDataOne".to_owned(), fs) {
        Ok(_) => {
            proof {
                assert(decls_view(gfs0) =~= data_one_fields());
                assert(m@.shapes[SHAPE_DATA_ONE as int] == data_model_spec().shapes[
                    SHAPE_DATA_ONE as int
                ]);
            }
        },
        Err(e) => {
            proof {
                assert(false);
            }
            return Err(e);
        },
    }

    let mut fs2: Vec<FieldDecl> = Vec::new();
    fs2.push(prim_field("f4", PrimKind::Text));
    fs2.push(prim_field("f5", PrimKind::Int32));
    fs2.push(prim_field("f6", PrimKind::Boolean));
    let ghost gfs1 = fs2@;
    proof {
        reveal_strlit("f4");
        reveal_strlit("f5");
        reveal_strlit("f6");
        lemma_distinct_trio("f4"@, "f5"@, "f6"@, '4', '5', '6');
        lemma_fields3_ok(m@.shapes.len() as int, decls_view(fs2@), "f4"@, "f5"@, "f6"@);
        lemma_fields_err_none(m@.shapes.len() as int, decls_view(fs2@));
    }
    match m.declare_record("EnumDataTwoV2".to_owned(), fs2) {
        Ok(_) => {
            proof {
                assert(decls_view(gfs1) =~= data_two_v2_fields());
                assert(m@.shapes[SHAPE_DATA_TWO_V2 as int] == data_model_spec().shapes[
                    SHAPE_DATA_TWO_V2 as int
                ]);
            }
        },
        Err(e) => {
            proof {
                assert(false);
            }
            return Err(e);
        },
    }

    let mut v1fs: Vec<FieldDecl> = Vec::new();
    v1fs.push(prim_field("f1", PrimKind::Text));
    v1fs.push(prim_field("f2", PrimKind::UInt32));
    v1fs.push(prim_field("f3", PrimKind::Boolean));
    let mut v3fs: Vec<FieldDecl> = Vec::new();
    v3fs.push(prim_field("f7", PrimKind::Text));
    v3fs.push(prim_field("f8", PrimKind::Int32));
    v3fs.push(prim_field("f9", PrimKind::Boolean));
    let ghost gv1fs = v1fs@;
    let ghost gv3fs = v3fs@;
    let mut arms2: Vec<ArmDecl> = Vec::new();
    arms2.push(
        ArmDecl { tag: "V1".to_owned(), name: "V1".to_owned(), shape: ArmShape::Inline(v1fs) },
    );
    arms2.push(entity_arm("V2", "V2", SHAPE_DATA_TWO_V2));
    arms2.push(
        ArmDecl { tag: "V3".to_owned(), name: "V3".to_owned(), shape: ArmShape::Inline(v3fs) },
    );
    let ghost garms2 = arms2@;
    proof {
        let n = m@.shapes.len() as int;
        let av = arms_view(arms2@);
        reveal_strlit("f1");
        reveal_strlit("f2");
        reveal_strlit("f3");
        reveal_strlit("f7");
        reveal_strlit("f8");
        reveal_strlit("f9");
        reveal_strlit("V1");
        reveal_strlit("V2");
        reveal_strlit("V3");
        lemma_distinct_trio("f1"@, "f2"@, "f3"@, '1', '2', '3');
        lemma_distinct_trio("f7"@, "f8"@, "f9"@, '7', '8', '9');
        lemma_distinct_trio("V1"@, "V2"@, "V3"@, '1', '2', '3');
        lemma_fields3_ok(n, decls_view(gv1fs), "f1"@, "f2"@, "f3"@);
        lemma_fields3_ok(n, decls_view(gv3fs), "f7"@, "f8"@, "f9"@);
        assert(av.len() == 3);
        assert(av[0].tag == "V1"@ && av[1].tag == "V2"@ && av[2].tag == "V3"@);
        assert(av[0].name == "V1"@ && av[1].name == "V2"@ && av[2].name == "V3"@);
        assert(av[0].shape == ArmShapeV::Inline(decls_view(gv1fs)));
        assert(av[1].shape == ArmShapeV::Entity(SHAPE_DATA_TWO_V2));
        assert(av[2].shape == ArmShapeV::Inline(decls_view(gv3fs)));
        assert forall|i: int, j: int| 0 <= i < j < av.len() implies #[trigger] av[i].tag
            != #[trigger] av[j].tag by {}
        assert forall|i: int, j: int| 0 <= i < j < av.len() implies #[trigger] av[i].name
            != #[trigger] av[j].name by {}
        assert forall|i: int| 0 <= i < av.len() implies arm_ok(n, #[trigger] av[i]) by {
            assert("V1"@.len() == 2 && "V2"@.len() == 2 && "V3"@.len() == 2);
        }
        assert(arms_ok(n, av));
        lemma_arms_err_none(n, av);
    }
    match m.declare_union("EnumDataTwoV1".to_owned(), arms2) {
        Ok(_) => {
            proof {
                assert(decls_view(gv1fs) =~= data_two_v1_inline_fields());
                assert(decls_view(gv3fs) =~= data_two_v3_inline_fields());
                assert(arms_view(garms2) =~= data_two_v1_arms());
                assert(m@.shapes[SHAPE_DATA_TWO_V1 as int] == data_model_spec().shapes[
                    SHAPE_DATA_TWO_V1 as int
                ]);
            }
        },
        Err(e) => {
            proof {
                assert(false);
            }
            return Err(e);
        },
    }

    let mut fs3: Vec<FieldDecl> = Vec::new();
    fs3.push(prim_field("f1", PrimKind::Text));
    fs3.push(prim_field("f2", PrimKind::Int32));
    fs3.push(entity_field("f3", SHAPE_DATA_TWO_V1));
    let ghost gfs3 = fs3@;
    proof {
        reveal_strlit("f1");
        reveal_strlit("f2");
        reveal_strlit("f3");
        lemma_distinct_trio("f1"@, "f2"@, "f3"@, '1', '2', '3');
        assert(decls_view(fs3@)[2].ty == FieldType::Entity(SHAPE_DATA_TWO_V1));
        lemma_fields3_ok(m@.shapes.len() as int, decls_view(fs3@), "f1"@, "f2"@, "f3"@);
        lemma_fields_err_none(m@.shapes.len() as int, decls_view(fs3@));
    }
    match m.declare_record("EnumDataTwo".to_owned(), fs3) {
        Ok(_) => {
            proof {
                assert(decls_view(gfs3) =~= data_two_fields());
                assert(m@.shapes[SHAPE_DATA_TWO as int] == data_model_spec().shapes[
                    SHAPE_DATA_TWO as int
                ]);
            }
        },
        Err(e) => {
            proof {
                assert(false);
            }
            return Err(e);
        },
    }

    let mut fs4: Vec<FieldDecl> = Vec::new();
    fs4.push(prim_field("f1", PrimKind::Text));
    fs4.push(prim_field("f2", PrimKind::UInt32));
    fs4.push(prim_field("f3", PrimKind::Boolean));
    let ghost gfs4 = fs4@;
    proof {
        reveal_strlit("f1");
        reveal_strlit("f2");
        reveal_strlit("f3");
        lemma_distinct_trio("f1"@, "f2"@, "f3"@, '1', '2', '3');
        lemma_fields3_ok(m@.shapes.len() as int, decls_view(fs4@), "f1"@, "f2"@, "f3"@);
        lemma_fields_err_none(m@.shapes.len() as int, decls_view(fs4@));
    }
    match m.declare_record("EnumDataThreeV1".to_owned(), fs4) {
        Ok(_) => {
            proof {
                assert(decls_view(gfs4) =~= data_three_v1_fields());
                assert(m@.shapes[SHAPE_DATA_THREE_V1 as int] == data_model_spec().shapes[
                    SHAPE_DATA_THREE_V1 as int
                ]);
            }
        },
        Err(e) => {
            proof {
                assert(false);
            }
            return Err(e);
        },
    }

    let mut fs5: Vec<FieldDecl> = Vec::new();
    fs5.push(prim_field("f4", PrimKind::Text));
    fs5.push(prim_field("f5", PrimKind::Int32));
    fs5.push(prim_field("f6", PrimKind::Boolean));
    let ghost gfs5 = fs5@;
    proof {
        reveal_strlit("f4");
        reveal_strlit("f5");
        reveal_strlit("f6");
        lemma_distinct_trio("f4"@, "f5"@, "f6"@, '4', '5', '6');
        lemma_fields3_ok(m@.shapes.len() as int, decls_view(fs5@), "f4"@, "f5"@, "f6"@);
        lemma_fields_err_none(m@.shapes.len() as int, decls_view(fs5@));
    }
    match m.declare_record("EnumDataThreeV2".to_owned(), fs5) {
        Ok(_) => {
            proof {
                assert(decls_view(gfs5) =~= data_three_v2_fields());
                assert(m@.shapes[SHAPE_DATA_THREE_V2 as int] == data_model_spec().shapes[
                    SHAPE_DATA_THREE_V2 as int
                ]);
            }
        },
        Err(e) => {
            proof {
                assert(false);
            }
            return Err(e);
        },
    }

    let mut arms3: Vec<ArmDecl> = Vec::new();
    arms3.push(entity_arm("V1", "V1", SHAPE_DATA_THREE_V1));
    arms3.push(entity_arm("V2", "V2", SHAPE_DATA_THREE_V2));
    let ghost garms3 = arms3@;
    proof {
        let n = m@.shapes.len() as int;
        let av = arms_view(arms3@);
        reveal_strlit("V1");
        reveal_strlit("V2");
        assert(av.len() == 2);
        assert(av[0].tag == "V1"@ && av[1].tag == "V2"@);
        assert(av[0].name == "V1"@ && av[1].name == "V2"@);
        assert("V1"@ != "V2"@) by {
            assert("V1"@[1] == '1' && "V2"@[1] == '2');
        }
        assert forall|i: int, j: int| 0 <= i < j < av.len() implies #[trigger] av[i].tag
            != #[trigger] av[j].tag by {}
        assert forall|i: int, j: int| 0 <= i < j < av.len() implies #[trigger] av[i].name
            != #[trigger] av[j].name by {}
        assert forall|i: int| 0 <= i < av.len() implies arm_ok(n, #[trigger] av[i]) by {
            assert("V1"@.len() == 2 && "V2"@.len() == 2);
            assert(av[0].shape == ArmShapeV::Entity(SHAPE_DATA_THREE_V1));
            assert(av[1].shape == ArmShapeV::Entity(SHAPE_DATA_THREE_V2));
        }
        assert(arms_ok(n, av));
        lemma_arms_err_none(n, av);
    }
    match m.declare_union("EnumDataThree".to_owned(), arms3) {
        Ok(_) => {
            proof {
                assert(arms_view(garms3) =~= data_three_arms());
                assert(m@.shapes[SHAPE_DATA_THREE as int] == data_model_spec().shapes[
                    SHAPE_DATA_THREE as int
                ]);
            }
        },
        Err(e) => {
            proof {
                assert(false);
            }
            return Err(e);
        },
    }

    let mut arms: Vec<ArmDecl> = Vec::new();
    arms.push(entity_arm("one", "One", SHAPE_DATA_ONE));
    arms.push(entity_arm("two", "Two", SHAPE_DATA_TWO));
    arms.push(entity_arm("three", "Three", SHAPE_DATA_THREE));
    let ghost garms = arms@;
    proof {
        let n = m@.shapes.len() as int;
        let av = arms_view(arms@);
        reveal_strlit("one");
        reveal_strlit("two");
        reveal_strlit("three");
        reveal_strlit("One");
        reveal_strlit("Two");
        reveal_strlit("Three");
        assert(av.len() == 3);
        assert(av[0].tag == "one"@ && av[1].tag == "two"@ && av[2].tag == "three"@);
        assert(av[0].name == "One"@ && av[1].name == "Two"@ && av[2].name == "Three"@);
        assert("one"@ != "two"@) by {
            assert("one"@[0] == 'o' && "two"@[0] == 't');
        }
        assert("one"@ != "three"@ && "two"@ != "three"@) by {
            assert("one"@.len() == 3 && "two"@.len() == 3 && "three"@.len() == 5);
        }
        assert("One"@ != "Two"@) by {
            assert("One"@[0] == 'O' && "Two"@[0] == 'T');
        }
        assert("One"@ != "Three"@ && "Two"@ != "Three"@) by {
            assert("One"@.len() == 3 && "Two"@.len() == 3 && "Three"@.len() == 5);
        }
        assert forall|i: int, j: int| 0 <= i < j < av.len() implies #[trigger] av[i].tag
            != #[trigger] av[j].tag by {}
        assert forall|i: int, j: int| 0 <= i < j < av.len() implies #[trigger] av[i].name
            != #[trigger] av[j].name by {}
        assert forall|i: int| 0 <= i < av.len() implies arm_ok(n, #[trigger] av[i]) by {
            assert("one"@.len() == 3 && "two"@.len() == 3 && "three"@.len() == 5);
            assert(av[0].shape == ArmShapeV::Entity(SHAPE_DATA_ONE));
            assert(av[1].shape == ArmShapeV::Entity(SHAPE_DATA_TWO));
            assert(av[2].shape == ArmShapeV::Entity(SHAPE_DATA_THREE));
        }
        assert(arms_ok(n, av));
        lemma_arms_err_none(n, av);
    }
    match m.declare_union("EnumData".to_owned(), arms) {
        Ok(_) => {
            proof {
                assert(arms_view(garms) =~= data_arms());
                assert(m@.shapes[SHAPE_DATA as int] == data_model_spec().shapes[
                    SHAPE_DATA as int
                ]);
            }
        },
        Err(e) => {
            proof {
                assert(false);
            }
            return Err(e);
        },
    }

    proof {
        assert(m@.shapes =~= data_model_spec().shapes);
        assert(m@ == data_model_spec());
    }
    Ok(m)
}


/// Every `EnumDataOne` value conforms to shape `SHAPE_DATA_ONE` of the
/// example model.
pub proof fn lemma_data_one_conforms(d: EnumDataOne)
    ensures
        conforms(data_model_spec(), FieldType::Entity(SHAPE_DATA_ONE), d@),
{
    reveal_with_fuel(conforms, 3);
    let m = data_model_spec();
    let vs = d@->Record_0;
    assert(vs.len() == 3);
    assert forall|i: int| 0 <= i < vs.len() implies conforms(
        m,
        data_one_fields()[i].ty,
        #[trigger] vs[i],
    ) by {
        assert(vs[0] == ValueV::Text(d.f1@));
        assert(vs[1] == ValueV::Int(d.f2));
        assert(vs[2] == ValueV::Bool(d.f3));
    }
}

/// Every `EnumDataTwoV2` value conforms to shape `SHAPE_DATA_TWO_V2`.
pub proof fn lemma_data_two_v2_conforms(d: EnumDataTwoV2)
    ensures
        conforms(data_model_spec(), FieldType::Entity(SHAPE_DATA_TWO_V2), d@),
{
    reveal_with_fuel(conforms, 3);
    let m = data_model_spec();
    let vs = d@->Record_0;
    assert(vs.len() == 3);
    assert forall|i: int| 0 <= i < vs.len() implies conforms(
        m,
        data_two_v2_fields()[i].ty,
        #[trigger] vs[i],
    ) by {
        assert(vs[0] == ValueV::Text(d.f4@));
        assert(vs[1] == ValueV::Int(d.f5));
        assert(vs[2] == ValueV::Bool(d.f6));
    }
}

/// Every `EnumDataTwoV1` value conforms to shape `SHAPE_DATA_TWO_V1`.
pub proof fn lemma_data_two_v1_conforms(d: EnumDataTwoV1)
    ensures
        conforms(data_model_spec(), FieldType::Entity(SHAPE_DATA_TWO_V1), d@),
{
    reveal_with_fuel(conforms, 4);
    let m = data_model_spec();
    match d {
        EnumDataTwoV1::V1 { f1, f2, f3 } => {
            let vs = (*d@->Union_1)->Record_0;
            assert(vs.len() == 3);
            assert forall|i: int| 0 <= i < vs.len() implies conforms(
                m,
                data_two_v1_inline_fields()[i].ty,
                #[trigger] vs[i],
            ) by {
                assert(vs[0] == ValueV::Text(f1@));
                assert(vs[1] == ValueV::UInt(f2));
                assert(vs[2] == ValueV::Bool(f3));
            }
        },
        EnumDataTwoV1::V2(inner) => {
            lemma_data_two_v2_conforms(inner);
            assert((*d@->Union_1) == inner@);
        },
        EnumDataTwoV1::V3 { f7, f8, f9 } => {
            let vs = (*d@->Union_1)->Record_0;
            assert(vs.len() == 3);
            assert forall|i: int| 0 <= i < vs.len() implies conforms(
                m,
                data_two_v3_inline_fields()[i].ty,
                #[trigger] vs[i],
            ) by {
                assert(vs[0] == ValueV::Text(f7@));
                assert(vs[1] == ValueV::Int(f8));
                assert(vs[2] == ValueV::Bool(f9));
            }
        },
    }
}

/// Every `EnumDataTwo` value conforms to shape `SHAPE_DATA_TWO`.
pub proof fn lemma_data_two_conforms(d: EnumDataTwo)
    ensures
        conforms(data_model_spec(), FieldType::Entity(SHAPE_DATA_TWO), d@),
{
    reveal_with_fuel(conforms, 3);
    let m = data_model_spec();
    let vs = d@->Record_0;
    assert(vs.len() == 3);
    lemma_data_two_v1_conforms(d.f3);
    assert forall|i: int| 0 <= i < vs.len() implies conforms(
        m,
        data_two_fields()[i].ty,
        #[trigger] vs[i],
    ) by {
        assert(vs[0] == ValueV::Text(d.f1@));
        assert(vs[1] == ValueV::Int(d.f2));
        assert(vs[2] == d.f3@);
    }
}

/// Every `EnumDataThreeV1` value conforms to shape `SHAPE_DATA_THREE_V1`.
pub proof fn lemma_data_three_v1_conforms(d: EnumDataThreeV1)
    ensures
        conforms(data_model_spec(), FieldType::Entity(SHAPE_DATA_THREE_V1), d@),
{
    reveal_with_fuel(conforms, 3);
    let m = data_model_spec();
    let vs = d@->Record_0;
    assert(vs.len() == 3);
    assert forall|i: int| 0 <= i < vs.len() implies conforms(
        m,
        data_three_v1_fields()[i].ty,
        #[trigger] vs[i],
    ) by {
        assert(vs[0] == ValueV::Text(d.f1@));
        assert(vs[1] == ValueV::UInt(d.f2));
        assert(vs[2] == ValueV::Bool(d.f3));
    }
}

/// Every `EnumDataThreeV2` value conforms to shape `SHAPE_DATA_THREE_V2`.
pub proof fn lemma_data_three_v2_conforms(d: EnumDataThreeV2)
    ensures
        conforms(data_model_spec(), FieldType::Entity(SHAPE_DATA_THREE_V2), d@),
{
    reveal_with_fuel(conforms, 3);
    let m = data_model_spec();
    let vs = d@->Record_0;
    assert(vs.len() == 3);
    assert forall|i: int| 0 <= i < vs.len() implies conforms(
        m,
        data_three_v2_fields()[i].ty,
        #[trigger] vs[i],
    ) by {
        assert(vs[0] == ValueV::Text(d.f4@));
        assert(vs[1] == ValueV::Int(d.f5));
        assert(vs[2] == ValueV::Bool(d.f6));
    }
}

/// Every `EnumDataThree` value conforms to shape `SHAPE_DATA_THREE`.
pub proof fn lemma_data_three_conforms(d: EnumDataThree)
    ensures
        conforms(data_model_spec(), FieldType::Entity(SHAPE_DATA_THREE), d@),
{
    reveal_with_fuel(conforms, 3);
    match d {
        EnumDataThree::V1(inner) => {
            lemma_data_three_v1_conforms(inner);
            assert((*d@->Union_1) == inner@);
        },
        EnumDataThree::V2(inner) => {
            lemma_data_three_v2_conforms(inner);
            assert((*d@->Union_1) == inner@);
        },
    }
}

/// Every `EnumData` value conforms to shape `SHAPE_DATA`.
pub proof fn lemma_enum_data_conforms(d: EnumData)
    ensures
        conforms(data_model_spec(), FieldType::Entity(SHAPE_DATA), d@),
{
    reveal_with_fuel(conforms, 3);
    match d {
        EnumData::One(inner) => {
            lemma_data_one_conforms(inner);
            assert((*d@->Union_1) == inner@);
        },
        EnumData::Two(inner) => {
            lemma_data_two_conforms(inner);
            assert((*d@->Union_1) == inner@);
        },
        EnumData::Three(inner) => {
            lemma_data_three_conforms(inner);
            assert((*d@->Union_1) == inner@);
        },
    }
}

/// Round trip of every top-level example value through the example model:
/// decoding the encoding of any `EnumData` value yields its model value,
/// strict or lax.  The hypotheses are exactly what `data_model` ensures of
/// the model it returns.
pub proof fn lemma_enum_data_round_trip(m: ModelV, d: EnumData, strict: bool)
    requires
        m == data_model_spec(),
        valid_model(m),
    ensures
        crate::codec::decode_spec(
            m,
            FieldType::Entity(SHAPE_DATA),
            Seq::empty(),
            crate::codec::encode_spec(m, FieldType::Entity(SHAPE_DATA), d@),
            strict,
        ) == Ok::<ValueV, crate::codec::DecodeErrorV>(d@),
{
    lemma_enum_data_conforms(d);
    crate::laws::lemma_round_trip(m, FieldType::Entity(SHAPE_DATA), Seq::empty(), d@, strict);
}

} // verus!
