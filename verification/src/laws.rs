//! The laws the codec obeys, stated and proved over the specification
//! functions that `encode` and `decode` are verified against.

use vstd::prelude::*;

use crate::codec::{
    data_key, decode_fields_from, decode_spec, encode_fields_spec, encode_spec, type_key,
    DecodeErrorV,
};
use crate::model::{
    arms_of, distinct_field_names, distinct_tags, lemma_tag_index, tag_index, valid_model,
    ArmShapeV, FieldDeclV, FieldType, ModelV, ShapeV,
};
use crate::value::{conforms, ValueV};
use crate::wire::{key_index, WireV};

verus! {

/// In a sequence of entries with pairwise distinct keys, looking a key up
/// finds exactly the entry that carries it.
proof fn lemma_key_index_distinct(entries: Seq<(Seq<char>, WireV)>, j: int)
    requires
        forall|a: int, b: int|
            0 <= a < b < entries.len() ==> (#[trigger] entries[a]).0 != (#[trigger] entries[b]).0,
        0 <= j < entries.len(),
    ensures
        key_index(entries, entries[j].0) == j,
    decreases j,
{
    if j > 0 {
        let rest = entries.drop_first();
        assert forall|i: int| 0 <= i < rest.len() implies rest[i] == entries[i + 1] by {}
        assert forall|a: int, b: int| 0 <= a < b < rest.len() implies (#[trigger] rest[a]).0 != (
        #[trigger] rest[b]).0 by {
            assert(rest[a] == entries[a + 1] && rest[b] == entries[b + 1]);
        }
        lemma_key_index_distinct(rest, j - 1);
        assert(entries[0].0 != entries[j].0);
        assert(rest[j - 1] == entries[j]);
    }
}

/// Among arms with pairwise distinct wire tags, looking a tag up finds
/// exactly the arm that carries it.
proof fn lemma_tag_index_distinct(arms: Seq<crate::model::ArmDeclV>, j: int)
    requires
        distinct_tags(arms),
        0 <= j < arms.len(),
    ensures
        tag_index(arms, arms[j].tag) == j,
    decreases j,
{
    if j > 0 {
        let rest = arms.drop_first();
        assert forall|i: int| 0 <= i < rest.len() implies rest[i] == arms[i + 1] by {}
        assert forall|a: int, b: int| 0 <= a < b < rest.len() implies (#[trigger] rest[a].tag) != (
        #[trigger] rest[b].tag) by {
            assert(rest[a] == arms[a + 1] && rest[b] == arms[b + 1]);
        }
        lemma_tag_index_distinct(rest, j - 1);
        assert(arms[0].tag != arms[j].tag);
        assert(rest[j - 1] == arms[j]);
    }
}

/// The tag slot and the payload slot carry different keys.
proof fn lemma_keys_differ()
    ensures
        type_key() != data_key(),
{
    reveal_strlit("type");
    reveal_strlit("data");
    assert(type_key()[0] == 't' && data_key()[0] == 'd');
}

/// Round-trip law: decoding the encoding of any value that conforms to a
/// declared shape of a valid model yields that value again, in strict and
/// in lax mode alike, at every nesting depth.
pub proof fn lemma_round_trip(m: ModelV, ty: FieldType, fname: Seq<char>, v: ValueV, strict: bool)
    requires
        valid_model(m),
        conforms(m, ty, v),
    ensures
        decode_spec(m, ty, fname, encode_spec(m, ty, v), strict) == Ok::<ValueV, DecodeErrorV>(v),
    decreases v, 0int, 0int,
{
    reveal_with_fuel(key_index, 3);
    match ty {
        FieldType::Prim(k) => {},
        FieldType::Entity(s) => {
            match m.shapes[s as int] {
                ShapeV::Record { fields, .. } => {
                    let vs = v->Record_0;
                    let enc = encode_fields_spec(m, fields, vs);
                    assert forall|j: int| 0 <= j < enc.len() implies crate::codec::key_declared(
                        fields,
                        (#[trigger] enc[j]).0,
                    ) by {
                        assert(enc[j].0 == fields[j].name);
                    }
                    lemma_fields_round_trip(m, fields, vs, strict, 0);
                    assert(vs.skip(0) =~= vs);
                },
                ShapeV::Union { arms, .. } => {
                    let arm = v->Union_0;
                    let payload = v->Union_1;
                    let tag = arms[arm as int].tag;
                    lemma_keys_differ();
                    let pw = match arms[arm as int].shape {
                        ArmShapeV::Inline(fields) => match *payload {
                            ValueV::Record(vs) => WireV::Object(encode_fields_spec(m, fields, vs)),
                            _ => WireV::Bool(false),
                        },
                        ArmShapeV::Entity(s2) => encode_spec(m, FieldType::Entity(s2), *payload),
                    };
                    let enc: Seq<(Seq<char>, WireV)> = seq![
                        (type_key(), WireV::Text(tag)),
                        (data_key(), pw),
                    ];
                    assert(enc[0] == (type_key(), WireV::Text(tag)));
                    assert(enc[1] == (data_key(), pw));
                    assert(key_index(enc, type_key()) == 0);
                    assert(enc.drop_first() =~= seq![(data_key(), pw)]);
                    assert(key_index(enc, data_key()) == 1);
                    assert(distinct_tags(arms));
                    lemma_tag_index_distinct(arms, arm as int);
                    assert(tag_index(arms, tag) == arm as int);
                    assert(crate::codec::union_keys_ok(enc));
                    match arms[arm as int].shape {
                        ArmShapeV::Inline(fields) => {
                            let vs = (*payload)->Record_0;
                            assert(distinct_field_names(fields));
                            let penc = encode_fields_spec(m, fields, vs);
                            assert forall|j: int|
                                0 <= j < penc.len() implies crate::codec::key_declared(
                                fields,
                                (#[trigger] penc[j]).0,
                            ) by {
                                assert(penc[j].0 == fields[j].name);
                            }
                            lemma_fields_round_trip(m, fields, vs, strict, 0);
                            assert(vs.skip(0) =~= vs);
                            assert(Box::new(ValueV::Record(vs)) == payload);
                        },
                        ArmShapeV::Entity(s2) => {
                            lemma_round_trip(m, FieldType::Entity(s2), fname, *payload, strict);
                            assert(Box::new(*payload) == payload);
                        },
                    }
                },
            }
        },
    }
}

/// Round-trip of a record's field list: decoding the encoded fields from
/// position `at` on yields exactly the remaining field values.
proof fn lemma_fields_round_trip(
    m: ModelV,
    fields: Seq<FieldDeclV>,
    vs: Seq<ValueV>,
    strict: bool,
    at: int,
)
    requires
        valid_model(m),
        fields.len() == vs.len(),
        distinct_field_names(fields),
        forall|i: int| 0 <= i < vs.len() ==> conforms(m, fields[i].ty, #[trigger] vs[i]),
        0 <= at <= fields.len(),
    ensures
        decode_fields_from(m, fields, at, encode_fields_spec(m, fields, vs), strict)
            == Ok::<Seq<ValueV>, DecodeErrorV>(vs.skip(at)),
    decreases vs, 1int, fields.len() - at,
{
    let enc = encode_fields_spec(m, fields, vs);
    if at == fields.len() {
        assert(vs.skip(at) =~= Seq::<ValueV>::empty());
    } else {
        assert forall|a: int, b: int| 0 <= a < b < enc.len() implies (#[trigger] enc[a]).0 != (
        #[trigger] enc[b]).0 by {
            assert(enc[a].0 == fields[a].name && enc[b].0 == fields[b].name);
        }
        lemma_key_index_distinct(enc, at);
        assert(enc[at].0 == fields[at].name);
        assert(key_index(enc, fields[at].name) == at);
        assert(enc[at].1 == encode_spec(m, fields[at].ty, vs[at]));
        lemma_round_trip(m, fields[at].ty, fields[at].name, vs[at], strict);
        lemma_fields_round_trip(m, fields, vs, strict, at + 1);
        assert(vs.skip(at) =~= seq![vs[at]] + vs.skip(at + 1));
    }
}

/// Unknown-tag law: decoding a union wire node whose tag slot holds a
/// string that no arm of the union carries yields `UnknownVariant` naming
/// that string, whatever the payload holds.
pub proof fn lemma_unknown_tag(
    m: ModelV,
    s: usize,
    fname: Seq<char>,
    ofs: Seq<(Seq<char>, WireV)>,
    tag: Seq<char>,
    strict: bool,
)
    requires
        (s as int) < m.shapes.len(),
        m.shapes[s as int] is Union,
        ({
            let ti = key_index(ofs, type_key());
            &&& 0 <= ti < ofs.len()
            &&& ofs[ti].0 == type_key()
            &&& ofs[ti].1 == WireV::Text(tag)
        }),
        forall|i: int|
            0 <= i < arms_of(m.shapes[s as int]).len() ==> (#[trigger] arms_of(
                m.shapes[s as int],
            )[i].tag) != tag,
    ensures
        decode_spec(m, FieldType::Entity(s), fname, WireV::Object(ofs), strict) == Err::<
            ValueV,
            DecodeErrorV,
        >(DecodeErrorV::UnknownVariant(tag)),
{
    let arms = arms_of(m.shapes[s as int]);
    lemma_tag_index(arms, tag);
    if tag_index(arms, tag) >= 0 {
        assert(arms[tag_index(arms, tag)].tag == tag);
    }
}

/// Missing-field law: if the first `j` declared fields of a record decode,
/// and no entry of the wire object carries field `j`'s name, the record
/// fails to decode with `MissingField` naming exactly that field.
pub proof fn lemma_missing_field(
    m: ModelV,
    fields: Seq<FieldDeclV>,
    ofs: Seq<(Seq<char>, WireV)>,
    strict: bool,
    j: int,
)
    requires
        0 <= j < fields.len(),
        forall|q: int| 0 <= q < ofs.len() ==> (#[trigger] ofs[q]).0 != fields[j].name,
        forall|i: int|
            0 <= i < j ==> ({
                &&& 0 <= key_index(ofs, (#[trigger] fields[i]).name) < ofs.len()
                &&& ofs[key_index(ofs, fields[i].name)].0 == fields[i].name
                &&& decode_spec(
                    m,
                    fields[i].ty,
                    fields[i].name,
                    ofs[key_index(ofs, fields[i].name)].1,
                    strict,
                ) is Ok
            }),
    ensures
        decode_fields_from(m, fields, 0, ofs, strict) == Err::<Seq<ValueV>, DecodeErrorV>(
            DecodeErrorV::MissingField(fields[j].name),
        ),
    decreases j,
{
    lemma_missing_field_from(m, fields, ofs, strict, j, 0);
}

/// The inductive core of `lemma_missing_field`, walking from position `at`.
proof fn lemma_missing_field_from(
    m: ModelV,
    fields: Seq<FieldDeclV>,
    ofs: Seq<(Seq<char>, WireV)>,
    strict: bool,
    j: int,
    at: int,
)
    requires
        0 <= at <= j < fields.len(),
        forall|q: int| 0 <= q < ofs.len() ==> (#[trigger] ofs[q]).0 != fields[j].name,
        forall|i: int|
            0 <= i < j ==> ({
                &&& 0 <= key_index(ofs, (#[trigger] fields[i]).name) < ofs.len()
                &&& ofs[key_index(ofs, fields[i].name)].0 == fields[i].name
                &&& decode_spec(
                    m,
                    fields[i].ty,
                    fields[i].name,
                    ofs[key_index(ofs, fields[i].name)].1,
                    strict,
                ) is Ok
            }),
    ensures
        decode_fields_from(m, fields, at, ofs, strict) == Err::<Seq<ValueV>, DecodeErrorV>(
            DecodeErrorV::MissingField(fields[j].name),
        ),
    decreases j - at,
{
    crate::wire::lemma_key_index(ofs, fields[j].name);
    if at == j {
        let ki = key_index(ofs, fields[j].name);
        assert(ki < 0);
    } else {
        lemma_missing_field_from(m, fields, ofs, strict, j, at + 1);
    }
}

/// Arm-disambiguation law: whenever a union wire node decodes successfully,
/// the active arm of the result is exactly the arm whose wire tag stands in
/// the node's tag slot — the payload's shape plays no part in selecting it.
pub proof fn lemma_arm_by_tag(
    m: ModelV,
    s: usize,
    fname: Seq<char>,
    w: WireV,
    strict: bool,
    a: usize,
    p: Box<ValueV>,
)
    requires
        (s as int) < m.shapes.len(),
        m.shapes[s as int] is Union,
        decode_spec(m, FieldType::Entity(s), fname, w, strict) == Ok::<ValueV, DecodeErrorV>(
            ValueV::Union(a, p),
        ),
        arms_of(m.shapes[s as int]).len() <= usize::MAX,
    ensures
        w is Object,
        ({
            let ofs = w->Object_0;
            let ti = key_index(ofs, type_key());
            &&& 0 <= ti < ofs.len()
            &&& ofs[ti].0 == type_key()
            &&& ofs[ti].1 is Text
            &&& a as int == tag_index(arms_of(m.shapes[s as int]), ofs[ti].1->Text_0)
            &&& arms_of(m.shapes[s as int])[a as int].tag == ofs[ti].1->Text_0
        }),
{
}

} // verus!
