//! Laws of the interchange format, proved over the models.
use vstd::prelude::*;
use crate::json::{json_plain, lemma_members_plain_all, members_plain, JsonModel};
use crate::doc_codec::lemma_entries_prefix_err;
use crate::model::{keys_unique, Call, Feature, SpecModel, Type, TypeModel, UnstableFeature};
use crate::rules::{
    decode_document, decode_entries, decode_spec, decode_type, encode_document, encode_entries,
    encode_spec, encode_type, field, lemma_field_at, lemma_field_none, lemma_spec_key_names, map_field,
    lemma_key_names, lemma_tag_names, opt_bool_field, tag_kind, text_field, u32_field,
    DecodeError, JsonCodec, Members,
};

verus! {

/// Entries that were read, written again, read back as themselves.
pub proof fn lemma_entries_round_trip<V: JsonCodec>(ms: Members)
    requires
        decode_entries::<V>(ms) is Ok,
    ensures
        decode_entries::<V>(encode_entries::<V>(decode_entries::<V>(ms)->Ok_0)) == decode_entries::<V>(ms),
    decreases ms.len(),
{
    if ms.len() > 0 {
        lemma_entries_round_trip::<V>(ms.drop_last());
        V::lemma_round_trip(ms.last().1);
        let p = decode_entries::<V>(ms.drop_last())->Ok_0;
        let x = V::decode_model(ms.last().1)->Ok_0;
        let q = p.push((ms.last().0, x));
        assert(q.drop_last() =~= p);
        let e = encode_entries::<V>(q);
        assert(e.drop_last() =~= encode_entries::<V>(p));
    }
}

proof fn lemma_map_field_round_trip<V: JsonCodec>(ms: Members, key: Seq<char>)
    requires
        map_field::<V>(ms, key) is Ok,
    ensures
        decode_entries::<V>(encode_entries::<V>(map_field::<V>(ms, key)->Ok_0)) == map_field::<V>(ms, key),
{
    lemma_entries_round_trip::<V>(field(ms, key)->Some_0->Object_0);
}

/// A spec that was read, written again, reads back as itself.
pub proof fn lemma_spec_round_trip(j: JsonModel)
    requires
        decode_spec(j) is Ok,
    ensures
        decode_spec(encode_spec(decode_spec(j)->Ok_0)) == decode_spec(j),
{
    lemma_spec_key_names();
    let ms = j->Object_0;
    let s = decode_spec(j)->Ok_0;
    lemma_map_field_round_trip::<Feature>(ms, "features"@);
    lemma_map_field_round_trip::<UnstableFeature>(ms, "unstableFeatures"@);
    lemma_map_field_round_trip::<Type>(ms, "types"@);
    lemma_map_field_round_trip::<Call>(ms, "callsOut"@);
    lemma_map_field_round_trip::<Call>(ms, "callsIn"@);
    let e = encode_spec(s)->Object_0;
    lemma_field_at(e, "id"@, 0);
    lemma_field_at(e, "title"@, 1);
    lemma_field_at(e, "revision"@, 2);
    lemma_field_at(e, "errorType"@, 3);
    let n: int = if s.unique is Some { 5 } else { 4 };
    if s.unique is Some {
        lemma_field_at(e, "unique"@, 4);
    } else {
        lemma_field_none(e, "unique"@);
    }
    lemma_field_at(e, "features"@, n);
    lemma_field_at(e, "unstableFeatures"@, n + 1);
    lemma_field_at(e, "types"@, n + 2);
    lemma_field_at(e, "callsOut"@, n + 3);
    lemma_field_at(e, "callsIn"@, n + 4);
}

/// Round trip: every document that is read without error, written again,
/// reads back as the same spec.
pub proof fn lemma_document_round_trip(j: JsonModel)
    requires
        decode_document(j) is Ok,
    ensures
        decode_document(encode_document(decode_document(j)->Ok_0)) == decode_document(j),
{
    let ms = j->Object_0;
    lemma_spec_round_trip(field(ms, "inversionApiSpec"@)->Some_0);
    lemma_field_at(encode_document(decode_document(j)->Ok_0)->Object_0, "inversionApiSpec"@, 0);
}

/// Omission: a spec without the `unique` flag is written with no `unique`
/// member, and a spec object without that member reads as a spec without
/// the flag.
pub proof fn lemma_unique_omitted(s: SpecModel, j: JsonModel)
    ensures
        s.unique is None ==> field(encode_spec(s)->Object_0, "unique"@) is None,
        j is Object && field(j->Object_0, "unique"@) is None && decode_spec(j) is Ok
            ==> decode_spec(j)->Ok_0.unique is None,
{
    lemma_spec_key_names();
    if s.unique is None {
        lemma_field_none(encode_spec(s)->Object_0, "unique"@);
    }
}

/// The names of a list of entries, in order.
pub open spec fn entry_names<V>(s: Seq<(Seq<char>, V)>) -> Seq<Seq<char>> {
    s.map_values(|e: (Seq<char>, V)| e.0)
}

proof fn lemma_entries_names<V: JsonCodec>(ms: Members)
    requires
        decode_entries::<V>(ms) is Ok,
    ensures
        entry_names(decode_entries::<V>(ms)->Ok_0) == entry_names(ms),
        entry_names(encode_entries::<V>(decode_entries::<V>(ms)->Ok_0)) == entry_names(ms),
    decreases ms.len(),
{
    if ms.len() > 0 {
        lemma_entries_names::<V>(ms.drop_last());
        let p = decode_entries::<V>(ms.drop_last())->Ok_0;
        let x = V::decode_model(ms.last().1)->Ok_0;
        let q = p.push((ms.last().0, x));
        assert(q.drop_last() =~= p);
        assert(entry_names(ms) =~= entry_names(ms.drop_last()).push(ms.last().0));
        assert(entry_names(q) =~= entry_names(p).push(ms.last().0));
        assert(entry_names(q) =~= entry_names(ms));
        let e = encode_entries::<V>(q);
        let ep = encode_entries::<V>(p);
        assert(e == ep.push((ms.last().0, V::encode_model(x))));
        assert(entry_names(e) =~= entry_names(ep).push(ms.last().0));
        assert(entry_names(e) =~= entry_names(ms));
    } else {
        assert(entry_names(decode_entries::<V>(ms)->Ok_0) =~= entry_names(ms));
        assert(entry_names(encode_entries::<V>(decode_entries::<V>(ms)->Ok_0)) =~= entry_names(ms));
    }
}

/// Order preservation: the type table is read in the order of its members,
/// and written again in that same order.
pub proof fn lemma_types_order(j: JsonModel)
    requires
        decode_spec(j) is Ok,
    ensures
        entry_names(decode_spec(j)->Ok_0.types) == entry_names(field(j->Object_0, "types"@)->Some_0->Object_0),
        field(encode_spec(decode_spec(j)->Ok_0)->Object_0, "types"@) matches Some(JsonModel::Object(t))
            && entry_names(t) == entry_names(field(j->Object_0, "types"@)->Some_0->Object_0),
{
    lemma_spec_key_names();
    let s = decode_spec(j)->Ok_0;
    lemma_entries_names::<Type>(field(j->Object_0, "types"@)->Some_0->Object_0);
    let n: int = if s.unique is Some { 5 } else { 4 };
    lemma_field_at(encode_spec(s)->Object_0, "types"@, n + 2);
}

/// A type object whose discriminant names no variant is refused with
/// `UnknownVariant`, at any depth allowance.
pub proof fn lemma_unknown_variant(ms: Members, tag: Seq<char>, d: nat)
    requires
        d > 0,
        field(ms, "type"@) == Some(JsonModel::Str(tag)),
        tag_kind(tag) is None,
    ensures
        decode_type(JsonModel::Object(ms), d) == Err::<crate::model::TypeModel, DecodeError>(DecodeError::UnknownVariant),
{
}

/// A document whose fields before the type table read without error, and
/// whose type table holds, after entries that read without error, a type
/// object with an unknown discriminant, is refused with `UnknownVariant`.
pub proof fn lemma_document_unknown_variant(j: JsonModel, i: int, tag: Seq<char>)
    requires
        j is Object,
        field(j->Object_0, "inversionApiSpec"@) matches Some(JsonModel::Object(sm)) && {
            &&& text_field(sm, "id"@) is Ok
            &&& text_field(sm, "title"@) is Ok
            &&& u32_field(sm, "revision"@) is Ok
            &&& text_field(sm, "errorType"@) is Ok
            &&& opt_bool_field(sm, "unique"@) is Ok
            &&& map_field::<Feature>(sm, "features"@) is Ok
            &&& map_field::<UnstableFeature>(sm, "unstableFeatures"@) is Ok
            &&& field(sm, "types"@) matches Some(JsonModel::Object(ts)) && {
                &&& 0 <= i < ts.len()
                &&& decode_entries::<Type>(ts.take(i)) is Ok
                &&& ts[i].1 is Object
                &&& field(ts[i].1->Object_0, "type"@) == Some(JsonModel::Str(tag))
            }
        },
        tag_kind(tag) is None,
    ensures
        decode_document(j) == Err::<SpecModel, DecodeError>(DecodeError::UnknownVariant),
{
    let sm = field(j->Object_0, "inversionApiSpec"@)->Some_0->Object_0;
    let ts = field(sm, "types"@)->Some_0->Object_0;
    lemma_unknown_variant(ts[i].1->Object_0, tag, crate::rules::TYPE_DEPTH_LIMIT as nat);
    assert(ts.take(i + 1).drop_last() =~= ts.take(i));
    assert(ts.take(i + 1).last() == ts[i]);
    lemma_entries_prefix_err::<Type>(ts, i + 1);
}

/// The JSON object of a type `optional` holding a type `array` holding a
/// reference to the type named `name`.
pub open spec fn nested_json(name: Seq<char>) -> JsonModel {
    JsonModel::Object(seq![
        ("type"@, JsonModel::Str("optional"@)),
        ("content"@, JsonModel::Object(seq![
            ("type"@, JsonModel::Str("array"@)),
            ("content"@, JsonModel::Object(seq![
                ("type"@, JsonModel::Str("namedType"@)),
                ("content"@, JsonModel::Str(name)),
            ])),
        ])),
    ])
}

pub open spec fn nested_model(name: Seq<char>) -> TypeModel {
    TypeModel::Optional {
        doc: None,
        content: Box::new(TypeModel::Array {
            doc: None,
            content: Box::new(TypeModel::NamedType { doc: None, content: name }),
        }),
    }
}

/// Recursive nesting: an optional of an array of a named type reads, for
/// any name and any allowance of three levels or more, as exactly that
/// three-level type, and is written back as the same JSON.
pub proof fn lemma_three_level_nesting(name: Seq<char>, d: nat)
    requires
        d >= 3,
    ensures
        decode_type(nested_json(name), d) == Ok::<TypeModel, DecodeError>(nested_model(name)),
        encode_type(nested_model(name)) == nested_json(name),
{
    lemma_key_names();
    lemma_tag_names(9);
    lemma_tag_names(10);
    lemma_tag_names(14);
    let inner = seq![("type"@, JsonModel::Str("namedType"@)), ("content"@, JsonModel::Str(name))];
    let mid = seq![("type"@, JsonModel::Str("array"@)), ("content"@, JsonModel::Object(inner))];
    let outer = seq![("type"@, JsonModel::Str("optional"@)), ("content"@, JsonModel::Object(mid))];
    lemma_field_at(inner, "type"@, 0);
    lemma_field_at(inner, "content"@, 1);
    lemma_field_none(inner, "doc"@);
    lemma_field_at(mid, "type"@, 0);
    lemma_field_at(mid, "content"@, 1);
    lemma_field_none(mid, "doc"@);
    lemma_field_at(outer, "type"@, 0);
    lemma_field_at(outer, "content"@, 1);
    lemma_field_none(outer, "doc"@);
    let ji = JsonModel::Object(inner);
    let jm = JsonModel::Object(mid);
    let mi = TypeModel::NamedType { doc: None, content: name };
    let mm = TypeModel::Array { doc: None, content: Box::new(mi) };
    let d1 = (d - 1) as nat;
    let d2 = (d - 2) as nat;
    assert(decode_type(ji, d2) == Ok::<TypeModel, DecodeError>(mi));
    assert(decode_type(jm, d1) == Ok::<TypeModel, DecodeError>(mm));
    assert(nested_json(name) == JsonModel::Object(outer));
    assert(decode_type(JsonModel::Object(outer), d) == Ok::<TypeModel, DecodeError>(nested_model(name)));
    assert(crate::rules::type_head(mi) =~= seq![("type"@, JsonModel::Str("namedType"@))]);
    assert(crate::rules::type_head(mi).push(("content"@, JsonModel::Str(name))) =~= inner);
    assert(encode_type(mi) == ji);
    assert(crate::rules::type_head(mm) =~= seq![("type"@, JsonModel::Str("array"@))]);
    assert(crate::rules::type_head(mm).push(("content"@, ji)) =~= mid);
    assert(encode_type(mm) == jm);
    assert(crate::rules::type_head(nested_model(name)) =~= seq![("type"@, JsonModel::Str("optional"@))]);
    assert(crate::rules::type_head(nested_model(name)).push(("content"@, jm)) =~= outer);
}

proof fn lemma_encode_entries_names<V: JsonCodec>(p: Seq<(Seq<char>, V::V)>)
    ensures
        encode_entries::<V>(p).len() == p.len(),
        forall|i: int| 0 <= i < p.len() ==> #[trigger] encode_entries::<V>(p)[i].0 == p[i].0,
    decreases p.len(),
{
    if p.len() > 0 {
        lemma_encode_entries_names::<V>(p.drop_last());
    }
}

proof fn lemma_entries_plain<V: JsonCodec>(ms: Members)
    requires
        decode_entries::<V>(ms) is Ok,
    ensures
        keys_unique(encode_entries::<V>(decode_entries::<V>(ms)->Ok_0)),
        members_plain(encode_entries::<V>(decode_entries::<V>(ms)->Ok_0)),
    decreases ms.len(),
{
    if ms.len() > 0 {
        lemma_entries_plain::<V>(ms.drop_last());
        V::lemma_plain(ms.last().1);
        let p = decode_entries::<V>(ms.drop_last())->Ok_0;
        let x = V::decode_model(ms.last().1)->Ok_0;
        let k = ms.last().0;
        let q = p.push((k, x));
        assert(q.drop_last() =~= p);
        let e = encode_entries::<V>(q);
        let ep = encode_entries::<V>(p);
        assert(e.drop_last() =~= ep);
        lemma_encode_entries_names::<V>(p);
        assert forall|i: int| 0 <= i < ep.len() implies ep[i].0 != k by {
            assert(ep[i].0 == p[i].0);
        }
        assert(e == ep.push((k, V::encode_model(x))));
    }
}

proof fn lemma_map_field_plain<V: JsonCodec>(ms: Members, key: Seq<char>)
    requires
        map_field::<V>(ms, key) is Ok,
    ensures
        json_plain(JsonModel::Object(encode_entries::<V>(map_field::<V>(ms, key)->Ok_0))),
{
    lemma_entries_plain::<V>(field(ms, key)->Some_0->Object_0);
}

/// Every document that is read is written as a plain JSON value: no
/// object repeats a member name and every number is a `u64`. So its text
/// form is exactly serde_json's pretty form of `encode_document`.
pub proof fn lemma_document_plain(j: JsonModel)
    requires
        decode_document(j) is Ok,
    ensures
        json_plain(encode_document(decode_document(j)->Ok_0)),
{
    lemma_spec_key_names();
    let sj = field(j->Object_0, "inversionApiSpec"@)->Some_0;
    let ms = sj->Object_0;
    let s = decode_document(j)->Ok_0;
    lemma_map_field_plain::<Feature>(ms, "features"@);
    lemma_map_field_plain::<UnstableFeature>(ms, "unstableFeatures"@);
    lemma_map_field_plain::<Type>(ms, "types"@);
    lemma_map_field_plain::<Call>(ms, "callsOut"@);
    lemma_map_field_plain::<Call>(ms, "callsIn"@);
    let e = encode_spec(s)->Object_0;
    lemma_members_plain_all(e);
    assert(json_plain(encode_spec(s)));
    let d = encode_document(s)->Object_0;
    lemma_members_plain_all(d);
}

} // verus!
