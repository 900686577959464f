//! Reading and writing [`Type`] values: the tagged union with its
//! discriminant member `type`, and the slots of tuples, structs and enums.
use vstd::prelude::*;
use crate::codec::{find_field, push_member, push_opt_text, read_opt_text, read_u32, text};
use crate::json::{
    items_plain, json_plain, lemma_items_plain_all, lemma_members_plain_all, members_plain,
    json_model, lemma_items_model, lemma_items_push, lemma_members_model, lemma_members_push,
    items_model, members_model, opt_model, Json, JsonModel,
};
use crate::model::{
    keys_unique,
    has_key, lemma_slot_entries_model, lemma_slots_model, opt_text, slot_entries_model, slot_model, slots_model, type_model, NamedMap, SlotModel,
    StructContent, Type, TypeModel,
};
use crate::rules::{
    decode_slot, decode_slot_entries, decode_slots, decode_type, decode_type_content,
    encode_slot, encode_slot_entries, encode_slots, encode_type, field, leaf_model,
    opt_text_field, opt_text_member, result_model, tag_kind, tag_kind_from, tag_name, type_doc, type_head,
    type_kind, lemma_field_at, lemma_field_none, lemma_key_names, lemma_tag_kind_bound,
    lemma_tag_names, DecodeError, JsonCodec, TAG_COUNT, TYPE_DEPTH_LIMIT,
};

verus! {

proof fn lemma_slots_prefix_err(s: Seq<JsonModel>, k: int, d: nat)
    requires
        0 <= k <= s.len(),
        decode_slots(s.take(k), d) is Err,
    ensures
        decode_slots(s, d) == decode_slots(s.take(k), d),
    decreases s.len() - k,
{
    if k < s.len() {
        assert(s.take(k + 1).drop_last() =~= s.take(k));
        lemma_slots_prefix_err(s, k + 1, d);
    } else {
        assert(s.take(k) =~= s);
    }
}

proof fn lemma_slot_entries_prefix_err(s: Seq<(Seq<char>, JsonModel)>, k: int, d: nat)
    requires
        0 <= k <= s.len(),
        decode_slot_entries(s.take(k), d) is Err,
    ensures
        decode_slot_entries(s, d) == decode_slot_entries(s.take(k), d),
    decreases s.len() - k,
{
    if k < s.len() {
        assert(s.take(k + 1).drop_last() =~= s.take(k));
        lemma_slot_entries_prefix_err(s, k + 1, d);
    } else {
        assert(s.take(k) =~= s);
    }
}

fn tag_text(k: u8) -> (r: String)
    requires
        k < TAG_COUNT,
    ensures
        r@ == tag_name(k),
{
    if k == 0 { text("null") }
    else if k == 1 { text("bool") }
    else if k == 2 { text("i32") }
    else if k == 3 { text("u32") }
    else if k == 4 { text("i64") }
    else if k == 5 { text("u64") }
    else if k == 6 { text("f64") }
    else if k == 7 { text("bytes") }
    else if k == 8 { text("string") }
    else if k == 9 { text("optional") }
    else if k == 10 { text("array") }
    else if k == 11 { text("tuple") }
    else if k == 12 { text("struct") }
    else if k == 13 { text("enum") }
    else { text("namedType") }
}

/// The position of the variant whose discriminant is `s`, if any.
fn read_tag(s: &String) -> (r: Option<u8>)
    ensures
        r == tag_kind(s@),
        r matches Some(k) ==> k < TAG_COUNT,
{
    let mut k: u8 = 0;
    while k < TAG_COUNT
        invariant
            k <= TAG_COUNT,
            tag_kind(s@) == tag_kind_from(s@, k),
        decreases TAG_COUNT - k,
    {
        if *s == tag_text(k) {
            return Some(k);
        }
        k = k + 1;
    }
    None
}

fn leaf_type(k: u8, doc: Option<String>) -> (r: Type)
    requires
        k < 9,
    ensures
        r@ == leaf_model(k, opt_text(doc)),
{
    if k == 0 { Type::Null { doc } }
    else if k == 1 { Type::Bool { doc } }
    else if k == 2 { Type::I32 { doc } }
    else if k == 3 { Type::U32 { doc } }
    else if k == 4 { Type::I64 { doc } }
    else if k == 5 { Type::U64 { doc } }
    else if k == 6 { Type::F64 { doc } }
    else if k == 7 { Type::Bytes { doc } }
    else { Type::String { doc } }
}

impl Type {
    /// The documentation of this type, whatever its variant.
    pub fn doc(&self) -> (r: &Option<String>)
        ensures
            opt_text(*r) == type_doc(self@),
    {
        match self {
            Type::Null { doc } => doc,
            Type::Bool { doc } => doc,
            Type::I32 { doc } => doc,
            Type::U32 { doc } => doc,
            Type::I64 { doc } => doc,
            Type::U64 { doc } => doc,
            Type::F64 { doc } => doc,
            Type::Bytes { doc } => doc,
            Type::String { doc } => doc,
            Type::Optional { doc, .. } => doc,
            Type::Array { doc, .. } => doc,
            Type::Tuple { doc, .. } => doc,
            Type::Struct { doc, .. } => doc,
            Type::Enum { doc, .. } => doc,
            Type::NamedType { doc, .. } => doc,
        }
    }

    fn kind(&self) -> (r: u8)
        ensures
            r == type_kind(self@),
            r < TAG_COUNT,
    {
        match self {
            Type::Null { .. } => 0,
            Type::Bool { .. } => 1,
            Type::I32 { .. } => 2,
            Type::U32 { .. } => 3,
            Type::I64 { .. } => 4,
            Type::U64 { .. } => 5,
            Type::F64 { .. } => 6,
            Type::Bytes { .. } => 7,
            Type::String { .. } => 8,
            Type::Optional { .. } => 9,
            Type::Array { .. } => 10,
            Type::Tuple { .. } => 11,
            Type::Struct { .. } => 12,
            Type::Enum { .. } => 13,
            Type::NamedType { .. } => 14,
        }
    }
}

fn write_type(t: &Type) -> (r: Json)
    ensures
        r@ == encode_type(t@),
    decreases t,
{
    let mut ms: Vec<(String, Json)> = Vec::new();
    proof {
        assert(members_model(ms@) =~= seq![]);
    }
    push_member(&mut ms, "type", Json::Str(tag_text(t.kind())));
    push_opt_text(&mut ms, "doc", t.doc());
    assert(members_model(ms@) =~= type_head(t@));
    match t {
        Type::Optional { content, .. } => {
            push_member(&mut ms, "content", write_type(content));
        },
        Type::Array { content, .. } => {
            push_member(&mut ms, "content", write_type(content));
        },
        Type::Tuple { content, .. } => {
            push_member(&mut ms, "content", Json::Array(write_slots(content)));
        },
        Type::Struct { content, .. } => {
            push_member(&mut ms, "content", Json::Object(write_slot_entries(&content.entries)));
        },
        Type::Enum { content, .. } => {
            push_member(&mut ms, "content", Json::Object(write_slot_entries(&content.entries)));
        },
        Type::NamedType { content, .. } => {
            push_member(&mut ms, "content", Json::Str(content.clone()));
        },
        _ => {},
    }
    Json::Object(ms)
}

fn write_slot(s: &StructContent) -> (r: Json)
    ensures
        r@ == encode_slot(s@),
    decreases s,
{
    let mut ms: Vec<(String, Json)> = Vec::new();
    proof {
        assert(members_model(ms@) =~= seq![]);
    }
    push_opt_text(&mut ms, "doc", &s.doc);
    push_member(&mut ms, "index", Json::Number(s.index as u64));
    push_member(&mut ms, "content", write_type(&s.content));
    assert(members_model(ms@) =~= opt_text_member("doc"@, opt_text(s.doc)) + seq![
        ("index"@, JsonModel::Number(s.index as u64)),
        ("content"@, encode_type(type_model(*s.content))),
    ]);
    Json::Object(ms)
}

fn write_slots(v: &Vec<StructContent>) -> (r: Vec<Json>)
    ensures
        items_model(r@) == encode_slots(slots_model(v@)),
    decreases v,
{
    let mut out: Vec<Json> = Vec::new();
    let mut i: usize = 0;
    while i < v.len()
        invariant
            i <= v.len(),
            items_model(out@) == encode_slots(slots_model(v@.take(i as int))),
        decreases v.len() - i,
    {
        assert(decreases_to!(v => v@[i as int]));
        let x = write_slot(&v[i]);
        proof {
            lemma_items_push(out@, x);
            let s = v@.take(i + 1);
            assert(s.drop_last() =~= v@.take(i as int));
            assert(s.last() == v@[i as int]);
            let p = slots_model(v@.take(i as int));
            assert(p.push(slot_model(v@[i as int])).drop_last() =~= p);
        }
        out.push(x);
        i = i + 1;
    }
    assert(v@.take(i as int) =~= v@);
    out
}

fn write_slot_entries(v: &Vec<(String, StructContent)>) -> (r: Vec<(String, Json)>)
    ensures
        members_model(r@) == encode_slot_entries(slot_entries_model(v@)),
    decreases v,
{
    let mut out: Vec<(String, Json)> = Vec::new();
    let mut i: usize = 0;
    while i < v.len()
        invariant
            i <= v.len(),
            members_model(out@) == encode_slot_entries(slot_entries_model(v@.take(i as int))),
        decreases v.len() - i,
    {
        assert(decreases_to!(v => v@[i as int].1));
        let x = write_slot(&v[i].1);
        let k = v[i].0.clone();
        proof {
            lemma_members_push(out@, (k, x));
            let s = v@.take(i + 1);
            assert(s.drop_last() =~= v@.take(i as int));
            assert(s.last() == v@[i as int]);
            let p = slot_entries_model(v@.take(i as int));
            let e = (v@[i as int].0@, slot_model(v@[i as int].1));
            assert(p.push(e).drop_last() =~= p);
        }
        out.push((k, x));
        i = i + 1;
    }
    assert(v@.take(i as int) =~= v@);
    out
}

fn read_type(j: &Json, depth: usize) -> (r: Result<Type, DecodeError>)
    ensures
        result_model(r) == decode_type(j@, depth as nat),
    decreases depth, 0usize,
{
    if depth == 0 {
        return Err(DecodeError::DepthExceeded);
    }
    match j {
        Json::Object(ms) => match find_field(ms, "type") {
            Some(Json::Str(tag)) => match read_tag(tag) {
                None => Err(DecodeError::UnknownVariant),
                Some(k) => match read_opt_text(ms, "doc") {
                    Err(e) => Err(e),
                    Ok(doc) => read_type_content(k, doc, find_field(ms, "content"), depth - 1),
                },
            },
            _ => Err(DecodeError::SchemaMismatch),
        },
        _ => Err(DecodeError::SchemaMismatch),
    }
}

fn read_type_content(k: u8, doc: Option<String>, content: Option<&Json>, depth: usize) -> (r: Result<
    Type,
    DecodeError,
>)
    requires
        k < TAG_COUNT,
    ensures
        result_model(r) == decode_type_content(k, opt_text(doc), opt_model(content), depth as nat),
    decreases depth, 3usize,
{
    if k < 9 {
        Ok(leaf_type(k, doc))
    } else if k == 9 || k == 10 {
        match content {
            Some(c) => match read_type(c, depth) {
                Ok(t) => Ok(
                    if k == 9 {
                        Type::Optional { doc, content: Box::new(t) }
                    } else {
                        Type::Array { doc, content: Box::new(t) }
                    },
                ),
                Err(e) => Err(e),
            },
            None => Err(DecodeError::SchemaMismatch),
        }
    } else if k == 11 {
        match content {
            Some(Json::Array(items)) => match read_slots(items, depth) {
                Ok(s) => Ok(Type::Tuple { doc, content: s }),
                Err(e) => Err(e),
            },
            _ => Err(DecodeError::SchemaMismatch),
        }
    } else if k == 12 || k == 13 {
        match content {
            Some(Json::Object(ms)) => match read_slot_entries(ms, depth) {
                Ok(entries) => Ok(
                    if k == 12 {
                        Type::Struct { doc, content: NamedMap { entries } }
                    } else {
                        Type::Enum { doc, content: NamedMap { entries } }
                    },
                ),
                Err(e) => Err(e),
            },
            _ => Err(DecodeError::SchemaMismatch),
        }
    } else {
        match content {
            Some(Json::Str(s)) => Ok(Type::NamedType { doc, content: s.clone() }),
            _ => Err(DecodeError::SchemaMismatch),
        }
    }
}

fn read_slot(j: &Json, depth: usize) -> (r: Result<StructContent, DecodeError>)
    ensures
        result_model(r) == decode_slot(j@, depth as nat),
    decreases depth, 1usize,
{
    match j {
        Json::Object(ms) => {
            let doc = match read_opt_text(ms, "doc") {
                Ok(d) => d,
                Err(e) => return Err(e),
            };
            let index = match read_u32(ms, "index") {
                Ok(n) => n,
                Err(e) => return Err(e),
            };
            match find_field(ms, "content") {
                None => Err(DecodeError::SchemaMismatch),
                Some(c) => match read_type(c, depth) {
                    Err(e) => Err(e),
                    Ok(t) => Ok(StructContent { doc, index, content: Box::new(t) }),
                },
            }
        },
        _ => Err(DecodeError::SchemaMismatch),
    }
}

fn read_slots(items: &Vec<Json>, depth: usize) -> (r: Result<Vec<StructContent>, DecodeError>)
    ensures
        match r {
            Ok(v) => decode_slots(items_model(items@), depth as nat) == Ok::<Seq<SlotModel>, DecodeError>(slots_model(v@)),
            Err(e) => decode_slots(items_model(items@), depth as nat) == Err::<Seq<SlotModel>, DecodeError>(e),
        },
    decreases depth, 2usize,
{
    let ghost im = items_model(items@);
    proof {
        lemma_items_model(items@);
    }
    let mut out: Vec<StructContent> = Vec::new();
    let mut i: usize = 0;
    while i < items.len()
        invariant
            i <= items.len(),
            im == items_model(items@),
            im.len() == items@.len(),
            forall|x: int| 0 <= x < items@.len() ==> #[trigger] im[x] == json_model(items@[x]),
            decode_slots(im.take(i as int), depth as nat) == Ok::<Seq<SlotModel>, DecodeError>(slots_model(out@)),
        decreases items.len() - i,
    {
        assert(im.take(i + 1).drop_last() =~= im.take(i as int));
        assert(im.take(i + 1).last() == im[i as int]);
        match read_slot(&items[i], depth) {
            Err(e) => {
                proof {
                    lemma_slots_prefix_err(im, i + 1, depth as nat);
                }
                return Err(e);
            },
            Ok(x) => {
                proof {
                    assert(out@.push(x).drop_last() =~= out@);
                }
                out.push(x);
            },
        }
        i = i + 1;
    }
    assert(im.take(i as int) =~= im);
    Ok(out)
}

fn has_entry(v: &Vec<(String, StructContent)>, key: &String) -> (r: bool)
    ensures
        r == has_key(slot_entries_model(v@), key@),
{
    proof {
        lemma_slot_entries_model(v@);
    }
    let mut i: usize = 0;
    while i < v.len()
        invariant
            i <= v.len(),
            slot_entries_model(v@).len() == v@.len(),
            forall|x: int|
                0 <= x < v@.len() ==> #[trigger] slot_entries_model(v@)[x] == (v@[x].0@, slot_model(v@[x].1)),
            forall|x: int| 0 <= x < i ==> slot_entries_model(v@)[x].0 != key@,
        decreases v.len() - i,
    {
        if v[i].0 == *key {
            assert(slot_entries_model(v@)[i as int].0 == key@);
            return true;
        }
        i = i + 1;
    }
    false
}

fn read_slot_entries(ms: &Vec<(String, Json)>, depth: usize) -> (r: Result<
    Vec<(String, StructContent)>,
    DecodeError,
>)
    ensures
        match r {
            Ok(v) => decode_slot_entries(members_model(ms@), depth as nat) == Ok::<Seq<(Seq<char>, SlotModel)>, DecodeError>(slot_entries_model(v@)),
            Err(e) => decode_slot_entries(members_model(ms@), depth as nat) == Err::<Seq<(Seq<char>, SlotModel)>, DecodeError>(e),
        },
    decreases depth, 2usize,
{
    let ghost mm = members_model(ms@);
    proof {
        lemma_members_model(ms@);
    }
    let mut out: Vec<(String, StructContent)> = Vec::new();
    let mut i: usize = 0;
    while i < ms.len()
        invariant
            i <= ms.len(),
            mm == members_model(ms@),
            mm.len() == ms@.len(),
            forall|x: int| 0 <= x < ms@.len() ==> #[trigger] mm[x] == (ms@[x].0@, json_model(ms@[x].1)),
            decode_slot_entries(mm.take(i as int), depth as nat) == Ok::<Seq<(Seq<char>, SlotModel)>, DecodeError>(slot_entries_model(out@)),
        decreases ms.len() - i,
    {
        assert(mm.take(i + 1).drop_last() =~= mm.take(i as int));
        assert(mm.take(i + 1).last() == mm[i as int]);
        match read_slot(&ms[i].1, depth) {
            Err(e) => {
                proof {
                    lemma_slot_entries_prefix_err(mm, i + 1, depth as nat);
                }
                return Err(e);
            },
            Ok(x) => {
                if has_entry(&out, &ms[i].0) {
                    proof {
                        lemma_slot_entries_prefix_err(mm, i + 1, depth as nat);
                    }
                    return Err(DecodeError::SchemaMismatch);
                }
                let k = ms[i].0.clone();
                proof {
                    assert(out@.push((k, x)).drop_last() =~= out@);
                }
                out.push((k, x));
            },
        }
        i = i + 1;
    }
    assert(mm.take(i as int) =~= mm);
    Ok(out)
}

impl JsonCodec for Type {
    open spec fn encode_model(m: Self::V) -> JsonModel {
        encode_type(m)
    }

    open spec fn decode_model(j: JsonModel) -> Result<Self::V, DecodeError> {
        decode_type(j, TYPE_DEPTH_LIMIT as nat)
    }

    fn to_json(&self) -> (r: Json) {
        write_type(self)
    }

    fn from_json(j: &Json) -> (r: Result<Self, DecodeError>) {
        read_type(j, TYPE_DEPTH_LIMIT)
    }

    proof fn lemma_round_trip(j: JsonModel) {
        lemma_type_round_trip(j, TYPE_DEPTH_LIMIT as nat);
    }

    proof fn lemma_plain(j: JsonModel) {
        lemma_type_plain(j, TYPE_DEPTH_LIMIT as nat);
    }
}

/// A type that was read, written again, reads back as itself.
pub proof fn lemma_type_round_trip(j: JsonModel, d: nat)
    requires
        decode_type(j, d) is Ok,
    ensures
        decode_type(encode_type(decode_type(j, d)->Ok_0), d) == decode_type(j, d),
    decreases d, 0nat, 0nat,
{
    lemma_key_names();
    let ms = j->Object_0;
    let tag = field(ms, "type"@)->Some_0->Str_0;
    lemma_tag_kind_bound(tag, 0);
    let k = tag_kind(tag)->Some_0;
    let doc = opt_text_field(ms, "doc"@)->Ok_0;
    let c = field(ms, "content"@);
    let m = decode_type(j, d)->Ok_0;
    lemma_type_content_round_trip(k, doc, c, (d - 1) as nat);
    assert(type_kind(m) == k);
    assert(type_doc(m) == doc);
    let e = encode_type(m)->Object_0;
    lemma_tag_names(k);
    lemma_field_at(e, "type"@, 0);
    let n: int = if doc is Some { 2 } else { 1 };
    if doc is Some {
        lemma_field_at(e, "doc"@, 1);
    } else {
        lemma_field_none(e, "doc"@);
    }
    if k >= 9 {
        lemma_field_at(e, "content"@, n);
    }
}

proof fn lemma_type_content_round_trip(k: u8, doc: Option<Seq<char>>, c: Option<JsonModel>, d: nat)
    requires
        k < TAG_COUNT,
        decode_type_content(k, doc, c, d) is Ok,
    ensures
        ({
            let m = decode_type_content(k, doc, c, d)->Ok_0;
            &&& type_kind(m) == k
            &&& type_doc(m) == doc
            &&& k < 9 ==> m == leaf_model(k, doc)
            &&& (k == 9 || k == 10) ==> decode_type(c->Some_0, d) == Ok::<TypeModel, DecodeError>(
                if k == 9 { *m->Optional_content } else { *m->Array_content }
            )
            &&& k == 11 ==> decode_slots(c->Some_0->Array_0, d) == Ok::<Seq<SlotModel>, DecodeError>(m->Tuple_content)
            &&& k == 12 ==> decode_slot_entries(c->Some_0->Object_0, d) == Ok::<Seq<(Seq<char>, SlotModel)>, DecodeError>(m->Struct_content)
            &&& k == 13 ==> decode_slot_entries(c->Some_0->Object_0, d) == Ok::<Seq<(Seq<char>, SlotModel)>, DecodeError>(m->Enum_content)
            &&& k == 14 ==> m->NamedType_content == c->Some_0->Str_0
            &&& decode_type_content(k, doc, encode_content(m), d) == Ok::<TypeModel, DecodeError>(m)
        }),
    decreases d, 3nat, 0nat,
{
    let m = decode_type_content(k, doc, c, d)->Ok_0;
    if k == 9 || k == 10 {
        lemma_type_round_trip(c->Some_0, d);
    } else if k == 11 {
        lemma_slots_round_trip(c->Some_0->Array_0, d);
    } else if k == 12 || k == 13 {
        lemma_slot_entries_round_trip(c->Some_0->Object_0, d);
    }
}

/// The `content` member that `encode_type` writes for `m`, if any.
pub open spec fn encode_content(m: TypeModel) -> Option<JsonModel> {
    match encode_type(m) {
        JsonModel::Object(e) => if type_kind(m) >= 9 { Some(e.last().1) } else { None },
        _ => None,
    }
}

proof fn lemma_slot_round_trip(j: JsonModel, d: nat)
    requires
        decode_slot(j, d) is Ok,
    ensures
        decode_slot(encode_slot(decode_slot(j, d)->Ok_0), d) == decode_slot(j, d),
    decreases d, 1nat, 0nat,
{
    lemma_key_names();
    let ms = j->Object_0;
    lemma_type_round_trip(field(ms, "content"@)->Some_0, d);
    let s = decode_slot(j, d)->Ok_0;
    let e = encode_slot(s)->Object_0;
    let n: int = if s.doc is Some { 1 } else { 0 };
    if s.doc is Some {
        lemma_field_at(e, "doc"@, 0);
    } else {
        lemma_field_none(e, "doc"@);
    }
    lemma_field_at(e, "index"@, n);
    lemma_field_at(e, "content"@, n + 1);
}

proof fn lemma_slots_round_trip(items: Seq<JsonModel>, d: nat)
    requires
        decode_slots(items, d) is Ok,
    ensures
        decode_slots(encode_slots(decode_slots(items, d)->Ok_0), d) == decode_slots(items, d),
    decreases d, 2nat, items.len(),
{
    if items.len() > 0 {
        lemma_slots_round_trip(items.drop_last(), d);
        lemma_slot_round_trip(items.last(), d);
        let p = decode_slots(items.drop_last(), d)->Ok_0;
        let x = decode_slot(items.last(), d)->Ok_0;
        assert(p.push(x).drop_last() =~= p);
        let e = encode_slots(p.push(x));
        assert(e.drop_last() =~= encode_slots(p));
    }
}

proof fn lemma_slot_entries_round_trip(ms: Seq<(Seq<char>, JsonModel)>, d: nat)
    requires
        decode_slot_entries(ms, d) is Ok,
    ensures
        decode_slot_entries(encode_slot_entries(decode_slot_entries(ms, d)->Ok_0), d) == decode_slot_entries(ms, d),
    decreases d, 2nat, ms.len(),
{
    if ms.len() > 0 {
        lemma_slot_entries_round_trip(ms.drop_last(), d);
        lemma_slot_round_trip(ms.last().1, d);
        let p = decode_slot_entries(ms.drop_last(), d)->Ok_0;
        let x = decode_slot(ms.last().1, d)->Ok_0;
        let q = p.push((ms.last().0, x));
        assert(q.drop_last() =~= p);
        let e = encode_slot_entries(q);
        assert(e.drop_last() =~= encode_slot_entries(p));
    }
}

/// A type that was read is written as a plain JSON value.
pub proof fn lemma_type_plain(j: JsonModel, d: nat)
    requires
        decode_type(j, d) is Ok,
    ensures
        json_plain(encode_type(decode_type(j, d)->Ok_0)),
    decreases d, 0nat, 0nat,
{
    lemma_key_names();
    let ms = j->Object_0;
    let tag = field(ms, "type"@)->Some_0->Str_0;
    lemma_tag_kind_bound(tag, 0);
    let k = tag_kind(tag)->Some_0;
    let doc = opt_text_field(ms, "doc"@)->Ok_0;
    let c = field(ms, "content"@);
    let m = decode_type(j, d)->Ok_0;
    lemma_type_content_round_trip(k, doc, c, (d - 1) as nat);
    let dd = (d - 1) as nat;
    if k == 9 || k == 10 {
        lemma_type_plain(c->Some_0, dd);
    } else if k == 11 {
        lemma_slots_plain(c->Some_0->Array_0, dd);
    } else if k == 12 || k == 13 {
        lemma_slot_entries_plain(c->Some_0->Object_0, dd);
    }
    let e = encode_type(m)->Object_0;
    lemma_members_plain_all(e);
}

proof fn lemma_slot_plain(j: JsonModel, d: nat)
    requires
        decode_slot(j, d) is Ok,
    ensures
        json_plain(encode_slot(decode_slot(j, d)->Ok_0)),
    decreases d, 1nat, 0nat,
{
    lemma_key_names();
    let ms = j->Object_0;
    lemma_type_plain(field(ms, "content"@)->Some_0, d);
    let e = encode_slot(decode_slot(j, d)->Ok_0)->Object_0;
    lemma_members_plain_all(e);
}

proof fn lemma_slots_plain(items: Seq<JsonModel>, d: nat)
    requires
        decode_slots(items, d) is Ok,
    ensures
        items_plain(encode_slots(decode_slots(items, d)->Ok_0)),
    decreases d, 2nat, items.len(),
{
    if items.len() > 0 {
        lemma_slots_plain(items.drop_last(), d);
        lemma_slot_plain(items.last(), d);
        let p = decode_slots(items.drop_last(), d)->Ok_0;
        let x = decode_slot(items.last(), d)->Ok_0;
        assert(p.push(x).drop_last() =~= p);
        let e = encode_slots(p.push(x));
        assert(e.drop_last() =~= encode_slots(p));
    }
}

proof fn lemma_encode_slot_entries_names(p: Seq<(Seq<char>, SlotModel)>)
    ensures
        encode_slot_entries(p).len() == p.len(),
        forall|i: int| 0 <= i < p.len() ==> #[trigger] encode_slot_entries(p)[i].0 == p[i].0,
    decreases p.len(),
{
    if p.len() > 0 {
        lemma_encode_slot_entries_names(p.drop_last());
    }
}

proof fn lemma_slot_entries_plain(ms: Seq<(Seq<char>, JsonModel)>, d: nat)
    requires
        decode_slot_entries(ms, d) is Ok,
    ensures
        keys_unique(encode_slot_entries(decode_slot_entries(ms, d)->Ok_0)),
        members_plain(encode_slot_entries(decode_slot_entries(ms, d)->Ok_0)),
    decreases d, 2nat, ms.len(),
{
    if ms.len() > 0 {
        lemma_slot_entries_plain(ms.drop_last(), d);
        lemma_slot_plain(ms.last().1, d);
        let p = decode_slot_entries(ms.drop_last(), d)->Ok_0;
        let x = decode_slot(ms.last().1, d)->Ok_0;
        let k = ms.last().0;
        let q = p.push((k, x));
        assert(q.drop_last() =~= p);
        let e = encode_slot_entries(q);
        let ep = encode_slot_entries(p);
        assert(e.drop_last() =~= ep);
        lemma_encode_slot_entries_names(p);
        assert forall|i: int| 0 <= i < ep.len() implies ep[i].0 != k by {
            assert(ep[i].0 == p[i].0);
        }
        assert(e == ep.push((k, encode_slot(x))));
    }
}

} // verus!
