//! The interchange rules, stated over the models: how each schema value is
//! written as JSON, and what reading JSON back yields.
use vstd::prelude::*;
use crate::json::{json_plain, Json, JsonModel};
use crate::model::{
    has_key, Call, CallModel, Feature, FeatureModel, SlotModel, SpecModel, Type, TypeModel,
    UnstableFeature, UnstableFeatureModel,
};

verus! {

/// Why a document could not be read.
#[derive(Debug, Clone, Copy, PartialEq, Eq, Structural)]
pub enum DecodeError {
    /// the bytes are not well-formed JSON text
    MalformedInput,
    /// a required field is missing, or a field has the wrong shape
    SchemaMismatch,
    /// a type's `type` discriminant names no known variant
    UnknownVariant,
    /// the document nests deeper than the decoder's limit
    DepthExceeded,
}

/// How many levels of nested types the decoder reads.
pub const TYPE_DEPTH_LIMIT: usize = 64;

pub type Members = Seq<(Seq<char>, JsonModel)>;

/// The value of the first member of `ms` named `key`.
pub open spec fn field(ms: Members, key: Seq<char>) -> Option<JsonModel>
    decreases ms.len(),
{
    if ms.len() == 0 {
        None
    } else if ms[0].0 == key {
        Some(ms[0].1)
    } else {
        field(ms.drop_first(), key)
    }
}

pub open spec fn text_field(ms: Members, key: Seq<char>) -> Result<Seq<char>, DecodeError> {
    match field(ms, key) {
        Some(JsonModel::Str(s)) => Ok(s),
        _ => Err(DecodeError::SchemaMismatch),
    }
}

pub open spec fn u32_field(ms: Members, key: Seq<char>) -> Result<u32, DecodeError> {
    match field(ms, key) {
        Some(JsonModel::Number(n)) => if n <= u32::MAX {
            Ok(n as u32)
        } else {
            Err(DecodeError::SchemaMismatch)
        },
        _ => Err(DecodeError::SchemaMismatch),
    }
}

/// An optional text field: absent and `null` both read as `None`.
pub open spec fn opt_text_field(ms: Members, key: Seq<char>) -> Result<Option<Seq<char>>, DecodeError> {
    match field(ms, key) {
        None => Ok(None),
        Some(JsonModel::Null) => Ok(None),
        Some(JsonModel::Str(s)) => Ok(Some(s)),
        _ => Err(DecodeError::SchemaMismatch),
    }
}

/// An optional flag: absent and `null` both read as `None`.
pub open spec fn opt_bool_field(ms: Members, key: Seq<char>) -> Result<Option<bool>, DecodeError> {
    match field(ms, key) {
        None => Ok(None),
        Some(JsonModel::Null) => Ok(None),
        Some(JsonModel::Bool(b)) => Ok(Some(b)),
        _ => Err(DecodeError::SchemaMismatch),
    }
}

/// An unset optional field is left out; it is never written as `null`.
pub open spec fn opt_text_member(key: Seq<char>, v: Option<Seq<char>>) -> Members {
    match v {
        Some(s) => seq![(key, JsonModel::Str(s))],
        None => seq![],
    }
}

pub open spec fn opt_bool_member(key: Seq<char>, v: Option<bool>) -> Members {
    match v {
        Some(b) => seq![(key, JsonModel::Bool(b))],
        None => seq![],
    }
}

/// The discriminant written for each variant, by its position in `Type`.
pub open spec fn tag_name(k: u8) -> Seq<char> {
    if k == 0 { "null"@ }
    else if k == 1 { "bool"@ }
    else if k == 2 { "i32"@ }
    else if k == 3 { "u32"@ }
    else if k == 4 { "i64"@ }
    else if k == 5 { "u64"@ }
    else if k == 6 { "f64"@ }
    else if k == 7 { "bytes"@ }
    else if k == 8 { "string"@ }
    else if k == 9 { "optional"@ }
    else if k == 10 { "array"@ }
    else if k == 11 { "tuple"@ }
    else if k == 12 { "struct"@ }
    else if k == 13 { "enum"@ }
    else { "namedType"@ }
}

pub const TAG_COUNT: u8 = 15;

/// The first variant, from position `k` on, whose discriminant is `s`.
pub open spec fn tag_kind_from(s: Seq<char>, k: u8) -> Option<u8>
    decreases TAG_COUNT - k,
{
    if k >= TAG_COUNT {
        None
    } else if s == tag_name(k) {
        Some(k)
    } else {
        tag_kind_from(s, (k + 1) as u8)
    }
}

pub open spec fn tag_kind(s: Seq<char>) -> Option<u8> {
    tag_kind_from(s, 0)
}

pub open spec fn type_kind(m: TypeModel) -> u8 {
    match m {
        TypeModel::Null { .. } => 0,
        TypeModel::Bool { .. } => 1,
        TypeModel::I32 { .. } => 2,
        TypeModel::U32 { .. } => 3,
        TypeModel::I64 { .. } => 4,
        TypeModel::U64 { .. } => 5,
        TypeModel::F64 { .. } => 6,
        TypeModel::Bytes { .. } => 7,
        TypeModel::String { .. } => 8,
        TypeModel::Optional { .. } => 9,
        TypeModel::Array { .. } => 10,
        TypeModel::Tuple { .. } => 11,
        TypeModel::Struct { .. } => 12,
        TypeModel::Enum { .. } => 13,
        TypeModel::NamedType { .. } => 14,
    }
}

pub open spec fn type_doc(m: TypeModel) -> Option<Seq<char>> {
    match m {
        TypeModel::Null { doc } => doc,
        TypeModel::Bool { doc } => doc,
        TypeModel::I32 { doc } => doc,
        TypeModel::U32 { doc } => doc,
        TypeModel::I64 { doc } => doc,
        TypeModel::U64 { doc } => doc,
        TypeModel::F64 { doc } => doc,
        TypeModel::Bytes { doc } => doc,
        TypeModel::String { doc } => doc,
        TypeModel::Optional { doc, .. } => doc,
        TypeModel::Array { doc, .. } => doc,
        TypeModel::Tuple { doc, .. } => doc,
        TypeModel::Struct { doc, .. } => doc,
        TypeModel::Enum { doc, .. } => doc,
        TypeModel::NamedType { doc, .. } => doc,
    }
}

/// The variants without content, by position.
pub open spec fn leaf_model(k: u8, doc: Option<Seq<char>>) -> TypeModel {
    if k == 0 { TypeModel::Null { doc } }
    else if k == 1 { TypeModel::Bool { doc } }
    else if k == 2 { TypeModel::I32 { doc } }
    else if k == 3 { TypeModel::U32 { doc } }
    else if k == 4 { TypeModel::I64 { doc } }
    else if k == 5 { TypeModel::U64 { doc } }
    else if k == 6 { TypeModel::F64 { doc } }
    else if k == 7 { TypeModel::Bytes { doc } }
    else { TypeModel::String { doc } }
}

/// The members every type object starts with: the discriminant, then the doc.
pub open spec fn type_head(m: TypeModel) -> Members {
    seq![("type"@, JsonModel::Str(tag_name(type_kind(m))))] + opt_text_member("doc"@, type_doc(m))
}

pub open spec fn encode_type(m: TypeModel) -> JsonModel
    decreases m,
{
    match m {
        TypeModel::Optional { content, .. } => JsonModel::Object(
            type_head(m).push(("content"@, encode_type(*content))),
        ),
        TypeModel::Array { content, .. } => JsonModel::Object(
            type_head(m).push(("content"@, encode_type(*content))),
        ),
        TypeModel::Tuple { content, .. } => JsonModel::Object(
            type_head(m).push(("content"@, JsonModel::Array(encode_slots(content)))),
        ),
        TypeModel::Struct { content, .. } => JsonModel::Object(
            type_head(m).push(("content"@, JsonModel::Object(encode_slot_entries(content)))),
        ),
        TypeModel::Enum { content, .. } => JsonModel::Object(
            type_head(m).push(("content"@, JsonModel::Object(encode_slot_entries(content)))),
        ),
        TypeModel::NamedType { content, .. } => JsonModel::Object(
            type_head(m).push(("content"@, JsonModel::Str(content))),
        ),
        _ => JsonModel::Object(type_head(m)),
    }
}

pub open spec fn encode_slot(s: SlotModel) -> JsonModel
    decreases s,
{
    JsonModel::Object(
        opt_text_member("doc"@, s.doc) + seq![
            ("index"@, JsonModel::Number(s.index as u64)),
            ("content"@, encode_type(*s.content)),
        ],
    )
}

pub open spec fn encode_slots(s: Seq<SlotModel>) -> Seq<JsonModel>
    decreases s,
{
    if s.len() == 0 {
        seq![]
    } else {
        encode_slots(s.drop_last()).push(encode_slot(s.last()))
    }
}

pub open spec fn encode_slot_entries(s: Seq<(Seq<char>, SlotModel)>) -> Members
    decreases s,
{
    if s.len() == 0 {
        seq![]
    } else {
        encode_slot_entries(s.drop_last()).push((s.last().0, encode_slot(s.last().1)))
    }
}

/// Reads a type, allowing `depth` levels of nesting (this one included).
pub open spec fn decode_type(j: JsonModel, depth: nat) -> Result<TypeModel, DecodeError>
    decreases depth, 0nat, 0nat,
{
    if depth == 0 {
        Err(DecodeError::DepthExceeded)
    } else {
        match j {
            JsonModel::Object(ms) => match field(ms, "type"@) {
                Some(JsonModel::Str(tag)) => match tag_kind(tag) {
                    None => Err(DecodeError::UnknownVariant),
                    Some(k) => match opt_text_field(ms, "doc"@) {
                        Err(e) => Err(e),
                        Ok(doc) => decode_type_content(k, doc, field(ms, "content"@), (depth - 1) as nat),
                    },
                },
                _ => Err(DecodeError::SchemaMismatch),
            },
            _ => Err(DecodeError::SchemaMismatch),
        }
    }
}

/// Builds the variant at position `k` from its doc and its `content` member,
/// whose own types may nest `depth` levels.
pub open spec fn decode_type_content(
    k: u8,
    doc: Option<Seq<char>>,
    content: Option<JsonModel>,
    depth: nat,
) -> Result<TypeModel, DecodeError>
    decreases depth, 3nat, 0nat,
{
    if k < 9 {
        Ok(leaf_model(k, doc))
    } else if k == 9 || k == 10 {
        match content {
            Some(c) => match decode_type(c, depth) {
                Ok(t) => Ok(
                    if k == 9 {
                        TypeModel::Optional { doc, content: Box::new(t) }
                    } else {
                        TypeModel::Array { doc, content: Box::new(t) }
                    },
                ),
                Err(e) => Err(e),
            },
            None => Err(DecodeError::SchemaMismatch),
        }
    } else if k == 11 {
        match content {
            Some(JsonModel::Array(items)) => match decode_slots(items, depth) {
                Ok(s) => Ok(TypeModel::Tuple { doc, content: s }),
                Err(e) => Err(e),
            },
            _ => Err(DecodeError::SchemaMismatch),
        }
    } else if k == 12 || k == 13 {
        match content {
            Some(JsonModel::Object(ms)) => match decode_slot_entries(ms, depth) {
                Ok(s) => Ok(
                    if k == 12 {
                        TypeModel::Struct { doc, content: s }
                    } else {
                        TypeModel::Enum { doc, content: s }
                    },
                ),
                Err(e) => Err(e),
            },
            _ => Err(DecodeError::SchemaMismatch),
        }
    } else {
        match content {
            Some(JsonModel::Str(s)) => Ok(TypeModel::NamedType { doc, content: s }),
            _ => Err(DecodeError::SchemaMismatch),
        }
    }
}

pub open spec fn decode_slot(j: JsonModel, depth: nat) -> Result<SlotModel, DecodeError>
    decreases depth, 1nat, 0nat,
{
    match j {
        JsonModel::Object(ms) => match opt_text_field(ms, "doc"@) {
            Err(e) => Err(e),
            Ok(doc) => match u32_field(ms, "index"@) {
                Err(e) => Err(e),
                Ok(index) => match field(ms, "content"@) {
                    None => Err(DecodeError::SchemaMismatch),
                    Some(c) => match decode_type(c, depth) {
                        Err(e) => Err(e),
                        Ok(t) => Ok(SlotModel { doc, index, content: Box::new(t) }),
                    },
                },
            },
        },
        _ => Err(DecodeError::SchemaMismatch),
    }
}

pub open spec fn decode_slots(s: Seq<JsonModel>, depth: nat) -> Result<Seq<SlotModel>, DecodeError>
    decreases depth, 2nat, s.len(),
{
    if s.len() == 0 {
        Ok(seq![])
    } else {
        match decode_slots(s.drop_last(), depth) {
            Err(e) => Err(e),
            Ok(p) => match decode_slot(s.last(), depth) {
                Err(e) => Err(e),
                Ok(x) => Ok(p.push(x)),
            },
        }
    }
}

/// Entries are read in order; a repeated key is refused.
pub open spec fn decode_slot_entries(s: Members, depth: nat) -> Result<
    Seq<(Seq<char>, SlotModel)>,
    DecodeError,
>
    decreases depth, 2nat, s.len(),
{
    if s.len() == 0 {
        Ok(seq![])
    } else {
        match decode_slot_entries(s.drop_last(), depth) {
            Err(e) => Err(e),
            Ok(p) => match decode_slot(s.last().1, depth) {
                Err(e) => Err(e),
                Ok(x) => if has_key(p, s.last().0) {
                    Err(DecodeError::SchemaMismatch)
                } else {
                    Ok(p.push((s.last().0, x)))
                },
            },
        }
    }
}

/// The model of a decoding result.
pub open spec fn result_model<T: View>(r: Result<T, DecodeError>) -> Result<T::V, DecodeError> {
    match r {
        Ok(v) => Ok(v@),
        Err(e) => Err(e),
    }
}

/// A value that is written to and read from JSON by the rules above.
pub trait JsonCodec: View + Sized {
    spec fn encode_model(m: Self::V) -> JsonModel;

    spec fn decode_model(j: JsonModel) -> Result<Self::V, DecodeError>;

    fn to_json(&self) -> (r: Json)
        ensures
            r@ == Self::encode_model(self@),
    ;

    fn from_json(j: &Json) -> (r: Result<Self, DecodeError>)
        ensures
            result_model(r) == Self::decode_model(j@),
    ;

    /// Whatever is read can be written and read back unchanged.
    proof fn lemma_round_trip(j: JsonModel)
        requires
            Self::decode_model(j) is Ok,
        ensures
            Self::decode_model(Self::encode_model(Self::decode_model(j)->Ok_0)) == Self::decode_model(j),
    ;

    /// Whatever is read is written as a plain JSON value.
    proof fn lemma_plain(j: JsonModel)
        requires
            Self::decode_model(j) is Ok,
        ensures
            json_plain(Self::encode_model(Self::decode_model(j)->Ok_0)),
    ;
}

pub open spec fn encode_entries<V: JsonCodec>(s: Seq<(Seq<char>, V::V)>) -> Members
    decreases s.len(),
{
    if s.len() == 0 {
        seq![]
    } else {
        encode_entries::<V>(s.drop_last()).push((s.last().0, V::encode_model(s.last().1)))
    }
}

/// Entries are read in order; a repeated key is refused.
pub open spec fn decode_entries<V: JsonCodec>(s: Members) -> Result<Seq<(Seq<char>, V::V)>, DecodeError>
    decreases s.len(),
{
    if s.len() == 0 {
        Ok(seq![])
    } else {
        match decode_entries::<V>(s.drop_last()) {
            Err(e) => Err(e),
            Ok(p) => match V::decode_model(s.last().1) {
                Err(e) => Err(e),
                Ok(x) => if has_key(p, s.last().0) {
                    Err(DecodeError::SchemaMismatch)
                } else {
                    Ok(p.push((s.last().0, x)))
                },
            },
        }
    }
}

/// A map field: a JSON object whose members are the map's entries, in order.
pub open spec fn map_field<V: JsonCodec>(ms: Members, key: Seq<char>) -> Result<Seq<(Seq<char>, V::V)>, DecodeError> {
    match field(ms, key) {
        Some(JsonModel::Object(m)) => decode_entries::<V>(m),
        _ => Err(DecodeError::SchemaMismatch),
    }
}

pub open spec fn encode_feature(f: FeatureModel) -> JsonModel {
    JsonModel::Object(
        opt_text_member("doc"@, f.doc) + seq![("stablizedRevision"@, JsonModel::Number(f.stablized_revision as u64))]
            + opt_bool_member("deprecated"@, f.deprecated),
    )
}

pub open spec fn decode_feature(j: JsonModel) -> Result<FeatureModel, DecodeError> {
    match j {
        JsonModel::Object(ms) => match opt_text_field(ms, "doc"@) {
            Err(e) => Err(e),
            Ok(doc) => match u32_field(ms, "stablizedRevision"@) {
                Err(e) => Err(e),
                Ok(stablized_revision) => match opt_bool_field(ms, "deprecated"@) {
                    Err(e) => Err(e),
                    Ok(deprecated) => Ok(FeatureModel { doc, stablized_revision, deprecated }),
                },
            },
        },
        _ => Err(DecodeError::SchemaMismatch),
    }
}

pub open spec fn encode_unstable_feature(f: UnstableFeatureModel) -> JsonModel {
    JsonModel::Object(opt_text_member("doc"@, f.doc))
}

pub open spec fn decode_unstable_feature(j: JsonModel) -> Result<UnstableFeatureModel, DecodeError> {
    match j {
        JsonModel::Object(ms) => match opt_text_field(ms, "doc"@) {
            Err(e) => Err(e),
            Ok(doc) => Ok(UnstableFeatureModel { doc }),
        },
        _ => Err(DecodeError::SchemaMismatch),
    }
}

pub open spec fn encode_call(c: CallModel) -> JsonModel {
    JsonModel::Object(
        opt_text_member("doc"@, c.doc) + seq![
            ("feature"@, JsonModel::Str(c.feature)),
            ("input"@, JsonModel::Str(c.input)),
            ("output"@, JsonModel::Str(c.output)),
        ],
    )
}

pub open spec fn decode_call(j: JsonModel) -> Result<CallModel, DecodeError> {
    match j {
        JsonModel::Object(ms) => match opt_text_field(ms, "doc"@) {
            Err(e) => Err(e),
            Ok(doc) => match text_field(ms, "feature"@) {
                Err(e) => Err(e),
                Ok(feature) => match text_field(ms, "input"@) {
                    Err(e) => Err(e),
                    Ok(input) => match text_field(ms, "output"@) {
                        Err(e) => Err(e),
                        Ok(output) => Ok(CallModel { doc, feature, input, output }),
                    },
                },
            },
        },
        _ => Err(DecodeError::SchemaMismatch),
    }
}

pub open spec fn encode_spec(s: SpecModel) -> JsonModel {
    JsonModel::Object(
        seq![
            ("id"@, JsonModel::Str(s.id)),
            ("title"@, JsonModel::Str(s.title)),
            ("revision"@, JsonModel::Number(s.revision as u64)),
            ("errorType"@, JsonModel::Str(s.error_type)),
        ] + opt_bool_member("unique"@, s.unique) + seq![
            ("features"@, JsonModel::Object(encode_entries::<Feature>(s.features))),
            ("unstableFeatures"@, JsonModel::Object(encode_entries::<UnstableFeature>(s.unstable_features))),
            ("types"@, JsonModel::Object(encode_entries::<Type>(s.types))),
            ("callsOut"@, JsonModel::Object(encode_entries::<Call>(s.calls_out))),
            ("callsIn"@, JsonModel::Object(encode_entries::<Call>(s.calls_in))),
        ],
    )
}

pub open spec fn decode_spec(j: JsonModel) -> Result<SpecModel, DecodeError> {
    match j {
        JsonModel::Object(ms) => match text_field(ms, "id"@) {
            Err(e) => Err(e),
            Ok(id) => match text_field(ms, "title"@) {
                Err(e) => Err(e),
                Ok(title) => match u32_field(ms, "revision"@) {
                    Err(e) => Err(e),
                    Ok(revision) => match text_field(ms, "errorType"@) {
                        Err(e) => Err(e),
                        Ok(error_type) => match opt_bool_field(ms, "unique"@) {
                            Err(e) => Err(e),
                            Ok(unique) => decode_spec_tables(ms, id, title, revision, error_type, unique),
                        },
                    },
                },
            },
        },
        _ => Err(DecodeError::SchemaMismatch),
    }
}

/// The five tables of a spec, read after its plain fields.
pub open spec fn decode_spec_tables(
    ms: Members,
    id: Seq<char>,
    title: Seq<char>,
    revision: u32,
    error_type: Seq<char>,
    unique: Option<bool>,
) -> Result<SpecModel, DecodeError> {
    match map_field::<Feature>(ms, "features"@) {
        Err(e) => Err(e),
        Ok(features) => match map_field::<UnstableFeature>(ms, "unstableFeatures"@) {
            Err(e) => Err(e),
            Ok(unstable_features) => match map_field::<Type>(ms, "types"@) {
                Err(e) => Err(e),
                Ok(types) => match map_field::<Call>(ms, "callsOut"@) {
                    Err(e) => Err(e),
                    Ok(calls_out) => match map_field::<Call>(ms, "callsIn"@) {
                        Err(e) => Err(e),
                        Ok(calls_in) => Ok(
                            SpecModel {
                                id,
                                title,
                                revision,
                                error_type,
                                unique,
                                features,
                                unstable_features,
                                types,
                                calls_out,
                                calls_in,
                            },
                        ),
                    },
                },
            },
        },
    }
}

/// The document: one object whose `inversionApiSpec` member holds the spec.
pub open spec fn encode_document(s: SpecModel) -> JsonModel {
    JsonModel::Object(seq![("inversionApiSpec"@, encode_spec(s))])
}

pub open spec fn decode_document(j: JsonModel) -> Result<SpecModel, DecodeError> {
    match j {
        JsonModel::Object(ms) => match field(ms, "inversionApiSpec"@) {
            Some(s) => decode_spec(s),
            None => Err(DecodeError::SchemaMismatch),
        },
        _ => Err(DecodeError::SchemaMismatch),
    }
}

pub proof fn lemma_field_at(ms: Members, key: Seq<char>, i: int)
    requires
        0 <= i < ms.len(),
        ms[i].0 == key,
        forall|x: int| 0 <= x < i ==> ms[x].0 != key,
    ensures
        field(ms, key) == Some(ms[i].1),
    decreases i,
{
    if i > 0 {
        lemma_field_at(ms.drop_first(), key, i - 1);
    }
}

pub proof fn lemma_field_none(ms: Members, key: Seq<char>)
    requires
        forall|x: int| 0 <= x < ms.len() ==> ms[x].0 != key,
    ensures
        field(ms, key) is None,
    decreases ms.len(),
{
    if ms.len() > 0 {
        lemma_field_none(ms.drop_first(), key);
    }
}

/// The member names written at one level of an object differ.
pub proof fn lemma_key_names()
    ensures
        "type"@ != "doc"@,
        "type"@ != "content"@,
        "doc"@ != "content"@,
        "doc"@ != "index"@,
        "index"@ != "content"@,
        "doc"@ != "stablizedRevision"@,
        "doc"@ != "deprecated"@,
        "stablizedRevision"@ != "deprecated"@,
        "doc"@ != "feature"@,
        "doc"@ != "input"@,
        "doc"@ != "output"@,
        "feature"@ != "input"@,
        "feature"@ != "output"@,
        "input"@ != "output"@,
{
    reveal_strlit("type");
    reveal_strlit("doc");
    reveal_strlit("content");
    reveal_strlit("index");
    reveal_strlit("stablizedRevision");
    reveal_strlit("deprecated");
    reveal_strlit("feature");
    reveal_strlit("input");
    reveal_strlit("output");
    assert("type"@.len() == 4 && "doc"@.len() == 3 && "content"@.len() == 7 && "index"@.len() == 5);
    assert("stablizedRevision"@.len() == 17 && "deprecated"@.len() == 10);
    assert("feature"@.len() == 7 && "input"@.len() == 5 && "output"@.len() == 6);
}

/// The member names of a spec object differ.
pub proof fn lemma_spec_key_names()
    ensures
        "id"@ != "title"@,
        "id"@ != "revision"@,
        "id"@ != "errorType"@,
        "id"@ != "unique"@,
        "id"@ != "features"@,
        "id"@ != "unstableFeatures"@,
        "id"@ != "types"@,
        "id"@ != "callsOut"@,
        "id"@ != "callsIn"@,
        "title"@ != "revision"@,
        "title"@ != "errorType"@,
        "title"@ != "unique"@,
        "title"@ != "features"@,
        "title"@ != "unstableFeatures"@,
        "title"@ != "types"@,
        "title"@ != "callsOut"@,
        "title"@ != "callsIn"@,
        "revision"@ != "errorType"@,
        "revision"@ != "unique"@,
        "revision"@ != "features"@,
        "revision"@ != "unstableFeatures"@,
        "revision"@ != "types"@,
        "revision"@ != "callsOut"@,
        "revision"@ != "callsIn"@,
        "errorType"@ != "unique"@,
        "errorType"@ != "features"@,
        "errorType"@ != "unstableFeatures"@,
        "errorType"@ != "types"@,
        "errorType"@ != "callsOut"@,
        "errorType"@ != "callsIn"@,
        "unique"@ != "features"@,
        "unique"@ != "unstableFeatures"@,
        "unique"@ != "types"@,
        "unique"@ != "callsOut"@,
        "unique"@ != "callsIn"@,
        "features"@ != "unstableFeatures"@,
        "features"@ != "types"@,
        "features"@ != "callsOut"@,
        "features"@ != "callsIn"@,
        "unstableFeatures"@ != "types"@,
        "unstableFeatures"@ != "callsOut"@,
        "unstableFeatures"@ != "callsIn"@,
        "types"@ != "callsOut"@,
        "types"@ != "callsIn"@,
        "callsOut"@ != "callsIn"@,
{
    reveal_strlit("id");
    reveal_strlit("title");
    reveal_strlit("revision");
    reveal_strlit("errorType");
    reveal_strlit("unique");
    reveal_strlit("features");
    reveal_strlit("unstableFeatures");
    reveal_strlit("types");
    reveal_strlit("callsOut");
    reveal_strlit("callsIn");
    assert("id"@.len() == 2);
    assert("title"@.len() == 5);
    assert("revision"@.len() == 8);
    assert("errorType"@.len() == 9);
    assert("unique"@.len() == 6);
    assert("features"@.len() == 8);
    assert("unstableFeatures"@.len() == 16);
    assert("types"@.len() == 5);
    assert("callsOut"@.len() == 8);
    assert("callsIn"@.len() == 7);
    assert("title"@[1] != "types"@[1]);
    assert("revision"@[0] != "features"@[0]);
    assert("revision"@[0] != "callsOut"@[0]);
    assert("features"@[0] != "callsOut"@[0]);
}

/// Each discriminant is read back as the variant it was written for.
pub proof fn lemma_tag_names(k: u8)
    requires
        k < TAG_COUNT,
    ensures
        tag_kind(tag_name(k)) == Some(k),
{
    reveal_strlit("null");
    reveal_strlit("bool");
    reveal_strlit("i32");
    reveal_strlit("u32");
    reveal_strlit("i64");
    reveal_strlit("u64");
    reveal_strlit("f64");
    reveal_strlit("bytes");
    reveal_strlit("string");
    reveal_strlit("optional");
    reveal_strlit("array");
    reveal_strlit("tuple");
    reveal_strlit("struct");
    reveal_strlit("enum");
    reveal_strlit("namedType");
    assert forall|a: u8| a < TAG_COUNT && a != k implies tag_name(a) != tag_name(k) by {
        let x = tag_name(a);
        let y = tag_name(k);
        assert(x.len() != y.len() || x[0] != y[0] || x[1] != y[1] || x[3] != y[3]);
    }
    lemma_tag_kind_from(tag_name(k), k, 0);
}

proof fn lemma_tag_kind_from(s: Seq<char>, k: u8, from: u8)
    requires
        from <= k < TAG_COUNT,
        s == tag_name(k),
        forall|a: u8| a < TAG_COUNT && a != k ==> tag_name(a) != s,
    ensures
        tag_kind_from(s, from) == Some(k),
    decreases k - from,
{
    if from < k {
        lemma_tag_kind_from(s, k, (from + 1) as u8);
    }
}

/// A discriminant that is read names a variant.
pub proof fn lemma_tag_kind_bound(s: Seq<char>, from: u8)
    ensures
        tag_kind_from(s, from) matches Some(k) ==> k < TAG_COUNT && tag_name(k) == s,
    decreases TAG_COUNT - from,
{
    if from < TAG_COUNT {
        lemma_tag_kind_bound(s, (from + 1) as u8);
    }
}

} // verus!
