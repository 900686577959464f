//! Reading and writing ordered maps, the spec and the document.
use vstd::prelude::*;
use crate::codec::{find_field, push_member, push_opt_bool, read_opt_bool, read_text, read_u32, text};
use crate::bridge::{json_of_text, pretty_of, JSON_DEPTH_LIMIT};
use crate::json::{json_depth, json_plain, json_model, lemma_members_model, lemma_members_push, members_model, Json, JsonModel};
use crate::model::{has_key, Call, Feature, IApiSpec, IApiSpecDoc, NamedMap, NanoId, SpecModel, Type, UnstableFeature};
use crate::rules::{
    decode_document, decode_entries, decode_spec, field, encode_document, encode_entries, encode_spec,
    map_field, opt_bool_member, result_model, DecodeError, JsonCodec,
};

verus! {

pub proof fn lemma_entries_prefix_err<V: JsonCodec>(s: Seq<(Seq<char>, JsonModel)>, k: int)
    requires
        0 <= k <= s.len(),
        decode_entries::<V>(s.take(k)) is Err,
    ensures
        decode_entries::<V>(s) == decode_entries::<V>(s.take(k)),
    decreases s.len() - k,
{
    if k < s.len() {
        assert(s.take(k + 1).drop_last() =~= s.take(k));
        lemma_entries_prefix_err::<V>(s, k + 1);
    } else {
        assert(s.take(k) =~= s);
    }
}

impl NanoId {
    /// The identifier's text.
    pub fn as_str(&self) -> (r: &str)
        ensures
            r@ == self@,
    {
        self.0.as_str()
    }
}

impl From<String> for NanoId {
    fn from(s: String) -> (r: NanoId) {
        NanoId(s)
    }
}

impl vstd::std_specs::convert::FromSpecImpl<String> for NanoId {
    open spec fn obeys_from_spec() -> bool {
        true
    }

    open spec fn from_spec(s: String) -> NanoId {
        NanoId(s)
    }
}

impl From<&str> for NanoId {
    fn from(s: &str) -> (r: NanoId)
        ensures
            r@ == s@,
    {
        NanoId(text(s))
    }
}

impl vstd::std_specs::convert::FromSpecImpl<&str> for NanoId {
    open spec fn obeys_from_spec() -> bool {
        false
    }

    open spec fn from_spec(s: &str) -> NanoId {
        vstd::pervasive::arbitrary()
    }
}

impl<V: View> NamedMap<V> {
    /// An empty map.
    pub fn new() -> (r: Self)
        ensures
            r@ == Seq::<(Seq<char>, V::V)>::empty(),
    {
        let r = NamedMap { entries: Vec::new() };
        assert(r@ =~= Seq::<(Seq<char>, V::V)>::empty());
        r
    }

    /// The number of entries.
    pub fn len(&self) -> (r: usize)
        ensures
            r == self@.len(),
    {
        self.entries.len()
    }

    /// Whether some entry has the key `key`.
    pub fn contains_key(&self, key: &String) -> (r: bool)
        ensures
            r == has_key(self@, key@),
    {
        let mut i: usize = 0;
        while i < self.entries.len()
            invariant
                i <= self.entries.len(),
                self@.len() == self.entries@.len(),
                forall|x: int| 0 <= x < i ==> self@[x].0 != key@,
            decreases self.entries.len() - i,
        {
            if self.entries[i].0 == *key {
                assert(self@[i as int].0 == key@);
                return true;
            }
            i = i + 1;
        }
        false
    }

    /// Inserts an entry. A new key goes at the end and `None` is returned.
    /// Where the key is present, its first entry keeps its position, takes
    /// the new value, and the old value is returned.
    pub fn insert(&mut self, key: String, value: V) -> (r: Option<V>)
        ensures
            r is Some <==> has_key(old(self)@, key@),
            r is None ==> final(self)@ == old(self)@.push((key@, value@)),
            r matches Some(o) ==> exists|i: int|
                0 <= i < old(self)@.len() && old(self)@[i].0 == key@
                    && (forall|x: int| 0 <= x < i ==> old(self)@[x].0 != key@)
                    && final(self)@ == old(self)@.update(i, (key@, value@))
                    && o@ == old(self)@[i].1,
    {
        let mut i: usize = 0;
        while i < self.entries.len()
            invariant
                i <= self.entries.len(),
                *self == *old(self),
                self@.len() == self.entries@.len(),
                forall|x: int| 0 <= x < i ==> self@[x].0 != key@,
            decreases self.entries.len() - i,
        {
            if self.entries[i].0 == key {
                let ghost before = self@;
                assert(before[i as int].0 == key@);
                let (_, old_value) = self.entries.remove(i);
                self.entries.insert(i, (key, value));
                assert(self@ =~= before.update(i as int, (key@, value@)));
                return Some(old_value);
            }
            i = i + 1;
        }
        self.entries.push((key, value));
        assert(self@ =~= old(self)@.push((key@, value@)));
        None
    }
}

fn write_map<V: JsonCodec>(m: &NamedMap<V>) -> (r: Json)
    ensures
        r@ == JsonModel::Object(encode_entries::<V>(m@)),
{
    let mut out: Vec<(String, Json)> = Vec::new();
    let mut i: usize = 0;
    while i < m.entries.len()
        invariant
            i <= m.entries.len(),
            m@.len() == m.entries@.len(),
            members_model(out@) == encode_entries::<V>(m@.take(i as int)),
        decreases m.entries.len() - i,
    {
        let x = m.entries[i].1.to_json();
        let k = m.entries[i].0.clone();
        proof {
            lemma_members_push(out@, (k, x));
            let s = m@.take(i + 1);
            assert(s.drop_last() =~= m@.take(i as int));
            assert(s.last() == m@[i as int]);
        }
        out.push((k, x));
        i = i + 1;
    }
    assert(m@.take(i as int) =~= m@);
    Json::Object(out)
}

fn read_map<V: JsonCodec>(ms: &Vec<(String, Json)>, key: &str) -> (r: Result<NamedMap<V>, DecodeError>)
    ensures
        result_model(r) == map_field::<V>(members_model(ms@), key@),
{
    let j = match find_field(ms, key) {
        Some(Json::Object(es)) => es,
        _ => return Err(DecodeError::SchemaMismatch),
    };
    let ghost mm = members_model(j@);
    proof {
        lemma_members_model(j@);
    }
    let mut out: NamedMap<V> = NamedMap::new();
    let mut i: usize = 0;
    while i < j.len()
        invariant
            i <= j.len(),
            mm == members_model(j@),
            field(members_model(ms@), key@) == Some(JsonModel::Object(mm)),
            mm.len() == j@.len(),
            forall|x: int| 0 <= x < j@.len() ==> #[trigger] mm[x] == (j@[x].0@, json_model(j@[x].1)),
            decode_entries::<V>(mm.take(i as int)) == Ok::<Seq<(Seq<char>, V::V)>, DecodeError>(out@),
        decreases j.len() - i,
    {
        assert(mm.take(i + 1).drop_last() =~= mm.take(i as int));
        assert(mm.take(i + 1).last() == mm[i as int]);
        match V::from_json(&j[i].1) {
            Err(e) => {
                proof {
                    lemma_entries_prefix_err::<V>(mm, i + 1);
                }
                return Err(e);
            },
            Ok(x) => {
                let k = j[i].0.clone();
                if out.insert(k, x).is_some() {
                    proof {
                        lemma_entries_prefix_err::<V>(mm, i + 1);
                    }
                    return Err(DecodeError::SchemaMismatch);
                }
            },
        }
        i = i + 1;
    }
    assert(mm.take(i as int) =~= mm);
    Ok(out)
}

impl IApiSpec {
    /// The spec as a JSON object, following the interchange rules.
    pub fn to_json(&self) -> (r: Json)
        ensures
            r@ == encode_spec(self@),
    {
        let mut ms: Vec<(String, Json)> = Vec::new();
        proof {
            assert(members_model(ms@) =~= seq![]);
        }
        push_member(&mut ms, "id", Json::Str(self.id.0.clone()));
        push_member(&mut ms, "title", Json::Str(self.title.clone()));
        push_member(&mut ms, "revision", Json::Number(self.revision as u64));
        push_member(&mut ms, "errorType", Json::Str(self.error_type.clone()));
        push_opt_bool(&mut ms, "unique", self.unique);
        push_member(&mut ms, "features", write_map(&self.features));
        push_member(&mut ms, "unstableFeatures", write_map(&self.unstable_features));
        push_member(&mut ms, "types", write_map(&self.types));
        push_member(&mut ms, "callsOut", write_map(&self.calls_out));
        push_member(&mut ms, "callsIn", write_map(&self.calls_in));
        let ghost s = self@;
        assert(members_model(ms@) =~= seq![
            ("id"@, JsonModel::Str(s.id)),
            ("title"@, JsonModel::Str(s.title)),
            ("revision"@, JsonModel::Number(s.revision as u64)),
            ("errorType"@, JsonModel::Str(s.error_type)),
        ] + opt_bool_member("unique"@, s.unique) + seq![
            ("features"@, JsonModel::Object(encode_entries::<Feature>(s.features))),
            ("unstableFeatures"@, JsonModel::Object(encode_entries::<UnstableFeature>(s.unstable_features))),
            ("types"@, JsonModel::Object(encode_entries::<Type>(s.types))),
            ("callsOut"@, JsonModel::Object(encode_entries::<Call>(s.calls_out))),
            ("callsIn"@, JsonModel::Object(encode_entries::<Call>(s.calls_in))),
        ]);
        Json::Object(ms)
    }

    /// Reads a spec from a JSON object, following the interchange rules.
    pub fn from_json(j: &Json) -> (r: Result<IApiSpec, DecodeError>)
        ensures
            result_model(r) == decode_spec(j@),
    {
        let ms = match j {
            Json::Object(ms) => ms,
            _ => return Err(DecodeError::SchemaMismatch),
        };
        let id = match read_text(ms, "id") {
            Ok(s) => s,
            Err(e) => return Err(e),
        };
        let title = match read_text(ms, "title") {
            Ok(s) => s,
            Err(e) => return Err(e),
        };
        let revision = match read_u32(ms, "revision") {
            Ok(n) => n,
            Err(e) => return Err(e),
        };
        let error_type = match read_text(ms, "errorType") {
            Ok(s) => s,
            Err(e) => return Err(e),
        };
        let unique = match read_opt_bool(ms, "unique") {
            Ok(b) => b,
            Err(e) => return Err(e),
        };
        let features = match read_map::<Feature>(ms, "features") {
            Ok(m) => m,
            Err(e) => return Err(e),
        };
        let unstable_features = match read_map::<UnstableFeature>(ms, "unstableFeatures") {
            Ok(m) => m,
            Err(e) => return Err(e),
        };
        let types = match read_map::<Type>(ms, "types") {
            Ok(m) => m,
            Err(e) => return Err(e),
        };
        let calls_out = match read_map::<Call>(ms, "callsOut") {
            Ok(m) => m,
            Err(e) => return Err(e),
        };
        let calls_in = match read_map::<Call>(ms, "callsIn") {
            Ok(m) => m,
            Err(e) => return Err(e),
        };
        Ok(
            IApiSpec {
                id: NanoId(id),
                title,
                revision,
                error_type,
                unique,
                features,
                unstable_features,
                types,
                calls_out,
                calls_in,
            },
        )
    }
}

impl IApiSpecDoc {
    /// The document as a JSON object with its single `inversionApiSpec` member.
    pub fn to_json(&self) -> (r: Json)
        ensures
            r@ == encode_document(self@),
    {
        let mut ms: Vec<(String, Json)> = Vec::new();
        proof {
            assert(members_model(ms@) =~= seq![]);
        }
        push_member(&mut ms, "inversionApiSpec", self.inversion_api_spec.to_json());
        assert(members_model(ms@) =~= seq![("inversionApiSpec"@, encode_spec(self@))]);
        Json::Object(ms)
    }

    /// Reads a document from JSON text. Text that is not well-formed JSON
    /// fails with `MalformedInput`. Otherwise the result is that of
    /// `from_json` on the JSON value the text holds, except that a value
    /// nested deeper than `JSON_DEPTH_LIMIT` may fail with `DepthExceeded`.
    pub fn parse(data: &[u8]) -> (r: Result<IApiSpecDoc, DecodeError>)
        ensures
            match json_of_text(data@) {
                None => r == Err::<IApiSpecDoc, DecodeError>(DecodeError::MalformedInput),
                Some(j) => result_model(r) == decode_document(j) || (r == Err::<IApiSpecDoc, DecodeError>(
                    DecodeError::DepthExceeded,
                ) && json_depth(j) > JSON_DEPTH_LIMIT),
            },
    {
        match Json::parse_text(data) {
            Ok(j) => IApiSpecDoc::from_json(&j),
            Err(e) => Err(e),
        }
    }

    /// The document as pretty-printed JSON text: serde_json's pretty form of
    /// `encode_document`, whenever that JSON value is plain (no map of the
    /// document repeats a key).
    pub fn to_text(&self) -> (r: String)
        ensures
            json_plain(encode_document(self@)) ==> r@ == pretty_of(encode_document(self@)),
    {
        self.to_json().to_pretty_text()
    }

    /// Reads a document from a JSON value.
    pub fn from_json(j: &Json) -> (r: Result<IApiSpecDoc, DecodeError>)
        ensures
            result_model(r) == decode_document(j@),
    {
        match j {
            Json::Object(ms) => match find_field(ms, "inversionApiSpec") {
                Some(s) => match IApiSpec::from_json(s) {
                    Ok(inversion_api_spec) => Ok(IApiSpecDoc { inversion_api_spec }),
                    Err(e) => Err(e),
                },
                None => Err(DecodeError::SchemaMismatch),
            },
            _ => Err(DecodeError::SchemaMismatch),
        }
    }
}

} // verus!
