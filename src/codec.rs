//! Reading and writing the schema's values as [`Json`], following the rules
//! of the `rules` module.
use vstd::prelude::*;
use vstd::string::*;
use crate::json::{json_plain, lemma_members_plain_all, json_model, lemma_members_model, lemma_members_push, members_model, opt_model, Json, JsonModel};
use crate::model::{opt_text, Call, Feature, UnstableFeature};
use crate::rules::{
    field, opt_bool_field, opt_bool_member, opt_text_field, opt_text_member, text_field,
    u32_field, decode_call, lemma_field_at, lemma_field_none, lemma_key_names, decode_feature, decode_unstable_feature, encode_call,
    encode_feature, encode_unstable_feature, DecodeError, JsonCodec,
};

verus! {

pub(crate) fn text(s: &str) -> (r: String)
    ensures
        r@ == s@,
{
    String::from_str(s)
}

/// The first member of `ms` named `key`.
pub fn find_field<'a>(ms: &'a Vec<(String, Json)>, key: &str) -> (r: Option<&'a Json>)
    ensures
        opt_model(r) == field(members_model(ms@), key@),
{
    let ghost mm = members_model(ms@);
    proof {
        lemma_members_model(ms@);
        assert(mm.subrange(0, mm.len() as int) =~= mm);
    }
    let k = text(key);
    let mut i: usize = 0;
    while i < ms.len()
        invariant
            0 <= i <= ms.len(),
            mm == members_model(ms@),
            mm.len() == ms@.len(),
            k@ == key@,
            forall|x: int| 0 <= x < ms@.len() ==> #[trigger] mm[x] == (ms@[x].0@, json_model(ms@[x].1)),
            field(mm, key@) == field(mm.subrange(i as int, mm.len() as int), key@),
        decreases ms.len() - i,
    {
        let ghost rest = mm.subrange(i as int, mm.len() as int);
        assert(rest.drop_first() =~= mm.subrange(i + 1, mm.len() as int));
        assert(rest[0] == mm[i as int]);
        if ms[i].0 == k {
            return Some(&ms[i].1);
        }
        i = i + 1;
    }
    assert(mm.subrange(i as int, mm.len() as int).len() == 0);
    None
}

pub(crate) fn read_text(ms: &Vec<(String, Json)>, key: &str) -> (r: Result<String, DecodeError>)
    ensures
        crate::rules::result_model(r) == text_field(members_model(ms@), key@),
{
    match find_field(ms, key) {
        Some(Json::Str(s)) => Ok(s.clone()),
        _ => Err(DecodeError::SchemaMismatch),
    }
}

pub(crate) fn read_u32(ms: &Vec<(String, Json)>, key: &str) -> (r: Result<u32, DecodeError>)
    ensures
        r == u32_field(members_model(ms@), key@),
{
    match find_field(ms, key) {
        Some(Json::Number(n)) => if *n <= 0xffff_ffffu64 {
            Ok(*n as u32)
        } else {
            Err(DecodeError::SchemaMismatch)
        },
        _ => Err(DecodeError::SchemaMismatch),
    }
}

pub(crate) fn read_opt_text(ms: &Vec<(String, Json)>, key: &str) -> (r: Result<Option<String>, DecodeError>)
    ensures
        match r {
            Ok(o) => opt_text_field(members_model(ms@), key@) == Ok::<Option<Seq<char>>, DecodeError>(opt_text(o)),
            Err(e) => opt_text_field(members_model(ms@), key@) == Err::<Option<Seq<char>>, DecodeError>(e),
        },
{
    match find_field(ms, key) {
        None => Ok(None),
        Some(Json::Null) => Ok(None),
        Some(Json::Str(s)) => Ok(Some(s.clone())),
        _ => Err(DecodeError::SchemaMismatch),
    }
}

pub(crate) fn read_opt_bool(ms: &Vec<(String, Json)>, key: &str) -> (r: Result<Option<bool>, DecodeError>)
    ensures
        r == opt_bool_field(members_model(ms@), key@),
{
    match find_field(ms, key) {
        None => Ok(None),
        Some(Json::Null) => Ok(None),
        Some(Json::Bool(b)) => Ok(Some(*b)),
        _ => Err(DecodeError::SchemaMismatch),
    }
}

pub(crate) fn push_member(out: &mut Vec<(String, Json)>, key: &str, v: Json)
    ensures
        members_model(final(out)@) == members_model(old(out)@).push((key@, v@)),
{
    let ghost before = out@;
    let k = text(key);
    proof {
        lemma_members_push(before, (k, v));
    }
    out.push((k, v));
}

pub(crate) fn push_opt_text(out: &mut Vec<(String, Json)>, key: &str, v: &Option<String>)
    ensures
        members_model(final(out)@) == members_model(old(out)@) + opt_text_member(key@, opt_text(*v)),
{
    match v {
        Some(s) => {
            push_member(out, key, Json::Str(s.clone()));
            assert(members_model(out@) =~= members_model(old(out)@) + opt_text_member(key@, opt_text(*v)));
        },
        None => {
            assert(members_model(out@) =~= members_model(old(out)@) + opt_text_member(key@, opt_text(*v)));
        },
    }
}

pub(crate) fn push_opt_bool(out: &mut Vec<(String, Json)>, key: &str, v: Option<bool>)
    ensures
        members_model(final(out)@) == members_model(old(out)@) + opt_bool_member(key@, v),
{
    match v {
        Some(b) => {
            push_member(out, key, Json::Bool(b));
            assert(members_model(out@) =~= members_model(old(out)@) + opt_bool_member(key@, v));
        },
        None => {
            assert(members_model(out@) =~= members_model(old(out)@) + opt_bool_member(key@, v));
        },
    }
}

impl JsonCodec for Feature {
    open spec fn encode_model(m: Self::V) -> JsonModel {
        encode_feature(m)
    }

    open spec fn decode_model(j: JsonModel) -> Result<Self::V, DecodeError> {
        decode_feature(j)
    }

    fn to_json(&self) -> (r: Json) {
        let mut ms: Vec<(String, Json)> = Vec::new();
        proof {
            assert(members_model(ms@) =~= seq![]);
        }
        push_opt_text(&mut ms, "doc", &self.doc);
        push_member(&mut ms, "stablizedRevision", Json::Number(self.stablized_revision as u64));
        push_opt_bool(&mut ms, "deprecated", self.deprecated);
        assert(members_model(ms@) =~= opt_text_member("doc"@, opt_text(self.doc)) + seq![
            ("stablizedRevision"@, JsonModel::Number(self.stablized_revision as u64)),
        ] + opt_bool_member("deprecated"@, self.deprecated));
        Json::Object(ms)
    }

    fn from_json(j: &Json) -> (r: Result<Self, DecodeError>) {
        match j {
            Json::Object(ms) => {
                let doc = match read_opt_text(ms, "doc") {
                    Ok(d) => d,
                    Err(e) => return Err(e),
                };
                let stablized_revision = match read_u32(ms, "stablizedRevision") {
                    Ok(n) => n,
                    Err(e) => return Err(e),
                };
                let deprecated = match read_opt_bool(ms, "deprecated") {
                    Ok(d) => d,
                    Err(e) => return Err(e),
                };
                Ok(Feature { doc, stablized_revision, deprecated })
            },
            _ => Err(DecodeError::SchemaMismatch),
        }
    }

    proof fn lemma_round_trip(j: JsonModel) {
        lemma_key_names();
        let m = decode_feature(j)->Ok_0;
        let e = encode_feature(m)->Object_0;
        let n: int = if m.doc is Some { 1 } else { 0 };
        if m.doc is Some {
            lemma_field_at(e, "doc"@, 0);
        } else {
            lemma_field_none(e, "doc"@);
        }
        lemma_field_at(e, "stablizedRevision"@, n);
        if m.deprecated is Some {
            lemma_field_at(e, "deprecated"@, n + 1);
        } else {
            lemma_field_none(e, "deprecated"@);
        }
    }

    proof fn lemma_plain(j: JsonModel) {
        lemma_key_names();
        let e = encode_feature(decode_feature(j)->Ok_0)->Object_0;
        lemma_members_plain_all(e);
    }
}

impl JsonCodec for UnstableFeature {
    open spec fn encode_model(m: Self::V) -> JsonModel {
        encode_unstable_feature(m)
    }

    open spec fn decode_model(j: JsonModel) -> Result<Self::V, DecodeError> {
        decode_unstable_feature(j)
    }

    fn to_json(&self) -> (r: Json) {
        let mut ms: Vec<(String, Json)> = Vec::new();
        proof {
            assert(members_model(ms@) =~= seq![]);
        }
        push_opt_text(&mut ms, "doc", &self.doc);
        assert(members_model(ms@) =~= opt_text_member("doc"@, opt_text(self.doc)));
        Json::Object(ms)
    }

    fn from_json(j: &Json) -> (r: Result<Self, DecodeError>) {
        match j {
            Json::Object(ms) => match read_opt_text(ms, "doc") {
                Ok(doc) => Ok(UnstableFeature { doc }),
                Err(e) => Err(e),
            },
            _ => Err(DecodeError::SchemaMismatch),
        }
    }

    proof fn lemma_round_trip(j: JsonModel) {
        let m = decode_unstable_feature(j)->Ok_0;
        let e = encode_unstable_feature(m)->Object_0;
        if m.doc is Some {
            lemma_field_at(e, "doc"@, 0);
        } else {
            lemma_field_none(e, "doc"@);
        }
    }

    proof fn lemma_plain(j: JsonModel) {
        let e = encode_unstable_feature(decode_unstable_feature(j)->Ok_0)->Object_0;
        lemma_members_plain_all(e);
    }
}

impl JsonCodec for Call {
    open spec fn encode_model(m: Self::V) -> JsonModel {
        encode_call(m)
    }

    open spec fn decode_model(j: JsonModel) -> Result<Self::V, DecodeError> {
        decode_call(j)
    }

    fn to_json(&self) -> (r: Json) {
        let mut ms: Vec<(String, Json)> = Vec::new();
        proof {
            assert(members_model(ms@) =~= seq![]);
        }
        push_opt_text(&mut ms, "doc", &self.doc);
        push_member(&mut ms, "feature", Json::Str(self.feature.clone()));
        push_member(&mut ms, "input", Json::Str(self.input.clone()));
        push_member(&mut ms, "output", Json::Str(self.output.clone()));
        assert(members_model(ms@) =~= opt_text_member("doc"@, opt_text(self.doc)) + seq![
            ("feature"@, JsonModel::Str(self.feature@)),
            ("input"@, JsonModel::Str(self.input@)),
            ("output"@, JsonModel::Str(self.output@)),
        ]);
        Json::Object(ms)
    }

    fn from_json(j: &Json) -> (r: Result<Self, DecodeError>) {
        match j {
            Json::Object(ms) => {
                let doc = match read_opt_text(ms, "doc") {
                    Ok(d) => d,
                    Err(e) => return Err(e),
                };
                let feature = match read_text(ms, "feature") {
                    Ok(s) => s,
                    Err(e) => return Err(e),
                };
                let input = match read_text(ms, "input") {
                    Ok(s) => s,
                    Err(e) => return Err(e),
                };
                let output = match read_text(ms, "output") {
                    Ok(s) => s,
                    Err(e) => return Err(e),
                };
                Ok(Call { doc, feature, input, output })
            },
            _ => Err(DecodeError::SchemaMismatch),
        }
    }

    proof fn lemma_round_trip(j: JsonModel) {
        lemma_key_names();
        let m = decode_call(j)->Ok_0;
        let e = encode_call(m)->Object_0;
        let n: int = if m.doc is Some { 1 } else { 0 };
        if m.doc is Some {
            lemma_field_at(e, "doc"@, 0);
        } else {
            lemma_field_none(e, "doc"@);
        }
        lemma_field_at(e, "feature"@, n);
        lemma_field_at(e, "input"@, n + 1);
        lemma_field_at(e, "output"@, n + 2);
    }

    proof fn lemma_plain(j: JsonModel) {
        lemma_key_names();
        let e = encode_call(decode_call(j)->Ok_0)->Object_0;
        lemma_members_plain_all(e);
    }
}

} // verus!
