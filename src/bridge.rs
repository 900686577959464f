//! The boundary with `serde_json` and `nanoid`: JSON text to and from
//! [`Json`] trees, and fresh identifiers.
use vstd::prelude::*;
use crate::codec::text;
use crate::json::{
    items_model, json_depth, json_model, json_plain, lemma_items_depth, lemma_items_model,
    lemma_items_plain, lemma_items_push, lemma_members_depth, lemma_members_model,
    lemma_members_plain, lemma_members_push, members_model, Json, JsonModel,
};
use crate::model::keys_unique;
use crate::rules::DecodeError;

verus! {

/// serde_json's JSON value tree, carried through opaque.
#[verifier::external_type_specification]
#[verifier::external_body]
pub struct ExValue(serde_json::Value);

/// serde_json's map of object members, carried through opaque.
#[verifier::external_type_specification]
#[verifier::external_body]
#[verifier::reject_recursive_types(K)]
#[verifier::reject_recursive_types(V)]
pub struct ExMap<K, V>(serde_json::Map<K, V>);

/// serde_json's parse error, carried through opaque.
#[verifier::external_type_specification]
#[verifier::external_body]
pub struct ExError(serde_json::Error);

/// What a serde_json value holds, as a JSON model. A number that is not a
/// `u64` is held by its compact JSON text.
pub uninterp spec fn value_model(v: serde_json::Value) -> JsonModel;

/// The members of a serde_json object map, in the map's order.
pub uninterp spec fn map_members(m: serde_json::Map<String, serde_json::Value>) -> Seq<(Seq<char>, JsonModel)>;

/// The JSON value that serde_json reads from these bytes, if they are
/// well-formed JSON text.
pub uninterp spec fn json_of_text(b: Seq<u8>) -> Option<JsonModel>;

/// The pretty-printed text that serde_json writes for a value.
pub uninterp spec fn pretty_of(j: JsonModel) -> Seq<char>;

pub open spec fn values_model(s: Seq<serde_json::Value>) -> Seq<JsonModel> {
    s.map_values(|v: serde_json::Value| value_model(v))
}

pub open spec fn pairs_model(s: Seq<(String, serde_json::Value)>) -> Seq<(Seq<char>, JsonModel)> {
    s.map_values(|p: (String, serde_json::Value)| (p.0@, value_model(p.1)))
}

/// Relies on serde_json::Value::is_null: true of the null value only.
pub assume_specification[ serde_json::Value::is_null ](v: &serde_json::Value) -> (r: bool)
    ensures
        r == (value_model(*v) is Null),
;

/// Relies on serde_json::Value::as_bool: the flag of a boolean value.
pub assume_specification[ serde_json::Value::as_bool ](v: &serde_json::Value) -> (r: Option<bool>)
    ensures
        r == (match value_model(*v) {
            JsonModel::Bool(b) => Some(b),
            _ => None::<bool>,
        }),
;

/// Relies on serde_json::Value::as_u64: the value of a number that is a `u64`.
pub assume_specification[ serde_json::Value::as_u64 ](v: &serde_json::Value) -> (r: Option<u64>)
    ensures
        r == (match value_model(*v) {
            JsonModel::Number(n) => Some(n),
            _ => None::<u64>,
        }),
;

/// Relies on serde_json::Value::as_str: the text of a string value.
pub assume_specification<'a>[ serde_json::Value::as_str ](v: &'a serde_json::Value) -> (r: Option<&'a str>)
    ensures
        match value_model(*v) {
            JsonModel::Str(t) => r matches Some(x) && x@ == t,
            _ => r is None,
        },
;

/// Relies on serde_json::Value::as_array: the items of an array value.
pub assume_specification<'a>[ serde_json::Value::as_array ](v: &'a serde_json::Value) -> (r: Option<
    &'a Vec<serde_json::Value>,
>)
    ensures
        match value_model(*v) {
            JsonModel::Array(items) => r matches Some(x) && values_model(x@) == items,
            _ => r is None,
        },
;

/// Relies on serde_json::Value::as_object: the members of an object value.
pub assume_specification<'a>[ serde_json::Value::as_object ](v: &'a serde_json::Value) -> (r: Option<
    &'a serde_json::Map<String, serde_json::Value>,
>)
    ensures
        match value_model(*v) {
            JsonModel::Object(ms) => r matches Some(x) && map_members(*x) == ms,
            _ => r is None,
        },
;

/// Relies on serde_json::from_slice: parses JSON text into a value tree,
/// and fails exactly on text that is not well-formed JSON.
#[verifier::external_body]
fn read_value(data: &[u8]) -> (r: Result<serde_json::Value, serde_json::Error>)
    ensures
        match r {
            Ok(v) => json_of_text(data@) == Some(value_model(v)),
            Err(_) => json_of_text(data@) is None,
        },
{
    serde_json::from_slice(data)
}

/// Relies on serde_json::Map::iter: the members of an object, in the map's order.
#[verifier::external_body]
fn object_members(m: &serde_json::Map<String, serde_json::Value>) -> (r: Vec<(String, serde_json::Value)>)
    ensures
        pairs_model(r@) == map_members(*m),
{
    m.iter().map(|(k, v)| (k.clone(), v.clone())).collect()
}

/// Relies on serde_json's Display for Value: the compact JSON text of a
/// number, which is what the model holds for a number that is not a `u64`.
#[verifier::external_body]
fn compact_text(v: &serde_json::Value) -> (r: String)
    ensures
        value_model(*v) matches JsonModel::Real(t) ==> r@ == t,
{
    format!("{}", v)
}

/// Relies on serde_json's Display for Value, alternate form: pretty-printed
/// JSON text with two-space indentation.
#[verifier::external_body]
fn pretty_text(v: &serde_json::Value) -> (r: String)
    ensures
        r@ == pretty_of(value_model(*v)),
{
    format!("{:#}", v)
}

/// Relies on serde_json::Value::Null.
#[verifier::external_body]
fn null_value() -> (r: serde_json::Value)
    ensures
        value_model(r) == JsonModel::Null,
{
    serde_json::Value::Null
}

/// Relies on serde_json's From<bool> for Value.
#[verifier::external_body]
fn bool_value(b: bool) -> (r: serde_json::Value)
    ensures
        value_model(r) == JsonModel::Bool(b),
{
    serde_json::Value::from(b)
}

/// Relies on serde_json's From<u64> for Value.
#[verifier::external_body]
fn u64_value(n: u64) -> (r: serde_json::Value)
    ensures
        value_model(r) == JsonModel::Number(n),
{
    serde_json::Value::from(n)
}

/// Relies on serde_json's From<String> for Value.
#[verifier::external_body]
fn string_value(s: String) -> (r: serde_json::Value)
    ensures
        value_model(r) == JsonModel::Str(s@),
{
    serde_json::Value::from(s)
}

/// Relies on serde_json's From<Vec<Value>> for Value.
#[verifier::external_body]
fn array_value(items: Vec<serde_json::Value>) -> (r: serde_json::Value)
    ensures
        value_model(r) == JsonModel::Array(values_model(items@)),
{
    serde_json::Value::from(items)
}

/// Relies on serde_json's FromIterator<(String, Value)> for Value: an object
/// with these members, in this order, where no name repeats.
#[verifier::external_body]
fn object_value(members: Vec<(String, serde_json::Value)>) -> (r: serde_json::Value)
    ensures
        keys_unique(pairs_model(members@)) ==> value_model(r) == JsonModel::Object(pairs_model(members@)),
{
    members.into_iter().collect()
}

/// Relies on serde_json::from_str: reads a number back from its JSON text.
#[verifier::external_body]
fn number_value(t: &String) -> Result<serde_json::Value, serde_json::Error> {
    serde_json::from_str(t)
}

/// Relies on nanoid::format with nanoid::rngs::default and
/// nanoid::alphabet::SAFE: 21 characters drawn at random from the URL-safe
/// alphabet.
#[verifier::external_body]
fn fresh_nanoid() -> (r: String)
    ensures
        r@.len() == 21,
        forall|i: int| 0 <= i < r@.len() ==> is_url_safe(#[trigger] r@[i]),
{
    nanoid::format(nanoid::rngs::default, &nanoid::alphabet::SAFE, 21)
}

/// The characters of identifiers made by `default`: letters, digits, `_` and `-`.
pub open spec fn is_url_safe(c: char) -> bool {
    ('a' <= c && c <= 'z') || ('A' <= c && c <= 'Z') || ('0' <= c && c <= '9') || c == '_' || c == '-'
}

/// How deeply nested a JSON text may be.
pub const JSON_DEPTH_LIMIT: usize = 256;

fn json_of_value(v: &serde_json::Value, depth: usize) -> (r: Result<Json, DecodeError>)
    ensures
        match r {
            Ok(j) => j@ == value_model(*v),
            Err(e) => e == DecodeError::DepthExceeded && json_depth(value_model(*v)) > depth,
        },
    decreases depth,
{
    if depth == 0 {
        return Err(DecodeError::DepthExceeded);
    }
    if v.is_null() {
        return Ok(Json::Null);
    }
    if let Some(b) = v.as_bool() {
        return Ok(Json::Bool(b));
    }
    if let Some(n) = v.as_u64() {
        return Ok(Json::Number(n));
    }
    if let Some(s) = v.as_str() {
        return Ok(Json::Str(text(s)));
    }
    if let Some(items) = v.as_array() {
        let ghost model = value_model(*v)->Array_0;
        let mut out: Vec<Json> = Vec::new();
        let mut i: usize = 0;
        while i < items.len()
            invariant
                depth > 0,
                i <= items.len(),
                value_model(*v) == JsonModel::Array(model),
                values_model(items@) == model,
                items_model(out@) == model.take(i as int),
            decreases items.len() - i,
        {
            assert(model[i as int] == value_model(items@[i as int]));
            match json_of_value(&items[i], depth - 1) {
                Ok(x) => {
                    proof {
                        lemma_items_push(out@, x);
                        assert(model.take(i + 1) =~= model.take(i as int).push(model[i as int]));
                    }
                    out.push(x);
                },
                Err(e) => {
                    proof {
                        lemma_items_depth(model, i as int);
                    }
                    return Err(e);
                },
            }
            i = i + 1;
        }
        assert(model.take(i as int) =~= model);
        return Ok(Json::Array(out));
    }
    if let Some(m) = v.as_object() {
        let ghost model = value_model(*v)->Object_0;
        let members = object_members(m);
        let mut out: Vec<(String, Json)> = Vec::new();
        let mut i: usize = 0;
        while i < members.len()
            invariant
                depth > 0,
                i <= members.len(),
                value_model(*v) == JsonModel::Object(model),
                pairs_model(members@) == model,
                members_model(out@) == model.take(i as int),
            decreases members.len() - i,
        {
            assert(model[i as int] == (members@[i as int].0@, value_model(members@[i as int].1)));
            match json_of_value(&members[i].1, depth - 1) {
                Ok(x) => {
                    let k = members[i].0.clone();
                    proof {
                        lemma_members_push(out@, (k, x));
                        assert(model.take(i + 1) =~= model.take(i as int).push(model[i as int]));
                    }
                    out.push((k, x));
                },
                Err(e) => {
                    proof {
                        lemma_members_depth(model, i as int);
                    }
                    return Err(e);
                },
            }
            i = i + 1;
        }
        assert(model.take(i as int) =~= model);
        return Ok(Json::Object(out));
    }
    let t = compact_text(v);
    assert(value_model(*v) is Real);
    Ok(Json::Real(t))
}

/// Builds the serde_json value of `j`. For a plain value (see `json_plain`)
/// it holds exactly `j`; a `Real` whose text is not a JSON number is written
/// as `null`.
fn value_of_json(j: &Json) -> (r: serde_json::Value)
    ensures
        json_plain(j@) ==> value_model(r) == j@,
    decreases j,
{
    match j {
        Json::Null => null_value(),
        Json::Bool(b) => bool_value(*b),
        Json::Number(n) => u64_value(*n),
        Json::Real(t) => match number_value(t) {
            Ok(v) => v,
            Err(_) => null_value(),
        },
        Json::Str(s) => string_value(s.clone()),
        Json::Array(items) => {
            let ghost im = items_model(items@);
            proof {
                lemma_items_model(items@);
            }
            let mut out: Vec<serde_json::Value> = Vec::new();
            let mut i: usize = 0;
            while i < items.len()
                invariant
                    *j == Json::Array(*items),
                    i <= items.len(),
                    im == items_model(items@),
                    im.len() == items@.len(),
                    forall|x: int| 0 <= x < items@.len() ==> #[trigger] im[x] == json_model(items@[x]),
                    json_plain(j@) ==> values_model(out@) == im.take(i as int),
                decreases items.len() - i,
            {
                proof {
                    vstd::std_specs::vec::axiom_vec_index_decreases(*items, i as int);
                    assert(decreases_to!(*j => j->Array_0));
                }
                let x = value_of_json(&items[i]);
                proof {
                    if json_plain(j@) {
                        lemma_items_plain(im, i as int);
                        assert(values_model(out@.push(x)) =~= values_model(out@).push(value_model(x)));
                        assert(im.take(i + 1) =~= im.take(i as int).push(im[i as int]));
                    }
                }
                out.push(x);
                i = i + 1;
            }
            assert(im.take(i as int) =~= im);
            array_value(out)
        },
        Json::Object(members) => {
            let ghost mm = members_model(members@);
            proof {
                lemma_members_model(members@);
            }
            let mut out: Vec<(String, serde_json::Value)> = Vec::new();
            let mut i: usize = 0;
            while i < members.len()
                invariant
                    *j == Json::Object(*members),
                    i <= members.len(),
                    mm == members_model(members@),
                    mm.len() == members@.len(),
                    forall|x: int| 0 <= x < members@.len() ==> #[trigger] mm[x] == (members@[x].0@, json_model(members@[x].1)),
                    json_plain(j@) ==> pairs_model(out@) == mm.take(i as int),
                decreases members.len() - i,
            {
                proof {
                    vstd::std_specs::vec::axiom_vec_index_decreases(*members, i as int);
                    assert(decreases_to!(*j => j->Object_0));
                    assert(decreases_to!(members@[i as int] => members@[i as int].1));
                }
                let x = value_of_json(&members[i].1);
                let k = members[i].0.clone();
                proof {
                    if json_plain(j@) {
                        lemma_members_plain(mm, i as int);
                        assert(pairs_model(out@.push((k, x))) =~= pairs_model(out@).push((k@, value_model(x))));
                        assert(mm.take(i + 1) =~= mm.take(i as int).push(mm[i as int]));
                    }
                }
                out.push((k, x));
                i = i + 1;
            }
            assert(mm.take(i as int) =~= mm);
            object_value(out)
        },
    }
}

impl Json {
    /// Reads JSON text. Fails with `MalformedInput` exactly where the text is
    /// not well-formed JSON, and with `DepthExceeded` only where the value
    /// nests deeper than `JSON_DEPTH_LIMIT`; otherwise returns the value read.
    pub fn parse_text(data: &[u8]) -> (r: Result<Json, DecodeError>)
        ensures
            match json_of_text(data@) {
                None => r == Err::<Json, DecodeError>(DecodeError::MalformedInput),
                Some(j) => match r {
                    Ok(x) => x@ == j,
                    Err(e) => e == DecodeError::DepthExceeded && json_depth(j) > JSON_DEPTH_LIMIT,
                },
            },
    {
        match read_value(data) {
            Ok(v) => json_of_value(&v, JSON_DEPTH_LIMIT),
            Err(_) => Err(DecodeError::MalformedInput),
        }
    }

    /// Writes the value as pretty-printed JSON text.
    pub fn to_pretty_text(&self) -> (r: String)
        ensures
            json_plain(self@) ==> r@ == pretty_of(self@),
    {
        pretty_text(&value_of_json(self))
    }
}

impl Default for crate::model::NanoId {
    /// A fresh random identifier of 21 URL-safe characters.
    fn default() -> (r: Self)
        ensures
            r@.len() == 21,
            forall|i: int| 0 <= i < r@.len() ==> is_url_safe(#[trigger] r@[i]),
    {
        crate::model::NanoId(fresh_nanoid())
    }
}

} // verus!
