//! A JSON document tree of this library's own, and its mathematical model.
use vstd::prelude::*;
use crate::model::keys_unique;

verus! {

/// A JSON value as the codec reads and writes it.
///
/// Numbers that are non-negative integers fitting in `u64` are held as such;
/// any other number is held by its JSON text.
#[derive(Debug)]
pub enum Json {
    Null,
    Bool(bool),
    Number(u64),
    Real(String),
    Str(String),
    Array(Vec<Json>),
    Object(Vec<(String, Json)>),
}

/// The mathematical model of a [`Json`] value.
pub enum JsonModel {
    Null,
    Bool(bool),
    Number(u64),
    Real(Seq<char>),
    Str(Seq<char>),
    Array(Seq<JsonModel>),
    Object(Seq<(Seq<char>, JsonModel)>),
}

pub open spec fn json_model(j: Json) -> JsonModel
    decreases j,
{
    match j {
        Json::Null => JsonModel::Null,
        Json::Bool(b) => JsonModel::Bool(b),
        Json::Number(n) => JsonModel::Number(n),
        Json::Real(s) => JsonModel::Real(s@),
        Json::Str(s) => JsonModel::Str(s@),
        Json::Array(items) => JsonModel::Array(items_model(items@)),
        Json::Object(members) => JsonModel::Object(members_model(members@)),
    }
}

pub open spec fn items_model(s: Seq<Json>) -> Seq<JsonModel>
    decreases s,
{
    if s.len() == 0 {
        seq![]
    } else {
        items_model(s.drop_last()).push(json_model(s.last()))
    }
}

pub open spec fn members_model(s: Seq<(String, Json)>) -> Seq<(Seq<char>, JsonModel)>
    decreases s,
{
    if s.len() == 0 {
        seq![]
    } else {
        members_model(s.drop_last()).push((s.last().0@, json_model(s.last().1)))
    }
}

impl View for Json {
    type V = JsonModel;

    open spec fn view(&self) -> JsonModel {
        json_model(*self)
    }
}

/// The model of an optional reference to a value.
pub open spec fn opt_model(v: Option<&Json>) -> Option<JsonModel> {
    match v {
        Some(x) => Some(x@),
        None => None,
    }
}

pub proof fn lemma_items_model(s: Seq<Json>)
    ensures
        items_model(s).len() == s.len(),
        forall|i: int| 0 <= i < s.len() ==> #[trigger] items_model(s)[i] == json_model(s[i]),
    decreases s.len(),
{
    if s.len() > 0 {
        lemma_items_model(s.drop_last());
    }
}

pub proof fn lemma_members_model(s: Seq<(String, Json)>)
    ensures
        members_model(s).len() == s.len(),
        forall|i: int|
            0 <= i < s.len() ==> #[trigger] members_model(s)[i] == (s[i].0@, json_model(s[i].1)),
    decreases s.len(),
{
    if s.len() > 0 {
        lemma_members_model(s.drop_last());
    }
}

pub proof fn lemma_items_push(s: Seq<Json>, x: Json)
    ensures
        items_model(s.push(x)) == items_model(s).push(json_model(x)),
{
    assert(s.push(x).drop_last() =~= s);
}

pub proof fn lemma_members_push(s: Seq<(String, Json)>, x: (String, Json))
    ensures
        members_model(s.push(x)) == members_model(s).push((x.0@, json_model(x.1))),
{
    assert(s.push(x).drop_last() =~= s);
}

/// How deeply a value nests: scalars count one, arrays and objects one
/// more than their deepest item.
pub open spec fn json_depth(j: JsonModel) -> nat
    decreases j,
{
    match j {
        JsonModel::Array(items) => 1 + items_depth(items),
        JsonModel::Object(ms) => 1 + members_depth(ms),
        _ => 1,
    }
}

pub open spec fn items_depth(s: Seq<JsonModel>) -> nat
    decreases s,
{
    if s.len() == 0 {
        0
    } else {
        let a = items_depth(s.drop_last());
        let b = json_depth(s.last());
        if a >= b { a } else { b }
    }
}

pub open spec fn members_depth(s: Seq<(Seq<char>, JsonModel)>) -> nat
    decreases s,
{
    if s.len() == 0 {
        0
    } else {
        let a = members_depth(s.drop_last());
        let b = json_depth(s.last().1);
        if a >= b { a } else { b }
    }
}

pub proof fn lemma_items_depth(s: Seq<JsonModel>, i: int)
    requires
        0 <= i < s.len(),
    ensures
        items_depth(s) >= json_depth(s[i]),
    decreases s.len(),
{
    if i < s.len() - 1 {
        lemma_items_depth(s.drop_last(), i);
    }
}

pub proof fn lemma_members_depth(s: Seq<(Seq<char>, JsonModel)>, i: int)
    requires
        0 <= i < s.len(),
    ensures
        members_depth(s) >= json_depth(s[i].1),
    decreases s.len(),
{
    if i < s.len() - 1 {
        lemma_members_depth(s.drop_last(), i);
    }
}

/// A value that holds only non-negative integer numbers and whose objects
/// never repeat a member name: the values this library writes.
pub open spec fn json_plain(j: JsonModel) -> bool
    decreases j,
{
    match j {
        JsonModel::Real(_) => false,
        JsonModel::Array(items) => items_plain(items),
        JsonModel::Object(ms) => keys_unique(ms) && members_plain(ms),
        _ => true,
    }
}

pub open spec fn items_plain(s: Seq<JsonModel>) -> bool
    decreases s,
{
    s.len() == 0 || (items_plain(s.drop_last()) && json_plain(s.last()))
}

pub open spec fn members_plain(s: Seq<(Seq<char>, JsonModel)>) -> bool
    decreases s,
{
    s.len() == 0 || (members_plain(s.drop_last()) && json_plain(s.last().1))
}

pub proof fn lemma_items_plain(s: Seq<JsonModel>, i: int)
    requires
        0 <= i < s.len(),
        items_plain(s),
    ensures
        json_plain(s[i]),
    decreases s.len(),
{
    if i < s.len() - 1 {
        lemma_items_plain(s.drop_last(), i);
    }
}

pub proof fn lemma_members_plain(s: Seq<(Seq<char>, JsonModel)>, i: int)
    requires
        0 <= i < s.len(),
        members_plain(s),
    ensures
        json_plain(s[i].1),
    decreases s.len(),
{
    if i < s.len() - 1 {
        lemma_members_plain(s.drop_last(), i);
    }
}

pub proof fn lemma_members_plain_all(s: Seq<(Seq<char>, JsonModel)>)
    requires
        forall|i: int| 0 <= i < s.len() ==> json_plain(#[trigger] s[i].1),
    ensures
        members_plain(s),
    decreases s.len(),
{
    if s.len() > 0 {
        lemma_members_plain_all(s.drop_last());
    }
}

pub proof fn lemma_items_plain_all(s: Seq<JsonModel>)
    requires
        forall|i: int| 0 <= i < s.len() ==> json_plain(#[trigger] s[i]),
    ensures
        items_plain(s),
    decreases s.len(),
{
    if s.len() > 0 {
        lemma_items_plain_all(s.drop_last());
    }
}

} // verus!
