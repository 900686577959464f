//! Equality of schema values: two values are equal exactly when their models are.
use vstd::prelude::*;
use crate::model::{
    lemma_slot_entries_model, lemma_slots_model, opt_text, slot_entries_model, slot_model,
    slots_model, Call, Feature, IApiSpec, IApiSpecDoc, NamedMap, NanoId, StructContent, Type,
    UnstableFeature,
};

verus! {

/// Comparison of two values by their models.
pub trait ModelEq: View + Sized {
    fn same(&self, other: &Self) -> (r: bool)
        ensures
            r == (self@ == other@),
    ;
}

fn same_opt_text(a: &Option<String>, b: &Option<String>) -> (r: bool)
    ensures
        r == (opt_text(*a) == opt_text(*b)),
{
    match (a, b) {
        (Some(x), Some(y)) => *x == *y,
        (None, None) => true,
        _ => false,
    }
}

fn same_opt_bool(a: Option<bool>, b: Option<bool>) -> (r: bool)
    ensures
        r == (a == b),
{
    match (a, b) {
        (Some(x), Some(y)) => x == y,
        (None, None) => true,
        _ => false,
    }
}

impl ModelEq for Feature {
    fn same(&self, other: &Self) -> (r: bool) {
        same_opt_text(&self.doc, &other.doc) && self.stablized_revision == other.stablized_revision
            && same_opt_bool(self.deprecated, other.deprecated)
    }
}

impl ModelEq for UnstableFeature {
    fn same(&self, other: &Self) -> (r: bool) {
        same_opt_text(&self.doc, &other.doc)
    }
}

impl ModelEq for Call {
    fn same(&self, other: &Self) -> (r: bool) {
        same_opt_text(&self.doc, &other.doc) && self.feature == other.feature && self.input
            == other.input && self.output == other.output
    }
}

fn same_type(a: &Type, b: &Type) -> (r: bool)
    ensures
        r == (a@ == b@),
    decreases a,
{
    match (a, b) {
        (Type::Null { doc: x }, Type::Null { doc: y }) => same_opt_text(x, y),
        (Type::Bool { doc: x }, Type::Bool { doc: y }) => same_opt_text(x, y),
        (Type::I32 { doc: x }, Type::I32 { doc: y }) => same_opt_text(x, y),
        (Type::U32 { doc: x }, Type::U32 { doc: y }) => same_opt_text(x, y),
        (Type::I64 { doc: x }, Type::I64 { doc: y }) => same_opt_text(x, y),
        (Type::U64 { doc: x }, Type::U64 { doc: y }) => same_opt_text(x, y),
        (Type::F64 { doc: x }, Type::F64 { doc: y }) => same_opt_text(x, y),
        (Type::Bytes { doc: x }, Type::Bytes { doc: y }) => same_opt_text(x, y),
        (Type::String { doc: x }, Type::String { doc: y }) => same_opt_text(x, y),
        (Type::Optional { doc: x, content: c }, Type::Optional { doc: y, content: d }) => {
            same_opt_text(x, y) && same_type(c, d)
        },
        (Type::Array { doc: x, content: c }, Type::Array { doc: y, content: d }) => {
            same_opt_text(x, y) && same_type(c, d)
        },
        (Type::Tuple { doc: x, content: c }, Type::Tuple { doc: y, content: d }) => {
            same_opt_text(x, y) && same_slots(c, d)
        },
        (Type::Struct { doc: x, content: c }, Type::Struct { doc: y, content: d }) => {
            same_opt_text(x, y) && same_slot_entries(&c.entries, &d.entries)
        },
        (Type::Enum { doc: x, content: c }, Type::Enum { doc: y, content: d }) => {
            same_opt_text(x, y) && same_slot_entries(&c.entries, &d.entries)
        },
        (Type::NamedType { doc: x, content: c }, Type::NamedType { doc: y, content: d }) => {
            same_opt_text(x, y) && *c == *d
        },
        _ => false,
    }
}

fn same_slot(a: &StructContent, b: &StructContent) -> (r: bool)
    ensures
        r == (a@ == b@),
    decreases a,
{
    same_opt_text(&a.doc, &b.doc) && a.index == b.index && same_type(&a.content, &b.content)
}

fn same_slots(a: &Vec<StructContent>, b: &Vec<StructContent>) -> (r: bool)
    ensures
        r == (slots_model(a@) == slots_model(b@)),
    decreases a,
{
    proof {
        lemma_slots_model(a@);
        lemma_slots_model(b@);
    }
    if a.len() != b.len() {
        assert(slots_model(a@).len() != slots_model(b@).len());
        return false;
    }
    let mut i: usize = 0;
    while i < a.len()
        invariant
            i <= a.len(),
            a.len() == b.len(),
            slots_model(a@).len() == a@.len(),
            slots_model(b@).len() == b@.len(),
            forall|x: int| 0 <= x < a@.len() ==> #[trigger] slots_model(a@)[x] == slot_model(a@[x]),
            forall|x: int| 0 <= x < b@.len() ==> #[trigger] slots_model(b@)[x] == slot_model(b@[x]),
            forall|x: int| 0 <= x < i ==> slots_model(a@)[x] == slots_model(b@)[x],
        decreases a.len() - i,
    {
        assert(decreases_to!(a => a@[i as int]));
        if !same_slot(&a[i], &b[i]) {
            assert(slots_model(a@)[i as int] != slots_model(b@)[i as int]);
            return false;
        }
        i = i + 1;
    }
    assert(slots_model(a@) =~= slots_model(b@));
    true
}

fn same_slot_entries(a: &Vec<(String, StructContent)>, b: &Vec<(String, StructContent)>) -> (r: bool)
    ensures
        r == (slot_entries_model(a@) == slot_entries_model(b@)),
    decreases a,
{
    proof {
        lemma_slot_entries_model(a@);
        lemma_slot_entries_model(b@);
    }
    if a.len() != b.len() {
        assert(slot_entries_model(a@).len() != slot_entries_model(b@).len());
        return false;
    }
    let mut i: usize = 0;
    while i < a.len()
        invariant
            i <= a.len(),
            a.len() == b.len(),
            slot_entries_model(a@).len() == a@.len(),
            slot_entries_model(b@).len() == b@.len(),
            forall|x: int|
                0 <= x < a@.len() ==> #[trigger] slot_entries_model(a@)[x] == (a@[x].0@, slot_model(a@[x].1)),
            forall|x: int|
                0 <= x < b@.len() ==> #[trigger] slot_entries_model(b@)[x] == (b@[x].0@, slot_model(b@[x].1)),
            forall|x: int| 0 <= x < i ==> slot_entries_model(a@)[x] == slot_entries_model(b@)[x],
        decreases a.len() - i,
    {
        assert(decreases_to!(a => a@[i as int].1));
        if !(a[i].0 == b[i].0 && same_slot(&a[i].1, &b[i].1)) {
            assert(slot_entries_model(a@)[i as int] != slot_entries_model(b@)[i as int]);
            return false;
        }
        i = i + 1;
    }
    assert(slot_entries_model(a@) =~= slot_entries_model(b@));
    true
}

impl ModelEq for Type {
    fn same(&self, other: &Self) -> (r: bool) {
        same_type(self, other)
    }
}

impl ModelEq for StructContent {
    fn same(&self, other: &Self) -> (r: bool) {
        same_slot(self, other)
    }
}

impl<V: ModelEq> ModelEq for NamedMap<V> {
    fn same(&self, other: &Self) -> (r: bool) {
        if self.entries.len() != other.entries.len() {
            assert(self@.len() != other@.len());
            return false;
        }
        let mut i: usize = 0;
        while i < self.entries.len()
            invariant
                i <= self.entries.len(),
                self.entries.len() == other.entries.len(),
                self@.len() == self.entries@.len(),
                other@.len() == other.entries@.len(),
                forall|x: int| 0 <= x < i ==> self@[x] == other@[x],
            decreases self.entries.len() - i,
        {
            if !(self.entries[i].0 == other.entries[i].0 && self.entries[i].1.same(&other.entries[i].1)) {
                assert(self@[i as int] != other@[i as int]);
                return false;
            }
            i = i + 1;
        }
        assert(self@ =~= other@);
        true
    }
}

impl ModelEq for IApiSpec {
    fn same(&self, other: &Self) -> (r: bool) {
        self.id == other.id && self.title == other.title && self.revision == other.revision
            && self.error_type == other.error_type && same_opt_bool(self.unique, other.unique)
            && self.features.same(&other.features) && self.unstable_features.same(&other.unstable_features)
            && self.types.same(&other.types) && self.calls_out.same(&other.calls_out)
            && self.calls_in.same(&other.calls_in)
    }
}

impl ModelEq for IApiSpecDoc {
    fn same(&self, other: &Self) -> (r: bool) {
        self.inversion_api_spec.same(&other.inversion_api_spec)
    }
}

impl PartialEq for Feature {
    fn eq(&self, other: &Feature) -> (r: bool) {
        self.same(other)
    }
}

impl vstd::std_specs::cmp::PartialEqSpecImpl for Feature {
    open spec fn obeys_eq_spec() -> bool {
        true
    }

    open spec fn eq_spec(&self, other: &Feature) -> bool {
        self@ == other@
    }
}

impl PartialEq for UnstableFeature {
    fn eq(&self, other: &UnstableFeature) -> (r: bool) {
        self.same(other)
    }
}

impl vstd::std_specs::cmp::PartialEqSpecImpl for UnstableFeature {
    open spec fn obeys_eq_spec() -> bool {
        true
    }

    open spec fn eq_spec(&self, other: &UnstableFeature) -> bool {
        self@ == other@
    }
}

impl PartialEq for Call {
    fn eq(&self, other: &Call) -> (r: bool) {
        self.same(other)
    }
}

impl vstd::std_specs::cmp::PartialEqSpecImpl for Call {
    open spec fn obeys_eq_spec() -> bool {
        true
    }

    open spec fn eq_spec(&self, other: &Call) -> bool {
        self@ == other@
    }
}

impl PartialEq for Type {
    fn eq(&self, other: &Type) -> (r: bool) {
        self.same(other)
    }
}

impl vstd::std_specs::cmp::PartialEqSpecImpl for Type {
    open spec fn obeys_eq_spec() -> bool {
        true
    }

    open spec fn eq_spec(&self, other: &Type) -> bool {
        self@ == other@
    }
}

impl PartialEq for StructContent {
    fn eq(&self, other: &StructContent) -> (r: bool) {
        self.same(other)
    }
}

impl vstd::std_specs::cmp::PartialEqSpecImpl for StructContent {
    open spec fn obeys_eq_spec() -> bool {
        true
    }

    open spec fn eq_spec(&self, other: &StructContent) -> bool {
        self@ == other@
    }
}

impl PartialEq for IApiSpec {
    fn eq(&self, other: &IApiSpec) -> (r: bool) {
        self.same(other)
    }
}

impl vstd::std_specs::cmp::PartialEqSpecImpl for IApiSpec {
    open spec fn obeys_eq_spec() -> bool {
        true
    }

    open spec fn eq_spec(&self, other: &IApiSpec) -> bool {
        self@ == other@
    }
}

impl PartialEq for IApiSpecDoc {
    fn eq(&self, other: &IApiSpecDoc) -> (r: bool) {
        self.same(other)
    }
}

impl vstd::std_specs::cmp::PartialEqSpecImpl for IApiSpecDoc {
    open spec fn obeys_eq_spec() -> bool {
        true
    }

    open spec fn eq_spec(&self, other: &IApiSpecDoc) -> bool {
        self@ == other@
    }
}

impl<V: ModelEq> PartialEq for NamedMap<V> {
    fn eq(&self, other: &NamedMap<V>) -> (r: bool) {
        self.same(other)
    }
}

impl<V: ModelEq> vstd::std_specs::cmp::PartialEqSpecImpl for NamedMap<V> {
    open spec fn obeys_eq_spec() -> bool {
        true
    }

    open spec fn eq_spec(&self, other: &NamedMap<V>) -> bool {
        self@ == other@
    }
}

} // verus!
