//! The schema's data types and their mathematical models.
use vstd::prelude::*;

verus! {

/// An identifier: a short URL-safe string, random when made by `default`.
#[derive(Debug, Clone)]
pub struct NanoId(pub String);

impl View for NanoId {
    type V = Seq<char>;

    open spec fn view(&self) -> Seq<char> {
        self.0@
    }
}

impl PartialEq for NanoId {
    fn eq(&self, other: &NanoId) -> (r: bool) {
        self.0 == other.0
    }
}

impl vstd::std_specs::cmp::PartialEqSpecImpl for NanoId {
    open spec fn obeys_eq_spec() -> bool {
        true
    }

    open spec fn eq_spec(&self, other: &NanoId) -> bool {
        self@ == other@
    }
}

/// A map from names to values that keeps the order in which its entries
/// were inserted. Keys are meant to be unique (see `keys_unique`).
#[derive(Debug)]
pub struct NamedMap<V> {
    pub entries: Vec<(String, V)>,
}

/// No two entries of `s` share a key.
pub open spec fn keys_unique<V>(s: Seq<(Seq<char>, V)>) -> bool {
    forall|i: int, j: int| 0 <= i < j < s.len() ==> s[i].0 != s[j].0
}

/// `s` has an entry with key `k`.
pub open spec fn has_key<V>(s: Seq<(Seq<char>, V)>, k: Seq<char>) -> bool {
    exists|i: int| 0 <= i < s.len() && s[i].0 == k
}

impl<V: View> View for NamedMap<V> {
    type V = Seq<(Seq<char>, V::V)>;

    open spec fn view(&self) -> Seq<(Seq<char>, V::V)> {
        self.entries@.map_values(|e: (String, V)| (e.0@, e.1@))
    }
}

/// Stable feature definition.
#[derive(Debug, Clone)]
pub struct Feature {
    /// documentation for the feature
    pub doc: Option<String>,
    /// the spec revision at which the feature was stabilized
    pub stablized_revision: u32,
    /// the feature is deprecated and may no longer be supported by implementors
    pub deprecated: Option<bool>,
}

pub struct FeatureModel {
    pub doc: Option<Seq<char>>,
    pub stablized_revision: u32,
    pub deprecated: Option<bool>,
}

pub open spec fn opt_text(s: Option<String>) -> Option<Seq<char>> {
    match s {
        Some(t) => Some(t@),
        None => None,
    }
}

impl View for Feature {
    type V = FeatureModel;

    open spec fn view(&self) -> FeatureModel {
        FeatureModel {
            doc: opt_text(self.doc),
            stablized_revision: self.stablized_revision,
            deprecated: self.deprecated,
        }
    }
}

/// Unstable feature definition: it may change or be dropped between revisions.
#[derive(Debug, Clone)]
pub struct UnstableFeature {
    /// documentation for the feature
    pub doc: Option<String>,
}

pub struct UnstableFeatureModel {
    pub doc: Option<Seq<char>>,
}

impl View for UnstableFeature {
    type V = UnstableFeatureModel;

    open spec fn view(&self) -> UnstableFeatureModel {
        UnstableFeatureModel { doc: opt_text(self.doc) }
    }
}

/// One call: the feature it belongs to and the names of its input and output types.
#[derive(Debug, Clone)]
pub struct Call {
    /// documentation
    pub doc: Option<String>,
    /// the feature this call is defined in
    pub feature: String,
    /// the named type of the call's input
    pub input: String,
    /// the named type of the call's output
    pub output: String,
}

pub struct CallModel {
    pub doc: Option<Seq<char>>,
    pub feature: Seq<char>,
    pub input: Seq<char>,
    pub output: Seq<char>,
}

impl View for Call {
    type V = CallModel;

    open spec fn view(&self) -> CallModel {
        CallModel {
            doc: opt_text(self.doc),
            feature: self.feature@,
            input: self.input@,
            output: self.output@,
        }
    }
}

/// The value shapes a spec can describe. `NamedType` refers to an entry of
/// the spec's type table by name.
#[derive(Debug)]
pub enum Type {
    /// no data
    Null { doc: Option<String> },
    /// `true` or `false`
    Bool { doc: Option<String> },
    /// 32 bit signed integer
    I32 { doc: Option<String> },
    /// 32 bit unsigned integer
    U32 { doc: Option<String> },
    /// 64 bit signed integer
    I64 { doc: Option<String> },
    /// 64 bit unsigned integer
    U64 { doc: Option<String> },
    /// 64 bit floating point number
    F64 { doc: Option<String> },
    /// binary byte array
    Bytes { doc: Option<String> },
    /// utf-8 string
    String { doc: Option<String> },
    /// a value that may be omitted
    Optional { doc: Option<String>, content: Box<Type> },
    /// array of values of one type
    Array { doc: Option<String>, content: Box<Type> },
    /// positional list of values
    Tuple { doc: Option<String>, content: Vec<StructContent> },
    /// all of a set of named values
    Struct { doc: Option<String>, content: NamedMap<StructContent> },
    /// one of a set of named values
    Enum { doc: Option<String>, content: NamedMap<StructContent> },
    /// reference to another entry of the type table
    NamedType { doc: Option<String>, content: String },
}

/// One slot of a tuple, struct or enum: its position and its type.
#[derive(Debug)]
pub struct StructContent {
    /// documentation
    pub doc: Option<String>,
    /// the position of this item in a compact positional encoding
    pub index: u32,
    /// the type of this item
    pub content: Box<Type>,
}

pub enum TypeModel {
    Null { doc: Option<Seq<char>> },
    Bool { doc: Option<Seq<char>> },
    I32 { doc: Option<Seq<char>> },
    U32 { doc: Option<Seq<char>> },
    I64 { doc: Option<Seq<char>> },
    U64 { doc: Option<Seq<char>> },
    F64 { doc: Option<Seq<char>> },
    Bytes { doc: Option<Seq<char>> },
    String { doc: Option<Seq<char>> },
    Optional { doc: Option<Seq<char>>, content: Box<TypeModel> },
    Array { doc: Option<Seq<char>>, content: Box<TypeModel> },
    Tuple { doc: Option<Seq<char>>, content: Seq<SlotModel> },
    Struct { doc: Option<Seq<char>>, content: Seq<(Seq<char>, SlotModel)> },
    Enum { doc: Option<Seq<char>>, content: Seq<(Seq<char>, SlotModel)> },
    NamedType { doc: Option<Seq<char>>, content: Seq<char> },
}

pub struct SlotModel {
    pub doc: Option<Seq<char>>,
    pub index: u32,
    pub content: Box<TypeModel>,
}

pub open spec fn type_model(t: Type) -> TypeModel
    decreases t,
{
    match t {
        Type::Null { doc } => TypeModel::Null { doc: opt_text(doc) },
        Type::Bool { doc } => TypeModel::Bool { doc: opt_text(doc) },
        Type::I32 { doc } => TypeModel::I32 { doc: opt_text(doc) },
        Type::U32 { doc } => TypeModel::U32 { doc: opt_text(doc) },
        Type::I64 { doc } => TypeModel::I64 { doc: opt_text(doc) },
        Type::U64 { doc } => TypeModel::U64 { doc: opt_text(doc) },
        Type::F64 { doc } => TypeModel::F64 { doc: opt_text(doc) },
        Type::Bytes { doc } => TypeModel::Bytes { doc: opt_text(doc) },
        Type::String { doc } => TypeModel::String { doc: opt_text(doc) },
        Type::Optional { doc, content } => TypeModel::Optional {
            doc: opt_text(doc),
            content: Box::new(type_model(*content)),
        },
        Type::Array { doc, content } => TypeModel::Array {
            doc: opt_text(doc),
            content: Box::new(type_model(*content)),
        },
        Type::Tuple { doc, content } => TypeModel::Tuple {
            doc: opt_text(doc),
            content: slots_model(content@),
        },
        Type::Struct { doc, content } => TypeModel::Struct {
            doc: opt_text(doc),
            content: slot_entries_model(content.entries@),
        },
        Type::Enum { doc, content } => TypeModel::Enum {
            doc: opt_text(doc),
            content: slot_entries_model(content.entries@),
        },
        Type::NamedType { doc, content } => TypeModel::NamedType {
            doc: opt_text(doc),
            content: content@,
        },
    }
}

pub open spec fn slot_model(s: StructContent) -> SlotModel
    decreases s,
{
    SlotModel { doc: opt_text(s.doc), index: s.index, content: Box::new(type_model(*s.content)) }
}

pub open spec fn slots_model(s: Seq<StructContent>) -> Seq<SlotModel>
    decreases s,
{
    if s.len() == 0 {
        seq![]
    } else {
        slots_model(s.drop_last()).push(slot_model(s.last()))
    }
}

pub open spec fn slot_entries_model(s: Seq<(String, StructContent)>) -> Seq<(Seq<char>, SlotModel)>
    decreases s,
{
    if s.len() == 0 {
        seq![]
    } else {
        slot_entries_model(s.drop_last()).push((s.last().0@, slot_model(s.last().1)))
    }
}

pub proof fn lemma_slots_model(s: Seq<StructContent>)
    ensures
        slots_model(s).len() == s.len(),
        forall|i: int| 0 <= i < s.len() ==> #[trigger] slots_model(s)[i] == slot_model(s[i]),
    decreases s.len(),
{
    if s.len() > 0 {
        lemma_slots_model(s.drop_last());
    }
}

pub proof fn lemma_slot_entries_model(s: Seq<(String, StructContent)>)
    ensures
        slot_entries_model(s).len() == s.len(),
        forall|i: int|
            0 <= i < s.len() ==> #[trigger] slot_entries_model(s)[i] == (s[i].0@, slot_model(s[i].1)),
    decreases s.len(),
{
    if s.len() > 0 {
        lemma_slot_entries_model(s.drop_last());
    }
}

impl View for Type {
    type V = TypeModel;

    open spec fn view(&self) -> TypeModel {
        type_model(*self)
    }
}

impl View for StructContent {
    type V = SlotModel;

    open spec fn view(&self) -> SlotModel {
        slot_model(*self)
    }
}

/// The spec itself.
#[derive(Debug)]
pub struct IApiSpec {
    /// spec identifier
    pub id: NanoId,
    /// spec title
    pub title: String,
    /// spec revision
    pub revision: u32,
    /// the type returned by a call that fails
    pub error_type: String,
    /// `Some(true)` if only one implementation may bind this spec
    pub unique: Option<bool>,
    /// stabilized features that implementations must provide (by revision)
    pub features: NamedMap<Feature>,
    /// features that may change, be dropped or be left out by implementations
    pub unstable_features: NamedMap<UnstableFeature>,
    /// the type table: types used as error type and as call input or output
    pub types: NamedMap<Type>,
    /// calls that a dependent binding may make of its owner
    pub calls_out: NamedMap<Call>,
    /// calls that an owner may make of a bound dependency
    pub calls_in: NamedMap<Call>,
}

pub struct SpecModel {
    pub id: Seq<char>,
    pub title: Seq<char>,
    pub revision: u32,
    pub error_type: Seq<char>,
    pub unique: Option<bool>,
    pub features: Seq<(Seq<char>, FeatureModel)>,
    pub unstable_features: Seq<(Seq<char>, UnstableFeatureModel)>,
    pub types: Seq<(Seq<char>, TypeModel)>,
    pub calls_out: Seq<(Seq<char>, CallModel)>,
    pub calls_in: Seq<(Seq<char>, CallModel)>,
}

impl View for IApiSpec {
    type V = SpecModel;

    open spec fn view(&self) -> SpecModel {
        SpecModel {
            id: self.id@,
            title: self.title@,
            revision: self.revision,
            error_type: self.error_type@,
            unique: self.unique,
            features: self.features@,
            unstable_features: self.unstable_features@,
            types: self.types@,
            calls_out: self.calls_out@,
            calls_in: self.calls_in@,
        }
    }
}

/// The document: a single top-level key holding the spec.
#[derive(Debug)]
pub struct IApiSpecDoc {
    /// the spec
    pub inversion_api_spec: IApiSpec,
}

impl View for IApiSpecDoc {
    type V = SpecModel;

    open spec fn view(&self) -> SpecModel {
        self.inversion_api_spec@
    }
}

} // verus!
