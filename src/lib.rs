//! Parsing and writing inversion-api specification documents.
//!
//! A document is JSON text with one top-level member, `inversionApiSpec`,
//! holding the spec: its identifier, title, revision, error type, optional
//! uniqueness flag, stable and unstable features, the type table and the
//! calls in both directions. Field names are written in camel case, unset
//! optional fields are left out, every map keeps the order of its entries,
//! and each type is an object whose `type` member names its variant.
pub mod json;
pub mod model;
pub mod rules;
pub mod codec;
pub mod type_codec;
pub mod doc_codec;
pub mod bridge;
pub mod laws;
pub mod equality;

pub use json::Json;
pub use model::{Call, Feature, IApiSpec, IApiSpecDoc, NamedMap, NanoId, StructContent, Type, UnstableFeature};
pub use rules::{DecodeError, JsonCodec};
