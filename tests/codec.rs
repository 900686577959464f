use inversion_api_spec::{
    Call, DecodeError, Feature, IApiSpec, IApiSpecDoc, Json, JsonCodec, NamedMap, NanoId,
    StructContent, Type, UnstableFeature,
};

const JSON_FIXTURE_SRC: &str = r#"{
  "inversionApiSpec": {
    "id": "gwSMYpO3kr5yLvTNR3KR4",
    "title": "Key Value Persistence",
    "revision": 2,
    "errorType": "structItem",
    "unique": true,
    "features": {
      "set": {
        "doc": "...",
        "stablizedRevision": 0
      }
    },
    "unstableFeatures": {
      "list": {
        "doc": "..."
      }
    },
    "types": {
      "intItem": {
        "type": "i32"
      }
    },
    "callsOut": {},
    "callsIn": {
      "set": {
        "feature": "set",
        "input": "structItem",
        "output": "arrayItem"
      }
    }
  }
}
"#;

const COMPACT_EXAMPLE: &str = r#"{"inversionApiSpec":{"id":"gwSMYpO3kr5yLvTNR3KR4","title":"Key Value Persistence","revision":2,"errorType":"structItem","unique":true,"features":{"set":{"doc":"...","stablizedRevision":0}},"unstableFeatures":{"list":{"doc":"..."}},"types":{"intItem":{"type":"i32"}},"callsOut":{},"callsIn":{"set":{"feature":"set","input":"structItem","output":"arrayItem"}}}}"#;

/// Drops the whitespace that stands outside string literals.
fn strip_layout(s: &str) -> String {
    let mut out = String::new();
    let mut in_str = false;
    let mut escaped = false;
    for c in s.chars() {
        if in_str {
            out.push(c);
            if escaped {
                escaped = false;
            } else if c == '\\' {
                escaped = true;
            } else if c == '"' {
                in_str = false;
            }
        } else if c == '"' {
            in_str = true;
            out.push(c);
        } else if !c.is_whitespace() {
            out.push(c);
        }
    }
    out
}

fn text(s: &str) -> String {
    s.to_string()
}

fn obj(members: Vec<(&str, Json)>) -> Json {
    Json::Object(members.into_iter().map(|(k, v)| (k.to_string(), v)).collect())
}

fn empty_spec() -> IApiSpec {
    IApiSpec {
        id: NanoId::from("abc"),
        title: text("t"),
        revision: 1,
        error_type: text("err"),
        unique: None,
        features: NamedMap::new(),
        unstable_features: NamedMap::new(),
        types: NamedMap::new(),
        calls_out: NamedMap::new(),
        calls_in: NamedMap::new(),
    }
}

#[test]
fn round_trip_encode_decode() {
    let doc = IApiSpecDoc::parse(JSON_FIXTURE_SRC.as_bytes()).unwrap();
    let fixture = IApiSpecDoc::parse(JSON_FIXTURE_SRC.as_bytes()).unwrap();
    assert_eq!(fixture, doc);
    {
        let spec = &doc.inversion_api_spec;
        assert_eq!("gwSMYpO3kr5yLvTNR3KR4", spec.id.as_str());
    }
    let res = doc.to_text();
    assert_eq!(JSON_FIXTURE_SRC.trim(), res.as_str().trim());
    let doc2 = IApiSpecDoc::parse(res.as_bytes()).unwrap();
    assert_eq!(doc, doc2);
}

#[test]
fn fixture_fields_are_read() {
    let doc = IApiSpecDoc::parse(JSON_FIXTURE_SRC.as_bytes()).unwrap();
    let spec = &doc.inversion_api_spec;
    assert_eq!(spec.title, "Key Value Persistence");
    assert_eq!(spec.revision, 2);
    assert_eq!(spec.error_type, "structItem");
    assert_eq!(spec.unique, Some(true));
    assert_eq!(spec.features.len(), 1);
    assert_eq!(spec.features.entries[0].0, "set");
    assert_eq!(spec.features.entries[0].1.doc.as_deref(), Some("..."));
    assert_eq!(spec.features.entries[0].1.stablized_revision, 0);
    assert_eq!(spec.features.entries[0].1.deprecated, None);
    assert_eq!(spec.unstable_features.entries[0].0, "list");
    assert!(matches!(spec.types.entries[0].1, Type::I32 { doc: None }));
    assert_eq!(spec.calls_out.len(), 0);
    assert_eq!(spec.calls_in.entries[0].1.output, "arrayItem");
}

#[test]
fn byte_fidelity_of_compact_example() {
    let doc = IApiSpecDoc::parse(COMPACT_EXAMPLE.as_bytes()).unwrap();
    let out = doc.to_text();
    assert_ne!(out, COMPACT_EXAMPLE);
    assert_eq!(strip_layout(&out), COMPACT_EXAMPLE);
}

#[test]
fn unset_unique_is_omitted() {
    let doc = IApiSpecDoc { inversion_api_spec: empty_spec() };
    let out = doc.to_text();
    assert!(!out.contains("unique"));
    let back = IApiSpecDoc::parse(out.as_bytes()).unwrap();
    assert_eq!(back.inversion_api_spec.unique, None);
}

#[test]
fn explicit_null_reads_as_absent() {
    let src = r#"{"inversionApiSpec":{"id":"x","title":"t","revision":0,"errorType":"e","unique":null,"features":{"f":{"doc":null,"stablizedRevision":3,"deprecated":null}},"unstableFeatures":{},"types":{"a":{"type":"bool","doc":null}},"callsOut":{},"callsIn":{}}}"#;
    let doc = IApiSpecDoc::parse(src.as_bytes()).unwrap();
    let spec = &doc.inversion_api_spec;
    assert_eq!(spec.unique, None);
    assert_eq!(spec.features.entries[0].1.doc, None);
    assert_eq!(spec.features.entries[0].1.deprecated, None);
    let out = strip_layout(&doc.to_text());
    assert!(!out.contains("null"));
}

#[test]
fn type_table_keeps_its_order() {
    let src = r#"{"inversionApiSpec":{"id":"x","title":"t","revision":0,"errorType":"e","features":{},"unstableFeatures":{},"types":{"c":{"type":"u32"},"a":{"type":"u64"},"b":{"type":"string"}},"callsOut":{},"callsIn":{}}}"#;
    let doc = IApiSpecDoc::parse(src.as_bytes()).unwrap();
    let keys: Vec<&str> = doc.inversion_api_spec.types.entries.iter().map(|e| e.0.as_str()).collect();
    assert_eq!(keys, vec!["c", "a", "b"]);
    let out = strip_layout(&doc.to_text());
    assert_eq!(out, src);
}

#[test]
fn unknown_discriminant_is_refused() {
    let j = obj(vec![("type", Json::Str(text("float128")))]);
    assert!(matches!(Type::from_json(&j), Err(DecodeError::UnknownVariant)));
    let src = r#"{"inversionApiSpec":{"id":"x","title":"t","revision":0,"errorType":"e","features":{},"unstableFeatures":{},"types":{"a":{"type":"float128"}},"callsOut":{},"callsIn":{}}}"#;
    assert!(matches!(IApiSpecDoc::parse(src.as_bytes()), Err(DecodeError::UnknownVariant)));
}

#[test]
fn nested_types_round_trip() {
    let t = Type::Optional {
        doc: Some(text("maybe")),
        content: Box::new(Type::Array {
            doc: None,
            content: Box::new(Type::NamedType { doc: None, content: text("item") }),
        }),
    };
    let j = t.to_json();
    let back = Type::from_json(&j).unwrap();
    match &back {
        Type::Optional { doc, content } => {
            assert_eq!(doc.as_deref(), Some("maybe"));
            match content.as_ref() {
                Type::Array { doc, content } => {
                    assert_eq!(*doc, None);
                    match content.as_ref() {
                        Type::NamedType { doc, content } => {
                            assert_eq!(*doc, None);
                            assert_eq!(content, "item");
                        }
                        other => panic!("unexpected {:?}", other),
                    }
                }
                other => panic!("unexpected {:?}", other),
            }
        }
        other => panic!("unexpected {:?}", other),
    }
    let mut spec = empty_spec();
    assert!(spec.types.insert(text("opt"), t).is_none());
    let doc = IApiSpecDoc { inversion_api_spec: spec };
    let out = doc.to_text();
    assert!(strip_layout(&out).contains(
        r#""opt":{"type":"optional","doc":"maybe","content":{"type":"array","content":{"type":"namedType","content":"item"}}}"#
    ));
    let doc2 = IApiSpecDoc::parse(out.as_bytes()).unwrap();
    assert_eq!(doc2, doc);
}

#[test]
fn struct_enum_and_tuple_slots_round_trip() {
    let mut fields: NamedMap<StructContent> = NamedMap::new();
    fields.insert(text("b"), StructContent { doc: None, index: 1, content: Box::new(Type::Bytes { doc: None }) });
    fields.insert(text("a"), StructContent { doc: Some(text("first")), index: 0, content: Box::new(Type::F64 { doc: None }) });
    let mut variants: NamedMap<StructContent> = NamedMap::new();
    variants.insert(text("x"), StructContent { doc: None, index: 0, content: Box::new(Type::Null { doc: None }) });
    let tuple = Type::Tuple {
        doc: None,
        content: vec![StructContent { doc: None, index: 0, content: Box::new(Type::I64 { doc: None }) }],
    };
    let mut spec = empty_spec();
    spec.types.insert(text("s"), Type::Struct { doc: None, content: fields });
    spec.types.insert(text("e"), Type::Enum { doc: Some(text("one of")), content: variants });
    spec.types.insert(text("t"), tuple);
    let doc = IApiSpecDoc { inversion_api_spec: spec };
    let out = strip_layout(&doc.to_text());
    assert!(out.contains(r#""s":{"type":"struct","content":{"b":{"index":1,"content":{"type":"bytes"}},"a":{"doc":"first","index":0,"content":{"type":"f64"}}}}"#));
    assert!(out.contains(r#""e":{"type":"enum","doc":"one of","content":{"x":{"index":0,"content":{"type":"null"}}}}"#));
    assert!(out.contains(r#""t":{"type":"tuple","content":[{"index":0,"content":{"type":"i64"}}]}"#));
    let back = IApiSpecDoc::parse(out.as_bytes()).unwrap();
    assert_eq!(strip_layout(&back.to_text()), out);
}

#[test]
fn default_ids_differ() {
    let a = NanoId::default();
    let b = NanoId::default();
    assert_eq!(a.as_str().chars().count(), 21);
    assert!(a.as_str().chars().all(|c| c.is_ascii_alphanumeric() || c == '_' || c == '-'));
    assert_ne!(a.as_str(), b.as_str());
}

#[test]
fn id_from_text() {
    assert_eq!(NanoId::from("abc").as_str(), "abc");
    assert_eq!(NanoId::from(text("xyz")).as_str(), "xyz");
}

#[test]
fn malformed_text_is_refused() {
    assert!(matches!(IApiSpecDoc::parse(b"{\"inversionApiSpec\": "), Err(DecodeError::MalformedInput)));
    assert!(matches!(IApiSpecDoc::parse(b"not json"), Err(DecodeError::MalformedInput)));
}

#[test]
fn missing_field_is_a_schema_mismatch() {
    let src = r#"{"inversionApiSpec":{"id":"x","revision":0,"errorType":"e","features":{},"unstableFeatures":{},"types":{},"callsOut":{},"callsIn":{}}}"#;
    assert!(matches!(IApiSpecDoc::parse(src.as_bytes()), Err(DecodeError::SchemaMismatch)));
    assert!(matches!(IApiSpecDoc::parse(b"{}"), Err(DecodeError::SchemaMismatch)));
}

#[test]
fn wrong_shape_is_a_schema_mismatch() {
    let src = r#"{"inversionApiSpec":{"id":"x","title":"t","revision":-1,"errorType":"e","features":{},"unstableFeatures":{},"types":{},"callsOut":{},"callsIn":{}}}"#;
    assert!(matches!(IApiSpecDoc::parse(src.as_bytes()), Err(DecodeError::SchemaMismatch)));
    let big = r#"{"inversionApiSpec":{"id":"x","title":"t","revision":4294967296,"errorType":"e","features":{},"unstableFeatures":{},"types":{},"callsOut":{},"callsIn":{}}}"#;
    assert!(matches!(IApiSpecDoc::parse(big.as_bytes()), Err(DecodeError::SchemaMismatch)));
    let j = obj(vec![("type", Json::Str(text("optional")))]);
    assert!(matches!(Type::from_json(&j), Err(DecodeError::SchemaMismatch)));
    let j = obj(vec![("doc", Json::Str(text("d")))]);
    assert!(matches!(Type::from_json(&j), Err(DecodeError::SchemaMismatch)));
}

#[test]
fn deep_nesting_is_refused() {
    let mut t = Json::Null;
    t = obj(vec![("type", Json::Str(text("null")))]);
    for _ in 0..100 {
        t = obj(vec![("type", Json::Str(text("array"))), ("content", t)]);
    }
    assert!(matches!(Type::from_json(&t), Err(DecodeError::DepthExceeded)));
    let mut ok = obj(vec![("type", Json::Str(text("null")))]);
    for _ in 0..10 {
        ok = obj(vec![("type", Json::Str(text("array"))), ("content", ok)]);
    }
    assert!(Type::from_json(&ok).is_ok());
}

#[test]
fn duplicate_keys_are_refused() {
    let j = obj(vec![(
        "content",
        obj(vec![
            ("a", obj(vec![("index", Json::Number(0)), ("content", obj(vec![("type", Json::Str(text("bool")))]))])),
            ("a", obj(vec![("index", Json::Number(1)), ("content", obj(vec![("type", Json::Str(text("bool")))]))])),
        ]),
    ), ("type", Json::Str(text("struct")))]);
    assert!(matches!(Type::from_json(&j), Err(DecodeError::SchemaMismatch)));
    let mut m: NamedMap<UnstableFeature> = NamedMap::new();
    assert!(m.insert(text("k"), UnstableFeature { doc: None }).is_none());
    assert!(m.insert(text("j"), UnstableFeature { doc: None }).is_none());
    let old = m.insert(text("k"), UnstableFeature { doc: Some(text("d")) });
    assert_eq!(old, Some(UnstableFeature { doc: None }));
    assert_eq!(m.len(), 2);
    assert_eq!(m.entries[0].0, "k");
    assert_eq!(m.entries[0].1.doc.as_deref(), Some("d"));
    assert!(m.contains_key(&text("k")));
    assert!(!m.contains_key(&text("z")));
}

#[test]
fn doc_of_every_variant() {
    let d = || Some(text("d"));
    let types = vec![
        Type::Null { doc: d() },
        Type::Bool { doc: d() },
        Type::U32 { doc: d() },
        Type::String { doc: d() },
        Type::Optional { doc: d(), content: Box::new(Type::Null { doc: None }) },
        Type::Tuple { doc: d(), content: vec![] },
        Type::Struct { doc: d(), content: NamedMap::new() },
        Type::NamedType { doc: d(), content: text("x") },
    ];
    for t in &types {
        assert_eq!(t.doc().as_deref(), Some("d"));
    }
    assert_eq!(*Type::I32 { doc: None }.doc(), None);
}

#[test]
fn records_encode_camel_case() {
    let f = Feature { doc: None, stablized_revision: 7, deprecated: Some(true) };
    let c = Call { doc: Some(text("c")), feature: text("f"), input: text("i"), output: text("o") };
    let mut spec = empty_spec();
    spec.features.insert(text("f"), f);
    spec.calls_out.insert(text("c"), c);
    spec.unique = Some(false);
    let out = strip_layout(&IApiSpecDoc { inversion_api_spec: spec }.to_text());
    assert_eq!(
        out,
        r#"{"inversionApiSpec":{"id":"abc","title":"t","revision":1,"errorType":"err","unique":false,"features":{"f":{"stablizedRevision":7,"deprecated":true}},"unstableFeatures":{},"types":{},"callsOut":{"c":{"doc":"c","feature":"f","input":"i","output":"o"}},"callsIn":{}}}"#
    );
}

#[test]
fn unknown_members_are_ignored() {
    let src = r#"{"inversionApiSpec":{"extra":[1.5,-2,{"k":null}],"id":"x","title":"t","revision":0,"errorType":"e","features":{},"unstableFeatures":{},"types":{},"callsOut":{},"callsIn":{}}}"#;
    let doc = IApiSpecDoc::parse(src.as_bytes()).unwrap();
    assert!(!doc.to_text().contains("extra"));
}

#[test]
fn json_text_round_trip_keeps_numbers() {
    let j = Json::parse_text(b"[1.5,-2,18446744073709551615,\"s\",true,null]").unwrap();
    assert_eq!(strip_layout(&j.to_pretty_text()), "[1.5,-2,18446744073709551615,\"s\",true,null]");
}

#[test]
fn equality_follows_the_values() {
    let a = IApiSpecDoc::parse(COMPACT_EXAMPLE.as_bytes()).unwrap();
    let b = IApiSpecDoc::parse(COMPACT_EXAMPLE.as_bytes()).unwrap();
    assert_eq!(a, b);
    let changed = COMPACT_EXAMPLE.replace("\"revision\":2", "\"revision\":3");
    let c = IApiSpecDoc::parse(changed.as_bytes()).unwrap();
    assert_ne!(a, c);
    let t1 = Type::Optional { doc: None, content: Box::new(Type::Bool { doc: None }) };
    let t2 = Type::Optional { doc: None, content: Box::new(Type::Bool { doc: Some(text("x")) }) };
    let t3 = Type::Array { doc: None, content: Box::new(Type::Bool { doc: None }) };
    assert_ne!(t1, t2);
    assert_ne!(t1, t3);
    assert_eq!(t1, Type::Optional { doc: None, content: Box::new(Type::Bool { doc: None }) });
    assert_eq!(NanoId::from("q"), NanoId::from(text("q")));
    assert_ne!(NanoId::from("q"), NanoId::from("r"));
}

#[test]
fn decoded_spec_round_trips_as_value() {
    let doc = IApiSpecDoc::parse(COMPACT_EXAMPLE.as_bytes()).unwrap();
    let back = IApiSpecDoc::from_json(&doc.to_json()).unwrap();
    assert_eq!(back, doc);
    let spec = IApiSpec::from_json(&doc.inversion_api_spec.to_json()).unwrap();
    assert_eq!(spec, doc.inversion_api_spec);
}

#[test]
fn nested_type_in_document_reads_exactly() {
    let src = r#"{"inversionApiSpec":{"id":"x","title":"t","revision":0,"errorType":"e","features":{},"unstableFeatures":{},"types":{"t":{"type":"optional","content":{"type":"array","content":{"type":"namedType","content":"intItem"}}}},"callsOut":{},"callsIn":{}}}"#;
    let doc = IApiSpecDoc::parse(src.as_bytes()).unwrap();
    let expected = Type::Optional {
        doc: None,
        content: Box::new(Type::Array {
            doc: None,
            content: Box::new(Type::NamedType { doc: None, content: text("intItem") }),
        }),
    };
    assert_eq!(doc.inversion_api_spec.types.entries[0].1, expected);
    assert_eq!(strip_layout(&doc.to_text()), src);
}

#[test]
fn deep_text_is_refused_without_panic() {
    let mut s = String::new();
    for _ in 0..300 {
        s.push('[');
    }
    for _ in 0..300 {
        s.push(']');
    }
    assert!(IApiSpecDoc::parse(s.as_bytes()).is_err());
    assert!(matches!(IApiSpecDoc::parse(&[0xff, 0xfe]), Err(DecodeError::MalformedInput)));
}
