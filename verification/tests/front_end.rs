use typed_builder::builder_attr::{Attribute, Entry, EntryValue, SourceField};
use typed_builder::derive_typed_builder;
use typed_builder::diagnostics::{Diagnostic, ErrorKind, Location, Malformation, Shape};
use typed_builder::impl_my_derive;
use typed_builder::schema::{
    ConfigEntry, ConfigValue, DefaultSpec, FieldDef, GenericKind, GenericParam, SetterSpec,
};
use typed_builder::source::{SourceData, SourceFields, SourceRecord};
use typed_builder::syntax::{Expr, Ident, Path, PathArguments, PathSegment};
use typed_builder::Expansion;

fn spot(id: usize) -> Location {
    Location { id }
}

fn name_path(ident: &str) -> Path {
    Path {
        leading_colon: false,
        segments: vec![PathSegment {
            ident: Ident::new(ident).expect("the text is a name"),
            arguments: PathArguments::Absent,
        }],
    }
}

fn bare(key: &str, id: usize) -> Entry {
    Entry { key: Expr::Path(name_path(key)), value: None, location: spot(id) }
}

fn assign(key: &str, tokens: &str, id: usize) -> Entry {
    Entry {
        key: Expr::Path(name_path(key)),
        value: Some(EntryValue { tokens: tokens.to_string(), string: None }),
        location: spot(id),
    }
}

fn assign_str(key: &str, text: &str, id: usize) -> Entry {
    Entry {
        key: Expr::Path(name_path(key)),
        value: Some(EntryValue { tokens: format!("{:?}", text), string: Some(text.to_string()) }),
        location: spot(id),
    }
}

fn builder_attr(entries: Vec<Entry>, id: usize) -> Attribute {
    Attribute { path: name_path("builder"), entries, location: spot(id) }
}

fn source_field(name: &str, ty: &str, attrs: Vec<Attribute>) -> SourceField {
    SourceField { name: name.to_string(), ty: ty.to_string(), attrs, location: spot(50) }
}

fn source_record(fields: Vec<SourceField>) -> SourceRecord {
    SourceRecord {
        name: "Foo".to_string(),
        generics: vec![GenericParam {
            kind: GenericKind::Type,
            name: "T".to_string(),
            declaration: "T".to_string(),
        }],
        data: SourceData::Struct(SourceFields::Named(fields)),
        location: spot(60),
    }
}

fn malformed(what: Malformation, id: usize, field: &str) -> Diagnostic {
    Diagnostic {
        kind: ErrorKind::MalformedConfiguration(what),
        location: spot(id),
        related: None,
        field: Some(field.to_string()),
    }
}

#[test]
fn every_entry_form_is_read() {
    let field = source_field(
        "w",
        "Vec<u32>",
        vec![builder_attr(
            vec![
                bare("default", 1),
                assign("default", "20", 2),
                assign_str("default_code", "vec![30, 40]", 3),
                bare("skip", 4),
                assign("setter", "with_w", 5),
                assign_str("doc", "sets w", 6),
            ],
            10,
        )],
    );
    let read = field.parse().unwrap();
    let values: Vec<ConfigValue> = read.entries.into_iter().map(|e| e.value).collect();
    assert_eq!(
        values,
        vec![
            ConfigValue::Default(DefaultSpec::ZeroValue),
            ConfigValue::Default(DefaultSpec::Expr("20".to_string())),
            ConfigValue::Default(DefaultSpec::Code("vec![30, 40]".to_string())),
            ConfigValue::Skip,
            ConfigValue::Setter(SetterSpec::Rename("with_w".to_string())),
            ConfigValue::Setter(SetterSpec::Document("sets w".to_string())),
        ]
    );
}

#[test]
fn a_default_string_literal_is_kept_as_written() {
    let entry = assign_str("default", "abc", 1);
    assert_eq!(
        entry.apply_meta(),
        Ok(ConfigValue::Default(DefaultSpec::Expr("\"abc\"".to_string())))
    );
}

#[test]
fn entries_keep_their_places() {
    let field = source_field(
        "y",
        "i32",
        vec![builder_attr(vec![assign("default", "20", 7), bare("skip", 8)], 10)],
    );
    assert_eq!(
        field.parse(),
        Ok(FieldDef {
            name: "y".to_string(),
            ty: "i32".to_string(),
            entries: vec![
                ConfigEntry {
                    value: ConfigValue::Default(DefaultSpec::Expr("20".to_string())),
                    location: spot(7)
                },
                ConfigEntry { value: ConfigValue::Skip, location: spot(8) },
            ],
            location: spot(50),
        })
    );
}

#[test]
fn other_attributes_are_passed_over() {
    let other = Attribute {
        path: name_path("serde"),
        entries: vec![bare("nonsense", 1)],
        location: spot(2),
    };
    let qualified = Attribute {
        path: Path {
            leading_colon: false,
            segments: vec![
                PathSegment {
                    ident: Ident::new("typed").unwrap(),
                    arguments: PathArguments::Absent,
                },
                PathSegment {
                    ident: Ident::new("builder").unwrap(),
                    arguments: PathArguments::Absent,
                },
            ],
        },
        entries: vec![bare("default", 3)],
        location: spot(4),
    };
    let field = source_field("x", "i32", vec![other, qualified]);
    let read = field.parse().unwrap();
    assert!(read.entries.is_empty());
    assert_eq!(read.name, "x");
    assert_eq!(read.ty, "i32");
}

#[test]
fn an_entry_that_is_no_name_is_malformed() {
    let entry = Entry { key: Expr::Str("default".to_string()), value: None, location: spot(5) };
    assert_eq!(entry.apply_meta(), Err(Malformation::ExpectedIdentifier));
    let field = source_field("x", "i32", vec![builder_attr(vec![entry], 9)]);
    let error = field.parse().unwrap_err();
    assert_eq!(error, malformed(Malformation::ExpectedIdentifier, 5, "x"));
    assert_eq!(error.message(), "Expected identifier `x`");
}

#[test]
fn an_unknown_entry_is_malformed() {
    assert_eq!(bare("defualt", 1).apply_meta(), Err(Malformation::UnknownParameter));
    assert_eq!(assign("exclude", "1", 1).apply_meta(), Err(Malformation::UnknownParameter));
}

#[test]
fn entries_with_the_wrong_kind_of_value_are_malformed() {
    assert_eq!(assign("default_code", "vec![]", 1).apply_meta(), Err(Malformation::ExpectedString));
    assert_eq!(bare("default_code", 1).apply_meta(), Err(Malformation::ExpectedString));
    assert_eq!(bare("doc", 1).apply_meta(), Err(Malformation::ExpectedString));
    assert_eq!(assign("doc", "1", 1).apply_meta(), Err(Malformation::ExpectedString));
    assert_eq!(bare("setter", 1).apply_meta(), Err(Malformation::ExpectedValue));
    assert_eq!(assign("skip", "true", 1).apply_meta(), Err(Malformation::UnexpectedValue));
}

#[test]
fn malformed_entries_have_their_own_messages() {
    let texts: Vec<String> = [
        Malformation::ExpectedIdentifier,
        Malformation::UnknownParameter,
        Malformation::ExpectedValue,
        Malformation::UnexpectedValue,
        Malformation::ExpectedString,
    ]
    .iter()
    .map(|what| Diagnostic::malformed(*what, spot(0)).message())
    .collect();
    assert_eq!(
        texts,
        vec![
            "Expected identifier",
            "Unknown parameter",
            "Expected (<...>=<...>)",
            "Expected no value",
            "Expected string",
        ]
    );
}

#[test]
fn a_second_builder_attribute_is_a_conflict() {
    let field = source_field(
        "y",
        "i32",
        vec![
            builder_attr(vec![bare("default", 1)], 10),
            Attribute { path: name_path("doc"), entries: Vec::new(), location: spot(11) },
            builder_attr(vec![bare("skip", 2)], 12),
        ],
    );
    assert_eq!(
        field.parse(),
        Err(Diagnostic {
            kind: ErrorKind::ConflictingConfiguration,
            location: spot(12),
            related: Some(spot(10)),
            field: Some("y".to_string()),
        })
    );
}

#[test]
fn what_fails_first_in_a_field_is_reported() {
    let field = source_field(
        "y",
        "i32",
        vec![builder_attr(vec![bare("default", 1)], 10), builder_attr(vec![bare("oops", 2)], 12)],
    );
    assert_eq!(field.parse(), Err(malformed(Malformation::UnknownParameter, 2, "y")));
    let field = source_field(
        "y",
        "i32",
        vec![
            builder_attr(vec![bare("default", 1), bare("oops", 2), bare("worse", 3)], 10),
            builder_attr(vec![], 12),
        ],
    );
    assert_eq!(field.parse(), Err(malformed(Malformation::UnknownParameter, 2, "y")));
}

#[test]
fn deriving_reads_the_attributes_and_synthesizes() {
    let source = source_record(vec![
        source_field("x", "T", vec![]),
        source_field("y", "i32", vec![builder_attr(vec![assign("default", "20", 1)], 2)]),
    ]);
    let def = source.parse().unwrap();
    assert_eq!(def.name, "Foo");
    assert_eq!(def.generics, source.generics);
    assert_eq!(def.location, spot(60));
    let expected = impl_my_derive(&def).unwrap();
    assert_eq!(derive_typed_builder(&source), Expansion::Definitions(expected));
    match derive_typed_builder(&source) {
        Expansion::Definitions(definitions) => {
            assert_eq!(definitions.setters.len(), 2);
            assert_eq!(definitions.finalizer.markers, vec!["TypedBuilder_genericType_y"]);
        }
        Expansion::CompileError(error) => panic!("unexpected {:?}", error),
    }
}

#[test]
fn deriving_reports_the_first_field_that_cannot_be_read() {
    let source = source_record(vec![
        source_field("x", "T", vec![builder_attr(vec![bare("default", 1), bare("default", 2)], 3)]),
        source_field("y", "i32", vec![builder_attr(vec![bare("oops", 4)], 5)]),
        source_field("z", "i32", vec![builder_attr(vec![bare("nope", 6)], 7)]),
    ]);
    assert_eq!(
        derive_typed_builder(&source),
        Expansion::CompileError(malformed(Malformation::UnknownParameter, 4, "y"))
    );
}

#[test]
fn deriving_reports_conflicting_entries() {
    let source = source_record(vec![
        source_field("x", "T", vec![]),
        source_field(
            "y",
            "i32",
            vec![builder_attr(vec![assign("default", "1", 1), bare("default", 2)], 3)],
        ),
    ]);
    assert_eq!(
        derive_typed_builder(&source),
        Expansion::CompileError(Diagnostic {
            kind: ErrorKind::ConflictingConfiguration,
            location: spot(2),
            related: Some(spot(1)),
            field: Some("y".to_string()),
        })
    );
}

#[test]
fn deriving_turns_other_shapes_away() {
    let shapes = vec![
        (SourceData::Struct(SourceFields::Unnamed), Shape::Tuple),
        (SourceData::Struct(SourceFields::Unit), Shape::Unit),
        (SourceData::Struct(SourceFields::Named(Vec::new())), Shape::Empty),
        (SourceData::Enum, Shape::Enum),
        (SourceData::Union, Shape::Union),
    ];
    for (data, shape) in shapes {
        let source = SourceRecord {
            name: "Foo".to_string(),
            generics: Vec::new(),
            data,
            location: spot(60),
        };
        assert_eq!(
            derive_typed_builder(&source),
            Expansion::CompileError(Diagnostic {
                kind: ErrorKind::UnsupportedShape(shape),
                location: spot(60),
                related: None,
                field: None,
            })
        );
    }
}
