use typed_builder::diagnostics::{Diagnostic, ErrorKind, Location, Shape};
use typed_builder::field_info::FieldSchema;
use typed_builder::impl_my_derive;
use typed_builder::schema::{
    ConfigEntry, ConfigValue, Data, DefaultSpec, FieldDef, Fields, GenericKind, GenericParam,
    RecordDef, SetterSpec,
};
use typed_builder::struct_info::StructSchema;

fn at(id: usize) -> Location {
    Location { id }
}

fn default_entry(text: &str, id: usize) -> ConfigEntry {
    ConfigEntry { value: ConfigValue::Default(DefaultSpec::Expr(text.to_string())), location: at(id) }
}

fn setter_entry(name: &str, id: usize) -> ConfigEntry {
    ConfigEntry { value: ConfigValue::Setter(SetterSpec::Rename(name.to_string())), location: at(id) }
}

fn skip_entry(id: usize) -> ConfigEntry {
    ConfigEntry { value: ConfigValue::Skip, location: at(id) }
}

fn field_def(name: &str, entries: Vec<ConfigEntry>) -> FieldDef {
    FieldDef { name: name.to_string(), ty: "i32".to_string(), entries, location: at(100) }
}

fn record_of(data: Data) -> RecordDef {
    RecordDef { name: "Foo".to_string(), generics: Vec::new(), data, location: at(42) }
}

fn shape_error(data: Data) -> Diagnostic {
    let def = record_of(data);
    let from_schema = StructSchema::new(&def).expect_err("the shape is not supported");
    let from_derive = impl_my_derive(&def).expect_err("nothing is synthesized");
    assert_eq!(from_schema, from_derive);
    from_schema
}

fn conflict(location: usize, related: usize, field: &str) -> Diagnostic {
    Diagnostic {
        kind: ErrorKind::ConflictingConfiguration,
        location: at(location),
        related: Some(at(related)),
        field: Some(field.to_string()),
    }
}

#[test]
fn a_tuple_struct_is_rejected() {
    let error = shape_error(Data::Struct(Fields::Unnamed));
    assert_eq!(
        error,
        Diagnostic {
            kind: ErrorKind::UnsupportedShape(Shape::Tuple),
            location: at(42),
            related: None,
            field: None
        }
    );
    assert_eq!(error.message(), "SmartBuilder is not supported for tuple structs");
}

#[test]
fn a_unit_struct_is_rejected() {
    let error = shape_error(Data::Struct(Fields::Unit));
    assert_eq!(error.kind, ErrorKind::UnsupportedShape(Shape::Unit));
    assert_eq!(error.location, at(42));
    assert_eq!(error.message(), "SmartBuilder is not supported for unit structs");
}

#[test]
fn a_struct_without_fields_is_rejected() {
    let error = shape_error(Data::Struct(Fields::Named(Vec::new())));
    assert_eq!(error.kind, ErrorKind::UnsupportedShape(Shape::Empty));
    assert_eq!(error.message(), "SmartBuilder is not supported for structs without fields");
}

#[test]
fn an_enum_is_rejected() {
    let error = shape_error(Data::Enum);
    assert_eq!(error.kind, ErrorKind::UnsupportedShape(Shape::Enum));
    assert_eq!(error.message(), "SmartBuilder is not supported for enums");
}

#[test]
fn a_union_is_rejected() {
    let error = shape_error(Data::Union);
    assert_eq!(error.kind, ErrorKind::UnsupportedShape(Shape::Union));
    assert_eq!(error.message(), "SmartBuilder is not supported for unions");
}

#[test]
fn two_defaults_on_one_field_conflict() {
    let field = field_def("y", vec![default_entry("1", 5), default_entry("2", 6)]);
    let error = FieldSchema::new(&field).expect_err("two defaults");
    assert_eq!(error, conflict(6, 5, "y"));
    assert_eq!(error.message(), "Multiple #[builder] on the same field `y`");
    let def = record_of(Data::Struct(Fields::Named(vec![field_def("x", vec![]), field])));
    assert_eq!(impl_my_derive(&def), Err(conflict(6, 5, "y")));
}

#[test]
fn a_bare_default_and_a_default_expression_conflict() {
    let bare = ConfigEntry { value: ConfigValue::Default(DefaultSpec::ZeroValue), location: at(1) };
    let code = ConfigEntry {
        value: ConfigValue::Default(DefaultSpec::Code("vec![]".to_string())),
        location: at(2),
    };
    let field = field_def("w", vec![bare, skip_entry(9), code]);
    assert_eq!(FieldSchema::new(&field), Err(conflict(2, 1, "w")));
}

#[test]
fn two_setters_on_one_field_conflict() {
    let field = field_def("y", vec![setter_entry("a", 1), default_entry("0", 2), setter_entry("b", 3)]);
    assert_eq!(FieldSchema::new(&field), Err(conflict(3, 1, "y")));
}

#[test]
fn two_skips_on_one_field_conflict() {
    let field = field_def("y", vec![skip_entry(1), skip_entry(2)]);
    assert_eq!(FieldSchema::new(&field), Err(conflict(2, 1, "y")));
}

#[test]
fn skip_beside_a_custom_setter_conflicts() {
    let field = field_def("y", vec![skip_entry(1), default_entry("0", 2), setter_entry("b", 3)]);
    assert_eq!(FieldSchema::new(&field), Err(conflict(3, 1, "y")));
    let field = field_def("y", vec![setter_entry("b", 4), skip_entry(5)]);
    assert_eq!(FieldSchema::new(&field), Err(conflict(5, 4, "y")));
}

#[test]
fn the_first_clash_of_a_field_wins() {
    let field = field_def(
        "y",
        vec![
            default_entry("1", 1),
            setter_entry("a", 2),
            setter_entry("b", 3),
            default_entry("2", 4),
        ],
    );
    assert_eq!(FieldSchema::new(&field), Err(conflict(3, 2, "y")));
}

#[test]
fn the_first_failing_field_of_a_record_wins() {
    let def = record_of(Data::Struct(Fields::Named(vec![
        field_def("a", vec![default_entry("1", 1)]),
        field_def("b", vec![skip_entry(2), skip_entry(3)]),
        field_def("c", vec![default_entry("1", 4), default_entry("2", 5)]),
    ])));
    assert_eq!(StructSchema::new(&def), Err(conflict(3, 2, "b")));
}

#[test]
fn a_field_without_entries_is_mandatory() {
    let schema = FieldSchema::new(&field_def("x", vec![])).unwrap();
    assert_eq!(schema.name(), "x");
    assert_eq!(schema.declared_type(), "i32");
    assert!(schema.is_mandatory());
    assert!(!schema.is_skipped());
    assert_eq!(schema.default(), None);
    assert_eq!(schema.setter_override(), None);
    assert_eq!(schema.setter_name(), "x");
}

#[test]
fn a_field_with_a_default_is_optional() {
    let schema = FieldSchema::new(&field_def("y", vec![default_entry("20", 1)])).unwrap();
    assert!(!schema.is_mandatory());
    assert!(!schema.is_skipped());
    assert_eq!(schema.default(), Some(&DefaultSpec::Expr("20".to_string())));
}

#[test]
fn a_skipped_field_falls_back_on_the_zero_value() {
    let schema = FieldSchema::new(&field_def("y", vec![skip_entry(1)])).unwrap();
    assert!(!schema.is_mandatory());
    assert!(schema.is_skipped());
    assert_eq!(schema.default(), Some(&DefaultSpec::ZeroValue));
    let schema =
        FieldSchema::new(&field_def("y", vec![default_entry("3", 1), skip_entry(2)])).unwrap();
    assert!(schema.is_skipped());
    assert_eq!(schema.default(), Some(&DefaultSpec::Expr("3".to_string())));
}

#[test]
fn a_renamed_setter_goes_by_its_new_name() {
    let schema = FieldSchema::new(&field_def("y", vec![setter_entry("with_y", 1)])).unwrap();
    assert!(schema.is_mandatory());
    assert_eq!(schema.setter_override(), Some(&SetterSpec::Rename("with_y".to_string())));
    assert_eq!(schema.setter_name(), "with_y");
    let documented = ConfigEntry {
        value: ConfigValue::Setter(SetterSpec::Document("sets y".to_string())),
        location: at(1),
    };
    let schema = FieldSchema::new(&field_def("y", vec![documented])).unwrap();
    assert_eq!(schema.setter_name(), "y");
}

#[test]
fn the_schema_keeps_name_generics_and_field_order() {
    let generics = vec![
        GenericParam {
            kind: GenericKind::Type,
            name: "T".to_string(),
            declaration: "T: Clone".to_string(),
        },
        GenericParam {
            kind: GenericKind::Lifetime,
            name: "'a".to_string(),
            declaration: "'a".to_string(),
        },
    ];
    let def = RecordDef {
        name: "Pair".to_string(),
        generics,
        data: Data::Struct(Fields::Named(vec![
            field_def("second", vec![]),
            field_def("first", vec![default_entry("1", 1)]),
        ])),
        location: at(0),
    };
    let schema = StructSchema::new(&def).unwrap();
    assert_eq!(schema.name(), "Pair");
    assert_eq!(schema.generics(), &def.generics);
    let names: Vec<&str> = schema.fields().iter().map(|f| f.name().as_str()).collect();
    assert_eq!(names, vec!["second", "first"]);
    assert_eq!(schema.setter_index("first"), Some(1));
    assert_eq!(schema.setter_index("second"), Some(0));
}

fn repeated(location: usize, related: usize, field: &str) -> Diagnostic {
    Diagnostic {
        kind: ErrorKind::RepeatedField,
        location: at(location),
        related: Some(at(related)),
        field: Some(field.to_string()),
    }
}

fn field_at(name: &str, id: usize, entries: Vec<ConfigEntry>) -> FieldDef {
    FieldDef { name: name.to_string(), ty: "i32".to_string(), entries, location: at(id) }
}

#[test]
fn a_field_that_repeats_a_name_is_rejected() {
    let def = record_of(Data::Struct(Fields::Named(vec![
        field_at("a", 1, vec![]),
        field_at("b", 2, vec![]),
        field_at("a", 3, vec![]),
        field_at("b", 4, vec![]),
        field_at("a", 5, vec![]),
    ])));
    let error = StructSchema::new(&def).unwrap_err();
    assert_eq!(error, repeated(3, 1, "a"));
    assert_eq!(error.message(), "Duplicate field `a`");
    assert_eq!(impl_my_derive(&def), Err(repeated(3, 1, "a")));
}

#[test]
fn fields_of_different_names_are_accepted() {
    let def = record_of(Data::Struct(Fields::Named(vec![
        field_at("a", 1, vec![]),
        field_at("b", 2, vec![]),
        field_at("ab", 3, vec![]),
        field_at("A", 4, vec![]),
    ])));
    assert!(StructSchema::new(&def).is_ok());
}

#[test]
fn conflicting_entries_are_reported_before_a_repeated_name() {
    let def = record_of(Data::Struct(Fields::Named(vec![
        field_at("a", 1, vec![]),
        field_at("a", 2, vec![]),
        field_at("c", 3, vec![default_entry("1", 4), default_entry("2", 5)]),
    ])));
    assert_eq!(StructSchema::new(&def), Err(conflict(5, 4, "c")));
}

#[test]
fn a_generic_parameter_that_takes_a_marker_is_rejected() {
    let def = RecordDef {
        name: "Foo".to_string(),
        generics: vec![
            GenericParam {
                kind: GenericKind::Type,
                name: "TypedBuilder_genericType".to_string(),
                declaration: "TypedBuilder_genericType".to_string(),
            },
            GenericParam {
                kind: GenericKind::Type,
                name: "TypedBuilder_genericType_b".to_string(),
                declaration: "TypedBuilder_genericType_b".to_string(),
            },
        ],
        data: Data::Struct(Fields::Named(vec![
            field_at("a", 1, vec![]),
            field_at("b", 2, vec![]),
        ])),
        location: at(42),
    };
    let error = StructSchema::new(&def).unwrap_err();
    assert_eq!(
        error,
        Diagnostic {
            kind: ErrorKind::ReservedName,
            location: at(42),
            related: Some(at(2)),
            field: Some("b".to_string()),
        }
    );
    assert_eq!(error.message(), "Generic parameter takes the reserved name of the field `b`");
}

#[test]
fn a_generic_parameter_in_the_reserved_namespace_passes_where_it_takes_no_marker() {
    let def = RecordDef {
        name: "Foo".to_string(),
        generics: vec![GenericParam {
            kind: GenericKind::Type,
            name: "TypedBuilder_genericType_c".to_string(),
            declaration: "TypedBuilder_genericType_c".to_string(),
        }],
        data: Data::Struct(Fields::Named(vec![
            field_at("a", 1, vec![]),
            field_at("b", 2, vec![]),
        ])),
        location: at(42),
    };
    let schema = StructSchema::new(&def).unwrap();
    assert_eq!(schema.markers(), vec!["TypedBuilder_genericType_a", "TypedBuilder_genericType_b"]);
}

#[test]
fn a_repeated_name_is_reported_before_a_taken_marker() {
    let def = RecordDef {
        name: "Foo".to_string(),
        generics: vec![GenericParam {
            kind: GenericKind::Type,
            name: "TypedBuilder_genericType_a".to_string(),
            declaration: "TypedBuilder_genericType_a".to_string(),
        }],
        data: Data::Struct(Fields::Named(vec![
            field_at("a", 1, vec![]),
            field_at("a", 2, vec![]),
        ])),
        location: at(42),
    };
    assert_eq!(StructSchema::new(&def), Err(repeated(2, 1, "a")));
}
