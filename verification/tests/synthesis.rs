use typed_builder::definitions::{
    FieldInit, InitSource, Instantiation, MarkerArg, SlotDef,
};
use typed_builder::diagnostics::Location;
use typed_builder::schema::{
    ConfigEntry, ConfigValue, Data, DefaultSpec, FieldDef, Fields, GenericKind, GenericParam,
    RecordDef, SetterSpec,
};
use typed_builder::struct_info::StructSchema;
use typed_builder::synthesis::Role;
use typed_builder::impl_my_derive;
use typed_builder::syntax::Type;

fn config(value: ConfigValue) -> ConfigEntry {
    ConfigEntry { value, location: Location { id: 1 } }
}

fn named(name: &str, ty: &str, entries: Vec<ConfigEntry>) -> FieldDef {
    FieldDef { name: name.to_string(), ty: ty.to_string(), entries, location: Location { id: 2 } }
}

fn generic(kind: GenericKind, name: &str, declaration: &str) -> GenericParam {
    GenericParam { kind, name: name.to_string(), declaration: declaration.to_string() }
}

/// `struct Foo<T: Clone, 'a, const N: usize> { x: &'a T, y: i32 = 20, hidden: u8 (skipped) }`
fn sample() -> RecordDef {
    RecordDef {
        name: "Foo".to_string(),
        generics: vec![
            generic(GenericKind::Type, "T", "T: Clone"),
            generic(GenericKind::Lifetime, "'a", "'a"),
            generic(GenericKind::Const, "N", "const N: usize"),
        ],
        data: Data::Struct(Fields::Named(vec![
            named("x", "&'a T", vec![]),
            named(
                "y",
                "i32",
                vec![
                    config(ConfigValue::Default(DefaultSpec::Expr("20".to_string()))),
                    config(ConfigValue::Setter(SetterSpec::Rename("with_y".to_string()))),
                ],
            ),
            named("hidden", "u8", vec![config(ConfigValue::Skip)]),
            named(
                "z",
                "[u8; N]",
                vec![config(ConfigValue::Setter(SetterSpec::Document("the z".to_string())))],
            ),
        ])),
        location: Location { id: 0 },
    }
}

fn marker(field: &str) -> String {
    format!("TypedBuilder_genericType_{}", field)
}

fn own() -> Vec<String> {
    vec!["'a".to_string(), "T".to_string(), "N".to_string()]
}

fn builder_with(markers: Vec<MarkerArg>) -> Instantiation {
    Instantiation { builder: "TypedBuilder_BuilderFor_Foo".to_string(), own: own(), markers }
}

#[test]
fn every_field_gets_its_marker_in_declaration_order() {
    let schema = StructSchema::new(&sample()).unwrap();
    assert_eq!(
        schema.markers(),
        vec![
            "TypedBuilder_genericType_x".to_string(),
            "TypedBuilder_genericType_y".to_string(),
            "TypedBuilder_genericType_hidden".to_string(),
            "TypedBuilder_genericType_z".to_string(),
        ]
    );
    assert_eq!(schema.markers(), schema.markers());
}

#[test]
fn the_builder_type_has_one_slot_per_field_and_the_records_generics() {
    let def = sample();
    let schema = StructSchema::new(&def).unwrap();
    let builder = schema.builder_type();
    assert_eq!(builder.name, "TypedBuilder_BuilderFor_Foo");
    assert_eq!(builder.generics, def.generics);
    assert_eq!(builder.markers, schema.markers());
    assert_eq!(builder.phantom, "_TypedBuilder__phantomGenerics_");
    assert_eq!(builder.carried, vec!["T".to_string(), "&'a ()".to_string()]);
    assert_eq!(
        builder.slots,
        vec![
            SlotDef { field: "x".to_string(), marker: marker("x") },
            SlotDef { field: "y".to_string(), marker: marker("y") },
            SlotDef { field: "hidden".to_string(), marker: marker("hidden") },
            SlotDef { field: "z".to_string(), marker: marker("z") },
        ]
    );
}

#[test]
fn starting_gives_the_builder_with_every_marker_unset() {
    let def = sample();
    let schema = StructSchema::new(&def).unwrap();
    let entry = schema.builder_creation_impl();
    assert_eq!(entry.record, "Foo");
    assert_eq!(entry.generics, def.generics);
    assert_eq!(entry.own, own());
    assert_eq!(
        entry.result,
        builder_with(vec![MarkerArg::Unset, MarkerArg::Unset, MarkerArg::Unset, MarkerArg::Unset])
    );
}

#[test]
fn a_setter_takes_the_unset_field_to_the_set_field() {
    let def = sample();
    let schema = StructSchema::new(&def).unwrap();
    let setter = schema.field_impl(1).expect("y has a setter");
    assert_eq!(setter.field, 1);
    assert_eq!(setter.name, "with_y");
    assert_eq!(setter.doc, None);
    assert_eq!(setter.generics, def.generics);
    assert_eq!(setter.value_type, "i32");
    assert_eq!(setter.value_bound, "::std::convert::Into<i32>");
    assert_eq!(setter.markers, vec![marker("x"), marker("hidden"), marker("z")]);
    assert_eq!(
        setter.receiver,
        builder_with(vec![
            MarkerArg::Param(marker("x")),
            MarkerArg::Unset,
            MarkerArg::Param(marker("hidden")),
            MarkerArg::Param(marker("z")),
        ])
    );
    assert_eq!(
        setter.result,
        builder_with(vec![
            MarkerArg::Param(marker("x")),
            MarkerArg::Assigned("i32".to_string()),
            MarkerArg::Param(marker("hidden")),
            MarkerArg::Param(marker("z")),
        ])
    );
}

#[test]
fn a_documented_setter_keeps_the_fields_name() {
    let schema = StructSchema::new(&sample()).unwrap();
    let setter = schema.field_impl(3).expect("z has a setter");
    assert_eq!(setter.name, "z");
    assert_eq!(setter.doc, Some("the z".to_string()));
    assert_eq!(setter.value_type, "[u8; N]");
}

#[test]
fn skipped_and_missing_fields_have_no_setter() {
    let schema = StructSchema::new(&sample()).unwrap();
    assert_eq!(schema.field_impl(2), None);
    assert_eq!(schema.field_impl(4), None);
    let fields: Vec<usize> = schema.setters().iter().map(|s| s.field).collect();
    assert_eq!(fields, vec![0, 1, 3]);
    assert_eq!(schema.setters()[1], schema.field_impl(1).unwrap());
}

#[test]
fn the_finalizer_wants_every_mandatory_field_set() {
    let def = sample();
    let schema = StructSchema::new(&def).unwrap();
    let finalizer = schema.build_method_impl();
    assert_eq!(finalizer.record, "Foo");
    assert_eq!(finalizer.generics, def.generics);
    assert_eq!(finalizer.own, own());
    assert_eq!(finalizer.helper, "TypedBuilder_conversionHelperTrait_Foo");
    assert_eq!(finalizer.markers, vec![marker("y")]);
    assert_eq!(
        finalizer.receiver,
        builder_with(vec![
            MarkerArg::Assigned("&'a T".to_string()),
            MarkerArg::Param(marker("y")),
            MarkerArg::Unset,
            MarkerArg::Assigned("[u8; N]".to_string()),
        ])
    );
    assert_eq!(
        finalizer.inits,
        vec![
            FieldInit { field: "x".to_string(), ty: "&'a T".to_string(), source: InitSource::Stored },
            FieldInit {
                field: "y".to_string(),
                ty: "i32".to_string(),
                source: InitSource::StoredOr(DefaultSpec::Expr("20".to_string()))
            },
            FieldInit {
                field: "hidden".to_string(),
                ty: "u8".to_string(),
                source: InitSource::Defaulted(DefaultSpec::ZeroValue)
            },
            FieldInit { field: "z".to_string(), ty: "[u8; N]".to_string(), source: InitSource::Stored },
        ]
    );
}

#[test]
fn deriving_gives_all_definitions_at_once() {
    let def = sample();
    let schema = StructSchema::new(&def).unwrap();
    let definitions = impl_my_derive(&def).unwrap();
    assert_eq!(definitions, schema.definitions());
    assert_eq!(definitions.builder_type, schema.builder_type());
    assert_eq!(definitions.entry_point, schema.builder_creation_impl());
    assert_eq!(definitions.setters, schema.setters());
    assert_eq!(definitions.finalizer, schema.build_method_impl());
    assert_eq!(schema.instantiation(Role::Finalizer), definitions.finalizer.receiver);
    assert_eq!(schema.instantiation(Role::SetterResult(0)), definitions.setters[0].result);
}

#[test]
fn the_arguments_of_the_builder_type_are_written_in_order() {
    let schema = StructSchema::new(&sample()).unwrap();
    let written = schema.generic_arguments(Role::SetterResult(1));
    assert!(!written.colon2_token);
    let items: Vec<String> = written.args.iter().cloned().collect();
    assert_eq!(
        items,
        vec![
            "'a".to_string(),
            "T".to_string(),
            "N".to_string(),
            marker("x"),
            "(i32,)".to_string(),
            marker("hidden"),
            marker("z"),
        ]
    );
    assert!(!written.args.trailing_punct());
    let start: Vec<String> = schema.generic_arguments(Role::Start).args.into_iter().collect();
    assert_eq!(start, vec!["'a", "T", "N", "()", "()", "()", "()"]);
}

#[test]
fn a_marker_stands_as_a_type() {
    assert_eq!(MarkerArg::Unset.to_type(), Type::Tuple(vec![]));
    assert_eq!(MarkerArg::Unset.to_type().tokens(), "()");
    assert_eq!(
        MarkerArg::Assigned("Vec<u8>".to_string()).to_type(),
        Type::Tuple(vec!["Vec<u8>".to_string()])
    );
    assert_eq!(MarkerArg::Assigned("Vec<u8>".to_string()).to_type().tokens(), "(Vec<u8>,)");
    assert_eq!(MarkerArg::Param("M".to_string()).to_type().tokens(), "M");
    assert!(matches!(MarkerArg::Param("M".to_string()).to_type(), Type::Path(_)));
    assert_eq!(
        MarkerArg::Param("no name".to_string()).to_type(),
        Type::Verbatim("no name".to_string())
    );
}
