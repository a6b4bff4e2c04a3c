use syn::punctuated::Punctuated;
use syn::token::Comma;
use typed_builder::builder_attr::{Attribute, Entry};
use typed_builder::diagnostics::{Diagnostic, ErrorKind, Located, Location, Malformation};
use typed_builder::schema::{GenericKind, GenericParam};
use typed_builder::syntax::{Expr, Ident, Path, PathArguments, PathSegment, Type};
use typed_builder::util::{
    empty_type, expr_to_single_string, ident_to_type, make_identifier, make_punctuated_single,
    map_only_one, modify_types_generics_hack, own_arguments, path_to_single_string,
};

fn name(text: &str) -> Ident {
    Ident::new(text).expect("the text is a name")
}

fn segment(ident: &str) -> PathSegment {
    PathSegment { ident: name(ident), arguments: PathArguments::Absent }
}

fn plain(ident: &str) -> Path {
    Path { leading_colon: false, segments: vec![segment(ident)] }
}

fn attribute(name: &str, id: usize) -> Attribute {
    Attribute { path: plain(name), entries: Vec::new(), location: Location { id } }
}

fn param(kind: GenericKind, name: &str) -> GenericParam {
    GenericParam { kind, name: name.to_string(), declaration: name.to_string() }
}

fn items(list: &Punctuated<String, Comma>) -> Vec<String> {
    list.iter().cloned().collect()
}

#[test]
fn an_identifier_is_prefix_kind_and_name() {
    assert_eq!(make_identifier("genericType", "x"), "TypedBuilder_genericType_x");
    assert_eq!(make_identifier("BuilderFor", "Foo"), "TypedBuilder_BuilderFor_Foo");
    assert_eq!(make_identifier("", ""), "TypedBuilder__");
}

#[test]
fn a_name_begins_with_a_letter_and_goes_on_with_letters_and_digits() {
    for text in ["x", "_", "_x1", "Foo", "default_code", "TypedBuilder_genericType_x", "été"] {
        let ident = Ident::new(text).expect("a name");
        assert_eq!(ident.as_str(), text);
        assert_eq!(ident.to_string(), text);
        assert_eq!(ident.clone(), ident);
    }
}

#[test]
fn what_holds_punctuation_is_no_name() {
    for text in ["", "1x", "a::b", "::a", "Vec<u8>", "a b", "a-b", "r#type", "'a", "a,", "(a)"] {
        assert_eq!(Ident::new(text), None, "{:?}", text);
    }
}

#[test]
fn a_plain_path_is_its_name() {
    assert_eq!(path_to_single_string(&plain("default")), Some("default".to_string()));
}

#[test]
fn a_path_with_a_leading_colon_is_no_name() {
    let path = Path { leading_colon: true, segments: vec![segment("default")] };
    assert_eq!(path_to_single_string(&path), None);
}

#[test]
fn a_path_of_several_segments_or_none_is_no_name() {
    let path = Path { leading_colon: false, segments: vec![segment("a"), segment("b")] };
    assert_eq!(path_to_single_string(&path), None);
    let path = Path { leading_colon: false, segments: vec![] };
    assert_eq!(path_to_single_string(&path), None);
}

#[test]
fn a_path_with_arguments_is_no_name() {
    let angle = PathSegment {
        ident: name("Vec"),
        arguments: PathArguments::AngleBracketed("u8".to_string()),
    };
    let path = Path { leading_colon: false, segments: vec![angle] };
    assert_eq!(path_to_single_string(&path), None);
    let call = PathSegment {
        ident: name("Fn"),
        arguments: PathArguments::Parenthesized("u8".to_string()),
    };
    let path = Path { leading_colon: false, segments: vec![call] };
    assert_eq!(path_to_single_string(&path), None);
}

#[test]
fn only_a_path_expression_can_be_a_name() {
    assert_eq!(expr_to_single_string(&Expr::Path(plain("skip"))), Some("skip".to_string()));
    assert_eq!(expr_to_single_string(&Expr::Str("skip".to_string())), None);
    assert_eq!(expr_to_single_string(&Expr::Verbatim("1 + 1".to_string())), None);
    let long = Path { leading_colon: false, segments: vec![segment("a"), segment("b")] };
    assert_eq!(expr_to_single_string(&Expr::Path(long)), None);
}

#[test]
fn a_name_becomes_the_type_of_that_name() {
    assert_eq!(ident_to_type(name("T")), Type::Path(plain("T")));
    assert_eq!(ident_to_type(name("T")).tokens(), "T");
}

#[test]
fn the_empty_type_is_the_empty_tuple() {
    assert_eq!(empty_type(), Type::Tuple(Vec::new()));
    assert_eq!(empty_type().tokens(), "()");
}

#[test]
fn types_and_paths_are_written_as_source() {
    let path = Path {
        leading_colon: true,
        segments: vec![
            segment("std"),
            segment("vec"),
            PathSegment {
                ident: name("Vec"),
                arguments: PathArguments::AngleBracketed("u8".to_string()),
            },
        ],
    };
    assert_eq!(path.tokens(), "::std::vec::Vec<u8>");
    let call = PathSegment {
        ident: name("Fn"),
        arguments: PathArguments::Parenthesized("u8".to_string()),
    };
    assert_eq!(call.tokens(), "Fn(u8)");
    assert_eq!(Path { leading_colon: false, segments: vec![] }.tokens(), "");
    assert_eq!(Type::Path(plain("i32")).tokens(), "i32");
    assert_eq!(Type::Tuple(vec!["A".to_string(), "B".to_string()]).tokens(), "(A,B,)");
    assert_eq!(Type::Verbatim("&'a str".to_string()).tokens(), "&'a str");
}

#[test]
fn a_single_item_makes_a_list_of_one() {
    let list = make_punctuated_single("T".to_string());
    assert_eq!(list.len(), 1);
    assert!(!list.empty_or_trailing());
    assert_eq!(items(&list), vec!["T".to_string()]);
    assert!(!list.trailing_punct());
}

#[test]
fn own_arguments_put_lifetimes_first() {
    let generics = vec![
        param(GenericKind::Type, "T"),
        param(GenericKind::Lifetime, "'a"),
        param(GenericKind::Const, "N"),
        param(GenericKind::Lifetime, "'b"),
        param(GenericKind::Type, "U"),
    ];
    assert_eq!(own_arguments(&generics), vec!["'a", "'b", "T", "N", "U"]);
    assert_eq!(own_arguments(&Vec::new()), Vec::<String>::new());
}

#[test]
fn the_mutator_works_on_the_own_arguments() {
    let generics = vec![param(GenericKind::Type, "T"), param(GenericKind::Lifetime, "'a")];
    let unchanged = modify_types_generics_hack(&generics, |args| args);
    assert!(!unchanged.colon2_token);
    assert_eq!(items(&unchanged.args), vec!["'a", "T"]);
    assert!(!unchanged.args.trailing_punct());
    let extended = modify_types_generics_hack(&generics, |mut args| {
        args.insert(0, "First".to_string());
        args.push("Last".to_string());
        args
    });
    assert_eq!(items(&extended.args), vec!["First", "'a", "T", "Last"]);
}

#[test]
fn a_type_without_parameters_has_no_arguments() {
    let bare = modify_types_generics_hack(&Vec::new(), |args| args);
    assert!(bare.args.is_empty());
    let one = modify_types_generics_hack(&Vec::new(), |mut args| {
        args.push("()".to_string());
        args
    });
    assert_eq!(items(&one.args), vec!["()"]);
}

fn wanted(name: &'static str) -> impl Fn(&Attribute) -> Result<Option<usize>, Diagnostic> {
    move |attr: &Attribute| {
        if path_to_single_string(&attr.path).as_deref() == Some(name) {
            Ok(Some(attr.location.id))
        } else {
            Ok(None)
        }
    }
}

#[test]
fn no_answer_among_the_items_is_none() {
    let attrs = vec![attribute("doc", 1), attribute("serde", 2)];
    assert_eq!(map_only_one(&attrs, wanted("builder")), Ok(None));
    let nothing: Vec<Attribute> = Vec::new();
    assert_eq!(map_only_one(&nothing, wanted("builder")), Ok(None));
}

#[test]
fn one_answer_among_the_items_is_given() {
    let attrs = vec![attribute("doc", 1), attribute("builder", 2), attribute("serde", 3)];
    assert_eq!(map_only_one(&attrs, wanted("builder")), Ok(Some(2)));
}

#[test]
fn a_second_answer_is_an_error_at_the_second_item() {
    let attrs = vec![
        attribute("builder", 1),
        attribute("doc", 2),
        attribute("builder", 3),
        attribute("builder", 4),
    ];
    let error = map_only_one(&attrs, wanted("builder")).unwrap_err();
    assert_eq!(
        error,
        Diagnostic {
            kind: ErrorKind::ConflictingConfiguration,
            location: Location { id: 3 },
            related: Some(Location { id: 1 }),
            field: None,
        }
    );
    assert_eq!(error.message(), "Multiple #[builder] on the same field");
}

#[test]
fn the_first_error_of_the_delegate_ends_the_run() {
    let attrs = vec![attribute("builder", 1), attribute("broken", 2), attribute("builder", 3)];
    let result = map_only_one(&attrs, |attr: &Attribute| {
        if attr.location.id == 2 {
            Err(Diagnostic::malformed(Malformation::UnknownParameter, attr.span()))
        } else {
            Ok(Some(attr.location.id))
        }
    });
    assert_eq!(
        result,
        Err(Diagnostic {
            kind: ErrorKind::MalformedConfiguration(Malformation::UnknownParameter),
            location: Location { id: 2 },
            related: None,
            field: None,
        })
    );
}

#[test]
fn items_know_their_place() {
    let entry = Entry { key: Expr::Path(plain("skip")), value: None, location: Location { id: 8 } };
    assert_eq!(entry.span(), Location { id: 8 });
    assert_eq!(attribute("builder", 9).span(), Location { id: 9 });
}
