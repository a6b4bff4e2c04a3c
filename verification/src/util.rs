//! Small helpers on names, paths and types.

use crate::definitions::texts;
use crate::diagnostics::{Diagnostic, DiagnosticView, Located};
use crate::schema::{GenericKind, GenericParam, GenericParamView};
use crate::punctuated::{
    punctuated_items, punctuated_new, punctuated_push, punctuated_trailing,
};
use crate::syntax::{
    is_identifier, is_identifier_continue, Expr, Ident, Path, PathArguments, PathSegment, Type,
};
use syn::punctuated::Punctuated;
use syn::token::Comma;
use vstd::prelude::*;
use vstd::string::StringExecFns;

verus! {

/// The prefix of every name that the engine makes up. No name of the record's author is
/// expected to begin with it.
pub open spec fn reserved_prefix() -> Seq<char> {
    "TypedBuilder_"@
}

/// The made-up name of the given kind for the thing called `name`.
pub open spec fn identifier(kind: Seq<char>, name: Seq<char>) -> Seq<char> {
    reserved_prefix() + kind + "_"@ + name
}

/// The marker parameter of the field called `field`.
pub open spec fn marker_name(field: Seq<char>) -> Seq<char> {
    identifier("genericType"@, field)
}

/// Whether a name lies in the engine's own namespace.
pub open spec fn is_reserved(name: Seq<char>) -> bool {
    reserved_prefix().is_prefix_of(name)
}

/// Whether a text holds nothing but characters that can stand inside a name.
pub open spec fn is_word(text: Seq<char>) -> bool {
    forall|i: int| 0 <= i < text.len() ==> is_identifier_continue(#[trigger] text[i])
}

/// Makes up a name in the engine's own namespace: the reserved prefix, the kind of thing
/// that is named, an underscore, and the name it derives from. What is made up is a name
/// where the kind and the name it derives from hold nothing that a name cannot hold.
pub fn make_identifier(kind: &str, name: &str) -> (r: String)
    ensures
        r@ == identifier(kind@, name@),
        is_word(kind@) && is_word(name@) ==> is_identifier(r@),
{
    let mut text = String::from_str("TypedBuilder_");
    text.append(kind);
    text.append("_");
    text.append(name);
    proof {
        if is_word(kind@) && is_word(name@) {
            lemma_identifier_is_name(kind@, name@);
        }
    }
    text
}

/// A made-up name is a name where its parts hold nothing that a name cannot hold.
pub proof fn lemma_identifier_is_name(kind: Seq<char>, name: Seq<char>)
    requires
        is_word(kind),
        is_word(name),
    ensures
        is_identifier(identifier(kind, name)),
{
    reveal_strlit("TypedBuilder_");
    reveal_strlit("_");
    let prefix = reserved_prefix();
    let whole = identifier(kind, name);
    assert(is_word(prefix));
    assert(whole[0] == prefix[0]);
    assert forall|i: int| 0 < i < whole.len() implies is_identifier_continue(#[trigger] whole[i]) by {
        if i < prefix.len() {
            assert(whole[i] == prefix[i]);
        } else if i < prefix.len() + kind.len() {
            assert(whole[i] == kind[i - prefix.len()]);
        } else if i == prefix.len() + kind.len() {
            assert(whole[i] == "_"@[0]);
        } else {
            assert(whole[i] == name[i - prefix.len() - kind.len() - 1]);
        }
    }
}

/// Every made-up name lies in the reserved namespace.
pub proof fn lemma_identifier_reserved(kind: Seq<char>, name: Seq<char>)
    ensures
        is_reserved(identifier(kind, name)),
{
    let prefix = reserved_prefix();
    let whole = identifier(kind, name);
    assert(whole =~= prefix + (kind + "_"@ + name));
    assert(whole.subrange(0, prefix.len() as int) =~= prefix);
}

/// Made-up names of one kind differ where the names they derive from differ.
pub proof fn lemma_identifier_injective(kind: Seq<char>, a: Seq<char>, b: Seq<char>)
    requires
        identifier(kind, a) == identifier(kind, b),
    ensures
        a == b,
{
    let head = reserved_prefix() + kind + "_"@;
    assert(identifier(kind, a) =~= head + a);
    assert(identifier(kind, b) =~= head + b);
    assert((head + a).subrange(head.len() as int, (head + a).len() as int) =~= a);
    assert((head + b).subrange(head.len() as int, (head + b).len() as int) =~= b);
}

/// Among the first `upto` items, `dlg` answered for item `found` at most, and found nothing
/// in every other.
pub open spec fn quiet_but<S, T, F: Fn(&S) -> Result<Option<T>, Diagnostic>>(
    iter: Seq<S>,
    dlg: F,
    upto: int,
    found: int,
) -> bool {
    forall|i: int|
        0 <= i < upto && i != found ==> call_ensures(
            dlg,
            (&#[trigger] iter[i],),
            Ok::<Option<T>, Diagnostic>(None),
        )
}

/// Asks `dlg` about every item in turn and gives its one answer.
///
/// The result is `None` where `dlg` found nothing in any item, and the answer where it found
/// something in exactly one. The run ends at the first item on which `dlg` fails, with that
/// error, and at the second item in which it finds something, with a diagnostic at that
/// item which points back at the first.
pub fn map_only_one<S: Located, T, F: Fn(&S) -> Result<Option<T>, Diagnostic>>(
    iter: &[S],
    dlg: F,
) -> (r: Result<Option<T>, Diagnostic>)
    requires
        forall|i: int| 0 <= i < iter@.len() ==> call_requires(dlg, (&#[trigger] iter@[i],)),
    ensures
        match r {
            Ok(None) => quiet_but::<S, T, F>(iter@, dlg, iter@.len() as int, -1),
            Ok(Some(answer)) => exists|k: int|
                0 <= k < iter@.len() && call_ensures(
                    dlg,
                    (&#[trigger] iter@[k],),
                    Ok::<Option<T>, Diagnostic>(Some(answer)),
                ) && quiet_but::<S, T, F>(iter@, dlg, iter@.len() as int, k),
            Err(error) => exists|j: int, k: int|
                -1 <= j < k < iter@.len() && #[trigger] quiet_but::<S, T, F>(iter@, dlg, k, j) && (j
                    >= 0 ==> exists|first: T|
                    call_ensures(dlg, (&iter@[j],), Ok::<Option<T>, Diagnostic>(Some(first)))) && {
                    ||| call_ensures(dlg, (&iter@[k],), Err::<Option<T>, Diagnostic>(error))
                    ||| j >= 0 && error@ == DiagnosticView::multiple(
                        iter@[k].location(),
                        iter@[j].location(),
                    ) && exists|second: T|
                        call_ensures(dlg, (&iter@[k],), Ok::<Option<T>, Diagnostic>(Some(second)))
                },
        },
{
    let mut result: Option<T> = None;
    let mut found: Option<usize> = None;
    let mut i: usize = 0;
    while i < iter.len()
        invariant
            i <= iter.len(),
            forall|p: int| 0 <= p < iter@.len() ==> call_requires(dlg, (&#[trigger] iter@[p],)),
            found is None <==> result is None,
            found matches Some(j) ==> j < i && call_ensures(
                dlg,
                (&iter@[j as int],),
                Ok::<Option<T>, Diagnostic>(result),
            ),
            quiet_but::<S, T, F>(
                iter@,
                dlg,
                i as int,
                match found {
                    Some(j) => j as int,
                    None => -1,
                },
            ),
        decreases iter.len() - i,
    {
        let item = &iter[i];
        let ghost place = match found {
            Some(j) => j as int,
            None => -1,
        };
        proof {
            if found is Some {
                assert(call_ensures(
                    dlg,
                    (&iter@[place],),
                    Ok::<Option<T>, Diagnostic>(Some(result->0)),
                ));
            }
        }
        match dlg(item) {
            Err(error) => {
                proof {
                    assert(call_ensures(dlg, (&iter@[i as int],), Err::<Option<T>, Diagnostic>(error)));
                    assert(quiet_but::<S, T, F>(iter@, dlg, i as int, place));
                }
                return Err(error);
            },
            Ok(Some(answer)) => {
                match found {
                    Some(j) => {
                        proof {
                            assert(call_ensures(
                                dlg,
                                (&iter@[i as int],),
                                Ok::<Option<T>, Diagnostic>(Some(answer)),
                            ));
                            assert(quiet_but::<S, T, F>(iter@, dlg, i as int, j as int));
                        }
                        return Err(Diagnostic::multiple(item.span(), iter[j].span()));
                    },
                    None => {},
                }
                result = Some(answer);
                found = Some(i);
            },
            Ok(None) => {},
        }
        i += 1;
    }
    Ok(result)
}

/// The name that a path consists of, if it is one plain name. What comes back is a name:
/// it is not empty and holds no colon and no bracket.
pub fn path_to_single_string(path: &Path) -> (r: Option<String>)
    ensures
        match r {
            Some(name) => path.single_name() == Some(name@) && is_identifier(name@),
            None => path.single_name() is None,
        },
{
    if path.leading_colon {
        return None;
    }
    if path.segments.len() != 1 {
        return None;
    }
    let segment = &path.segments[0];
    match segment.arguments {
        PathArguments::Absent => Some(segment.ident.to_string()),
        _ => None,
    }
}

/// The name that an expression consists of, if it is a path of one plain name.
pub fn expr_to_single_string(expr: &Expr) -> (r: Option<String>)
    ensures
        match r {
            Some(name) => expr.single_name() == Some(name@) && is_identifier(name@),
            None => expr.single_name() is None,
        },
{
    if let Expr::Path(path) = expr {
        path_to_single_string(path)
    } else {
        None
    }
}

/// The type that is named by one plain name.
pub fn ident_to_type(ident: Ident) -> (r: Type)
    ensures
        r.is_ident(ident@),
        r.wf(),
{
    proof {
        use_type_invariant(&ident);
    }
    let mut segments: Vec<PathSegment> = Vec::new();
    segments.push(PathSegment { ident, arguments: PathArguments::Absent });
    Type::Path(Path { leading_colon: false, segments })
}

/// The tuple type without elements.
pub fn empty_type() -> (r: Type)
    ensures
        r.is_unit(),
        r.wf(),
{
    Type::Tuple(Vec::new())
}

/// The comma-separated list of one item: the item alone, with no separator after it.
pub fn make_punctuated_single(value: String) -> (list: Punctuated<String, Comma>)
    ensures
        punctuated_items(list) == seq![value@],
        !punctuated_trailing(list),
{
    let mut list = punctuated_new();
    punctuated_push(&mut list, value);
    list
}

/// The names of the lifetime parameters among `generics`, or of all the others, in order.
pub open spec fn names_of(generics: Seq<GenericParamView>, lifetimes: bool) -> Seq<Seq<char>>
    decreases generics.len(),
{
    if generics.len() == 0 {
        Seq::empty()
    } else {
        let rest = names_of(generics.drop_last(), lifetimes);
        if (generics.last().kind == GenericKind::Lifetime) == lifetimes {
            rest.push(generics.last().name)
        } else {
            rest
        }
    }
}

/// The arguments that name a type by its own parameters: the lifetimes first, then the type
/// and constant parameters, each by its name alone.
pub open spec fn type_arguments(generics: Seq<GenericParamView>) -> Seq<Seq<char>> {
    names_of(generics, true) + names_of(generics, false)
}

/// Adds to `names` those of the lifetime parameters among `generics`, or of the others.
fn push_names(names: &mut Vec<String>, generics: &Vec<GenericParam>, lifetimes: bool)
    ensures
        texts(final(names)@) == texts(old(names)@) + names_of(
            generics@.map_values(|g: GenericParam| g@),
            lifetimes,
        ),
{
    let ghost views = generics@.map_values(|g: GenericParam| g@);
    let ghost before = texts(names@);
    let mut i: usize = 0;
    assert(names_of(views.take(0), lifetimes) =~= Seq::<Seq<char>>::empty());
    assert(texts(names@) =~= before + names_of(views.take(0), lifetimes));
    while i < generics.len()
        invariant
            i <= generics.len(),
            views == generics@.map_values(|g: GenericParam| g@),
            texts(names@) == before + names_of(views.take(i as int), lifetimes),
        decreases generics.len() - i,
    {
        let param = &generics[i];
        proof {
            assert(views.take(i + 1).drop_last() =~= views.take(i as int));
            assert(views.take(i + 1).last() == param@);
        }
        let is_lifetime = match param.kind {
            GenericKind::Lifetime => true,
            _ => false,
        };
        if is_lifetime == lifetimes {
            let ghost earlier = names@;
            names.push(param.name.clone());
            assert(texts(names@) =~= texts(earlier).push(param.name@));
            assert(texts(names@) =~= before + names_of(views.take(i + 1), lifetimes));
        }
        i += 1;
    }
    assert(views.take(i as int) =~= views);
}

/// The arguments that name a type by its own parameters.
pub fn own_arguments(generics: &Vec<GenericParam>) -> (r: Vec<String>)
    ensures
        texts(r@) == type_arguments(generics@.map_values(|g: GenericParam| g@)),
{
    let mut names: Vec<String> = Vec::new();
    assert(texts(names@) =~= Seq::<Seq<char>>::empty());
    push_names(&mut names, generics, true);
    push_names(&mut names, generics, false);
    assert(texts(names@) =~= type_arguments(generics@.map_values(|g: GenericParam| g@)));
    names
}

/// Generic arguments between angle brackets.
pub struct AngleBracketedGenericArguments {
    /// Whether a double colon stands before the opening bracket.
    pub colon2_token: bool,
    pub args: Punctuated<String, Comma>,
}

/// The comma-separated list of the arguments that name a type by its own parameters.
fn own_argument_list(generics: &Vec<GenericParam>) -> (list: Punctuated<String, Comma>)
    ensures
        punctuated_items(list) == type_arguments(generics@.map_values(|g: GenericParam| g@)),
        !punctuated_trailing(list),
{
    let names = own_arguments(generics);
    let mut list = punctuated_new();
    let mut i: usize = 0;
    while i < names.len()
        invariant
            i <= names.len(),
            punctuated_items(list) == texts(names@).take(i as int),
            !punctuated_trailing(list),
        decreases names.len() - i,
    {
        punctuated_push(&mut list, names[i].clone());
        assert(punctuated_items(list) =~= texts(names@).take(i + 1));
        i += 1;
    }
    assert(texts(names@).take(i as int) =~= texts(names@));
    list
}

/// Names a type by its own generic parameters and lets `mutator` work on the arguments.
///
/// The arguments handed to `mutator` are the lifetimes, then the type and constant
/// parameters, each by its name alone, with no separator after the last; a type without
/// parameters has none. What `mutator` gives back stands between the brackets.
pub fn modify_types_generics_hack<F: FnOnce(Punctuated<String, Comma>) -> Punctuated<String, Comma>>(
    ty_generics: &Vec<GenericParam>,
    mutator: F,
) -> (r: AngleBracketedGenericArguments)
    requires
        forall|base: Punctuated<String, Comma>|
            punctuated_items(base) == type_arguments(
                ty_generics@.map_values(|g: GenericParam| g@),
            ) && !punctuated_trailing(base) ==> call_requires(mutator, (base,)),
    ensures
        !r.colon2_token,
        exists|base: Punctuated<String, Comma>|
            punctuated_items(base) == type_arguments(
                ty_generics@.map_values(|g: GenericParam| g@),
            ) && !punctuated_trailing(base) && call_ensures(mutator, (base,), r.args),
{
    let base = own_argument_list(ty_generics);
    let args = mutator(base);
    AngleBracketedGenericArguments { colon2_token: false, args }
}

} // verus!
