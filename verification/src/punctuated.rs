//! Comma-separated lists of source text, kept in the punctuated sequence of `syn`.

use syn::punctuated::Punctuated;
use syn::token::Comma;
use vstd::prelude::*;

verus! {

/// The punctuated sequence of `syn`, `syn::punctuated::Punctuated`; nothing of its inside is
/// known here.
#[verifier::external_type_specification]
#[verifier::external_body]
#[verifier::reject_recursive_types(T)]
#[verifier::reject_recursive_types(P)]
pub struct ExPunctuated<T, P>(syn::punctuated::Punctuated<T, P>);

/// The comma token of `syn`, `syn::token::Comma`.
#[verifier::external_type_specification]
#[verifier::external_body]
pub struct ExComma(syn::token::Comma);

/// The items of a comma-separated list of strings, in order, each by its text. The
/// separators between them are no part of it.
pub uninterp spec fn punctuated_items(list: Punctuated<String, Comma>) -> Seq<Seq<char>>;

/// Whether a comma-separated list ends in a separator, as `Punctuated::trailing_punct` tells
/// it: a list without items does not.
pub uninterp spec fn punctuated_trailing(list: Punctuated<String, Comma>) -> bool;

/// Calls `syn::punctuated::Punctuated::new`, which creates an empty punctuated sequence: the
/// list that comes back holds no item and ends in no separator.
#[verifier::external_body]
pub(crate) fn punctuated_new() -> (list: Punctuated<String, Comma>)
    ensures
        punctuated_items(list) == Seq::<Seq<char>>::empty(),
        !punctuated_trailing(list),
{
    Punctuated::new()
}

/// Calls `syn::punctuated::Punctuated::push`, which appends a value to the end of the
/// sequence and first supplies a default separator where the sequence does not end in one:
/// the items are those from before, followed by `value`, and the list then ends in that
/// value, not in a separator.
#[verifier::external_body]
pub(crate) fn punctuated_push(list: &mut Punctuated<String, Comma>, value: String)
    ensures
        punctuated_items(*final(list)) == punctuated_items(*old(list)).push(value@),
        !punctuated_trailing(*final(list)),
{
    list.push(value)
}

} // verus!
