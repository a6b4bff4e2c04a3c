//! Compile-time checked builders: from the schema of a record to the definitions of a
//! type-state construction protocol.
//!
//! A record definition is normalized into a [`struct_info::StructSchema`]; from the schema the
//! builder type, the operation that starts a builder, one setter per field and the finalizer
//! are synthesized as [`definitions::BuilderDefinitions`]. Which call sequences those
//! definitions admit is stated in [`protocol`] and proved in [`laws`].

use crate::definitions::{BuilderDefinitions, BuilderDefinitionsView};
use crate::diagnostics::{Diagnostic, DiagnosticView};
use crate::schema::{RecordDef, RecordDefView};
use crate::source::SourceRecord;
use crate::struct_info::StructSchema;
use vstd::prelude::*;

pub mod builder;
pub mod builder_attr;
pub mod definitions;
pub mod diagnostics;
pub mod field_info;
pub mod laws;
pub mod protocol;
pub mod punctuated;
pub mod schema;
pub mod source;
pub mod struct_info;
pub mod syntax;
pub mod synthesis;
pub mod util;

verus! {

/// What deriving a builder for a record expands to.
#[derive(Debug, PartialEq, Eq)]
pub enum Expansion {
    /// The definitions of the builder.
    Definitions(BuilderDefinitions),
    /// A compile error in place of any definition.
    CompileError(Diagnostic),
}

pub enum ExpansionView {
    Definitions(BuilderDefinitionsView),
    CompileError(DiagnosticView),
}

impl View for Expansion {
    type V = ExpansionView;

    open spec fn view(&self) -> ExpansionView {
        match self {
            Expansion::Definitions(definitions) => ExpansionView::Definitions(definitions@),
            Expansion::CompileError(diagnostic) => ExpansionView::CompileError(diagnostic@),
        }
    }
}

/// What a record definition expands to: the definitions synthesized from its schema, or the
/// diagnostic that normalizing it ends with.
pub open spec fn expansion(input: RecordDefView) -> ExpansionView {
    match input.normalize() {
        Ok(schema) => ExpansionView::Definitions(schema.definitions()),
        Err(diagnostic) => ExpansionView::CompileError(diagnostic),
    }
}

/// Synthesizes the builder of a record.
///
/// The record is normalized first; the first failure of that ends the run, and nothing is
/// synthesized. Otherwise all definitions are synthesized from the schema.
pub fn impl_my_derive(ast: &RecordDef) -> (r: Result<BuilderDefinitions, Diagnostic>)
    ensures
        match r {
            Ok(definitions) => expansion(ast@) == ExpansionView::Definitions(definitions@),
            Err(diagnostic) => expansion(ast@) == ExpansionView::CompileError(diagnostic@),
        },
{
    match StructSchema::new(ast) {
        Ok(schema) => Ok(schema.definitions()),
        Err(diagnostic) => Err(diagnostic),
    }
}

/// What a record as written expands to: what the record definition that it stands for
/// expands to, or the diagnostic that reading its attributes ends with.
pub open spec fn derivation(input: &SourceRecord) -> ExpansionView {
    match input.read() {
        Ok(def) => expansion(def),
        Err(diagnostic) => ExpansionView::CompileError(diagnostic),
    }
}

/// Derives a builder for a record: its definitions, or a compile error at the place that
/// the diagnostic names.
pub fn derive_typed_builder(input: &SourceRecord) -> (r: Expansion)
    ensures
        r@ == derivation(input),
{
    let ast = match input.parse() {
        Ok(ast) => ast,
        Err(error) => {
            return Expansion::CompileError(error);
        },
    };
    match impl_my_derive(&ast) {
        Ok(output) => Expansion::Definitions(output),
        Err(error) => Expansion::CompileError(error),
    }
}

} // verus!
