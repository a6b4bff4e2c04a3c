//! The normalized schema of a record.

use crate::diagnostics::{Diagnostic, DiagnosticView, Shape};
use crate::field_info::FieldSchema;
use crate::schema::{
    lemma_failure_at, lemma_repeat_at, lemma_reserved_at, Data, FieldDef, Fields, GenericParam,
    RecordDef, StructSchemaView,
};
use crate::util::make_identifier;
use vstd::prelude::*;
use vstd::string::StringExecFns;

verus! {

/// A record with named fields, each with its configuration resolved.
///
/// A value of this type always satisfies [`StructSchemaView::wf`]: it has at least one field,
/// every field is well formed, no two fields go by the same name, and no generic parameter
/// goes by the marker of a field.
#[derive(Debug, PartialEq, Eq)]
pub struct StructSchema {
    name: String,
    generics: Vec<GenericParam>,
    fields: Vec<FieldSchema>,
}

impl View for StructSchema {
    type V = StructSchemaView;

    closed spec fn view(&self) -> StructSchemaView {
        StructSchemaView {
            name: self.name@,
            generics: self.generics@.map_values(|g: GenericParam| g@),
            fields: self.fields@.map_values(|f: FieldSchema| f@),
        }
    }
}

/// Copies a list of generic parameters.
pub fn clone_generics(generics: &Vec<GenericParam>) -> (r: Vec<GenericParam>)
    ensures
        r@.map_values(|g: GenericParam| g@) == generics@.map_values(|g: GenericParam| g@),
{
    let mut copy: Vec<GenericParam> = Vec::new();
    let mut i: usize = 0;
    while i < generics.len()
        invariant
            i <= generics.len(),
            copy@.len() == i,
            forall|j: int| 0 <= j < i ==> copy@[j]@ == generics@[j]@,
        decreases generics.len() - i,
    {
        copy.push(generics[i].clone());
        i += 1;
    }
    assert(copy@.map_values(|g: GenericParam| g@) =~= generics@.map_values(|g: GenericParam| g@));
    copy
}

impl StructSchema {
    #[verifier::type_invariant]
    spec fn well_formed(self) -> bool {
        self@.wf()
    }

    /// Normalizes a record definition.
    ///
    /// Only a product type with at least one named field is accepted; every other shape is
    /// turned away with a diagnostic at the record. The fields are resolved in declaration
    /// order, and the first one whose entries conflict ends the run with its diagnostic.
    /// Where every field resolves, the first field that goes by the name of an earlier one
    /// ends the run, and after that the first generic parameter that goes by the marker of a
    /// field.
    pub fn new(def: &RecordDef) -> (r: Result<StructSchema, Diagnostic>)
        ensures
            match r {
                Ok(schema) => def@.normalize() == Ok::<StructSchemaView, DiagnosticView>(schema@),
                Err(diagnostic) => def@.normalize() == Err::<StructSchemaView, DiagnosticView>(
                    diagnostic@,
                ),
            },
            r matches Ok(schema) ==> schema@.wf(),
    {
        match &def.data {
            Data::Struct(Fields::Named(named)) => {
                if named.len() == 0 {
                    return Err(Diagnostic::unsupported(Shape::Empty, def.location));
                }
                let ghost defs = def@.fields();
                let mut fields: Vec<FieldSchema> = Vec::new();
                let mut i: usize = 0;
                while i < named.len()
                    invariant
                        i <= named.len(),
                        defs == named@.map_values(|f: FieldDef| f@),
                        defs == def@.fields(),
                        def@.rejected_shape() is None,
                        fields@.len() == i,
                        forall|j: int| 0 <= j < i ==> !(#[trigger] defs[j]).has_conflict(),
                        forall|j: int|
                            0 <= j < i ==> (#[trigger] fields@[j])@ == defs[j].resolve() && fields@[j]@.wf(),
                    decreases named.len() - i,
                {
                    assert(named@[i as int]@ == defs[i as int]);
                    match FieldSchema::new(&named[i]) {
                        Ok(schema) => {
                            fields.push(schema);
                        },
                        Err(diagnostic) => {
                            proof {
                                assert(def@.first_failure(i as int));
                                lemma_failure_at(def@, i as int);
                            }
                            return Err(diagnostic);
                        },
                    }
                    i += 1;
                }
                assert(!def@.has_failure());
                let mut k: usize = 0;
                while k < named.len()
                    invariant
                        k <= named.len(),
                        defs == named@.map_values(|f: FieldDef| f@),
                        defs == def@.fields(),
                        def@.rejected_shape() is None,
                        !def@.has_failure(),
                        fields@.len() == named.len(),
                        forall|j: int|
                            0 <= j < fields@.len() ==> (#[trigger] fields@[j])@ == defs[j].resolve()
                                && fields@[j]@.wf(),
                        forall|a: int, b: int| #[trigger] def@.name_clash(a, b) ==> k <= b,
                    decreases named.len() - k,
                {
                    let mut j: usize = 0;
                    while j < k
                        invariant
                            j <= k < named.len(),
                            defs == named@.map_values(|f: FieldDef| f@),
                            defs == def@.fields(),
                            def@.rejected_shape() is None,
                            !def@.has_failure(),
                            forall|a: int, b: int| #[trigger] def@.name_clash(a, b) ==> k <= b,
                            forall|a: int| 0 <= a < j ==> !(#[trigger] def@.name_clash(a, k as int)),
                        decreases k - j,
                    {
                        assert(named@[j as int]@ == defs[j as int]);
                        assert(named@[k as int]@ == defs[k as int]);
                        if named[j].name == named[k].name {
                            proof {
                                assert(def@.name_clash(j as int, k as int));
                                assert(def@.first_name_clash(j as int, k as int));
                                lemma_repeat_at(def@, j as int, k as int);
                            }
                            return Err(
                                Diagnostic::repeated(named[k].location, named[j].location).about(
                                    named[k].name.as_str(),
                                ),
                            );
                        }
                        j += 1;
                    }
                    k += 1;
                }
                assert(!def@.has_repeated_name());
                let ghost params = def@.generics;
                let mut g: usize = 0;
                while g < def.generics.len()
                    invariant
                        g <= def.generics.len(),
                        params == def@.generics,
                        params.len() == def.generics.len(),
                        defs == named@.map_values(|f: FieldDef| f@),
                        defs == def@.fields(),
                        def@.rejected_shape() is None,
                        !def@.has_failure(),
                        !def@.has_repeated_name(),
                        fields@.len() == named.len(),
                        forall|j: int|
                            0 <= j < fields@.len() ==> (#[trigger] fields@[j])@ == defs[j].resolve()
                                && fields@[j]@.wf(),
                        forall|a: int, b: int| #[trigger] def@.marker_clash(a, b) ==> g <= a,
                    decreases def.generics.len() - g,
                {
                    let mut i: usize = 0;
                    while i < named.len()
                        invariant
                            i <= named.len(),
                            g < def.generics.len(),
                            params == def@.generics,
                            params.len() == def.generics.len(),
                            defs == named@.map_values(|f: FieldDef| f@),
                            defs == def@.fields(),
                            def@.rejected_shape() is None,
                            !def@.has_failure(),
                            !def@.has_repeated_name(),
                            forall|a: int, b: int| #[trigger] def@.marker_clash(a, b) ==> g <= a,
                            forall|b: int| 0 <= b < i ==> !(#[trigger] def@.marker_clash(g as int, b)),
                        decreases named.len() - i,
                    {
                        assert(named@[i as int]@ == defs[i as int]);
                        assert(def.generics@[g as int]@ == params[g as int]);
                        let marker = make_identifier("genericType", named[i].name.as_str());
                        if def.generics[g].name == marker {
                            proof {
                                assert(def@.marker_clash(g as int, i as int));
                                assert(def@.first_marker_clash(g as int, i as int));
                                lemma_reserved_at(def@, g as int, i as int);
                            }
                            return Err(
                                Diagnostic::reserved(def.location, named[i].location).about(
                                    named[i].name.as_str(),
                                ),
                            );
                        }
                        i += 1;
                    }
                    g += 1;
                }
                let generics = clone_generics(&def.generics);
                proof {
                    let resolved = fields@.map_values(|f: FieldSchema| f@);
                    assert(!def@.has_marker_clash());
                    assert forall|a: int, b: int|
                        0 <= a < params.len() && 0 <= b < resolved.len() implies (
                    #[trigger] params[a]).name != crate::util::marker_name(
                        (#[trigger] resolved[b]).name,
                    ) by {
                        assert(!def@.marker_clash(a, b));
                    }
                    assert(resolved =~= defs.map_values(|f: crate::schema::FieldDefView| f.resolve()));
                    assert forall|a: int, b: int| 0 <= a < b < resolved.len() implies (
                    #[trigger] resolved[a]).name != (#[trigger] resolved[b]).name by {
                        assert(!def@.name_clash(a, b));
                    }
                }
                Ok(StructSchema { name: def.name.clone(), generics, fields })
            },
            Data::Struct(Fields::Unnamed) => Err(Diagnostic::unsupported(Shape::Tuple, def.location)),
            Data::Struct(Fields::Unit) => Err(Diagnostic::unsupported(Shape::Unit, def.location)),
            Data::Enum => Err(Diagnostic::unsupported(Shape::Enum, def.location)),
            Data::Union => Err(Diagnostic::unsupported(Shape::Union, def.location)),
        }
    }

    /// The index of the field whose setter goes by `name`: the first such field that has a
    /// setter.
    pub fn setter_index(&self, name: &str) -> (r: Option<usize>)
        ensures
            match r {
                Some(i) => self@.setter_named(name@, i as int),
                None => forall|i: int| !self@.setter_named(name@, i),
            },
    {
        let wanted = String::from_str(name);
        let mut i: usize = 0;
        while i < self.fields.len()
            invariant
                i <= self.fields.len(),
                wanted@ == name@,
                forall|j: int|
                    0 <= j < i ==> !(!(#[trigger] self@.fields[j]).skip && self@.fields[j].setter_name()
                        == name@),
            decreases self.fields.len() - i,
        {
            let field = &self.fields[i];
            assert(field@ == self@.fields[i as int]);
            if !field.is_skipped() && *field.setter_name() == wanted {
                return Some(i);
            }
            i += 1;
        }
        None
    }

    pub fn name(&self) -> (r: &String)
        ensures
            r@ == self@.name,
    {
        &self.name
    }

    pub fn generics(&self) -> (r: &Vec<GenericParam>)
        ensures
            r@.map_values(|g: GenericParam| g@) == self@.generics,
    {
        &self.generics
    }

    /// The fields, in declaration order.
    pub fn fields(&self) -> (r: &Vec<FieldSchema>)
        ensures
            r@.map_values(|f: FieldSchema| f@) == self@.fields,
            r@.len() == self@.fields.len(),
            self@.wf(),
    {
        proof {
            use_type_invariant(self);
        }
        &self.fields
    }
}

} // verus!
