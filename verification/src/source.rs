//! The record as written, before its attributes are read.

use crate::builder_attr::SourceField;
use crate::diagnostics::{Diagnostic, DiagnosticView, Located, Location};
use crate::schema::{
    Data, DataView, FieldDef, FieldDefView, Fields, FieldsView, GenericParam, RecordDef,
    RecordDefView,
};
use crate::struct_info::clone_generics;
use vstd::prelude::*;

verus! {

/// The field list of a product type as written.
#[derive(Debug, PartialEq, Eq)]
pub enum SourceFields {
    Named(Vec<SourceField>),
    Unnamed,
    Unit,
}

/// What kind of type is declared.
#[derive(Debug, PartialEq, Eq)]
pub enum SourceData {
    Struct(SourceFields),
    Enum,
    Union,
}

/// The record definition as written.
#[derive(Debug, PartialEq, Eq)]
pub struct SourceRecord {
    pub name: String,
    pub generics: Vec<GenericParam>,
    pub data: SourceData,
    pub location: Location,
}

impl Located for SourceRecord {
    open spec fn location(&self) -> Location {
        self.location
    }

    fn span(&self) -> (r: Location) {
        self.location
    }
}

/// What the attributes of a run of fields say: every field with its entries, in order, or
/// the diagnostic of the first field whose attributes cannot be read.
pub open spec fn read_fields(fields: Seq<SourceField>) -> Result<Seq<FieldDefView>, DiagnosticView>
    decreases fields.len(),
{
    if fields.len() == 0 {
        Ok(Seq::empty())
    } else {
        match read_fields(fields.drop_last()) {
            Err(diagnostic) => Err(diagnostic),
            Ok(earlier) => match fields.last().read() {
                Ok(field) => Ok(earlier.push(field)),
                Err(diagnostic) => Err(diagnostic),
            },
        }
    }
}

/// Once a run of fields cannot be read, no longer run can: the first failure stands.
proof fn lemma_read_fields_fails(fields: Seq<SourceField>, count: int)
    requires
        0 <= count <= fields.len(),
        read_fields(fields.take(count)) is Err,
    ensures
        read_fields(fields) == read_fields(fields.take(count)),
    decreases fields.len(),
{
    if count < fields.len() {
        assert(fields.drop_last().take(count) =~= fields.take(count));
        lemma_read_fields_fails(fields.drop_last(), count);
    } else {
        assert(fields.take(count) =~= fields);
    }
}

impl SourceRecord {
    /// What kind of type is declared, with the attributes of its named fields read.
    pub open spec fn read_data(&self) -> Result<DataView, DiagnosticView> {
        match self.data {
            SourceData::Struct(SourceFields::Named(fields)) => match read_fields(fields@) {
                Ok(fields) => Ok(DataView::Struct(FieldsView::Named(fields))),
                Err(diagnostic) => Err(diagnostic),
            },
            SourceData::Struct(SourceFields::Unnamed) => Ok(DataView::Struct(FieldsView::Unnamed)),
            SourceData::Struct(SourceFields::Unit) => Ok(DataView::Struct(FieldsView::Unit)),
            SourceData::Enum => Ok(DataView::Enum),
            SourceData::Union => Ok(DataView::Union),
        }
    }

    /// The record definition that the source stands for. Only the attributes of named
    /// fields are read; a record of any other shape passes as it is.
    pub open spec fn read(&self) -> Result<RecordDefView, DiagnosticView> {
        match self.read_data() {
            Ok(data) => Ok(
                RecordDefView {
                    name: self.name@,
                    generics: self.generics@.map_values(|g: GenericParam| g@),
                    data,
                    location: self.location,
                },
            ),
            Err(diagnostic) => Err(diagnostic),
        }
    }

    /// Reads the attributes of the record's fields, in declaration order; the first field
    /// whose attributes cannot be read ends the run.
    pub fn parse(&self) -> (r: Result<RecordDef, Diagnostic>)
        ensures
            match r {
                Ok(def) => self.read() == Ok::<RecordDefView, DiagnosticView>(def@),
                Err(diagnostic) => self.read() == Err::<RecordDefView, DiagnosticView>(diagnostic@),
            },
    {
        let data = match &self.data {
            SourceData::Struct(SourceFields::Named(named)) => {
                let mut fields: Vec<FieldDef> = Vec::new();
                let mut i: usize = 0;
                assert(named@.take(0) =~= Seq::<SourceField>::empty());
                assert(fields@.map_values(|f: FieldDef| f@) =~= Seq::<FieldDefView>::empty());
                while i < named.len()
                    invariant
                        i <= named.len(),
                        self.data == SourceData::Struct(SourceFields::Named(*named)),
                        read_fields(named@.take(i as int)) == Ok::<Seq<FieldDefView>, DiagnosticView>(
                            fields@.map_values(|f: FieldDef| f@),
                        ),
                    decreases named.len() - i,
                {
                    let source = &named[i];
                    proof {
                        assert(named@.take(i + 1).drop_last() =~= named@.take(i as int));
                        assert(named@.take(i + 1).last() == *source);
                    }
                    match source.parse() {
                        Ok(field) => {
                            let ghost earlier = fields@;
                            fields.push(field);
                            assert(fields@.map_values(|f: FieldDef| f@) =~= earlier.map_values(
                                |f: FieldDef| f@,
                            ).push(field@));
                        },
                        Err(diagnostic) => {
                            proof {
                                lemma_read_fields_fails(named@, i as int + 1);
                            }
                            return Err(diagnostic);
                        },
                    }
                    i += 1;
                }
                assert(named@.take(i as int) =~= named@);
                Data::Struct(Fields::Named(fields))
            },
            SourceData::Struct(SourceFields::Unnamed) => Data::Struct(Fields::Unnamed),
            SourceData::Struct(SourceFields::Unit) => Data::Struct(Fields::Unit),
            SourceData::Enum => Data::Enum,
            SourceData::Union => Data::Union,
        };
        Ok(
            RecordDef {
                name: self.name.clone(),
                generics: clone_generics(&self.generics),
                data,
                location: self.location,
            },
        )
    }
}

} // verus!
