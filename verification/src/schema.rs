//! The record definition as the front end hands it over, and what its configuration means.

use crate::diagnostics::{DiagnosticView, Location, Shape};
use crate::util::marker_name;
use vstd::prelude::*;

verus! {

/// Where the value of an omitted field comes from.
#[derive(Debug, PartialEq, Eq)]
pub enum DefaultSpec {
    /// The zero value of the field's declared type.
    ZeroValue,
    /// An expression, evaluated when the record is finalized.
    Expr(String),
    /// Code handed over as a string; it is embedded as it stands and never examined.
    Code(String),
}

pub enum DefaultSpecView {
    ZeroValue,
    Expr(Seq<char>),
    Code(Seq<char>),
}

impl View for DefaultSpec {
    type V = DefaultSpecView;

    open spec fn view(&self) -> DefaultSpecView {
        match self {
            DefaultSpec::ZeroValue => DefaultSpecView::ZeroValue,
            DefaultSpec::Expr(text) => DefaultSpecView::Expr(text@),
            DefaultSpec::Code(text) => DefaultSpecView::Code(text@),
        }
    }
}

impl Clone for DefaultSpec {
    fn clone(&self) -> (r: DefaultSpec)
        ensures
            r == *self,
    {
        match self {
            DefaultSpec::ZeroValue => DefaultSpec::ZeroValue,
            DefaultSpec::Expr(text) => DefaultSpec::Expr(text.clone()),
            DefaultSpec::Code(text) => DefaultSpec::Code(text.clone()),
        }
    }
}

/// How the setter of a field departs from the plain one.
#[derive(Debug, PartialEq, Eq)]
pub enum SetterSpec {
    /// The setter goes by this name instead of the field's.
    Rename(String),
    /// The setter carries this documentation.
    Document(String),
}

pub enum SetterSpecView {
    Rename(Seq<char>),
    Document(Seq<char>),
}

impl View for SetterSpec {
    type V = SetterSpecView;

    open spec fn view(&self) -> SetterSpecView {
        match self {
            SetterSpec::Rename(name) => SetterSpecView::Rename(name@),
            SetterSpec::Document(text) => SetterSpecView::Document(text@),
        }
    }
}

impl Clone for SetterSpec {
    fn clone(&self) -> (r: SetterSpec)
        ensures
            r == *self,
    {
        match self {
            SetterSpec::Rename(name) => SetterSpec::Rename(name.clone()),
            SetterSpec::Document(text) => SetterSpec::Document(text.clone()),
        }
    }
}

/// What one configuration entry asks for.
#[derive(Debug, PartialEq, Eq)]
pub enum ConfigValue {
    Default(DefaultSpec),
    Setter(SetterSpec),
    /// The field gets no setter.
    Skip,
}

pub enum ConfigValueView {
    Default(DefaultSpecView),
    Setter(SetterSpecView),
    Skip,
}

impl View for ConfigValue {
    type V = ConfigValueView;

    open spec fn view(&self) -> ConfigValueView {
        match self {
            ConfigValue::Default(spec) => ConfigValueView::Default(spec@),
            ConfigValue::Setter(spec) => ConfigValueView::Setter(spec@),
            ConfigValue::Skip => ConfigValueView::Skip,
        }
    }
}

/// The three kinds of entry; a field takes at most one of each.
#[derive(Clone, Copy, Debug, PartialEq, Eq, Structural)]
pub enum EntryKind {
    Default,
    Setter,
    Skip,
}

/// One configuration entry of a field, with its place in the input.
#[derive(Debug, PartialEq, Eq)]
pub struct ConfigEntry {
    pub value: ConfigValue,
    pub location: Location,
}

pub struct ConfigEntryView {
    pub value: ConfigValueView,
    pub location: Location,
}

impl View for ConfigEntry {
    type V = ConfigEntryView;

    open spec fn view(&self) -> ConfigEntryView {
        ConfigEntryView { value: self.value@, location: self.location }
    }
}

impl ConfigEntryView {
    pub open spec fn kind(self) -> EntryKind {
        match self.value {
            ConfigValueView::Default(_) => EntryKind::Default,
            ConfigValueView::Setter(_) => EntryKind::Setter,
            ConfigValueView::Skip => EntryKind::Skip,
        }
    }
}

/// Two entries of these kinds cannot stand on one field: two of the same kind, or a custom
/// setter together with the request for no setter.
pub open spec fn conflicts(a: EntryKind, b: EntryKind) -> bool {
    a == b || (a == EntryKind::Skip && b == EntryKind::Setter) || (a == EntryKind::Setter && b
        == EntryKind::Skip)
}

/// One field of the record as declared: its name, its type and its raw entries.
#[derive(Debug, PartialEq, Eq)]
pub struct FieldDef {
    pub name: String,
    pub ty: String,
    pub entries: Vec<ConfigEntry>,
    pub location: Location,
}

pub struct FieldDefView {
    pub name: Seq<char>,
    pub ty: Seq<char>,
    pub entries: Seq<ConfigEntryView>,
    pub location: Location,
}

impl View for FieldDef {
    type V = FieldDefView;

    open spec fn view(&self) -> FieldDefView {
        FieldDefView {
            name: self.name@,
            ty: self.ty@,
            entries: self.entries@.map_values(|e: ConfigEntry| e@),
            location: self.location,
        }
    }
}

/// The normalized description of one field.
pub struct FieldSchemaView {
    pub name: Seq<char>,
    pub declared_type: Seq<char>,
    pub mandatory: bool,
    pub default: Option<DefaultSpecView>,
    pub setter_override: Option<SetterSpecView>,
    pub skip: bool,
}

impl FieldSchemaView {
    /// A field is mandatory exactly when nothing can stand in for a value; a skipped field,
    /// which no caller can set, always has something to fall back on and has no custom setter.
    pub open spec fn wf(self) -> bool {
        &&& self.mandatory == !(self.default is Some || self.skip)
        &&& self.skip ==> self.default is Some
        &&& self.skip ==> self.setter_override is None
    }

    /// The name under which the field's setter goes.
    pub open spec fn setter_name(self) -> Seq<char> {
        match self.setter_override {
            Some(SetterSpecView::Rename(name)) => name,
            _ => self.name,
        }
    }
}

/// The default that a run of entries configures: that of its last default entry.
pub open spec fn configured_default(entries: Seq<ConfigEntryView>) -> Option<DefaultSpecView>
    decreases entries.len(),
{
    if entries.len() == 0 {
        None
    } else {
        match entries.last().value {
            ConfigValueView::Default(spec) => Some(spec),
            _ => configured_default(entries.drop_last()),
        }
    }
}

/// The custom setter that a run of entries configures: that of its last setter entry.
pub open spec fn configured_setter(entries: Seq<ConfigEntryView>) -> Option<SetterSpecView>
    decreases entries.len(),
{
    if entries.len() == 0 {
        None
    } else {
        match entries.last().value {
            ConfigValueView::Setter(spec) => Some(spec),
            _ => configured_setter(entries.drop_last()),
        }
    }
}

/// Whether a run of entries asks for no setter.
pub open spec fn configured_skip(entries: Seq<ConfigEntryView>) -> bool {
    exists|i: int| 0 <= i < entries.len() && #[trigger] entries[i].kind() == EntryKind::Skip
}

impl FieldDefView {
    /// Entry `k` cannot stand beside the earlier entry `j`.
    pub open spec fn clash(self, j: int, k: int) -> bool {
        0 <= j < k < self.entries.len() && conflicts(self.entries[j].kind(), self.entries[k].kind())
    }

    pub open spec fn has_conflict(self) -> bool {
        exists|j: int, k: int| self.clash(j, k)
    }

    /// `k` is the first entry that clashes with an earlier one, and `j` is the first entry
    /// that it clashes with.
    pub open spec fn first_clash(self, j: int, k: int) -> bool {
        &&& self.clash(j, k)
        &&& forall|a: int, b: int| #[trigger] self.clash(a, b) ==> k < b || (k == b && j <= a)
    }

    /// The diagnostic for the clash of the entries `j` and `k`.
    pub open spec fn clash_diagnostic(self, j: int, k: int) -> DiagnosticView {
        DiagnosticView::multiple(self.entries[k].location, self.entries[j].location).about(
            self.name,
        )
    }

    /// The diagnostic of a field whose entries conflict: that of its first clash.
    pub open spec fn conflict(self) -> DiagnosticView {
        let (j, k) = choose|j: int, k: int| self.first_clash(j, k);
        self.clash_diagnostic(j, k)
    }

    /// The schema of a field whose entries do not conflict. A skipped field without a
    /// default of its own falls back on the zero value of its type.
    pub open spec fn resolve(self) -> FieldSchemaView {
        let skip = configured_skip(self.entries);
        let default = match configured_default(self.entries) {
            Some(spec) => Some(spec),
            None => if skip {
                Some(DefaultSpecView::ZeroValue)
            } else {
                None
            },
        };
        FieldSchemaView {
            name: self.name,
            declared_type: self.ty,
            mandatory: default is None,
            default,
            setter_override: configured_setter(self.entries),
            skip,
        }
    }

    /// What normalizing the field yields: its schema, or the diagnostic of its first clash.
    pub open spec fn normalize(self) -> Result<FieldSchemaView, DiagnosticView> {
        if self.has_conflict() {
            Err(self.conflict())
        } else {
            Ok(self.resolve())
        }
    }
}

/// The three kinds of generic parameter.
#[derive(Clone, Copy, Debug, PartialEq, Eq, Structural)]
pub enum GenericKind {
    Lifetime,
    Type,
    Const,
}

/// One generic parameter of the record: its name, and its declaration as written, bounds
/// and all.
#[derive(Debug, PartialEq, Eq)]
pub struct GenericParam {
    pub kind: GenericKind,
    pub name: String,
    pub declaration: String,
}

pub struct GenericParamView {
    pub kind: GenericKind,
    pub name: Seq<char>,
    pub declaration: Seq<char>,
}

impl View for GenericParam {
    type V = GenericParamView;

    open spec fn view(&self) -> GenericParamView {
        GenericParamView { kind: self.kind, name: self.name@, declaration: self.declaration@ }
    }
}

impl Clone for GenericParam {
    fn clone(&self) -> (r: GenericParam)
        ensures
            r == *self,
    {
        GenericParam {
            kind: self.kind,
            name: self.name.clone(),
            declaration: self.declaration.clone(),
        }
    }
}

/// The field list of a product type.
#[derive(Debug, PartialEq, Eq)]
pub enum Fields {
    Named(Vec<FieldDef>),
    Unnamed,
    Unit,
}

pub enum FieldsView {
    Named(Seq<FieldDefView>),
    Unnamed,
    Unit,
}

impl View for Fields {
    type V = FieldsView;

    open spec fn view(&self) -> FieldsView {
        match self {
            Fields::Named(fields) => FieldsView::Named(fields@.map_values(|f: FieldDef| f@)),
            Fields::Unnamed => FieldsView::Unnamed,
            Fields::Unit => FieldsView::Unit,
        }
    }
}

/// What kind of type the record definition declares.
#[derive(Debug, PartialEq, Eq)]
pub enum Data {
    Struct(Fields),
    Enum,
    Union,
}

pub enum DataView {
    Struct(FieldsView),
    Enum,
    Union,
}

impl View for Data {
    type V = DataView;

    open spec fn view(&self) -> DataView {
        match self {
            Data::Struct(fields) => DataView::Struct(fields@),
            Data::Enum => DataView::Enum,
            Data::Union => DataView::Union,
        }
    }
}

/// The record definition that a builder is asked for.
#[derive(Debug, PartialEq, Eq)]
pub struct RecordDef {
    pub name: String,
    pub generics: Vec<GenericParam>,
    pub data: Data,
    pub location: Location,
}

pub struct RecordDefView {
    pub name: Seq<char>,
    pub generics: Seq<GenericParamView>,
    pub data: DataView,
    pub location: Location,
}

impl View for RecordDef {
    type V = RecordDefView;

    open spec fn view(&self) -> RecordDefView {
        RecordDefView {
            name: self.name@,
            generics: self.generics@.map_values(|g: GenericParam| g@),
            data: self.data@,
            location: self.location,
        }
    }
}

/// The normalized description of a record.
pub struct StructSchemaView {
    pub name: Seq<char>,
    pub generics: Seq<GenericParamView>,
    pub fields: Seq<FieldSchemaView>,
}

impl StructSchemaView {
    /// A schema has at least one field, every field is well formed, no two fields go by
    /// the same name, and no generic parameter goes by the marker of a field.
    pub open spec fn wf(self) -> bool {
        &&& self.fields.len() > 0
        &&& forall|i: int| 0 <= i < self.fields.len() ==> (#[trigger] self.fields[i]).wf()
        &&& self.distinct_field_names()
        &&& self.fresh_markers()
    }

    /// No generic parameter of the record goes by the marker of one of its fields.
    pub open spec fn fresh_markers(self) -> bool {
        forall|g: int, i: int|
            0 <= g < self.generics.len() && 0 <= i < self.fields.len() ==> (
            #[trigger] self.generics[g]).name != marker_name((#[trigger] self.fields[i]).name)
    }

    /// Field `i` is the first field with a setter that goes by `name`.
    pub open spec fn setter_named(self, name: Seq<char>, i: int) -> bool {
        &&& 0 <= i < self.fields.len()
        &&& !self.fields[i].skip
        &&& self.fields[i].setter_name() == name
        &&& forall|j: int|
            0 <= j < i ==> !(!(#[trigger] self.fields[j]).skip && self.fields[j].setter_name()
                == name)
    }

    /// No two fields go by the same name.
    pub open spec fn distinct_field_names(self) -> bool {
        forall|i: int, j: int|
            0 <= i < j < self.fields.len() ==> (#[trigger] self.fields[i]).name != (
            #[trigger] self.fields[j]).name
    }
}

impl RecordDefView {
    /// The shape for which the record is turned away, if it is.
    pub open spec fn rejected_shape(self) -> Option<Shape> {
        match self.data {
            DataView::Struct(FieldsView::Named(fields)) => if fields.len() == 0 {
                Some(Shape::Empty)
            } else {
                None
            },
            DataView::Struct(FieldsView::Unnamed) => Some(Shape::Tuple),
            DataView::Struct(FieldsView::Unit) => Some(Shape::Unit),
            DataView::Enum => Some(Shape::Enum),
            DataView::Union => Some(Shape::Union),
        }
    }

    /// The named fields of the record, in declaration order; none for any other shape.
    pub open spec fn fields(self) -> Seq<FieldDefView> {
        match self.data {
            DataView::Struct(FieldsView::Named(fields)) => fields,
            _ => Seq::empty(),
        }
    }

    /// Field `i` is the first whose entries conflict.
    pub open spec fn first_failure(self, i: int) -> bool {
        &&& 0 <= i < self.fields().len()
        &&& self.fields()[i].has_conflict()
        &&& forall|j: int| 0 <= j < i ==> !(#[trigger] self.fields()[j]).has_conflict()
    }

    pub open spec fn has_failure(self) -> bool {
        exists|i: int| self.first_failure(i)
    }

    /// Field `k` goes by the name of the earlier field `j`.
    pub open spec fn name_clash(self, j: int, k: int) -> bool {
        0 <= j < k < self.fields().len() && self.fields()[j].name == self.fields()[k].name
    }

    pub open spec fn has_repeated_name(self) -> bool {
        exists|j: int, k: int| self.name_clash(j, k)
    }

    /// `k` is the first field that goes by the name of an earlier one, and `j` is the first
    /// field of that name.
    pub open spec fn first_name_clash(self, j: int, k: int) -> bool {
        &&& self.name_clash(j, k)
        &&& forall|a: int, b: int| #[trigger] self.name_clash(a, b) ==> k < b || (k == b && j <= a)
    }

    /// The diagnostic for field `k` going by the name of field `j`.
    pub open spec fn repeat_diagnostic(self, j: int, k: int) -> DiagnosticView {
        DiagnosticView::repeated(self.fields()[k].location, self.fields()[j].location).about(
            self.fields()[k].name,
        )
    }

    /// The diagnostic of a record in which a name is repeated: that of the first repetition.
    pub open spec fn repeat(self) -> DiagnosticView {
        let (j, k) = choose|j: int, k: int| self.first_name_clash(j, k);
        self.repeat_diagnostic(j, k)
    }

    /// Generic parameter `g` goes by the marker of field `i`.
    pub open spec fn marker_clash(self, g: int, i: int) -> bool {
        &&& 0 <= g < self.generics.len()
        &&& 0 <= i < self.fields().len()
        &&& self.generics[g].name == marker_name(self.fields()[i].name)
    }

    pub open spec fn has_marker_clash(self) -> bool {
        exists|g: int, i: int| self.marker_clash(g, i)
    }

    /// `g` is the first generic parameter that goes by the marker of a field, and `i` is the
    /// first such field.
    pub open spec fn first_marker_clash(self, g: int, i: int) -> bool {
        &&& self.marker_clash(g, i)
        &&& forall|a: int, b: int| #[trigger] self.marker_clash(a, b) ==> g < a || (g == a && i <= b)
    }

    /// The diagnostic for a generic parameter going by the marker of field `i`.
    pub open spec fn marker_clash_diagnostic(self, i: int) -> DiagnosticView {
        DiagnosticView::reserved(self.location, self.fields()[i].location).about(
            self.fields()[i].name,
        )
    }

    /// The diagnostic of a record of which a generic parameter goes by a marker: that of the
    /// first such parameter.
    pub open spec fn reserved(self) -> DiagnosticView {
        let (g, i) = choose|g: int, i: int| self.first_marker_clash(g, i);
        self.marker_clash_diagnostic(i)
    }

    /// What normalizing the record yields. A record of another shape than named fields is
    /// turned away as a whole; otherwise the first field whose entries conflict decides; if
    /// there is none, the first field that repeats the name of an earlier one decides; if
    /// there is none, the first generic parameter that goes by the marker of a field decides;
    /// if there is none either, every field is resolved, in declaration order.
    pub open spec fn normalize(self) -> Result<StructSchemaView, DiagnosticView> {
        match self.rejected_shape() {
            Some(shape) => Err(DiagnosticView::unsupported(shape, self.location)),
            None => if self.has_failure() {
                let i = choose|i: int| self.first_failure(i);
                Err(self.fields()[i].conflict())
            } else if self.has_repeated_name() {
                Err(self.repeat())
            } else if self.has_marker_clash() {
                Err(self.reserved())
            } else {
                Ok(
                    StructSchemaView {
                        name: self.name,
                        generics: self.generics,
                        fields: self.fields().map_values(|f: FieldDefView| f.resolve()),
                    },
                )
            },
        }
    }
}

/// A record has at most one first failing field.
pub proof fn lemma_first_failure_unique(record: RecordDefView, i: int, j: int)
    requires
        record.first_failure(i),
        record.first_failure(j),
    ensures
        i == j,
{
}

/// The diagnostic of a record is that of its first failing field, wherever that is.
pub proof fn lemma_failure_at(record: RecordDefView, i: int)
    requires
        record.rejected_shape() is None,
        record.first_failure(i),
    ensures
        record.normalize() == Err::<StructSchemaView, DiagnosticView>(
            record.fields()[i].conflict(),
        ),
{
    let j = choose|j: int| record.first_failure(j);
    lemma_first_failure_unique(record, i, j);
}

/// The diagnostic of a record with a repeated name is that of its first repetition, wherever
/// that is.
pub proof fn lemma_repeat_at(record: RecordDefView, j: int, k: int)
    requires
        record.rejected_shape() is None,
        !record.has_failure(),
        record.first_name_clash(j, k),
    ensures
        record.normalize() == Err::<StructSchemaView, DiagnosticView>(
            record.repeat_diagnostic(j, k),
        ),
{
    assert(record.name_clash(j, k));
    let (a, b) = choose|a: int, b: int| record.first_name_clash(a, b);
    assert(record.name_clash(a, b));
}

/// The diagnostic of a record of which a generic parameter goes by a marker is that of the
/// first such parameter, wherever that is.
pub proof fn lemma_reserved_at(record: RecordDefView, g: int, i: int)
    requires
        record.rejected_shape() is None,
        !record.has_failure(),
        !record.has_repeated_name(),
        record.first_marker_clash(g, i),
    ensures
        record.normalize() == Err::<StructSchemaView, DiagnosticView>(
            record.marker_clash_diagnostic(i),
        ),
{
    assert(record.marker_clash(g, i));
    let (a, b) = choose|a: int, b: int| record.first_marker_clash(a, b);
    assert(record.marker_clash(a, b));
}

/// A field has at most one first clash.
pub proof fn lemma_first_clash_unique(field: FieldDefView, j1: int, k1: int, j2: int, k2: int)
    requires
        field.first_clash(j1, k1),
        field.first_clash(j2, k2),
    ensures
        j1 == j2,
        k1 == k2,
{
    assert(field.clash(j1, k1));
    assert(field.clash(j2, k2));
}

/// The diagnostic of a conflicting field is that of its first clash, wherever that is.
pub proof fn lemma_conflict_at(field: FieldDefView, j: int, k: int)
    requires
        field.first_clash(j, k),
    ensures
        field.has_conflict(),
        field.normalize() == Err::<FieldSchemaView, DiagnosticView>(field.clash_diagnostic(j, k)),
{
    assert(field.clash(j, k));
    let (a, b) = choose|a: int, b: int| field.first_clash(a, b);
    lemma_first_clash_unique(field, j, k, a, b);
}

} // verus!
