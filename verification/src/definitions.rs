//! The definitions that the engine synthesizes, as data.

use crate::protocol::Marker;
use crate::schema::{DefaultSpec, DefaultSpecView, GenericParam, GenericParamView};
use crate::syntax::{is_identifier, lemma_ident_text, lemma_unit_text, tuple_text, Ident, Type};
use crate::util::{empty_type, ident_to_type};
use vstd::prelude::*;

verus! {

/// The texts of a run of strings.
pub open spec fn texts(strings: Seq<String>) -> Seq<Seq<char>> {
    strings.map_values(|s: String| s@)
}

/// What stands in the place of one field's marker where the builder type is named.
#[derive(Debug, PartialEq, Eq)]
pub enum MarkerArg {
    /// The marker of a field that is not set.
    Unset,
    /// The marker of a field that is set; it holds a value of this type.
    Assigned(String),
    /// A marker parameter: the field may be set or not.
    Param(String),
}

pub enum MarkerArgView {
    Unset,
    Assigned(Seq<char>),
    Param(Seq<char>),
}

impl View for MarkerArg {
    type V = MarkerArgView;

    open spec fn view(&self) -> MarkerArgView {
        match self {
            MarkerArg::Unset => MarkerArgView::Unset,
            MarkerArg::Assigned(ty) => MarkerArgView::Assigned(ty@),
            MarkerArg::Param(name) => MarkerArgView::Param(name@),
        }
    }
}

impl MarkerArg {
    /// The type that stands in this place: the empty tuple for a field that is not set, the
    /// tuple of the field's type for one that is, and the parameter itself where the place is
    /// left open. A parameter whose text is no name stands as it is written.
    pub fn to_type(&self) -> (r: Type)
        ensures
            match self@ {
                MarkerArgView::Unset => r.is_unit(),
                MarkerArgView::Assigned(held) => r matches Type::Tuple(elems) && texts(elems@)
                    == seq![held],
                MarkerArgView::Param(name) => if is_identifier(name) {
                    r.is_ident(name)
                } else {
                    r matches Type::Verbatim(text) && text@ == name
                },
            },
            r.text() == self@.tokens(),
            r.wf(),
    {
        match self {
            MarkerArg::Unset => {
                let ty = empty_type();
                proof {
                    lemma_unit_text(ty);
                }
                ty
            },
            MarkerArg::Assigned(held) => {
                let mut elems: Vec<String> = Vec::new();
                elems.push(held.clone());
                assert(texts(elems@) =~= seq![held@]);
                Type::Tuple(elems)
            },
            MarkerArg::Param(name) => match Ident::new(name.as_str()) {
                Some(ident) => {
                    let ty = ident_to_type(ident);
                    proof {
                        lemma_ident_text(ty, name@);
                    }
                    ty
                },
                None => Type::Verbatim(name.clone()),
            },
        }
    }
}

impl MarkerArgView {
    /// This place as it is written.
    pub open spec fn tokens(self) -> Seq<char> {
        match self {
            MarkerArgView::Unset => tuple_text(Seq::empty()),
            MarkerArgView::Assigned(held) => tuple_text(seq![held]),
            MarkerArgView::Param(name) => name,
        }
    }

    /// Whether a field in state `marker` fits this place.
    pub open spec fn admits(self, marker: Marker) -> bool {
        match self {
            MarkerArgView::Unset => marker == Marker::Unset,
            MarkerArgView::Assigned(_) => marker == Marker::Assigned,
            MarkerArgView::Param(_) => true,
        }
    }

    /// The state that this place stands for when the parameter, if it is one, stands for
    /// `marker`.
    pub open spec fn instantiate(self, marker: Marker) -> Marker {
        match self {
            MarkerArgView::Unset => Marker::Unset,
            MarkerArgView::Assigned(_) => Marker::Assigned,
            MarkerArgView::Param(_) => marker,
        }
    }
}

/// The builder type with its arguments filled in: the record's own, then one marker per
/// field.
#[derive(Debug, PartialEq, Eq)]
pub struct Instantiation {
    pub builder: String,
    pub own: Vec<String>,
    pub markers: Vec<MarkerArg>,
}

pub struct InstantiationView {
    pub builder: Seq<char>,
    pub own: Seq<Seq<char>>,
    pub markers: Seq<MarkerArgView>,
}

impl View for Instantiation {
    type V = InstantiationView;

    open spec fn view(&self) -> InstantiationView {
        InstantiationView {
            builder: self.builder@,
            own: texts(self.own@),
            markers: self.markers@.map_values(|m: MarkerArg| m@),
        }
    }
}

impl InstantiationView {
    /// The arguments of the builder type as they are written: the record's own, then the
    /// markers.
    pub open spec fn arguments(self) -> Seq<Seq<char>> {
        self.own + self.markers.map_values(|m: MarkerArgView| m.tokens())
    }

    /// Whether a builder whose fields are in the states `markers` has this type.
    pub open spec fn admits(self, markers: Seq<Marker>) -> bool {
        &&& markers.len() == self.markers.len()
        &&& forall|j: int| 0 <= j < markers.len() ==> (#[trigger] self.markers[j]).admits(markers[j])
    }

    /// The states that this type stands for when its parameters stand for `markers`.
    pub open spec fn instantiate(self, markers: Seq<Marker>) -> Seq<Marker> {
        Seq::new(self.markers.len(), |j: int| self.markers[j].instantiate(markers[j]))
    }
}

/// The storage of one field in the builder: a slot of the field's name whose type is the
/// field's marker, so that an unset field takes no room.
#[derive(Debug, PartialEq, Eq)]
pub struct SlotDef {
    pub field: String,
    pub marker: String,
}

pub struct SlotDefView {
    pub field: Seq<char>,
    pub marker: Seq<char>,
}

impl View for SlotDef {
    type V = SlotDefView;

    open spec fn view(&self) -> SlotDefView {
        SlotDefView { field: self.field@, marker: self.marker@ }
    }
}

/// The builder type: the record's own generic parameters, unchanged, then one marker
/// parameter per field; one slot that carries the record's own parameters through, and one
/// slot per field.
#[derive(Debug, PartialEq, Eq)]
pub struct BuilderTypeDef {
    pub name: String,
    pub generics: Vec<GenericParam>,
    pub markers: Vec<String>,
    /// The name of the slot that carries the record's own parameters.
    pub phantom: String,
    /// The types that the slot carries for the record's own parameters: a reference of the
    /// lifetime to the unit type for a lifetime, the parameter itself for a type parameter.
    pub carried: Vec<String>,
    pub slots: Vec<SlotDef>,
}

pub struct BuilderTypeView {
    pub name: Seq<char>,
    pub generics: Seq<GenericParamView>,
    pub markers: Seq<Seq<char>>,
    pub phantom: Seq<char>,
    pub carried: Seq<Seq<char>>,
    pub slots: Seq<SlotDefView>,
}

impl View for BuilderTypeDef {
    type V = BuilderTypeView;

    open spec fn view(&self) -> BuilderTypeView {
        BuilderTypeView {
            name: self.name@,
            generics: self.generics@.map_values(|g: GenericParam| g@),
            markers: texts(self.markers@),
            phantom: self.phantom@,
            carried: texts(self.carried@),
            slots: self.slots@.map_values(|s: SlotDef| s@),
        }
    }
}

/// The operation on the record that starts a builder with nothing set.
#[derive(Debug, PartialEq, Eq)]
pub struct EntryPointDef {
    pub record: String,
    pub generics: Vec<GenericParam>,
    pub own: Vec<String>,
    pub result: Instantiation,
}

pub struct EntryPointView {
    pub record: Seq<char>,
    pub generics: Seq<GenericParamView>,
    pub own: Seq<Seq<char>>,
    pub result: InstantiationView,
}

impl View for EntryPointDef {
    type V = EntryPointView;

    open spec fn view(&self) -> EntryPointView {
        EntryPointView {
            record: self.record@,
            generics: self.generics@.map_values(|g: GenericParam| g@),
            own: texts(self.own@),
            result: self.result@,
        }
    }
}

/// The setter of one field: defined on the builder types in which that field is unset,
/// whatever the others are, and giving the type in which it is set and the others are as
/// they were.
#[derive(Debug, PartialEq, Eq)]
pub struct SetterDef {
    /// The index of the field that is set.
    pub field: usize,
    /// The name of the operation.
    pub name: String,
    pub doc: Option<String>,
    pub generics: Vec<GenericParam>,
    /// The marker parameters that the definition is generic in: those of the other fields.
    pub markers: Vec<String>,
    /// The field's declared type.
    pub value_type: String,
    /// What the setter asks of the type of its argument: that it converts into the field's
    /// declared type.
    pub value_bound: String,
    pub receiver: Instantiation,
    pub result: Instantiation,
}

pub struct SetterView {
    pub field: int,
    pub name: Seq<char>,
    pub doc: Option<Seq<char>>,
    pub generics: Seq<GenericParamView>,
    pub markers: Seq<Seq<char>>,
    pub value_type: Seq<char>,
    pub value_bound: Seq<char>,
    pub receiver: InstantiationView,
    pub result: InstantiationView,
}

impl View for SetterDef {
    type V = SetterView;

    open spec fn view(&self) -> SetterView {
        SetterView {
            field: self.field as int,
            name: self.name@,
            doc: match self.doc {
                Some(text) => Some(text@),
                None => None,
            },
            generics: self.generics@.map_values(|g: GenericParam| g@),
            markers: texts(self.markers@),
            value_type: self.value_type@,
            value_bound: self.value_bound@,
            receiver: self.receiver@,
            result: self.result@,
        }
    }
}

/// Where the finalizer takes the value of a field from.
#[derive(Debug, PartialEq, Eq)]
pub enum InitSource {
    /// From the builder: the field is known to be set.
    Stored,
    /// From the builder if the field is set, else from this default.
    StoredOr(DefaultSpec),
    /// From this default: the field has no setter.
    Defaulted(DefaultSpec),
}

pub enum InitSourceView {
    Stored,
    StoredOr(DefaultSpecView),
    Defaulted(DefaultSpecView),
}

impl View for InitSource {
    type V = InitSourceView;

    open spec fn view(&self) -> InitSourceView {
        match self {
            InitSource::Stored => InitSourceView::Stored,
            InitSource::StoredOr(spec) => InitSourceView::StoredOr(spec@),
            InitSource::Defaulted(spec) => InitSourceView::Defaulted(spec@),
        }
    }
}

/// How the finalizer fills one field of the record.
#[derive(Debug, PartialEq, Eq)]
pub struct FieldInit {
    pub field: String,
    /// The field's declared type.
    pub ty: String,
    pub source: InitSource,
}

pub struct FieldInitView {
    pub field: Seq<char>,
    pub ty: Seq<char>,
    pub source: InitSourceView,
}

impl View for FieldInit {
    type V = FieldInitView;

    open spec fn view(&self) -> FieldInitView {
        FieldInitView { field: self.field@, ty: self.ty@, source: self.source@ }
    }
}

/// The finalizer: defined on the builder types in which every mandatory field is set, and
/// giving the record.
#[derive(Debug, PartialEq, Eq)]
pub struct FinalizerDef {
    pub record: String,
    pub generics: Vec<GenericParam>,
    pub own: Vec<String>,
    /// The marker parameters that the definition is generic in: those of the optional
    /// fields that have a setter.
    pub markers: Vec<String>,
    /// The name of the helper that reads a slot which may be empty.
    pub helper: String,
    pub receiver: Instantiation,
    pub inits: Vec<FieldInit>,
}

pub struct FinalizerView {
    pub record: Seq<char>,
    pub generics: Seq<GenericParamView>,
    pub own: Seq<Seq<char>>,
    pub markers: Seq<Seq<char>>,
    pub helper: Seq<char>,
    pub receiver: InstantiationView,
    pub inits: Seq<FieldInitView>,
}

impl View for FinalizerDef {
    type V = FinalizerView;

    open spec fn view(&self) -> FinalizerView {
        FinalizerView {
            record: self.record@,
            generics: self.generics@.map_values(|g: GenericParam| g@),
            own: texts(self.own@),
            markers: texts(self.markers@),
            helper: self.helper@,
            receiver: self.receiver@,
            inits: self.inits@.map_values(|i: FieldInit| i@),
        }
    }
}

/// Everything that is synthesized for one record.
#[derive(Debug, PartialEq, Eq)]
pub struct BuilderDefinitions {
    pub builder_type: BuilderTypeDef,
    pub entry_point: EntryPointDef,
    /// One setter per field that has one, in declaration order.
    pub setters: Vec<SetterDef>,
    pub finalizer: FinalizerDef,
}

pub struct BuilderDefinitionsView {
    pub builder_type: BuilderTypeView,
    pub entry_point: EntryPointView,
    pub setters: Seq<SetterView>,
    pub finalizer: FinalizerView,
}

impl View for BuilderDefinitions {
    type V = BuilderDefinitionsView;

    open spec fn view(&self) -> BuilderDefinitionsView {
        BuilderDefinitionsView {
            builder_type: self.builder_type@,
            entry_point: self.entry_point@,
            setters: self.setters@.map_values(|s: SetterDef| s@),
            finalizer: self.finalizer@,
        }
    }
}

} // verus!
