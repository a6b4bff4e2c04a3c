//! From a record's schema to the definitions of its builder.

use crate::definitions::{
    texts, BuilderDefinitions, BuilderDefinitionsView, BuilderTypeDef, BuilderTypeView,
    EntryPointDef, EntryPointView, FieldInit, FieldInitView, FinalizerDef, FinalizerView,
    InitSource, InitSourceView, Instantiation, InstantiationView, MarkerArg, MarkerArgView,
    SetterDef, SetterView, SlotDef, SlotDefView,
};
use crate::field_info::FieldSchema;
use crate::schema::{
    FieldSchemaView, GenericKind, GenericParam, GenericParamView, SetterSpec, SetterSpecView,
    StructSchemaView,
};
use crate::struct_info::{clone_generics, StructSchema};
use crate::punctuated::{punctuated_items, punctuated_push, punctuated_trailing};
use crate::util::{
    identifier, is_reserved, lemma_identifier_injective, lemma_identifier_reserved,
    make_identifier, marker_name, modify_types_generics_hack, own_arguments, type_arguments,
    AngleBracketedGenericArguments,
};
use syn::punctuated::Punctuated;
use syn::token::Comma;
use vstd::prelude::*;
use vstd::string::StringExecFns;

verus! {

/// The name of the builder type of the record called `record`.
pub open spec fn builder_name(record: Seq<char>) -> Seq<char> {
    identifier("BuilderFor"@, record)
}

/// What a setter asks of the type of its argument: that it converts into `ty`.
pub open spec fn conversion_bound(ty: Seq<char>) -> Seq<char> {
    "::std::convert::Into<"@ + ty + ">"@
}

/// What the slot that carries the record's own generic parameters holds for them, in
/// declaration order: a reference of the lifetime to the unit type for a lifetime, the
/// parameter itself for a type parameter, and nothing for a constant.
pub open spec fn carried_types(generics: Seq<GenericParamView>) -> Seq<Seq<char>>
    decreases generics.len(),
{
    if generics.len() == 0 {
        Seq::empty()
    } else {
        let rest = carried_types(generics.drop_last());
        let last = generics.last();
        match last.kind {
            GenericKind::Lifetime => rest.push("&"@ + last.name + " ()"@),
            GenericKind::Type => rest.push(last.name),
            GenericKind::Const => rest,
        }
    }
}

/// The name of the slot that carries the record's own generic parameters through the
/// builder.
pub open spec fn phantom_name() -> Seq<char> {
    "_TypedBuilder__phantomGenerics_"@
}

/// The name of the helper that reads a slot which may be empty.
pub open spec fn helper_name(record: Seq<char>) -> Seq<char> {
    identifier("conversionHelperTrait"@, record)
}

/// The names of the marker parameters among `args`, in order.
pub open spec fn params_of(args: Seq<MarkerArgView>) -> Seq<Seq<char>>
    decreases args.len(),
{
    if args.len() == 0 {
        Seq::empty()
    } else {
        let rest = params_of(args.drop_last());
        match args.last() {
            MarkerArgView::Param(name) => rest.push(name),
            _ => rest,
        }
    }
}

/// The places where the builder type is named.
#[derive(Clone, Copy, Debug, PartialEq, Eq, Structural)]
pub enum Role {
    /// What starting a builder gives.
    Start,
    /// What the setter of this field is defined on.
    SetterReceiver(usize),
    /// What the setter of this field gives.
    SetterResult(usize),
    /// What the finalizer is defined on.
    Finalizer,
}

pub enum RoleView {
    Start,
    SetterReceiver(int),
    SetterResult(int),
    Finalizer,
}

impl View for Role {
    type V = RoleView;

    open spec fn view(&self) -> RoleView {
        match self {
            Role::Start => RoleView::Start,
            Role::SetterReceiver(field) => RoleView::SetterReceiver(*field as int),
            Role::SetterResult(field) => RoleView::SetterResult(*field as int),
            Role::Finalizer => RoleView::Finalizer,
        }
    }
}

impl FieldSchemaView {
    /// The documentation of the field's setter, if the configuration gives one.
    pub open spec fn setter_doc(self) -> Option<Seq<char>> {
        match self.setter_override {
            Some(SetterSpecView::Document(text)) => Some(text),
            _ => None,
        }
    }

    /// Where the finalizer takes the field's value from.
    pub open spec fn init_source(self) -> InitSourceView {
        if self.mandatory {
            InitSourceView::Stored
        } else if self.skip {
            InitSourceView::Defaulted(self.default->0)
        } else {
            InitSourceView::StoredOr(self.default->0)
        }
    }
}

impl StructSchemaView {
    /// The marker parameters, one per field, in declaration order.
    pub open spec fn markers(self) -> Seq<Seq<char>> {
        self.fields.map_values(|f: FieldSchemaView| marker_name(f.name))
    }

    /// What stands for field `j` where the builder type is named in `role`.
    pub open spec fn marker_arg(self, role: RoleView, j: int) -> MarkerArgView {
        let field = self.fields[j];
        match role {
            RoleView::Start => MarkerArgView::Unset,
            RoleView::SetterReceiver(target) => if j == target {
                MarkerArgView::Unset
            } else {
                MarkerArgView::Param(marker_name(field.name))
            },
            RoleView::SetterResult(target) => if j == target {
                MarkerArgView::Assigned(field.declared_type)
            } else {
                MarkerArgView::Param(marker_name(field.name))
            },
            RoleView::Finalizer => if field.mandatory {
                MarkerArgView::Assigned(field.declared_type)
            } else if field.skip {
                MarkerArgView::Unset
            } else {
                MarkerArgView::Param(marker_name(field.name))
            },
        }
    }

    pub open spec fn marker_args(self, role: RoleView) -> Seq<MarkerArgView> {
        Seq::new(self.fields.len(), |j: int| self.marker_arg(role, j))
    }

    /// The builder type as it is named in `role`.
    pub open spec fn instantiation(self, role: RoleView) -> InstantiationView {
        InstantiationView {
            builder: builder_name(self.name),
            own: type_arguments(self.generics),
            markers: self.marker_args(role),
        }
    }

    pub open spec fn builder_type(self) -> BuilderTypeView {
        BuilderTypeView {
            name: builder_name(self.name),
            generics: self.generics,
            markers: self.markers(),
            phantom: phantom_name(),
            carried: carried_types(self.generics),
            slots: self.fields.map_values(
                |f: FieldSchemaView| SlotDefView { field: f.name, marker: marker_name(f.name) },
            ),
        }
    }

    pub open spec fn entry_point(self) -> EntryPointView {
        EntryPointView {
            record: self.name,
            generics: self.generics,
            own: type_arguments(self.generics),
            result: self.instantiation(RoleView::Start),
        }
    }

    /// The setter of field `i`.
    pub open spec fn setter(self, i: int) -> SetterView {
        SetterView {
            field: i,
            name: self.fields[i].setter_name(),
            doc: self.fields[i].setter_doc(),
            generics: self.generics,
            markers: params_of(self.marker_args(RoleView::SetterReceiver(i))),
            value_type: self.fields[i].declared_type,
            value_bound: conversion_bound(self.fields[i].declared_type),
            receiver: self.instantiation(RoleView::SetterReceiver(i)),
            result: self.instantiation(RoleView::SetterResult(i)),
        }
    }

    /// The setters of the first `count` fields: one for each that is not skipped.
    pub open spec fn setters_upto(self, count: int) -> Seq<SetterView>
        decreases count,
    {
        if count <= 0 {
            Seq::empty()
        } else {
            let rest = self.setters_upto(count - 1);
            if self.fields[count - 1].skip {
                rest
            } else {
                rest.push(self.setter(count - 1))
            }
        }
    }

    pub open spec fn setters(self) -> Seq<SetterView> {
        self.setters_upto(self.fields.len() as int)
    }

    pub open spec fn finalizer(self) -> FinalizerView {
        FinalizerView {
            record: self.name,
            generics: self.generics,
            own: type_arguments(self.generics),
            markers: params_of(self.marker_args(RoleView::Finalizer)),
            helper: helper_name(self.name),
            receiver: self.instantiation(RoleView::Finalizer),
            inits: self.fields.map_values(
                |f: FieldSchemaView|
                    FieldInitView { field: f.name, ty: f.declared_type, source: f.init_source() },
            ),
        }
    }

    /// Everything that is synthesized for the record.
    pub open spec fn definitions(self) -> BuilderDefinitionsView {
        BuilderDefinitionsView {
            builder_type: self.builder_type(),
            entry_point: self.entry_point(),
            setters: self.setters(),
            finalizer: self.finalizer(),
        }
    }
}

/// What the slot that carries the record's own generic parameters holds for them.
fn carried(generics: &Vec<GenericParam>) -> (r: Vec<String>)
    ensures
        texts(r@) == carried_types(generics@.map_values(|g: GenericParam| g@)),
{
    let ghost views = generics@.map_values(|g: GenericParam| g@);
    let mut types: Vec<String> = Vec::new();
    let mut i: usize = 0;
    assert(texts(types@) =~= carried_types(views.take(0)));
    while i < generics.len()
        invariant
            i <= generics.len(),
            views == generics@.map_values(|g: GenericParam| g@),
            texts(types@) == carried_types(views.take(i as int)),
        decreases generics.len() - i,
    {
        let param = &generics[i];
        proof {
            assert(views.take(i + 1).drop_last() =~= views.take(i as int));
            assert(views.take(i + 1).last() == param@);
        }
        let ghost earlier = types@;
        match param.kind {
            GenericKind::Lifetime => {
                let mut text = String::from_str("&");
                text.append(param.name.as_str());
                text.append(" ()");
                types.push(text);
                assert(texts(types@) =~= texts(earlier).push("&"@ + param.name@ + " ()"@));
            },
            GenericKind::Type => {
                types.push(param.name.clone());
                assert(texts(types@) =~= texts(earlier).push(param.name@));
            },
            GenericKind::Const => {},
        }
        i += 1;
    }
    assert(views.take(i as int) =~= views);
    types
}

/// The names of the marker parameters among `args`.
fn marker_params(args: &Vec<MarkerArg>) -> (r: Vec<String>)
    ensures
        texts(r@) == params_of(args@.map_values(|m: MarkerArg| m@)),
{
    let ghost views = args@.map_values(|m: MarkerArg| m@);
    let mut names: Vec<String> = Vec::new();
    let mut i: usize = 0;
    assert(texts(names@) =~= params_of(views.take(0)));
    while i < args.len()
        invariant
            i <= args.len(),
            views == args@.map_values(|m: MarkerArg| m@),
            texts(names@) == params_of(views.take(i as int)),
        decreases args.len() - i,
    {
        proof {
            assert(views.take(i + 1).drop_last() =~= views.take(i as int));
            assert(views.take(i + 1).last() == args@[i as int]@);
        }
        match &args[i] {
            MarkerArg::Param(name) => {
                let ghost earlier = names@;
                names.push(name.clone());
                assert(texts(names@) =~= texts(earlier).push(name@));
            },
            _ => {},
        }
        i += 1;
    }
    assert(views.take(i as int) =~= views);
    names
}

/// Appends the markers, as they are written, to a list of arguments.
fn push_markers(list: Punctuated<String, Comma>, markers: &Vec<MarkerArg>) -> (r: Punctuated<
    String,
    Comma,
>)
    ensures
        punctuated_items(r) == punctuated_items(list) + markers@.map_values(
            |m: MarkerArg| m@,
        ).map_values(|m: MarkerArgView| m.tokens()),
        punctuated_trailing(r) ==> punctuated_trailing(list),
{
    let ghost written = markers@.map_values(|m: MarkerArg| m@).map_values(
        |m: MarkerArgView| m.tokens(),
    );
    let ghost before = punctuated_items(list);
    let ghost trailing = punctuated_trailing(list);
    let mut list = list;
    let mut i: usize = 0;
    assert(punctuated_items(list) =~= before + written.take(0));
    while i < markers.len()
        invariant
            i <= markers.len(),
            written == markers@.map_values(|m: MarkerArg| m@).map_values(
                |m: MarkerArgView| m.tokens(),
            ),
            punctuated_items(list) == before + written.take(i as int),
            punctuated_trailing(list) ==> trailing,
        decreases markers.len() - i,
    {
        let text = markers[i].to_type().tokens();
        punctuated_push(&mut list, text);
        assert(punctuated_items(list) =~= before + written.take(i + 1));
        i += 1;
    }
    assert(written.take(i as int) =~= written);
    list
}

/// Fields of different names get different markers.
pub proof fn lemma_markers_distinct(schema: StructSchemaView)
    requires
        schema.distinct_field_names(),
    ensures
        schema.markers().no_duplicates(),
{
    assert forall|i: int, j: int|
        0 <= i < schema.markers().len() && 0 <= j < schema.markers().len() && i != j implies schema.markers()[i]
        != schema.markers()[j] by {
        if i < j {
            assert(schema.fields[i].name != schema.fields[j].name);
        } else {
            assert(schema.fields[j].name != schema.fields[i].name);
        }
        if marker_name(schema.fields[i].name) == marker_name(schema.fields[j].name) {
            lemma_identifier_injective(
                "genericType"@,
                schema.fields[i].name,
                schema.fields[j].name,
            );
        }
    }
}

impl StructSchema {
    /// The arguments of the builder type as it is named in `role`, as they are written: the
    /// record's own, then one marker per field.
    pub fn generic_arguments(&self, role: Role) -> (r: AngleBracketedGenericArguments)
        ensures
            !r.colon2_token,
            punctuated_items(r.args) == self@.instantiation(role@).arguments(),
            !punctuated_trailing(r.args),
    {
        let markers = self.marker_args(role);
        let mutator = |args: Punctuated<String, Comma>| -> (out: Punctuated<String, Comma>)
            ensures
                punctuated_items(out) == punctuated_items(args) + markers@.map_values(
                    |m: MarkerArg| m@,
                ).map_values(|m: MarkerArgView| m.tokens()),
                punctuated_trailing(out) ==> punctuated_trailing(args),
            { push_markers(args, &markers) };
        modify_types_generics_hack(self.generics(), mutator)
    }

    /// Assigns every field its marker parameter, in declaration order. The marker of a
    /// field depends on nothing but the field's name; no two fields get the same marker,
    /// every marker lies in the reserved namespace, and none is the name of a generic
    /// parameter of the record.
    pub fn markers(&self) -> (r: Vec<String>)
        ensures
            texts(r@) == self@.markers(),
            texts(r@).no_duplicates(),
            forall|i: int| 0 <= i < r@.len() ==> is_reserved(#[trigger] texts(r@)[i]),
            forall|i: int, g: int|
                0 <= i < r@.len() && 0 <= g < self@.generics.len() ==> (#[trigger] texts(r@)[i]) != (
                #[trigger] self@.generics[g]).name,
    {
        let fields = self.fields();
        let mut markers: Vec<String> = Vec::new();
        let mut i: usize = 0;
        while i < fields.len()
            invariant
                i <= fields.len(),
                fields@.map_values(|f: FieldSchema| f@) == self@.fields,
                markers@.len() == i,
                forall|j: int| 0 <= j < i ==> (#[trigger] markers@[j])@ == marker_name(self@.fields[j].name),
            decreases fields.len() - i,
        {
            assert(fields@[i as int]@ == self@.fields[i as int]);
            markers.push(make_identifier("genericType", fields[i].name().as_str()));
            i += 1;
        }
        assert(texts(markers@) =~= self@.markers());
        proof {
            lemma_markers_distinct(self@);
            assert forall|i: int| 0 <= i < markers@.len() implies is_reserved(
                #[trigger] texts(markers@)[i],
            ) by {
                lemma_identifier_reserved("genericType"@, self@.fields[i].name);
            }
        }
        markers
    }

    /// What stands for each field where the builder type is named in `role`.
    fn marker_args(&self, role: Role) -> (r: Vec<MarkerArg>)
        ensures
            r@.map_values(|m: MarkerArg| m@) == self@.marker_args(role@),
    {
        let fields = self.fields();
        let mut args: Vec<MarkerArg> = Vec::new();
        let mut j: usize = 0;
        while j < fields.len()
            invariant
                j <= fields.len(),
                fields@.map_values(|f: FieldSchema| f@) == self@.fields,
                args@.len() == j,
                forall|k: int| 0 <= k < j ==> (#[trigger] args@[k])@ == self@.marker_arg(role@, k),
            decreases fields.len() - j,
        {
            let field = &fields[j];
            assert(field@ == self@.fields[j as int]);
            let arg = match role {
                Role::Start => MarkerArg::Unset,
                Role::SetterReceiver(target) => if j == target {
                    MarkerArg::Unset
                } else {
                    MarkerArg::Param(make_identifier("genericType", field.name().as_str()))
                },
                Role::SetterResult(target) => if j == target {
                    MarkerArg::Assigned(field.declared_type().clone())
                } else {
                    MarkerArg::Param(make_identifier("genericType", field.name().as_str()))
                },
                Role::Finalizer => if field.is_mandatory() {
                    MarkerArg::Assigned(field.declared_type().clone())
                } else if field.is_skipped() {
                    MarkerArg::Unset
                } else {
                    MarkerArg::Param(make_identifier("genericType", field.name().as_str()))
                },
            };
            args.push(arg);
            j += 1;
        }
        assert(args@.map_values(|m: MarkerArg| m@) =~= self@.marker_args(role@));
        args
    }

    /// The builder type as it is named in `role`.
    pub fn instantiation(&self, role: Role) -> (r: Instantiation)
        ensures
            r@ == self@.instantiation(role@),
    {
        Instantiation {
            builder: make_identifier("BuilderFor", self.name().as_str()),
            own: own_arguments(self.generics()),
            markers: self.marker_args(role),
        }
    }

    /// The builder type: its storage has one slot per field, typed by the field's marker,
    /// beside the record's own generic parameters, which pass through unchanged.
    pub fn builder_type(&self) -> (r: BuilderTypeDef)
        ensures
            r@ == self@.builder_type(),
    {
        let fields = self.fields();
        let mut slots: Vec<SlotDef> = Vec::new();
        let mut i: usize = 0;
        while i < fields.len()
            invariant
                i <= fields.len(),
                fields@.map_values(|f: FieldSchema| f@) == self@.fields,
                slots@.len() == i,
                forall|j: int|
                    0 <= j < i ==> (#[trigger] slots@[j])@ == (SlotDefView {
                        field: self@.fields[j].name,
                        marker: marker_name(self@.fields[j].name),
                    }),
            decreases fields.len() - i,
        {
            assert(fields@[i as int]@ == self@.fields[i as int]);
            let name = fields[i].name();
            slots.push(
                SlotDef { field: name.clone(), marker: make_identifier("genericType", name.as_str()) },
            );
            i += 1;
        }
        let def = BuilderTypeDef {
            name: make_identifier("BuilderFor", self.name().as_str()),
            generics: clone_generics(self.generics()),
            markers: self.markers(),
            phantom: String::from_str("_TypedBuilder__phantomGenerics_"),
            carried: carried(self.generics()),
            slots,
        };
        assert(def@.slots =~= self@.builder_type().slots);
        def
    }

    /// The operation that starts a builder: it gives the builder type with every marker
    /// unset.
    pub fn builder_creation_impl(&self) -> (r: EntryPointDef)
        ensures
            r@ == self@.entry_point(),
    {
        EntryPointDef {
            record: self.name().clone(),
            generics: clone_generics(self.generics()),
            own: own_arguments(self.generics()),
            result: self.instantiation(Role::Start),
        }
    }

    /// The setter of field `field`, if the record has such a field and it is not skipped.
    pub fn field_impl(&self, field: usize) -> (r: Option<SetterDef>)
        ensures
            r is Some <==> self@.has_setter(field as int),
            r matches Some(setter) ==> setter@ == self@.setter(field as int),
    {
        let fields = self.fields();
        if field >= fields.len() {
            return None;
        }
        let schema = &fields[field];
        assert(schema@ == self@.fields[field as int]);
        if schema.is_skipped() {
            return None;
        }
        let (name, doc) = match schema.setter_override() {
            Some(SetterSpec::Rename(name)) => (name.clone(), None),
            Some(SetterSpec::Document(text)) => (schema.name().clone(), Some(text.clone())),
            None => (schema.name().clone(), None),
        };
        let receiver = self.instantiation(Role::SetterReceiver(field));
        let markers = marker_params(&receiver.markers);
        let mut value_bound = String::from_str("::std::convert::Into<");
        value_bound.append(schema.declared_type().as_str());
        value_bound.append(">");
        Some(
            SetterDef {
                field,
                name,
                doc,
                generics: clone_generics(self.generics()),
                markers,
                value_type: schema.declared_type().clone(),
                value_bound,
                receiver,
                result: self.instantiation(Role::SetterResult(field)),
            },
        )
    }

    /// The setters of all fields that have one, in declaration order.
    pub fn setters(&self) -> (r: Vec<SetterDef>)
        ensures
            r@.map_values(|s: SetterDef| s@) == self@.setters(),
    {
        let count = self.fields().len();
        let mut setters: Vec<SetterDef> = Vec::new();
        let mut i: usize = 0;
        assert(setters@.map_values(|s: SetterDef| s@) =~= self@.setters_upto(0));
        while i < count
            invariant
                i <= count,
                count == self@.fields.len(),
                setters@.map_values(|s: SetterDef| s@) == self@.setters_upto(i as int),
            decreases count - i,
        {
            match self.field_impl(i) {
                Some(setter) => {
                    let ghost earlier = setters@;
                    setters.push(setter);
                    assert(setters@.map_values(|s: SetterDef| s@) =~= earlier.map_values(
                        |s: SetterDef| s@,
                    ).push(setter@));
                },
                None => {},
            }
            i += 1;
        }
        setters
    }

    /// The finalizer: it reads every field from its slot, and falls back on the declared
    /// default where the slot may be empty.
    pub fn build_method_impl(&self) -> (r: FinalizerDef)
        ensures
            r@ == self@.finalizer(),
    {
        let fields = self.fields();
        let mut inits: Vec<FieldInit> = Vec::new();
        let mut i: usize = 0;
        while i < fields.len()
            invariant
                i <= fields.len(),
                fields@.map_values(|f: FieldSchema| f@) == self@.fields,
                self@.wf(),
                inits@.len() == i,
                forall|j: int|
                    0 <= j < i ==> (#[trigger] inits@[j])@ == (FieldInitView {
                        field: self@.fields[j].name,
                        ty: self@.fields[j].declared_type,
                        source: self@.fields[j].init_source(),
                    }),
            decreases fields.len() - i,
        {
            let field = &fields[i];
            assert(field@ == self@.fields[i as int]);
            assert(self@.fields[i as int].wf());
            let source = match field.default() {
                None => InitSource::Stored,
                Some(spec) => if field.is_skipped() {
                    InitSource::Defaulted(spec.clone())
                } else {
                    InitSource::StoredOr(spec.clone())
                },
            };
            inits.push(
                FieldInit { field: field.name().clone(), ty: field.declared_type().clone(), source },
            );
            i += 1;
        }
        let receiver = self.instantiation(Role::Finalizer);
        let markers = marker_params(&receiver.markers);
        let def = FinalizerDef {
            record: self.name().clone(),
            generics: clone_generics(self.generics()),
            own: own_arguments(self.generics()),
            markers,
            helper: make_identifier("conversionHelperTrait", self.name().as_str()),
            receiver,
            inits,
        };
        assert(def@.inits =~= self@.finalizer().inits);
        def
    }

    /// Everything that is synthesized for the record.
    pub fn definitions(&self) -> (r: BuilderDefinitions)
        ensures
            r@ == self@.definitions(),
    {
        BuilderDefinitions {
            builder_type: self.builder_type(),
            entry_point: self.builder_creation_impl(),
            setters: self.setters(),
            finalizer: self.build_method_impl(),
        }
    }
}

} // verus!
