//! Reading a field's attributes: which of them configures the builder, and what its entries
//! say.

use crate::diagnostics::{Diagnostic, DiagnosticView, Located, Location, Malformation};
use crate::schema::{
    ConfigEntry, ConfigEntryView, ConfigValue, ConfigValueView, DefaultSpec, DefaultSpecView,
    FieldDef, FieldDefView, SetterSpec, SetterSpecView,
};
use crate::syntax::{Expr, Path};
use crate::util::{expr_to_single_string, map_only_one, path_to_single_string, quiet_but};
use vstd::prelude::*;
use vstd::string::StringExecFns;

verus! {

/// The right-hand side of an entry.
#[derive(Debug, PartialEq, Eq)]
pub struct EntryValue {
    /// The expression as written.
    pub tokens: String,
    /// The value of the expression, where it is a string literal.
    pub string: Option<String>,
}

/// One entry of an attribute: a key, and maybe a value after an equals sign.
#[derive(Debug, PartialEq, Eq)]
pub struct Entry {
    pub key: Expr,
    pub value: Option<EntryValue>,
    pub location: Location,
}

/// One attribute on a field: the path that names it, and its entries.
#[derive(Debug, PartialEq, Eq)]
pub struct Attribute {
    pub path: Path,
    pub entries: Vec<Entry>,
    pub location: Location,
}

/// One field as written: its name, its type, and all its attributes.
#[derive(Debug, PartialEq, Eq)]
pub struct SourceField {
    pub name: String,
    pub ty: String,
    pub attrs: Vec<Attribute>,
    pub location: Location,
}

impl Located for Entry {
    open spec fn location(&self) -> Location {
        self.location
    }

    fn span(&self) -> (r: Location) {
        self.location
    }
}

impl Located for Attribute {
    open spec fn location(&self) -> Location {
        self.location
    }

    fn span(&self) -> (r: Location) {
        self.location
    }
}

impl Located for SourceField {
    open spec fn location(&self) -> Location {
        self.location
    }

    fn span(&self) -> (r: Location) {
        self.location
    }
}

impl Entry {
    /// What the entry asks for.
    ///
    /// `default` alone stands for the zero value of the field's type, and `default = e` for
    /// the expression `e`; `default_code = "c"` stands for the code `c`, which is taken as it
    /// is. `skip` asks for no setter. `setter = n` names the setter `n`, and `doc = "t"`
    /// documents it with `t`.
    pub open spec fn recognize(&self) -> Result<ConfigValueView, Malformation> {
        match self.key.single_name() {
            None => Err(Malformation::ExpectedIdentifier),
            Some(name) => if name == "default"@ {
                match self.value {
                    None => Ok(ConfigValueView::Default(DefaultSpecView::ZeroValue)),
                    Some(value) => Ok(ConfigValueView::Default(DefaultSpecView::Expr(value.tokens@))),
                }
            } else if name == "default_code"@ {
                match self.value {
                    Some(EntryValue { string: Some(code), .. }) => Ok(
                        ConfigValueView::Default(DefaultSpecView::Code(code@)),
                    ),
                    _ => Err(Malformation::ExpectedString),
                }
            } else if name == "skip"@ {
                match self.value {
                    None => Ok(ConfigValueView::Skip),
                    Some(_) => Err(Malformation::UnexpectedValue),
                }
            } else if name == "setter"@ {
                match self.value {
                    Some(value) => Ok(ConfigValueView::Setter(SetterSpecView::Rename(value.tokens@))),
                    None => Err(Malformation::ExpectedValue),
                }
            } else if name == "doc"@ {
                match self.value {
                    Some(EntryValue { string: Some(text), .. }) => Ok(
                        ConfigValueView::Setter(SetterSpecView::Document(text@)),
                    ),
                    _ => Err(Malformation::ExpectedString),
                }
            } else {
                Err(Malformation::UnknownParameter)
            },
        }
    }

    /// Reads the entry.
    pub fn apply_meta(&self) -> (r: Result<ConfigValue, Malformation>)
        ensures
            match r {
                Ok(value) => self.recognize() == Ok::<ConfigValueView, Malformation>(value@),
                Err(what) => self.recognize() == Err::<ConfigValueView, Malformation>(what),
            },
    {
        let name = match expr_to_single_string(&self.key) {
            Some(name) => name,
            None => {
                return Err(Malformation::ExpectedIdentifier);
            },
        };
        if name == String::from_str("default") {
            match &self.value {
                None => Ok(ConfigValue::Default(DefaultSpec::ZeroValue)),
                Some(value) => Ok(ConfigValue::Default(DefaultSpec::Expr(value.tokens.clone()))),
            }
        } else if name == String::from_str("default_code") {
            match &self.value {
                Some(EntryValue { string: Some(code), .. }) => Ok(
                    ConfigValue::Default(DefaultSpec::Code(code.clone())),
                ),
                _ => Err(Malformation::ExpectedString),
            }
        } else if name == String::from_str("skip") {
            match &self.value {
                None => Ok(ConfigValue::Skip),
                Some(_) => Err(Malformation::UnexpectedValue),
            }
        } else if name == String::from_str("setter") {
            match &self.value {
                Some(value) => Ok(ConfigValue::Setter(SetterSpec::Rename(value.tokens.clone()))),
                None => Err(Malformation::ExpectedValue),
            }
        } else if name == String::from_str("doc") {
            match &self.value {
                Some(EntryValue { string: Some(text), .. }) => Ok(
                    ConfigValue::Setter(SetterSpec::Document(text.clone())),
                ),
                _ => Err(Malformation::ExpectedString),
            }
        } else {
            Err(Malformation::UnknownParameter)
        }
    }
}

/// What a run of entries says: what each asks for, in order, or the diagnostic at the first
/// that cannot be read.
pub open spec fn read_entries(entries: Seq<Entry>) -> Result<Seq<ConfigEntryView>, DiagnosticView>
    decreases entries.len(),
{
    if entries.len() == 0 {
        Ok(Seq::empty())
    } else {
        match read_entries(entries.drop_last()) {
            Err(diagnostic) => Err(diagnostic),
            Ok(earlier) => match entries.last().recognize() {
                Ok(value) => Ok(
                    earlier.push(ConfigEntryView { value, location: entries.last().location }),
                ),
                Err(what) => Err(DiagnosticView::malformed(what, entries.last().location)),
            },
        }
    }
}

impl Attribute {
    /// Whether the attribute is the one that configures the builder.
    pub open spec fn is_builder(&self) -> bool {
        self.path.single_name() == Some("builder"@)
    }

    /// What the attribute says about the builder: nothing if it is another attribute, else
    /// what its entries say.
    pub open spec fn read(&self) -> Result<Option<Seq<ConfigEntryView>>, DiagnosticView> {
        if self.is_builder() {
            match read_entries(self.entries@) {
                Ok(entries) => Ok(Some(entries)),
                Err(diagnostic) => Err(diagnostic),
            }
        } else {
            Ok(None)
        }
    }

    /// Reads the entries of the attribute, if it configures the builder.
    pub fn parse(&self) -> (r: Result<Option<Vec<ConfigEntry>>, Diagnostic>)
        ensures
            match r {
                Ok(Some(entries)) => self.read() == Ok::<
                    Option<Seq<ConfigEntryView>>,
                    DiagnosticView,
                >(Some(entries@.map_values(|e: ConfigEntry| e@))),
                Ok(None) => self.read() == Ok::<Option<Seq<ConfigEntryView>>, DiagnosticView>(None),
                Err(diagnostic) => self.read() == Err::<
                    Option<Seq<ConfigEntryView>>,
                    DiagnosticView,
                >(diagnostic@),
            },
    {
        match path_to_single_string(&self.path) {
            Some(name) => {
                if !(name == String::from_str("builder")) {
                    return Ok(None);
                }
            },
            None => {
                return Ok(None);
            },
        }
        let mut entries: Vec<ConfigEntry> = Vec::new();
        let mut i: usize = 0;
        assert(self.entries@.take(0) =~= Seq::<Entry>::empty());
        assert(entries@.map_values(|e: ConfigEntry| e@) =~= Seq::<ConfigEntryView>::empty());
        while i < self.entries.len()
            invariant
                i <= self.entries.len(),
                self.is_builder(),
                read_entries(self.entries@.take(i as int)) == Ok::<
                    Seq<ConfigEntryView>,
                    DiagnosticView,
                >(entries@.map_values(|e: ConfigEntry| e@)),
            decreases self.entries.len() - i,
        {
            let entry = &self.entries[i];
            proof {
                assert(self.entries@.take(i + 1).drop_last() =~= self.entries@.take(i as int));
                assert(self.entries@.take(i + 1).last() == *entry);
            }
            match entry.apply_meta() {
                Ok(value) => {
                    let ghost earlier = entries@;
                    entries.push(ConfigEntry { value, location: entry.location });
                    assert(entries@.map_values(|e: ConfigEntry| e@) =~= earlier.map_values(
                        |e: ConfigEntry| e@,
                    ).push(ConfigEntryView { value: value@, location: entry.location }));
                },
                Err(what) => {
                    proof {
                        lemma_read_entries_fails(self.entries@, i as int + 1);
                    }
                    return Err(Diagnostic::malformed(what, entry.location));
                },
            }
            i += 1;
        }
        assert(self.entries@.take(i as int) =~= self.entries@);
        Ok(Some(entries))
    }
}

/// Once a run of entries cannot be read, no longer run can: the first failure stands.
proof fn lemma_read_entries_fails(entries: Seq<Entry>, count: int)
    requires
        0 <= count <= entries.len(),
        read_entries(entries.take(count)) is Err,
    ensures
        read_entries(entries) == read_entries(entries.take(count)),
    decreases entries.len(),
{
    if count < entries.len() {
        assert(entries.drop_last().take(count) =~= entries.take(count));
        lemma_read_entries_fails(entries.drop_last(), count);
    } else {
        assert(entries.take(count) =~= entries);
    }
}

/// The first attribute at or after `from` that configures the builder; the number of
/// attributes if there is none.
pub open spec fn next_builder(attrs: Seq<Attribute>, from: int) -> int
    decreases attrs.len() - from,
{
    if from < 0 || from >= attrs.len() {
        attrs.len() as int
    } else if attrs[from].is_builder() {
        from
    } else {
        next_builder(attrs, from + 1)
    }
}

proof fn lemma_next_builder(attrs: Seq<Attribute>, from: int, at: int)
    requires
        0 <= from <= at <= attrs.len(),
        forall|i: int| from <= i < at ==> !(#[trigger] attrs[i]).is_builder(),
        at < attrs.len() ==> attrs[at].is_builder(),
    ensures
        next_builder(attrs, from) == at,
    decreases at - from,
{
    if from < at {
        assert(!attrs[from].is_builder());
        lemma_next_builder(attrs, from + 1, at);
    }
}

impl SourceField {
    /// What the field's attributes say.
    ///
    /// A field takes at most one attribute that configures the builder. The entries of the
    /// first such attribute are the field's entries; a second one is a conflict. Whatever
    /// fails first, an entry that cannot be read or the second attribute, ends the run with
    /// a diagnostic that names the field.
    pub open spec fn read(&self) -> Result<FieldDefView, DiagnosticView> {
        let attrs = self.attrs@;
        let first = next_builder(attrs, 0);
        if first >= attrs.len() {
            Ok(self.with_entries(Seq::empty()))
        } else {
            match read_entries(attrs[first].entries@) {
                Err(diagnostic) => Err(diagnostic.about(self.name@)),
                Ok(entries) => {
                    let second = next_builder(attrs, first + 1);
                    if second >= attrs.len() {
                        Ok(self.with_entries(entries))
                    } else {
                        match read_entries(attrs[second].entries@) {
                            Err(diagnostic) => Err(diagnostic.about(self.name@)),
                            Ok(_) => Err(
                                DiagnosticView::multiple(
                                    attrs[second].location,
                                    attrs[first].location,
                                ).about(self.name@),
                            ),
                        }
                    }
                },
            }
        }
    }

    /// The field with the given entries.
    pub open spec fn with_entries(&self, entries: Seq<ConfigEntryView>) -> FieldDefView {
        FieldDefView { name: self.name@, ty: self.ty@, entries, location: self.location }
    }

    /// Reads the field's attributes.
    pub fn parse(&self) -> (r: Result<FieldDef, Diagnostic>)
        ensures
            match r {
                Ok(field) => self.read() == Ok::<FieldDefView, DiagnosticView>(field@),
                Err(diagnostic) => self.read() == Err::<FieldDefView, DiagnosticView>(diagnostic@),
            },
    {
        let dlg = |attr: &Attribute| -> (out: Result<Option<Vec<ConfigEntry>>, Diagnostic>)
            ensures
                match out {
                    Ok(Some(entries)) => attr.read() == Ok::<
                        Option<Seq<ConfigEntryView>>,
                        DiagnosticView,
                    >(Some(entries@.map_values(|e: ConfigEntry| e@))),
                    Ok(None) => attr.read() == Ok::<Option<Seq<ConfigEntryView>>, DiagnosticView>(
                        None,
                    ),
                    Err(diagnostic) => attr.read() == Err::<
                        Option<Seq<ConfigEntryView>>,
                        DiagnosticView,
                    >(diagnostic@),
                },
            { attr.parse() };
        let ghost attrs = self.attrs@;
        match map_only_one(self.attrs.as_slice(), dlg) {
            Ok(None) => {
                proof {
                    assert forall|i: int| 0 <= i < attrs.len() implies !(#[trigger] attrs[i]).is_builder() by {
                        assert(call_ensures(
                            dlg,
                            (&attrs[i],),
                            Ok::<Option<Vec<ConfigEntry>>, Diagnostic>(None),
                        ));
                    }
                    lemma_next_builder(attrs, 0, attrs.len() as int);
                }
                let field = FieldDef {
                    name: self.name.clone(),
                    ty: self.ty.clone(),
                    entries: Vec::new(),
                    location: self.location,
                };
                assert(field@.entries =~= Seq::<ConfigEntryView>::empty());
                Ok(field)
            },
            Ok(Some(entries)) => {
                proof {
                    let k = choose|k: int|
                        0 <= k < attrs.len() && call_ensures(
                            dlg,
                            (&#[trigger] attrs[k],),
                            Ok::<Option<Vec<ConfigEntry>>, Diagnostic>(Some(entries)),
                        ) && quiet_but::<Attribute, Vec<ConfigEntry>, _>(
                            attrs,
                            dlg,
                            attrs.len() as int,
                            k,
                        );
                    assert(attrs[k].is_builder());
                    assert forall|i: int| 0 <= i < attrs.len() && i != k implies !(
                    #[trigger] attrs[i]).is_builder() by {
                        assert(call_ensures(
                            dlg,
                            (&attrs[i],),
                            Ok::<Option<Vec<ConfigEntry>>, Diagnostic>(None),
                        ));
                    }
                    lemma_next_builder(attrs, 0, k);
                    lemma_next_builder(attrs, k + 1, attrs.len() as int);
                }
                Ok(
                    FieldDef {
                        name: self.name.clone(),
                        ty: self.ty.clone(),
                        entries,
                        location: self.location,
                    },
                )
            },
            Err(error) => {
                proof {
                    let (j, k) = choose|j: int, k: int|
                        -1 <= j < k < attrs.len() && #[trigger] quiet_but::<
                            Attribute,
                            Vec<ConfigEntry>,
                            _,
                        >(attrs, dlg, k, j) && (j >= 0 ==> exists|first: Vec<ConfigEntry>|
                            call_ensures(
                                dlg,
                                (&attrs[j],),
                                Ok::<Option<Vec<ConfigEntry>>, Diagnostic>(Some(first)),
                            )) && {
                            ||| call_ensures(
                                dlg,
                                (&attrs[k],),
                                Err::<Option<Vec<ConfigEntry>>, Diagnostic>(error),
                            )
                            ||| j >= 0 && error@ == DiagnosticView::multiple(
                                attrs[k].location(),
                                attrs[j].location(),
                            ) && exists|second: Vec<ConfigEntry>|
                                call_ensures(
                                    dlg,
                                    (&attrs[k],),
                                    Ok::<Option<Vec<ConfigEntry>>, Diagnostic>(Some(second)),
                                )
                        };
                    assert forall|i: int| 0 <= i < k && i != j implies !(#[trigger] attrs[i]).is_builder() by {
                        assert(call_ensures(
                            dlg,
                            (&attrs[i],),
                            Ok::<Option<Vec<ConfigEntry>>, Diagnostic>(None),
                        ));
                    }
                    assert(attrs[k].is_builder());
                    if j >= 0 {
                        assert(attrs[j].is_builder());
                        assert(read_entries(attrs[j].entries@) is Ok);
                        lemma_next_builder(attrs, 0, j);
                        lemma_next_builder(attrs, j + 1, k);
                    } else {
                        lemma_next_builder(attrs, 0, k);
                    }
                }
                Err(error.about(self.name.as_str()))
            },
        }
    }
}

} // verus!
