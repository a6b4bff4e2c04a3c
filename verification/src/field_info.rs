//! The normalized schema of one field.

use crate::diagnostics::{Diagnostic, DiagnosticView};
use crate::schema::{
    configured_default, configured_setter, configured_skip, lemma_conflict_at, ConfigEntryView,
    ConfigValue, DefaultSpec, EntryKind, FieldDef, FieldSchemaView, SetterSpec,
};
use vstd::prelude::*;

verus! {

/// One field of a record, with its configuration resolved.
///
/// A value of this type always satisfies [`FieldSchemaView::wf`].
#[derive(Debug, PartialEq, Eq)]
pub struct FieldSchema {
    name: String,
    declared_type: String,
    mandatory: bool,
    default: Option<DefaultSpec>,
    setter_override: Option<SetterSpec>,
    skip: bool,
}

impl View for FieldSchema {
    type V = FieldSchemaView;

    closed spec fn view(&self) -> FieldSchemaView {
        FieldSchemaView {
            name: self.name@,
            declared_type: self.declared_type@,
            mandatory: self.mandatory,
            default: match self.default {
                Some(spec) => Some(spec@),
                None => None,
            },
            setter_override: match self.setter_override {
                Some(spec) => Some(spec@),
                None => None,
            },
            skip: self.skip,
        }
    }
}

/// The earlier of two places that may each be absent.
fn earlier(a: Option<usize>, b: Option<usize>) -> (r: Option<usize>)
    ensures
        r is None <==> a is None && b is None,
        r matches Some(i) ==> (a == Some(i) || b == Some(i)) && (a matches Some(x) ==> i <= x) && (
        b matches Some(y) ==> i <= y),
{
    match (a, b) {
        (Some(x), Some(y)) => if x <= y {
            Some(x)
        } else {
            Some(y)
        },
        (Some(x), None) => Some(x),
        (None, b) => b,
    }
}

/// `seen` is the place of the only entry of kind `kind` among the first `k`, if there is one.
spec fn tracks(entries: Seq<ConfigEntryView>, k: int, kind: EntryKind, seen: Option<usize>) -> bool {
    &&& seen matches Some(j) ==> 0 <= j < k && entries[j as int].kind() == kind
    &&& forall|a: int| 0 <= a < k && #[trigger] entries[a].kind() == kind ==> seen == Some(a as usize)
}

proof fn lemma_configured_step(entries: Seq<ConfigEntryView>, k: int)
    requires
        0 <= k < entries.len(),
    ensures
        entries.take(k + 1).drop_last() == entries.take(k),
        entries.take(k + 1).last() == entries[k],
        configured_skip(entries.take(k + 1)) == (configured_skip(entries.take(k)) || entries[k].kind()
            == EntryKind::Skip),
{
    let longer = entries.take(k + 1);
    let shorter = entries.take(k);
    assert(longer.drop_last() =~= shorter);
    if configured_skip(shorter) {
        let i = choose|i: int| 0 <= i < shorter.len() && #[trigger] shorter[i].kind() == EntryKind::Skip;
        assert(longer[i].kind() == EntryKind::Skip);
    }
    if entries[k].kind() == EntryKind::Skip {
        assert(longer[k].kind() == EntryKind::Skip);
    }
    if configured_skip(longer) {
        let i = choose|i: int| 0 <= i < longer.len() && #[trigger] longer[i].kind() == EntryKind::Skip;
        if i < k {
            assert(shorter[i].kind() == EntryKind::Skip);
        }
    }
}

impl FieldSchema {
    #[verifier::type_invariant]
    spec fn well_formed(self) -> bool {
        self@.wf()
    }

    /// Resolves the configuration entries of a field.
    ///
    /// The entries are read in order. The first entry that cannot stand beside an earlier one
    /// ends the run with a diagnostic that names the field and points at both entries;
    /// otherwise the field's schema results.
    pub fn new(field: &FieldDef) -> (r: Result<FieldSchema, Diagnostic>)
        ensures
            match r {
                Ok(schema) => field@.normalize() == Ok::<FieldSchemaView, DiagnosticView>(schema@),
                Err(diagnostic) => field@.normalize() == Err::<FieldSchemaView, DiagnosticView>(
                    diagnostic@,
                ),
            },
            r matches Ok(schema) ==> schema@.wf(),
    {
        let ghost entries = field@.entries;
        let mut default: Option<DefaultSpec> = None;
        let mut setter_override: Option<SetterSpec> = None;
        let mut seen_default: Option<usize> = None;
        let mut seen_setter: Option<usize> = None;
        let mut seen_skip: Option<usize> = None;
        let mut k: usize = 0;
        while k < field.entries.len()
            invariant
                k <= field.entries.len(),
                entries == field@.entries,
                entries.len() == field.entries.len(),
                forall|a: int, b: int| #[trigger] field@.clash(a, b) ==> k <= b,
                tracks(entries, k as int, EntryKind::Default, seen_default),
                tracks(entries, k as int, EntryKind::Setter, seen_setter),
                tracks(entries, k as int, EntryKind::Skip, seen_skip),
                (match default {
                    Some(spec) => Some(spec@),
                    None => None,
                }) == configured_default(entries.take(k as int)),
                (match setter_override {
                    Some(spec) => Some(spec@),
                    None => None,
                }) == configured_setter(entries.take(k as int)),
                seen_skip is Some == configured_skip(entries.take(k as int)),
                seen_setter is Some == setter_override is Some,
            decreases field.entries.len() - k,
        {
            let entry = &field.entries[k];
            assert(entry@ == entries[k as int]);
            proof {
                lemma_configured_step(entries, k as int);
            }
            let partner = match &entry.value {
                ConfigValue::Default(_) => seen_default,
                ConfigValue::Setter(_) => earlier(seen_setter, seen_skip),
                ConfigValue::Skip => earlier(seen_skip, seen_setter),
            };
            match partner {
                Some(j) => {
                    proof {
                        assert(field@.clash(j as int, k as int));
                        assert forall|a: int, b: int| #[trigger] field@.clash(a, b) implies k < b || (
                        k == b && j <= a) by {}
                        lemma_conflict_at(field@, j as int, k as int);
                    }
                    let earlier_entry = &field.entries[j];
                    assert(earlier_entry@ == entries[j as int]);
                    return Err(
                        Diagnostic::multiple(entry.location, earlier_entry.location).about(
                            field.name.as_str(),
                        ),
                    );
                },
                None => {},
            }
            match &entry.value {
                ConfigValue::Default(spec) => {
                    default = Some(spec.clone());
                    seen_default = Some(k);
                },
                ConfigValue::Setter(spec) => {
                    setter_override = Some(spec.clone());
                    seen_setter = Some(k);
                },
                ConfigValue::Skip => {
                    seen_skip = Some(k);
                },
            }
            assert forall|a: int, b: int| #[trigger] field@.clash(a, b) implies k + 1 <= b by {}
            k += 1;
        }
        proof {
            assert(entries.take(k as int) =~= entries);
            assert(!field@.has_conflict());
        }
        let skip = seen_skip.is_some();
        let default = match default {
            Some(spec) => Some(spec),
            None => if skip {
                Some(DefaultSpec::ZeroValue)
            } else {
                None
            },
        };
        proof {
            if skip {
                // A custom setter beside the request for none would have been a clash.
                if configured_setter(entries) is Some {
                    assert(seen_setter is Some);
                    let a = seen_setter->0 as int;
                    let b = seen_skip->0 as int;
                    if a < b {
                        assert(field@.clash(a, b));
                    } else {
                        assert(field@.clash(b, a));
                    }
                }
            }
        }
        Ok(
            FieldSchema {
                name: field.name.clone(),
                declared_type: field.ty.clone(),
                mandatory: default.is_none(),
                default,
                setter_override,
                skip,
            },
        )
    }

    pub fn name(&self) -> (r: &String)
        ensures
            r@ == self@.name,
    {
        &self.name
    }

    pub fn declared_type(&self) -> (r: &String)
        ensures
            r@ == self@.declared_type,
    {
        &self.declared_type
    }

    /// The name under which the field's setter goes: the field's own, unless the
    /// configuration renames the setter.
    pub fn setter_name(&self) -> (r: &String)
        ensures
            r@ == self@.setter_name(),
    {
        match &self.setter_override {
            Some(SetterSpec::Rename(name)) => name,
            _ => &self.name,
        }
    }

    /// Whether the field must be set before the record can be finalized.
    pub fn is_mandatory(&self) -> (r: bool)
        ensures
            r == self@.mandatory,
            self@.wf(),
    {
        proof {
            use_type_invariant(self);
        }
        self.mandatory
    }

    /// Whether the field has no setter.
    pub fn is_skipped(&self) -> (r: bool)
        ensures
            r == self@.skip,
            self@.wf(),
    {
        proof {
            use_type_invariant(self);
        }
        self.skip
    }

    /// What stands in for the field when it was not set.
    pub fn default(&self) -> (r: Option<&DefaultSpec>)
        ensures
            match r {
                Some(spec) => self@.default == Some(spec@),
                None => self@.default is None,
            },
            self@.wf(),
    {
        proof {
            use_type_invariant(self);
        }
        self.default.as_ref()
    }

    pub fn setter_override(&self) -> (r: Option<&SetterSpec>)
        ensures
            match r {
                Some(spec) => self@.setter_override == Some(spec@),
                None => self@.setter_override is None,
            },
            self@.wf(),
    {
        proof {
            use_type_invariant(self);
        }
        self.setter_override.as_ref()
    }
}

} // verus!
