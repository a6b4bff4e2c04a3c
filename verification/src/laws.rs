//! What holds of the engine, for every record: of the construction protocol and every
//! sequence of calls, of the synthesized definitions, and of the records that are turned away.

use crate::definitions::InitSourceView;
use crate::diagnostics::{DiagnosticView, ErrorKind};
use crate::protocol::{lemma_run, markers_of, Call, FieldValueView, Marker, Slot};
use crate::schema::{
    lemma_failure_at, EntryKind, FieldDefView, GenericParamView, RecordDefView, StructSchemaView,
};
use crate::synthesis::lemma_markers_distinct;
use crate::util::{is_reserved, lemma_identifier_reserved};
use crate::{expansion, ExpansionView};
use vstd::prelude::*;

verus! {

/// In a record whose fields are all mandatory, a sequence of setter calls is accepted and
/// leads to a state that can be finalized exactly when every call names a field and every
/// field is set by exactly one call, in whatever order the calls come.
pub proof fn law_all_mandatory<T>(schema: StructSchemaView, calls: Seq<Call<T>>)
    requires
        schema.wf(),
        forall|i: int| 0 <= i < schema.fields.len() ==> (#[trigger] schema.fields[i]).mandatory,
    ensures
        (schema.run(calls) matches Some(state) && schema.can_finalize(state)) <==> {
            &&& forall|k: int|
                0 <= k < calls.len() ==> 0 <= (#[trigger] calls[k]).0 < schema.fields.len()
            &&& forall|i: int|
                0 <= i < schema.fields.len() ==> #[trigger] StructSchemaView::set_exactly_once(
                    calls,
                    i,
                )
        },
{
    lemma_run(schema, calls);
    let named = forall|k: int|
        0 <= k < calls.len() ==> 0 <= (#[trigger] calls[k]).0 < schema.fields.len();
    let once = forall|i: int|
        0 <= i < schema.fields.len() ==> #[trigger] StructSchemaView::set_exactly_once(calls, i);
    if schema.run(calls) is Some && schema.can_finalize(schema.run(calls)->0) {
        let state = schema.run(calls)->0;
        assert forall|k: int| 0 <= k < calls.len() implies 0 <= (#[trigger] calls[k]).0
            < schema.fields.len() by {
            assert(schema.has_setter(calls[k].0));
        }
        assert forall|i: int| 0 <= i < schema.fields.len() implies #[trigger]
            StructSchemaView::set_exactly_once(calls, i) by {
            assert(schema.fields[i].mandatory);
            assert(state[i] is Assigned);
            assert(StructSchemaView::targets(calls, i));
            let k = choose|k: int| 0 <= k < calls.len() && (#[trigger] calls[k]).0 == i;
            assert forall|j: int| 0 <= j < calls.len() && (#[trigger] calls[j]).0 == i implies j
                == k by {
                if j < k {
                    assert(calls[j].0 != calls[k].0);
                }
                if k < j {
                    assert(calls[k].0 != calls[j].0);
                }
            }
        }
    }
    if named && once {
        assert forall|k: int| 0 <= k < calls.len() implies schema.has_setter(
            (#[trigger] calls[k]).0,
        ) by {
            let i = calls[k].0;
            assert(schema.fields[i].wf());
            assert(schema.fields[i].mandatory);
        }
        assert forall|j: int, k: int| 0 <= j < k < calls.len() implies (#[trigger] calls[j]).0 != (
        #[trigger] calls[k]).0 by {
            let i = calls[j].0;
            assert(StructSchemaView::set_exactly_once(calls, i));
        }
        assert(schema.accepts(calls));
        let state = schema.run(calls)->0;
        assert forall|i: int|
            0 <= i < state.len() && schema.fields[i].mandatory implies (#[trigger] state[i])
            is Assigned by {
            assert(StructSchemaView::set_exactly_once(calls, i));
            assert(StructSchemaView::targets(calls, i));
        }
    }
}

/// A field that is set cannot be set again: its setter is not available in such a state, and
/// a setter call makes the setter it used unavailable.
pub proof fn law_set_at_most_once<T>(
    schema: StructSchemaView,
    state: Seq<Slot<T>>,
    field: int,
    value: T,
)
    requires
        0 <= field < state.len(),
    ensures
        state[field] is Assigned ==> !schema.can_set(state, field),
        !schema.can_set(schema.set(state, field, value), field),
{
}

/// A record cannot be finalized while one of its mandatory fields is not set.
pub proof fn law_no_premature_finalize<T>(schema: StructSchemaView, state: Seq<Slot<T>>, field: int)
    requires
        0 <= field < schema.fields.len(),
        schema.fields[field].mandatory,
        state.len() == schema.fields.len() ==> state[field] is Unset,
    ensures
        !schema.can_finalize(state),
{
    if state.len() == schema.fields.len() {
        assert(!(state[field] is Assigned));
    }
}

/// A field with a default may be left out: if the calls set every mandatory field and none
/// of them sets the optional field `field`, the record can be finalized, and the field of the
/// finished record is the declared default.
pub proof fn law_default_substituted<T>(schema: StructSchemaView, calls: Seq<Call<T>>, field: int)
    requires
        schema.wf(),
        schema.accepts(calls),
        0 <= field < schema.fields.len(),
        schema.fields[field].default is Some,
        !StructSchemaView::targets(calls, field),
        forall|i: int|
            0 <= i < schema.fields.len() && (#[trigger] schema.fields[i]).mandatory
                ==> StructSchemaView::targets(calls, i),
    ensures
        schema.run(calls) matches Some(state) && schema.can_finalize(state) && schema.finalize(
            state,
        )[field] == FieldValueView::<T>::Defaulted(schema.fields[field].default->0),
{
    lemma_run(schema, calls);
    let state = schema.run(calls)->0;
    assert(!(state[field] is Assigned));
    assert forall|i: int| 0 <= i < state.len() && schema.fields[i].mandatory implies (
    #[trigger] state[i]) is Assigned by {
        assert(StructSchemaView::targets(calls, i));
    }
}

/// The order of the setter calls does not matter: two sequences that hold the same calls,
/// each as often as the other, are both accepted or both rejected, and lead to the same state
/// and so to the same finished record.
pub proof fn law_order_independent<T>(
    schema: StructSchemaView,
    calls: Seq<Call<T>>,
    permuted: Seq<Call<T>>,
)
    requires
        calls.to_multiset() == permuted.to_multiset(),
    ensures
        schema.run(calls) == schema.run(permuted),
        schema.run(calls) matches Some(state) ==> schema.finalize(state) == schema.finalize(
            schema.run(permuted)->0,
        ),
{
    if schema.accepts(calls) {
        lemma_accepts_permutation(schema, calls, permuted);
    }
    if schema.accepts(permuted) {
        lemma_accepts_permutation(schema, permuted, calls);
    }
    lemma_run(schema, calls);
    lemma_run(schema, permuted);
    if schema.run(calls) is Some {
        let a = schema.run(calls)->0;
        let b = schema.run(permuted)->0;
        assert forall|i: int| 0 <= i < a.len() implies a[i] == b[i] by {
            if a[i] is Assigned {
                assert(StructSchemaView::targets(calls, i));
                let k = choose|k: int| 0 <= k < calls.len() && (#[trigger] calls[k]).0 == i;
                lemma_same_members(calls, permuted, calls[k]);
                let m = choose|m: int| 0 <= m < permuted.len() && permuted[m] == calls[k];
                assert(b[permuted[m].0] == Slot::Assigned(permuted[m].1));
                assert(a[calls[k].0] == Slot::Assigned(calls[k].1));
            } else {
                if b[i] is Assigned {
                    assert(StructSchemaView::targets(permuted, i));
                    let m = choose|m: int| 0 <= m < permuted.len() && (#[trigger] permuted[m]).0 == i;
                    lemma_same_members(permuted, calls, permuted[m]);
                    let k = choose|k: int| 0 <= k < calls.len() && calls[k] == permuted[m];
                    assert(calls[k].0 == i);
                    assert(StructSchemaView::targets(calls, i));
                }
            }
        }
        assert(a =~= b);
    }
}

/// Two sequences with the same elements, each as often, have the same members.
proof fn lemma_same_members<A>(s: Seq<A>, t: Seq<A>, x: A)
    requires
        s.to_multiset() == t.to_multiset(),
        s.contains(x),
    ensures
        t.contains(x),
{
    s.to_multiset_ensures();
    t.to_multiset_ensures();
    assert(s.to_multiset().count(x) > 0);
    assert(t.to_multiset().count(x) > 0);
}

/// Whatever holds the same calls as an accepted sequence is accepted too.
proof fn lemma_accepts_permutation<T>(
    schema: StructSchemaView,
    calls: Seq<Call<T>>,
    permuted: Seq<Call<T>>,
)
    requires
        calls.to_multiset() == permuted.to_multiset(),
        schema.accepts(calls),
    ensures
        schema.accepts(permuted),
{
    assert(calls.no_duplicates()) by {
        assert forall|i: int, j: int| 0 <= i < calls.len() && 0 <= j < calls.len() && i != j implies calls[i]
            != calls[j] by {
            if i < j {
                assert(calls[i].0 != calls[j].0);
            } else {
                assert(calls[j].0 != calls[i].0);
            }
        }
    }
    calls.lemma_multiset_has_no_duplicates();
    permuted.lemma_multiset_has_no_duplicates_conv();
    assert forall|k: int| 0 <= k < permuted.len() implies schema.has_setter(
        (#[trigger] permuted[k]).0,
    ) by {
        assert(permuted.contains(permuted[k]));
        lemma_same_members(permuted, calls, permuted[k]);
        let m = choose|m: int| 0 <= m < calls.len() && calls[m] == permuted[k];
        assert(schema.has_setter(calls[m].0));
    }
    assert forall|j: int, k: int| 0 <= j < k < permuted.len() implies (#[trigger] permuted[j]).0 != (
    #[trigger] permuted[k]).0 by {
        assert(permuted[j] != permuted[k]);
        assert(permuted.contains(permuted[j]));
        assert(permuted.contains(permuted[k]));
        lemma_same_members(permuted, calls, permuted[j]);
        lemma_same_members(permuted, calls, permuted[k]);
        let a = choose|a: int| 0 <= a < calls.len() && calls[a] == permuted[j];
        let b = choose|b: int| 0 <= b < calls.len() && calls[b] == permuted[k];
        if a < b {
            assert(calls[a].0 != calls[b].0);
        }
        if b < a {
            assert(calls[b].0 != calls[a].0);
        }
    }
}

/// Setter calls do not disturb one another. From one state, the setters of two different
/// fields give two states of which neither holds what the other call set: each differs from
/// the common state in its own field only, so the record finished from one branch owes
/// nothing to the other, and either branch can still take the other's call.
pub proof fn law_branches_independent<T>(
    schema: StructSchemaView,
    state: Seq<Slot<T>>,
    first: int,
    a: T,
    second: int,
    b: T,
)
    requires
        schema.can_set(state, first),
        schema.can_set(state, second),
        first != second,
    ensures
        forall|i: int|
            0 <= i < state.len() && i != first ==> schema.set(state, first, a)[i] == state[i],
        forall|i: int|
            0 <= i < state.len() && i != second ==> schema.set(state, second, b)[i] == state[i],
        schema.set(state, first, a)[second] is Unset,
        schema.set(state, second, b)[first] is Unset,
        forall|i: int|
            0 <= i < state.len() && i != second ==> schema.finalize(schema.set(state, second, b))[i]
                == schema.finalize(state)[i],
        schema.can_set(schema.set(state, first, a), second),
        schema.can_set(schema.set(state, second, b), first),
        schema.set(schema.set(state, first, a), second, b) == schema.set(
            schema.set(state, second, b),
            first,
            a,
        ),
{
    assert(schema.set(schema.set(state, first, a), second, b) =~= schema.set(
        schema.set(state, second, b),
        first,
        a,
    ));
}

/// The synthesized setter of a field is defined on exactly the builder types in which that
/// field is unset: together with the field having a setter at all, this is when the
/// protocol accepts the call.
pub proof fn law_setter_availability<T>(schema: StructSchemaView, state: Seq<Slot<T>>, field: int)
    requires
        schema.valid_state(state),
        0 <= field < schema.fields.len(),
    ensures
        schema.setter(field).receiver.admits(markers_of(state)) <==> state[field] is Unset,
        schema.can_set(state, field) <==> schema.has_setter(field) && schema.setter(
            field,
        ).receiver.admits(markers_of(state)),
{
    let receiver = schema.setter(field).receiver;
    let markers = markers_of(state);
    if receiver.admits(markers) {
        assert(receiver.markers[field].admits(markers[field]));
    }
}

/// The type that a synthesized setter gives records what the call did: the field is set,
/// and every other field is as it was.
pub proof fn law_setter_result<T>(schema: StructSchemaView, state: Seq<Slot<T>>, field: int, value: T)
    requires
        schema.can_set(state, field),
    ensures
        schema.setter(field).result.instantiate(markers_of(state)) == markers_of(state).update(
            field,
            Marker::Assigned,
        ),
        schema.setter(field).result.instantiate(markers_of(state)) == markers_of(
            schema.set(state, field, value),
        ),
{
    let result = schema.setter(field).result.instantiate(markers_of(state));
    assert(result =~= markers_of(state).update(field, Marker::Assigned));
    assert(result =~= markers_of(schema.set(state, field, value)));
}

/// The synthesized finalizer is defined on exactly the builder types in which every
/// mandatory field is set.
pub proof fn law_finalizer_availability<T>(schema: StructSchemaView, state: Seq<Slot<T>>)
    requires
        schema.wf(),
        schema.valid_state(state),
    ensures
        schema.finalizer().receiver.admits(markers_of(state)) <==> schema.can_finalize(state),
{
    let receiver = schema.finalizer().receiver;
    let markers = markers_of(state);
    if receiver.admits(markers) {
        assert forall|i: int| 0 <= i < state.len() && schema.fields[i].mandatory implies (
        #[trigger] state[i]) is Assigned by {
            assert(receiver.markers[i].admits(markers[i]));
        }
    }
    if schema.can_finalize(state) {
        assert forall|j: int| 0 <= j < markers.len() implies (#[trigger] receiver.markers[j]).admits(
            markers[j],
        ) by {
            assert(schema.fields[j].wf());
            if schema.fields[j].mandatory {
                assert(state[j] is Assigned);
            } else if schema.fields[j].skip {
                assert(state[j] is Unset);
            }
        }
    }
}

/// Starting a builder gives the type in which nothing is set, and no other.
pub proof fn law_entry_point<T>(schema: StructSchemaView, markers: Seq<Marker>)
    ensures
        schema.entry_point().result.admits(markers) <==> markers == markers_of(
            schema.initial::<T>(),
        ),
{
    let result = schema.entry_point().result;
    let start = markers_of(schema.initial::<T>());
    if result.admits(markers) {
        assert forall|j: int| 0 <= j < markers.len() implies markers[j] == start[j] by {
            assert(result.markers[j].admits(markers[j]));
        }
        assert(markers =~= start);
    }
}

/// The synthesized finalizer reads every field from where the protocol says its value is:
/// a mandatory field from its slot, which is filled; an optional field from its slot or,
/// if that is empty, from the declared default; a skipped field from the declared default.
pub proof fn law_finalizer_reads<T>(schema: StructSchemaView, state: Seq<Slot<T>>, i: int)
    requires
        schema.wf(),
        schema.valid_state(state),
        schema.can_finalize(state),
        0 <= i < schema.fields.len(),
    ensures
        match schema.finalizer().inits[i].source {
            InitSourceView::Stored => state[i] is Assigned && schema.finalize(state)[i]
                == FieldValueView::Given(state[i]->Assigned_0),
            InitSourceView::StoredOr(spec) => schema.finalize(state)[i] == match state[i] {
                Slot::Assigned(value) => FieldValueView::Given(value),
                Slot::Unset => FieldValueView::Defaulted(spec),
            },
            InitSourceView::Defaulted(spec) => schema.finalize(state)[i] == FieldValueView::<
                T,
            >::Defaulted(spec),
        },
{
    assert(schema.fields[i].wf());
    if schema.fields[i].mandatory {
        assert(state[i] is Assigned);
    } else if schema.fields[i].skip {
        assert(state[i] is Unset);
    }
}

/// What the first `count` fields contribute to the list of setters.
proof fn lemma_setters_upto(schema: StructSchemaView, count: int)
    requires
        0 <= count <= schema.fields.len(),
    ensures
        forall|k: int|
            0 <= k < schema.setters_upto(count).len() ==> {
                let setter = #[trigger] schema.setters_upto(count)[k];
                0 <= setter.field < count && schema.has_setter(setter.field) && setter
                    == schema.setter(setter.field)
            },
        forall|j: int, k: int|
            0 <= j < k < schema.setters_upto(count).len() ==> (#[trigger] schema.setters_upto(
                count,
            )[j]).field < (#[trigger] schema.setters_upto(count)[k]).field,
        forall|i: int|
            0 <= i < count && schema.has_setter(i) ==> exists|k: int|
                0 <= k < schema.setters_upto(count).len() && (#[trigger] schema.setters_upto(
                    count,
                )[k]).field == i,
    decreases count,
{
    if count > 0 {
        lemma_setters_upto(schema, count - 1);
        let rest = schema.setters_upto(count - 1);
        let all = schema.setters_upto(count);
        assert forall|i: int| 0 <= i < count && schema.has_setter(i) implies exists|k: int|
            0 <= k < all.len() && (#[trigger] all[k]).field == i by {
            if i < count - 1 {
                let k = choose|k: int| 0 <= k < rest.len() && (#[trigger] rest[k]).field == i;
                assert(all[k].field == i);
            } else {
                assert(all[all.len() - 1].field == i);
            }
        }
    }
}

/// The synthesized setters are those of the fields that have one, each once, in declaration
/// order: a skipped field gets none.
pub proof fn law_setters_cover(schema: StructSchemaView)
    ensures
        forall|k: int|
            0 <= k < schema.setters().len() ==> {
                let setter = #[trigger] schema.setters()[k];
                schema.has_setter(setter.field) && setter == schema.setter(setter.field)
            },
        forall|j: int, k: int|
            0 <= j < k < schema.setters().len() ==> (#[trigger] schema.setters()[j]).field < (
            #[trigger] schema.setters()[k]).field,
        forall|i: int|
            schema.has_setter(i) ==> exists|k: int|
                0 <= k < schema.setters().len() && (#[trigger] schema.setters()[k]).field == i,
{
    lemma_setters_upto(schema, schema.fields.len() as int);
}

/// Fields of different names get different markers: no marker is assigned twice.
pub proof fn law_markers_distinct(schema: StructSchemaView)
    requires
        schema.distinct_field_names(),
    ensures
        schema.markers().no_duplicates(),
        forall|i: int, j: int|
            0 <= i < j < schema.fields.len() ==> (#[trigger] schema.markers()[i]) != (
            #[trigger] schema.markers()[j]),
{
    lemma_markers_distinct(schema);
}

/// No marker of a schema is the name of one of the record's generic parameters, and no two
/// markers are the same.
pub proof fn law_markers_fresh(schema: StructSchemaView)
    requires
        schema.wf(),
    ensures
        schema.markers().no_duplicates(),
        forall|i: int, g: int|
            0 <= i < schema.fields.len() && 0 <= g < schema.generics.len() ==> (
            #[trigger] schema.markers()[i]) != (#[trigger] schema.generics[g]).name,
{
    lemma_markers_distinct(schema);
    assert forall|i: int, g: int|
        0 <= i < schema.fields.len() && 0 <= g < schema.generics.len() implies (
    #[trigger] schema.markers()[i]) != (#[trigger] schema.generics[g]).name by {
        assert(schema.generics[g].name != crate::util::marker_name(schema.fields[i].name));
    }
}

/// Every marker lies in the reserved namespace, so it is none of the record's own generic
/// parameters as long as those keep out of that namespace.
pub proof fn law_markers_reserved(schema: StructSchemaView, i: int, generic: GenericParamView)
    requires
        0 <= i < schema.fields.len(),
    ensures
        is_reserved(schema.markers()[i]),
        !is_reserved(generic.name) ==> schema.markers()[i] != generic.name,
{
    lemma_identifier_reserved("genericType"@, schema.fields[i].name);
}

/// A record that is not a product type with at least one named field is turned away: tuple
/// structs, unit structs, structs without fields, enums and unions get an unsupported-shape
/// diagnostic at the record, and no definition is synthesized.
pub proof fn law_shape_rejected(def: RecordDefView)
    requires
        def.rejected_shape() is Some,
    ensures
        def.normalize() == Err::<StructSchemaView, DiagnosticView>(
            DiagnosticView::unsupported(def.rejected_shape()->0, def.location),
        ),
        expansion(def) == ExpansionView::CompileError(
            DiagnosticView::unsupported(def.rejected_shape()->0, def.location),
        ),
{
}

/// A record in which two fields go by one name is turned away, whatever else holds of it,
/// and nothing is synthesized; where nothing else is wrong with it, the diagnostic says so and
/// names the field.
pub proof fn law_repeated_name_rejected(def: RecordDefView, j: int, k: int)
    requires
        def.rejected_shape() is None,
        def.name_clash(j, k),
    ensures
        def.normalize() is Err,
        expansion(def) is CompileError,
        !def.has_failure() ==> def.normalize() == Err::<StructSchemaView, DiagnosticView>(
            def.repeat(),
        ) && def.repeat().kind == ErrorKind::RepeatedField && def.repeat().field is Some,
{
}

/// A record of which a generic parameter goes by the marker of a field is turned away,
/// whatever else holds of it, and nothing is synthesized; where nothing else is wrong with
/// it, the diagnostic says so and names the field.
pub proof fn law_reserved_name_rejected(def: RecordDefView, g: int, i: int)
    requires
        def.rejected_shape() is None,
        def.marker_clash(g, i),
    ensures
        def.normalize() is Err,
        expansion(def) is CompileError,
        !def.has_failure() && !def.has_repeated_name() ==> def.normalize() == Err::<
            StructSchemaView,
            DiagnosticView,
        >(def.reserved()) && def.reserved().kind == ErrorKind::ReservedName
            && def.reserved().field is Some,
{
}

/// A field whose entries conflict is turned away with a diagnostic that names it.
pub proof fn law_conflict_names_field(field: FieldDefView)
    requires
        field.has_conflict(),
    ensures
        field.normalize() matches Err(diagnostic) && diagnostic.kind
            == ErrorKind::ConflictingConfiguration && diagnostic.field == Some(field.name)
            && diagnostic.related is Some,
{
}

/// Some field is the first to fail where any field fails.
proof fn lemma_first_failure_exists(def: RecordDefView, i: int)
    requires
        0 <= i < def.fields().len(),
        def.fields()[i].has_conflict(),
    ensures
        exists|f: int| 0 <= f <= i && def.first_failure(f),
    decreases i,
{
    if exists|j: int| 0 <= j < i && (#[trigger] def.fields()[j]).has_conflict() {
        let j = choose|j: int| 0 <= j < i && (#[trigger] def.fields()[j]).has_conflict();
        lemma_first_failure_exists(def, j);
        let f = choose|f: int| 0 <= f <= j && def.first_failure(f);
        assert(def.first_failure(f));
    } else {
        assert(def.first_failure(i));
    }
}

/// A field with two default specifications makes the whole run fail with a conflict: the
/// diagnostic names the first field of the record whose entries conflict, which is that
/// field unless an earlier one fails too, and nothing is synthesized.
pub proof fn law_two_defaults_rejected(def: RecordDefView, field: int, first: int, second: int)
    requires
        def.rejected_shape() is None,
        0 <= field < def.fields().len(),
        0 <= first < second < def.fields()[field].entries.len(),
        def.fields()[field].entries[first].kind() == EntryKind::Default,
        def.fields()[field].entries[second].kind() == EntryKind::Default,
    ensures
        def.fields()[field].normalize() matches Err(diagnostic) && diagnostic.kind
            == ErrorKind::ConflictingConfiguration && diagnostic.field == Some(
            def.fields()[field].name,
        ),
        exists|f: int|
            0 <= f <= field && def.first_failure(f) && def.normalize() == Err::<
                StructSchemaView,
                DiagnosticView,
            >(def.fields()[f].conflict()) && def.fields()[f].conflict().kind
                == ErrorKind::ConflictingConfiguration && def.fields()[f].conflict().field == Some(
                def.fields()[f].name,
            ),
        expansion(def) is CompileError,
{
    let it = def.fields()[field];
    assert(it.clash(first, second));
    lemma_first_failure_exists(def, field);
    let f = choose|f: int| 0 <= f <= field && def.first_failure(f);
    lemma_failure_at(def, f);
}

} // verus!
