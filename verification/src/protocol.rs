//! The construction protocol: which setter calls a builder accepts, and what finalizing yields.
//!
//! A builder's state is one slot per field. Every setter call fills one empty slot and leaves
//! the others alone; finalizing reads the slots and falls back on the declared default where
//! a slot is still empty.

use crate::schema::{DefaultSpecView, StructSchemaView};
use vstd::prelude::*;

verus! {

/// What the builder's type records about one field.
#[derive(Clone, Copy, Debug, PartialEq, Eq, Structural)]
pub enum Marker {
    Unset,
    Assigned,
}

/// What the builder holds for one field.
#[derive(Debug, PartialEq, Eq)]
pub enum Slot<T> {
    Unset,
    Assigned(T),
}

impl<T: Copy> Clone for Slot<T> {
    fn clone(&self) -> (r: Slot<T>)
        ensures
            r == *self,
    {
        *self
    }
}

impl<T: Copy> Copy for Slot<T> {

}

impl<T> Slot<T> {
    pub open spec fn marker(self) -> Marker {
        match self {
            Slot::Unset => Marker::Unset,
            Slot::Assigned(_) => Marker::Assigned,
        }
    }
}

/// The markers of a state: what the type of a builder in that state says.
pub open spec fn markers_of<T>(state: Seq<Slot<T>>) -> Seq<Marker> {
    state.map_values(|slot: Slot<T>| slot.marker())
}

/// The value of one field of the finished record.
pub enum FieldValueView<T> {
    /// The value that a setter was called with.
    Given(T),
    /// The field was left out; the declared default takes its place.
    Defaulted(DefaultSpecView),
}

/// One setter call: the index of the field, and the value handed over.
pub type Call<T> = (int, T);

impl StructSchemaView {
    /// The state of a builder that has just been started: nothing is set.
    pub open spec fn initial<T>(self) -> Seq<Slot<T>> {
        Seq::new(self.fields.len(), |i: int| Slot::Unset)
    }

    /// Whether field `field` exists and has a setter.
    pub open spec fn has_setter(self, field: int) -> bool {
        0 <= field < self.fields.len() && !self.fields[field].skip
    }

    /// A state of this record's builder: one slot per field, and nothing in the slot of a
    /// field that has no setter.
    pub open spec fn valid_state<T>(self, state: Seq<Slot<T>>) -> bool {
        &&& state.len() == self.fields.len()
        &&& forall|i: int|
            0 <= i < state.len() && self.fields[i].skip ==> (#[trigger] state[i]) is Unset
    }

    /// Whether the setter of `field` can be called in `state`: the field has a setter, and
    /// its slot is still empty.
    pub open spec fn can_set<T>(self, state: Seq<Slot<T>>, field: int) -> bool {
        &&& state.len() == self.fields.len()
        &&& self.has_setter(field)
        &&& state[field] is Unset
    }

    /// The state after the setter of `field` was called with `value`.
    pub open spec fn set<T>(self, state: Seq<Slot<T>>, field: int, value: T) -> Seq<Slot<T>> {
        state.update(field, Slot::Assigned(value))
    }

    /// Whether the record can be finalized in `state`: every mandatory field is set.
    pub open spec fn can_finalize<T>(self, state: Seq<Slot<T>>) -> bool {
        &&& state.len() == self.fields.len()
        &&& forall|i: int|
            0 <= i < state.len() && self.fields[i].mandatory ==> (#[trigger] state[i]) is Assigned
    }

    /// The value that finalizing gives field `i`.
    pub open spec fn finalized_field<T>(self, state: Seq<Slot<T>>, i: int) -> FieldValueView<T> {
        match state[i] {
            Slot::Assigned(value) => FieldValueView::Given(value),
            Slot::Unset => FieldValueView::Defaulted(self.fields[i].default->0),
        }
    }

    /// The finished record: one value per field, in declaration order.
    pub open spec fn finalize<T>(self, state: Seq<Slot<T>>) -> Seq<FieldValueView<T>> {
        Seq::new(self.fields.len(), |i: int| self.finalized_field(state, i))
    }

    /// The state that a sequence of setter calls leads to from the start, if every call of
    /// it is accepted.
    pub open spec fn run<T>(self, calls: Seq<Call<T>>) -> Option<Seq<Slot<T>>>
        decreases calls.len(),
    {
        if calls.len() == 0 {
            Some(self.initial())
        } else {
            match self.run(calls.drop_last()) {
                Some(state) => if self.can_set(state, calls.last().0) {
                    Some(self.set(state, calls.last().0, calls.last().1))
                } else {
                    None
                },
                None => None,
            }
        }
    }

    /// Some call of `calls` sets `field`.
    pub open spec fn targets<T>(calls: Seq<Call<T>>, field: int) -> bool {
        exists|k: int| 0 <= k < calls.len() && (#[trigger] calls[k]).0 == field
    }

    /// Every call names a field that has a setter, and no field is named twice.
    pub open spec fn accepts<T>(self, calls: Seq<Call<T>>) -> bool {
        &&& forall|k: int| 0 <= k < calls.len() ==> self.has_setter((#[trigger] calls[k]).0)
        &&& forall|j: int, k: int|
            0 <= j < k < calls.len() ==> (#[trigger] calls[j]).0 != (#[trigger] calls[k]).0
    }

    /// Exactly one call of `calls` sets `field`.
    pub open spec fn set_exactly_once<T>(calls: Seq<Call<T>>, field: int) -> bool {
        exists|k: int|
            0 <= k < calls.len() && (#[trigger] calls[k]).0 == field && forall|j: int|
                0 <= j < calls.len() && (#[trigger] calls[j]).0 == field ==> j == k
    }
}

/// What a sequence of setter calls leads to: it is accepted exactly when every call names a
/// field with a setter and none is named twice; the resulting state then holds, for every
/// call, the value of that call, and nothing for the fields that no call named.
pub proof fn lemma_run<T>(schema: StructSchemaView, calls: Seq<Call<T>>)
    ensures
        schema.run(calls) is Some <==> schema.accepts(calls),
        schema.run(calls) matches Some(state) ==> {
            &&& schema.valid_state(state)
            &&& forall|i: int|
                0 <= i < state.len() ==> ((#[trigger] state[i]) is Assigned
                    <==> StructSchemaView::targets(calls, i))
            &&& forall|k: int|
                0 <= k < calls.len() ==> state[(#[trigger] calls[k]).0] == Slot::Assigned(calls[k].1)
        },
    decreases calls.len(),
{
    if calls.len() == 0 {
        assert(schema.accepts(calls));
    } else {
        let earlier = calls.drop_last();
        let last = calls.last();
        lemma_run(schema, earlier);
        assert(forall|k: int| 0 <= k < earlier.len() ==> earlier[k] == calls[k]);
        if schema.accepts(calls) {
            assert(schema.accepts(earlier));
            assert(schema.has_setter(calls[calls.len() - 1].0));
            let before = schema.run(earlier)->0;
            if StructSchemaView::targets(earlier, last.0) {
                let j = choose|j: int| 0 <= j < earlier.len() && (#[trigger] earlier[j]).0 == last.0;
                assert(calls[j].0 == calls[calls.len() - 1].0);
            }
            assert(schema.can_set(before, last.0));
        }
        if schema.run(calls) is Some {
            let before = schema.run(earlier)->0;
            let state = schema.run(calls)->0;
            assert(schema.can_set(before, last.0));
            assert(!StructSchemaView::targets(earlier, last.0));
            assert(schema.accepts(calls)) by {
                assert forall|k: int| 0 <= k < calls.len() implies schema.has_setter(
                    (#[trigger] calls[k]).0,
                ) by {
                    if k < earlier.len() {
                        assert(schema.has_setter(earlier[k].0));
                    }
                }
                assert forall|j: int, k: int| 0 <= j < k < calls.len() implies (#[trigger] calls[j]).0
                    != (#[trigger] calls[k]).0 by {
                    if k < earlier.len() {
                        assert(earlier[j].0 != earlier[k].0);
                    } else {
                        assert(earlier[j].0 != last.0);
                    }
                }
            }
            assert forall|i: int| 0 <= i < state.len() implies ((#[trigger] state[i]) is Assigned
                <==> StructSchemaView::targets(calls, i)) by {
                if i == last.0 {
                    assert(calls[calls.len() - 1].0 == i);
                } else {
                    assert(state[i] == before[i]);
                    if StructSchemaView::targets(earlier, i) {
                        let k = choose|k: int| 0 <= k < earlier.len() && (#[trigger] earlier[k]).0 == i;
                        assert(calls[k].0 == i);
                    }
                    if StructSchemaView::targets(calls, i) {
                        let k = choose|k: int| 0 <= k < calls.len() && (#[trigger] calls[k]).0 == i;
                        assert(earlier[k].0 == i);
                    }
                }
            }
            assert forall|k: int| 0 <= k < calls.len() implies state[(#[trigger] calls[k]).0]
                == Slot::Assigned(calls[k].1) by {
                if k < earlier.len() {
                    assert(before[earlier[k].0] == Slot::Assigned(earlier[k].1));
                    assert(earlier[k].0 != last.0);
                }
            }
        }
    }
}

/// Once a sequence of calls is rejected, every longer one is: no later call makes up for a
/// call that was turned away.
pub proof fn lemma_run_rejected<T>(schema: StructSchemaView, calls: Seq<Call<T>>, count: int)
    requires
        0 <= count <= calls.len(),
        schema.run(calls.take(count)) is None,
    ensures
        schema.run(calls) is None,
    decreases calls.len(),
{
    if count < calls.len() {
        assert(calls.drop_last().take(count) =~= calls.take(count));
        lemma_run_rejected(schema, calls.drop_last(), count);
    } else {
        assert(calls.take(count) =~= calls);
    }
}

} // verus!
