//! A builder that follows the construction protocol at run time.
//!
//! The definitions that the engine synthesizes make a wrong call sequence a type error in the
//! program that uses them. This builder plays the same protocol on values: it accepts
//! exactly the calls that those definitions admit, and reports any other call as an error.

use crate::field_info::FieldSchema;
use crate::protocol::{lemma_run_rejected, markers_of, Call, FieldValueView, Marker, Slot};
use crate::schema::{DefaultSpec, StructSchemaView};
use crate::struct_info::StructSchema;
use vstd::prelude::*;

verus! {

/// Why a call was turned away.
#[derive(Clone, Copy, Debug, PartialEq, Eq, Structural)]
pub enum ProtocolError {
    /// The record has no field of that index.
    NoSuchField,
    /// The field is skipped: it has no setter.
    NoSetter,
    /// The field is set already.
    AlreadySet,
    /// The mandatory field of this index is not set.
    Missing(usize),
}

/// The value of one field of the finished record.
#[derive(Debug, PartialEq, Eq)]
pub enum FieldValue<T> {
    /// The value that the field's setter was called with.
    Given(T),
    /// The field was left out; the declared default takes its place.
    Defaulted(DefaultSpec),
}

impl<T> View for FieldValue<T> {
    type V = FieldValueView<T>;

    open spec fn view(&self) -> FieldValueView<T> {
        match self {
            FieldValue::Given(value) => FieldValueView::Given(*value),
            FieldValue::Defaulted(spec) => FieldValueView::Defaulted(spec@),
        }
    }
}

impl StructSchemaView {
    /// Why the setter of `field` cannot be called in a state where it cannot.
    pub open spec fn set_error(self, field: int) -> ProtocolError {
        if !(0 <= field < self.fields.len()) {
            ProtocolError::NoSuchField
        } else if self.fields[field].skip {
            ProtocolError::NoSetter
        } else {
            ProtocolError::AlreadySet
        }
    }

    /// Field `i` is the first mandatory field that is not set in `state`.
    pub open spec fn first_missing<T>(self, state: Seq<Slot<T>>, i: int) -> bool {
        &&& 0 <= i < self.fields.len()
        &&& self.fields[i].mandatory
        &&& state[i] is Unset
        &&& forall|j: int| 0 <= j < i && self.fields[j].mandatory ==> (#[trigger] state[j]) is Assigned
    }
}

/// The calls that a list of pairs of field index and value stands for.
pub open spec fn calls_of<T>(calls: Seq<(usize, T)>) -> Seq<Call<T>> {
    calls.map_values(|call: (usize, T)| (call.0 as int, call.1))
}

/// A partly built record of the schema that it was started for.
///
/// Its state is always a valid state of that schema. A builder is never changed: every
/// setter call gives a new one.
pub struct Builder<'a, T> {
    schema: &'a StructSchema,
    slots: Vec<Slot<T>>,
}

impl<'a, T> Builder<'a, T> {
    #[verifier::type_invariant]
    spec fn well_formed(self) -> bool {
        self.schema@.valid_state(self.slots@)
    }

    /// The schema of the record that is built.
    pub closed spec fn schema(&self) -> StructSchemaView {
        self.schema@
    }

    /// What is set so far.
    pub closed spec fn state(&self) -> Seq<Slot<T>> {
        self.slots@
    }
}

impl<'a, T: Copy> Builder<'a, T> {
    /// Starts to build a record: nothing is set.
    pub fn start(schema: &'a StructSchema) -> (r: Builder<'a, T>)
        ensures
            r.schema() == schema@,
            r.state() == schema@.initial::<T>(),
            schema@.valid_state(r.state()),
            schema@.wf(),
    {
        let count = schema.fields().len();
        let mut slots: Vec<Slot<T>> = Vec::new();
        let mut i: usize = 0;
        while i < count
            invariant
                i <= count,
                count == schema@.fields.len(),
                slots@ == schema@.initial::<T>().take(i as int),
            decreases count - i,
        {
            slots.push(Slot::Unset);
            assert(slots@ =~= schema@.initial::<T>().take(i + 1));
            i += 1;
        }
        assert(slots@ =~= schema@.initial::<T>());
        Builder { schema, slots }
    }

    /// Calls the setter of field `field` with `value`.
    ///
    /// The call is accepted exactly when the field exists, has a setter and is not set yet.
    /// The builder that results holds `value` for the field and what this builder holds for
    /// every other; this builder stays as it is.
    pub fn set(&self, field: usize, value: T) -> (r: Result<Builder<'a, T>, ProtocolError>)
        ensures
            self.schema().valid_state(self.state()),
            match r {
                Ok(next) => {
                    &&& self.schema().can_set(self.state(), field as int)
                    &&& next.schema() == self.schema()
                    &&& next.state() == self.schema().set(self.state(), field as int, value)
                    &&& next.schema().valid_state(next.state())
                },
                Err(error) => {
                    &&& !self.schema().can_set(self.state(), field as int)
                    &&& error == self.schema().set_error(field as int)
                },
            },
    {
        proof {
            use_type_invariant(self);
        }
        let fields = self.schema.fields();
        if field >= fields.len() {
            return Err(ProtocolError::NoSuchField);
        }
        assert(fields@[field as int]@ == self.schema@.fields[field as int]);
        if fields[field].is_skipped() {
            return Err(ProtocolError::NoSetter);
        }
        match self.slots[field] {
            Slot::Assigned(_) => {
                return Err(ProtocolError::AlreadySet);
            },
            Slot::Unset => {},
        }
        let ghost target = self.schema@.set(self.slots@, field as int, value);
        let mut slots: Vec<Slot<T>> = Vec::new();
        let mut i: usize = 0;
        while i < self.slots.len()
            invariant
                i <= self.slots.len(),
                field < self.slots.len(),
                target == self.slots@.update(field as int, Slot::Assigned(value)),
                slots@ == target.take(i as int),
            decreases self.slots.len() - i,
        {
            let slot = if i == field {
                Slot::Assigned(value)
            } else {
                self.slots[i]
            };
            slots.push(slot);
            assert(slots@ =~= target.take(i + 1));
            i += 1;
        }
        assert(slots@ =~= target);
        Ok(Builder { schema: self.schema, slots })
    }

    /// Starts a builder and makes the given setter calls in order.
    ///
    /// The result is the builder after the last call if every call is accepted; the error
    /// of the first call that is not ends the run.
    pub fn replay(schema: &'a StructSchema, calls: &[(usize, T)]) -> (r: Result<
        Builder<'a, T>,
        ProtocolError,
    >)
        ensures
            match r {
                Ok(builder) => builder.schema() == schema@ && schema@.run(calls_of(calls@)) == Some(
                    builder.state(),
                ),
                Err(error) => schema@.run(calls_of(calls@)) is None && exists|i: int|
                    0 <= i < calls@.len() && #[trigger] schema@.run(calls_of(calls@).take(i)) is Some
                        && schema@.run(calls_of(calls@).take(i + 1)) is None && error
                        == schema@.set_error(calls@[i].0 as int),
            },
    {
        let ghost all = calls_of(calls@);
        let mut builder = Builder::start(schema);
        let mut i: usize = 0;
        assert(all.take(0) =~= Seq::<Call<T>>::empty());
        while i < calls.len()
            invariant
                i <= calls.len(),
                all == calls_of(calls@),
                builder.schema() == schema@,
                schema@.run(all.take(i as int)) == Some(builder.state()),
            decreases calls.len() - i,
        {
            let (field, value) = calls[i];
            proof {
                assert(all.take(i + 1).drop_last() =~= all.take(i as int));
                assert(all.take(i + 1).last() == (field as int, value));
            }
            match builder.set(field, value) {
                Ok(next) => {
                    builder = next;
                },
                Err(error) => {
                    proof {
                        lemma_run_rejected(schema@, all, i as int + 1);
                        assert(schema@.run(all.take(i as int)) is Some);
                    }
                    return Err(error);
                },
            }
            i += 1;
        }
        assert(all.take(i as int) =~= all);
        Ok(builder)
    }

    /// Calls the setter of a field that is known to have one and not to be set yet.
    ///
    /// Where the caller is verified, a call that the protocol does not accept is refused
    /// before the program runs, as the synthesized setter refuses it by its type.
    pub fn assign(&self, field: usize, value: T) -> (r: Builder<'a, T>)
        requires
            self.schema().can_set(self.state(), field as int),
        ensures
            r.schema() == self.schema(),
            r.state() == self.schema().set(self.state(), field as int, value),
            r.schema().valid_state(r.state()),
    {
        match self.set(field, value) {
            Ok(next) => next,
            Err(_) => vstd::pervasive::unreached(),
        }
    }

    /// Finishes a record of which every mandatory field is known to be set.
    ///
    /// Where the caller is verified, finishing too early is refused before the program runs,
    /// as the synthesized finalizer refuses it by its type.
    pub fn build(self) -> (r: Vec<FieldValue<T>>)
        requires
            self.schema().can_finalize(self.state()),
        ensures
            r@.len() == self.schema().fields.len(),
            r@.map_values(|value: FieldValue<T>| value@) == self.schema().finalize(self.state()),
    {
        match self.finalize() {
            Ok(record) => record,
            Err(_) => vstd::pervasive::unreached(),
        }
    }

    /// Whether field `field` is set.
    pub fn is_set(&self, field: usize) -> (r: bool)
        ensures
            self.schema().valid_state(self.state()),
            r == (field < self.state().len() && self.state()[field as int] is Assigned),
    {
        proof {
            use_type_invariant(self);
        }
        if field < self.slots.len() {
            match self.slots[field] {
                Slot::Assigned(_) => true,
                Slot::Unset => false,
            }
        } else {
            false
        }
    }

    /// The markers of this builder: what the type of the synthesized builder records where
    /// this one holds a state.
    pub fn markers(&self) -> (r: Vec<Marker>)
        ensures
            r@ == markers_of(self.state()),
    {
        let mut markers: Vec<Marker> = Vec::new();
        let mut i: usize = 0;
        while i < self.slots.len()
            invariant
                i <= self.slots.len(),
                markers@ == markers_of(self.slots@).take(i as int),
            decreases self.slots.len() - i,
        {
            let marker = match self.slots[i] {
                Slot::Assigned(_) => Marker::Assigned,
                Slot::Unset => Marker::Unset,
            };
            markers.push(marker);
            assert(markers@ =~= markers_of(self.slots@).take(i + 1));
            i += 1;
        }
        assert(markers@ =~= markers_of(self.slots@));
        markers
    }

    /// Finishes the record.
    ///
    /// This succeeds exactly when every mandatory field is set. The record then has, for
    /// every field in declaration order, the value that was set, or the declared default
    /// where none was. Otherwise the first mandatory field that is not set is reported.
    pub fn finalize(self) -> (r: Result<Vec<FieldValue<T>>, ProtocolError>)
        ensures
            self.schema().valid_state(self.state()),
            match r {
                Ok(record) => {
                    &&& self.schema().can_finalize(self.state())
                    &&& record@.len() == self.schema().fields.len()
                    &&& record@.map_values(|value: FieldValue<T>| value@) == self.schema().finalize(
                        self.state(),
                    )
                },
                Err(error) => {
                    &&& !self.schema().can_finalize(self.state())
                    &&& error matches ProtocolError::Missing(i)
                    &&& self.schema().first_missing(self.state(), i as int)
                },
            },
    {
        proof {
            use_type_invariant(&self);
        }
        let fields = self.schema.fields();
        let ghost schema = self.schema@;
        let ghost state = self.slots@;
        let mut record: Vec<FieldValue<T>> = Vec::new();
        let mut i: usize = 0;
        while i < fields.len()
            invariant
                i <= fields.len(),
                schema == self.schema@,
                state == self.slots@,
                schema.wf(),
                schema.valid_state(state),
                fields@.len() == schema.fields.len(),
                fields@.map_values(|f: FieldSchema| f@) == schema.fields,
                record@.len() == i,
                forall|j: int| 0 <= j < i && schema.fields[j].mandatory ==> (#[trigger] state[j]) is Assigned,
                forall|j: int| 0 <= j < i ==> (#[trigger] record@[j])@ == schema.finalized_field(state, j),
            decreases fields.len() - i,
        {
            assert(fields@[i as int]@ == schema.fields[i as int]);
            assert(schema.fields[i as int].wf());
            match self.slots[i] {
                Slot::Assigned(value) => {
                    record.push(FieldValue::Given(value));
                },
                Slot::Unset => {
                    match fields[i].default() {
                        Some(spec) => {
                            record.push(FieldValue::Defaulted(spec.clone()));
                        },
                        None => {
                            assert(!(state[i as int] is Assigned));
                            return Err(ProtocolError::Missing(i));
                        },
                    }
                },
            }
            i += 1;
        }
        assert(record@.map_values(|value: FieldValue<T>| value@) =~= schema.finalize(state));
        Ok(record)
    }
}

} // verus!
