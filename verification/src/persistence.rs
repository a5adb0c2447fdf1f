//! Persistence decisions of an entity. The store itself is reached by the
//! caller, who holds the handle: each function here says what to ask of the
//! store, or what to make of its answer.

use crate::digest::{derived_id, lemma_id_of_digest_bound, sha256};
use crate::entity::{hash_input, lemma_created_record, lemma_row_round_trip};
use crate::error::{RecordError, RowError};
use crate::field::{id_name, is_id_name, Column, ColumnView, FieldDescriptorView};
use crate::object::{hashed_fields, EntityDescriptorView, ObjectDecoder};
use crate::scalar::{Value, ValueView};
use crate::schema::ExecutionTarget;
use vstd::prelude::*;

verus! {

/// What the caller is to do at the persistence handle.
#[derive(Debug, PartialEq, Eq)]
pub enum StoreAction {
    /// Leave the store alone.
    Nothing,
    /// Fetch the row stored for an identifier under a type tag.
    Get { type_id: i64, id: u64 },
    /// Store a row under a type tag.
    Put { type_id: i64, row: Vec<Column> },
}

/// What a [`StoreAction`] holds.
pub enum StoreActionView {
    Nothing,
    Get { type_id: int, id: u64 },
    Put { type_id: int, row: Seq<ColumnView> },
}

impl DeepView for StoreAction {
    type V = StoreActionView;

    open spec fn deep_view(&self) -> StoreActionView {
        match self {
            StoreAction::Nothing => StoreActionView::Nothing,
            StoreAction::Get { type_id, id } => StoreActionView::Get {
                type_id: *type_id as int,
                id: *id,
            },
            StoreAction::Put { type_id, row } => StoreActionView::Put {
                type_id: *type_id as int,
                row: row.deep_view(),
            },
        }
    }
}

impl View for StoreAction {
    type V = StoreActionView;

    open spec fn view(&self) -> StoreActionView {
        self.deep_view()
    }
}

/// Whether `index` is the first field that is the `id` field.
pub open spec fn is_id_slot(fields: Seq<FieldDescriptorView>, index: int) -> bool {
    &&& 0 <= index < fields.len()
    &&& fields[index].name == id_name()
    &&& forall|j: int| 0 <= j < index ==> (#[trigger] fields[j]).name != id_name()
}

impl EntityDescriptorView {
    /// Whether the entity reaches the store: only an entity compiled for
    /// the native target does, and only through a handle that is there.
    pub open spec fn persists(self, handle_ready: bool) -> bool {
        self.execution_target == ExecutionTarget::Native && handle_ready
    }

    /// What loading an identifier asks of the store.
    pub open spec fn load_action(self, handle_ready: bool, id: u64) -> StoreActionView {
        if self.persists(handle_ready) {
            StoreActionView::Get { type_id: self.type_id, id }
        } else {
            StoreActionView::Nothing
        }
    }

    /// What saving a record asks of the store, or the error for a record
    /// that is not valid and would have been stored.
    pub open spec fn save_action(self, handle_ready: bool, record: Seq<ValueView>) -> Result<
        StoreActionView,
        RecordError,
    > {
        if !self.persists(handle_ready) {
            Ok(StoreActionView::Nothing)
        } else {
            match self.to_row(record) {
                Ok(row) => Ok(StoreActionView::Put { type_id: self.type_id, row }),
                Err(e) => Err(e),
            }
        }
    }

    /// What the store's answer to a fetch amounts to: no record where
    /// nothing was found, else the record that the row is read back into.
    pub open spec fn loaded(self, fetched: Option<Seq<ColumnView>>) -> Result<
        Option<Seq<ValueView>>,
        RowError,
    > {
        match fetched {
            None => Ok(None),
            Some(row) => match self.from_row(row) {
                Ok(record) => Ok(Some(record)),
                Err(e) => Err(e),
            },
        }
    }

    /// The identifier that a record holds: the unsigned value of 64 bits in
    /// its first `id` field, if it has one.
    pub open spec fn identifier_of(self, record: Seq<ValueView>) -> Option<u64> {
        if exists|i: int| is_id_slot(self.fields, i) {
            let slot = choose|i: int| is_id_slot(self.fields, i);
            if slot < record.len() {
                match record[slot] {
                    ValueView::Unsigned(x) => if x <= u64::MAX {
                        Some(x as u64)
                    } else {
                        None
                    },
                    _ => None,
                }
            } else {
                None
            }
        } else {
            None
        }
    }
}

/// What the store handed back for a fetch.
pub open spec fn fetched_view(fetched: Option<&Vec<Column>>) -> Option<Seq<ColumnView>> {
    match fetched {
        Some(row) => Some(row.deep_view()),
        None => None,
    }
}

/// What get-or-create settles on: the stored instance where one was
/// found, and nothing to save; else the record itself, which is to be saved.
pub open spec fn settled<T>(record: T, found: Option<T>) -> (T, bool) {
    match found {
        Some(instance) => (instance, false),
        None => (record, true),
    }
}

impl ObjectDecoder {
    /// Says what loading the record of an identifier asks of the store.
    /// Without a handle, and for a sandboxed target, it asks nothing: the
    /// record is not found.
    pub fn load(&self, handle_ready: bool, id: u64) -> (action: StoreAction)
        ensures
            action@ == self@.load_action(handle_ready, id),
    {
        match (self.execution_target(), handle_ready) {
            (ExecutionTarget::Native, true) => StoreAction::Get { type_id: self.type_id(), id },
            _ => StoreAction::Nothing,
        }
    }

    /// Makes of the store's answer to a fetch the record that was loaded,
    /// if any.
    pub fn loaded(&self, fetched: Option<&Vec<Column>>) -> (record: Result<
        Option<Vec<Value>>,
        RowError,
    >)
        ensures
            match record {
                Ok(Some(values)) => self@.loaded(fetched_view(fetched)) == Ok::<
                    Option<Seq<ValueView>>,
                    RowError,
                >(Some(values.deep_view())),
                Ok(None) => self@.loaded(fetched_view(fetched)) == Ok::<
                    Option<Seq<ValueView>>,
                    RowError,
                >(None),
                Err(e) => self@.loaded(fetched_view(fetched)) == Err::<
                    Option<Seq<ValueView>>,
                    RowError,
                >(e),
            },
    {
        match fetched {
            None => Ok(None),
            Some(row) => match self.from_row(row) {
                Ok(values) => Ok(Some(values)),
                Err(e) => Err(e),
            },
        }
    }

    /// Says what saving a record asks of the store. Without a handle, and
    /// for a sandboxed target, saving does nothing.
    pub fn save(&self, handle_ready: bool, record: &Vec<Value>) -> (action: Result<
        StoreAction,
        RecordError,
    >)
        ensures
            match action {
                Ok(a) => self@.save_action(handle_ready, record.deep_view()) == Ok::<
                    StoreActionView,
                    RecordError,
                >(a@),
                Err(e) => self@.save_action(handle_ready, record.deep_view()) == Err::<
                    StoreActionView,
                    RecordError,
                >(e),
            },
    {
        match (self.execution_target(), handle_ready) {
            (ExecutionTarget::Native, true) => match self.to_row(record) {
                Ok(row) => Ok(StoreAction::Put { type_id: self.type_id(), row }),
                Err(e) => Err(e),
            },
            _ => Ok(StoreAction::Nothing),
        }
    }

    /// The identifier that a record holds in its `id` field.
    pub fn identifier(&self, record: &Vec<Value>) -> (id: Option<u64>)
        ensures
            id == self@.identifier_of(record.deep_view()),
    {
        let fields = self.fields();
        let mut i: usize = 0;
        while i < fields.len()
            invariant
                i <= fields.len(),
                fields.deep_view() == self@.fields,
                forall|j: int| 0 <= j < i ==> (#[trigger] self@.fields[j]).name != id_name(),
            decreases fields.len() - i,
        {
            if is_id_name(fields[i].name.as_str()) {
                proof {
                    assert(is_id_slot(self@.fields, i as int));
                }
                if i >= record.len() {
                    return None;
                }
                return match &record[i] {
                    Value::Unsigned(x) => if *x <= u64::MAX as u128 {
                        Some(*x as u64)
                    } else {
                        None
                    },
                    _ => None,
                };
            }
            i += 1;
        }
        None
    }

    /// Decides between a stored instance and a new record: the instance
    /// where one was found; else the record, with the word to save it.
    pub fn get_or_create(record: Vec<Value>, found: Option<Vec<Value>>) -> (outcome: (
        Vec<Value>,
        bool,
    ))
        ensures
            outcome == settled(record, found),
    {
        match found {
            Some(instance) => (instance, false),
            None => (record, true),
        }
    }
}

/// Among fields of which one is the `id` field there is a first such.
proof fn lemma_first_id_slot(fields: Seq<FieldDescriptorView>, some: int) -> (first: int)
    requires
        0 <= some < fields.len(),
        fields[some].name == id_name(),
    ensures
        is_id_slot(fields, first),
    decreases some,
{
    if exists|j: int| 0 <= j < some && (#[trigger] fields[j]).name == id_name() {
        let j = choose|j: int| 0 <= j < some && (#[trigger] fields[j]).name == id_name();
        lemma_first_id_slot(fields, j)
    } else {
        some
    }
}

/// What was saved is what is loaded: the row that saving a valid record
/// puts into the store is read back, once fetched, into that record.
pub proof fn lemma_saved_record_loads(entity: EntityDescriptorView, record: Seq<ValueView>)
    requires
        entity.accepts(record),
        entity.execution_target == ExecutionTarget::Native,
    ensures
        entity.save_action(true, record) == Ok::<StoreActionView, RecordError>(
            StoreActionView::Put { type_id: entity.type_id, row: entity.row_of(record) },
        ),
        entity.loaded(Some(entity.row_of(record))) == Ok::<Option<Seq<ValueView>>, RowError>(
            Some(record),
        ),
{
    lemma_row_round_trip(entity, record);
}

/// The identifier of a created record is the one derived from its values,
/// so that loading by it finds the record of the same content.
pub proof fn lemma_created_identifier(entity: EntityDescriptorView, values: Seq<ValueView>)
    requires
        entity.wf(),
        entity.created(values) is Ok,
    ensures
        entity.identifier_of(entity.created(values)->Ok_0) == Some(
            derived_id(hash_input(hashed_fields(entity.fields), values)) as u64,
        ),
{
    lemma_created_record(entity, values);
    lemma_id_of_digest_bound(sha256(hash_input(hashed_fields(entity.fields), values)));
    let some = choose|i: int|
        0 <= i < entity.fields.len() && (#[trigger] entity.fields[i]).name == id_name();
    lemma_first_id_slot(entity.fields, some);
}

} // verus!
