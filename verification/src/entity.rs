//! The entity contract of a compiled object or union: records to rows and
//! back, and the constructor that derives a record's identifier from its
//! content.

use crate::digest::{
    concatenated, derive_identifier, derived_id, lemma_id_of_digest_bound, sha256,
};
use crate::error::{RecordError, RowError};
use crate::field::{
    id_name, is_id_name, Column, ColumnView, FieldDescriptor, FieldDescriptorView,
};
use crate::object::{hashed_fields, EntityDescriptorView, ObjectDecoder};
use crate::scalar::{NativeRepr, ScalarType, Value, ValueView};
use vstd::prelude::*;

verus! {

/// The canonical byte encodings of the values of the hashed fields, in
/// field order.
pub open spec fn field_encodings(hashed: Seq<FieldDescriptorView>, values: Seq<ValueView>) -> Seq<
    Seq<u8>,
> {
    Seq::new(hashed.len(), |k: int| hashed[k].scalar.repr().encoding(values[k]))
}

/// The bytes that identifier derivation hashes: the encodings of the values
/// of the hashed fields, one after the other in field order.
pub open spec fn hash_input(hashed: Seq<FieldDescriptorView>, values: Seq<ValueView>) -> Seq<u8> {
    concatenated(field_encodings(hashed, values))
}

/// The record with `id` in every `id` field and `values` in the other
/// fields, in field order.
pub open spec fn assembled(fields: Seq<FieldDescriptorView>, values: Seq<ValueView>, id: ValueView) -> Seq<
    ValueView,
>
    decreases fields.len(),
{
    if fields.len() == 0 {
        Seq::empty()
    } else if fields.last().name == id_name() {
        assembled(fields.drop_last(), values, id).push(id)
    } else {
        assembled(fields.drop_last(), values.drop_last(), id).push(values.last())
    }
}

/// Whether `index` is the first position at which a value is outside the
/// value space of the field at that position.
pub open spec fn is_first_mismatch(
    fields: Seq<FieldDescriptorView>,
    values: Seq<ValueView>,
    index: int,
) -> bool {
    &&& 0 <= index < fields.len()
    &&& !fields[index].scalar.repr().admits(values[index])
    &&& forall|j: int|
        0 <= j < index ==> (#[trigger] fields[j]).scalar.repr().admits(values[j])
}

/// Whether there is one value for each field, within the field's value space.
pub open spec fn all_admitted(fields: Seq<FieldDescriptorView>, values: Seq<ValueView>) -> bool {
    &&& values.len() == fields.len()
    &&& forall|i: int|
        0 <= i < fields.len() ==> (#[trigger] fields[i]).scalar.repr().admits(values[i])
}

/// The error for values that do not fit the fields one for one: their
/// number where it is wrong, else the first position whose value is
/// outside its field's value space.
pub open spec fn mismatch(fields: Seq<FieldDescriptorView>, values: Seq<ValueView>) -> RecordError {
    if values.len() != fields.len() {
        RecordError::FieldCount { expected: fields.len() as usize, found: values.len() as usize }
    } else {
        RecordError::ValueMismatch {
            position: (choose|i: int| is_first_mismatch(fields, values, i)) as usize,
        }
    }
}

impl EntityDescriptorView {
    /// Whether a record is valid for the entity: one value per field, each
    /// within the value space of the field's scalar.
    pub open spec fn accepts(self, record: Seq<ValueView>) -> bool {
        all_admitted(self.fields, record)
    }

    /// The row of a valid record: for each field, in order, a column tagged
    /// with the field's scalar that holds the field's value.
    pub open spec fn row_of(self, record: Seq<ValueView>) -> Seq<ColumnView> {
        Seq::new(
            self.fields.len(),
            |i: int| ColumnView { tag: self.fields[i].scalar, value: Some(record[i]) },
        )
    }

    /// The row of a record, or the error for a record that is not valid.
    pub open spec fn to_row(self, record: Seq<ValueView>) -> Result<Seq<ColumnView>, RecordError> {
        if self.accepts(record) {
            Ok(self.row_of(record))
        } else {
            Err(mismatch(self.fields, record))
        }
    }

    /// What the extractor of slot `i` reads out of a row.
    pub open spec fn slot_read(self, row: Seq<ColumnView>, i: int) -> Result<ValueView, RowError> {
        self.fields[i].extractor(i as usize).extracted(row[i])
    }

    /// Whether a row has one column per field and every extractor reads a
    /// value out of its slot.
    pub open spec fn readable(self, row: Seq<ColumnView>) -> bool {
        &&& row.len() == self.fields.len()
        &&& forall|i: int| 0 <= i < self.fields.len() ==> #[trigger] self.slot_read(row, i) is Ok
    }

    /// Whether `index` is the first slot whose extractor reads no value.
    pub open spec fn is_first_unreadable(self, row: Seq<ColumnView>, index: int) -> bool {
        &&& 0 <= index < self.fields.len()
        &&& self.slot_read(row, index) is Err
        &&& forall|j: int| 0 <= j < index ==> #[trigger] self.slot_read(row, j) is Ok
    }

    /// The record of a readable row: what each extractor reads, in slot order.
    pub open spec fn record_of(self, row: Seq<ColumnView>) -> Seq<ValueView> {
        Seq::new(self.fields.len(), |i: int| self.slot_read(row, i)->Ok_0)
    }

    /// The record that a row is read back into, or the error: the column
    /// count where it is wrong, else the error of the first slot whose
    /// extractor reads no value.
    pub open spec fn from_row(self, row: Seq<ColumnView>) -> Result<Seq<ValueView>, RowError> {
        if self.readable(row) {
            Ok(self.record_of(row))
        } else if row.len() != self.fields.len() {
            Err(
                RowError::ColumnCount {
                    fields: self.fields.len() as usize,
                    columns: row.len() as usize,
                },
            )
        } else {
            Err(self.slot_read(row, choose|i: int| self.is_first_unreadable(row, i))->Err_0)
        }
    }

    /// The identifier derived from the values of the hashed fields.
    pub open spec fn derived_identifier(self, values: Seq<ValueView>) -> ValueView {
        ValueView::Unsigned(derived_id(hash_input(hashed_fields(self.fields), values)) as u128)
    }

    /// The record that the constructor makes of the values of all fields
    /// but `id`: those values, with the identifier derived from them in the
    /// `id` field. It is an error where the entity has no `id` field, and
    /// where the values do not fit the hashed fields.
    pub open spec fn created(self, values: Seq<ValueView>) -> Result<Seq<ValueView>, RecordError> {
        if self.identifier_spec is None {
            Err(RecordError::NoIdentifier)
        } else if all_admitted(hashed_fields(self.fields), values) {
            Ok(assembled(self.fields, values, self.derived_identifier(values)))
        } else {
            Err(mismatch(hashed_fields(self.fields), values))
        }
    }
}

/// The hashed fields of the first `upto` fields are the first hashed fields
/// of all.
proof fn lemma_hashed_prefix(fields: Seq<FieldDescriptorView>, upto: int)
    requires
        0 <= upto <= fields.len(),
    ensures
        hashed_fields(fields.take(upto)).len() <= hashed_fields(fields).len(),
        hashed_fields(fields.take(upto)) == hashed_fields(fields).take(
            hashed_fields(fields.take(upto)).len() as int,
        ),
{
    assert(fields =~= fields.take(upto) + fields.skip(upto));
}

/// The hashed fields of one more field.
proof fn lemma_hashed_step(fields: Seq<FieldDescriptorView>, i: int)
    requires
        0 <= i < fields.len(),
    ensures
        hashed_fields(fields.take(i + 1)) == if fields[i].name != id_name() {
            hashed_fields(fields.take(i)).push(fields[i])
        } else {
            hashed_fields(fields.take(i))
        },
{
    reveal(Seq::filter);
    assert(fields.take(i + 1).drop_last() =~= fields.take(i));
}

impl ObjectDecoder {
    /// Encodes a record into a row: one tagged column per field, in field
    /// order.
    pub fn to_row(&self, record: &Vec<Value>) -> (row: Result<Vec<Column>, RecordError>)
        ensures
            match row {
                Ok(columns) => self@.to_row(record.deep_view()) == Ok::<
                    Seq<ColumnView>,
                    RecordError,
                >(columns.deep_view()),
                Err(e) => self@.to_row(record.deep_view()) == Err::<Seq<ColumnView>, RecordError>(e),
            },
    {
        let fields = self.fields();
        let encoders = self.encoders();
        let ghost view = self@;
        let ghost values = record.deep_view();
        if record.len() != fields.len() {
            return Err(RecordError::FieldCount { expected: fields.len(), found: record.len() });
        }
        let mut columns: Vec<Column> = Vec::new();
        let mut i: usize = 0;
        while i < fields.len()
            invariant
                i <= fields.len(),
                view == self@,
                view.wf(),
                values == record.deep_view(),
                record.len() == fields.len(),
                fields.deep_view() == view.fields,
                encoders@ == view.encoders,
                columns.deep_view() == view.row_of(values).take(i as int),
                forall|k: int|
                    0 <= k < i ==> (#[trigger] view.fields[k]).scalar.repr().admits(values[k]),
            decreases fields.len() - i,
        {
            let ghost before = columns.deep_view();
            match encoders[i].encode(&record[i]) {
                Err(e) => {
                    proof {
                        assert(is_first_mismatch(view.fields, values, i as int));
                    }
                    return Err(RecordError::ValueMismatch { position: i });
                },
                Ok(column) => {
                    columns.push(column);
                    proof {
                        assert(columns.deep_view() =~= before.push(view.row_of(values)[i as int]));
                    }
                },
            }
            i += 1;
        }
        proof {
            assert(view.row_of(values).take(i as int) =~= view.row_of(values));
        }
        Ok(columns)
    }

    /// Reads a row back into a record: the extractor of each slot reads the
    /// value of its field.
    pub fn from_row(&self, row: &Vec<Column>) -> (record: Result<Vec<Value>, RowError>)
        ensures
            match record {
                Ok(values) => self@.from_row(row.deep_view()) == Ok::<Seq<ValueView>, RowError>(
                    values.deep_view(),
                ),
                Err(e) => self@.from_row(row.deep_view()) == Err::<Seq<ValueView>, RowError>(e),
            },
    {
        let fields = self.fields();
        let extractors = self.extractors();
        let ghost view = self@;
        let ghost columns = row.deep_view();
        let count = fields.len();
        if row.len() != count {
            return Err(RowError::ColumnCount { fields: count, columns: row.len() });
        }
        let mut values: Vec<Value> = Vec::new();
        let mut i: usize = 0;
        while i < count
            invariant
                i <= count,
                count == fields.len(),
                extractors@.len() == count,
                view == self@,
                view.wf(),
                columns == row.deep_view(),
                row.len() == count,
                fields.deep_view() == view.fields,
                extractors@ == view.extractors,
                values.deep_view() == view.record_of(columns).take(i as int),
                forall|k: int| 0 <= k < i ==> #[trigger] view.slot_read(columns, k) is Ok,
            decreases count - i,
        {
            let ghost before = values.deep_view();
            // The list of extractors starts with the one of the last slot.
            let extractor = &extractors[count - 1 - i];
            match extractor.extract(&row[i]) {
                Err(e) => {
                    proof {
                        assert(view.is_first_unreadable(columns, i as int));
                    }
                    return Err(e);
                },
                Ok(value) => {
                    values.push(value);
                    proof {
                        assert(values.deep_view() =~= before.push(
                            view.slot_read(columns, i as int)->Ok_0,
                        ));
                    }
                },
            }
            i += 1;
        }
        proof {
            assert(view.record_of(columns).take(i as int) =~= view.record_of(columns));
        }
        Ok(values)
    }

    /// The parameters of the constructor: the hashed fields, in field
    /// order, where the entity has an `id` field.
    pub fn constructor_parameters(&self) -> (parameters: Option<Vec<FieldDescriptor>>)
        ensures
            match parameters {
                Some(hashed) => self@.identifier_spec is Some && hashed.deep_view()
                    == hashed_fields(self@.fields),
                None => self@.identifier_spec is None,
            },
    {
        let fields = self.fields();
        if self.identifier_spec().is_none() {
            return None;
        }
        let ghost view = self@;
        let mut hashed: Vec<FieldDescriptor> = Vec::new();
        let mut i: usize = 0;
        proof {
            reveal(Seq::filter);
            assert(view.fields.take(0) =~= Seq::empty());
        }
        while i < fields.len()
            invariant
                i <= fields.len(),
                fields.deep_view() == view.fields,
                hashed.deep_view() == hashed_fields(view.fields.take(i as int)),
            decreases fields.len() - i,
        {
            let ghost before = hashed.deep_view();
            proof {
                lemma_hashed_step(view.fields, i as int);
                assert(fields.deep_view()[i as int] == fields[i as int]@);
            }
            if !is_id_name(fields[i].name.as_str()) {
                hashed.push(fields[i].clone());
                proof {
                    assert(hashed.deep_view() =~= before.push(view.fields[i as int]));
                }
            }
            i += 1;
        }
        proof {
            assert(view.fields.take(i as int) =~= view.fields);
        }
        Some(hashed)
    }

    /// Makes a record of the values of all fields but `id`, in field order;
    /// its identifier is derived from those values.
    pub fn create(&self, values: &Vec<Value>) -> (record: Result<Vec<Value>, RecordError>)
        ensures
            match record {
                Ok(made) => self@.created(values.deep_view()) == Ok::<Seq<ValueView>, RecordError>(
                    made.deep_view(),
                ),
                Err(e) => self@.created(values.deep_view()) == Err::<Seq<ValueView>, RecordError>(e),
            },
    {
        let fields = self.fields();
        let ghost view = self@;
        let ghost given = values.deep_view();
        let ghost hashed = hashed_fields(view.fields);
        let parameters = match self.identifier_spec() {
            None => {
                return Err(RecordError::NoIdentifier);
            },
            Some(names) => names,
        };
        assert(parameters.deep_view().len() == hashed.len());
        if values.len() != parameters.len() {
            return Err(
                RecordError::FieldCount { expected: parameters.len(), found: values.len() },
            );
        }
        // First pass: the encodings to hash.
        let mut encodings: Vec<Vec<u8>> = Vec::new();
        let mut taken: usize = 0;
        let mut i: usize = 0;
        while i < fields.len()
            invariant
                i <= fields.len(),
                taken <= values.len(),
                view == self@,
                view.wf(),
                view.identifier_spec is Some,
                given == values.deep_view(),
                hashed == hashed_fields(view.fields),
                values.len() == hashed.len(),
                fields.deep_view() == view.fields,
                taken == hashed_fields(view.fields.take(i as int)).len(),
                encodings.len() == taken,
                encodings.deep_view() == field_encodings(hashed, given).take(taken as int),
                forall|k: int|
                    0 <= k < taken ==> (#[trigger] hashed[k]).scalar.repr().admits(given[k]),
            decreases fields.len() - i,
        {
            proof {
                lemma_hashed_step(view.fields, i as int);
                lemma_hashed_prefix(view.fields, i + 1);
            }
            if !is_id_name(fields[i].name.as_str()) {
                proof {
                    let upto = hashed_fields(view.fields.take(i + 1));
                    assert(upto[taken as int] == view.fields[i as int]);
                }
                match fields[i].scalar.encode(&values[taken]) {
                    None => {
                        proof {
                            assert(is_first_mismatch(hashed, given, taken as int));
                        }
                        return Err(RecordError::ValueMismatch { position: taken });
                    },
                    Some(encoding) => {
                        let ghost piece = encoding@;
                        encodings.push(encoding);
                        proof {
                            assert(encodings.deep_view()[taken as int] =~= piece);
                        }
                        taken += 1;
                    },
                }
            }
            i += 1;
        }
        proof {
            assert(view.fields.take(i as int) =~= view.fields);
            assert(field_encodings(hashed, given).take(taken as int) =~= field_encodings(
                hashed,
                given,
            ));
        }
        let id = Value::Unsigned(derive_identifier(&encodings) as u128);
        // Second pass: the record.
        let mut made: Vec<Value> = Vec::new();
        let mut taken: usize = 0;
        let mut i: usize = 0;
        while i < fields.len()
            invariant
                i <= fields.len(),
                taken <= values.len(),
                view.wf(),
                given == values.deep_view(),
                hashed == hashed_fields(view.fields),
                values.len() == hashed.len(),
                fields.deep_view() == view.fields,
                taken == hashed_fields(view.fields.take(i as int)).len(),
                made.deep_view() == assembled(
                    view.fields.take(i as int),
                    given.take(taken as int),
                    id@,
                ),
            decreases fields.len() - i,
        {
            proof {
                lemma_hashed_step(view.fields, i as int);
                lemma_hashed_prefix(view.fields, i + 1);
                assert(view.fields.take(i + 1).drop_last() =~= view.fields.take(i as int));
            }
            if is_id_name(fields[i].name.as_str()) {
                made.push(id.clone());
            } else {
                proof {
                    assert(given.take(taken + 1).drop_last() =~= given.take(taken as int));
                }
                made.push(values[taken].clone());
                taken += 1;
            }
            i += 1;
        }
        proof {
            assert(given.take(taken as int) =~= given);
        }
        Ok(made)
    }
}

/// The values that a record holds in the hashed fields, in field order.
pub open spec fn hashed_values(fields: Seq<FieldDescriptorView>, record: Seq<ValueView>) -> Seq<
    ValueView,
>
    decreases fields.len(),
{
    if fields.len() == 0 {
        Seq::empty()
    } else if fields.last().name == id_name() {
        hashed_values(fields.drop_last(), record.drop_last())
    } else {
        hashed_values(fields.drop_last(), record.drop_last()).push(record.last())
    }
}

/// What a record assembled from an identifier and values holds: it has one
/// value per field, the identifier in every `id` field and the values, in
/// order, in the others; and it is valid where its parts are.
pub proof fn lemma_assembled(fields: Seq<FieldDescriptorView>, values: Seq<ValueView>, id: ValueView)
    requires
        values.len() == hashed_fields(fields).len(),
    ensures
        assembled(fields, values, id).len() == fields.len(),
        hashed_values(fields, assembled(fields, values, id)) == values,
        forall|i: int|
            0 <= i < fields.len() && (#[trigger] fields[i]).name == id_name() ==> assembled(
                fields,
                values,
                id,
            )[i] == id,
        all_admitted(hashed_fields(fields), values) && ScalarType::Id.repr().admits(id) && (forall|
            i: int,
        |
            0 <= i < fields.len() ==> (#[trigger] fields[i]).id_rule()) ==> all_admitted(
            fields,
            assembled(fields, values, id),
        ),
    decreases fields.len(),
{
    reveal(Seq::filter);
    if fields.len() > 0 {
        let front = fields.drop_last();
        let made = assembled(fields, values, id);
        if fields.last().name == id_name() {
            lemma_assembled(front, values, id);
            assert(made.drop_last() =~= assembled(front, values, id));
            assert forall|i: int| 0 <= i < fields.len() && (#[trigger] fields[i]).name
                == id_name() implies made[i] == id by {
                if i < front.len() {
                    assert(front[i] == fields[i]);
                }
            }
            if all_admitted(hashed_fields(fields), values) && ScalarType::Id.repr().admits(id) && (
            forall|i: int| 0 <= i < fields.len() ==> (#[trigger] fields[i]).id_rule()) {
                assert forall|i: int| 0 <= i < fields.len() implies (
                #[trigger] fields[i]).scalar.repr().admits(made[i]) by {
                    if i < front.len() {
                        assert(front[i] == fields[i]);
                    }
                }
            }
        } else {
            let rest = values.drop_last();
            lemma_assembled(front, rest, id);
            assert(made.drop_last() =~= assembled(front, rest, id));
            assert forall|i: int| 0 <= i < fields.len() && (#[trigger] fields[i]).name
                == id_name() implies made[i] == id by {
                if i < front.len() {
                    assert(front[i] == fields[i]);
                }
            }
            if all_admitted(hashed_fields(fields), values) && ScalarType::Id.repr().admits(id) && (
            forall|i: int| 0 <= i < fields.len() ==> (#[trigger] fields[i]).id_rule()) {
                assert forall|k: int| 0 <= k < hashed_fields(front).len() implies (
                #[trigger] hashed_fields(front)[k]).scalar.repr().admits(rest[k]) by {
                    assert(hashed_fields(fields)[k] == hashed_fields(front)[k]);
                }
                assert(hashed_fields(fields)[hashed_fields(front).len() as int] == fields.last());
                assert forall|i: int| 0 <= i < fields.len() implies (
                #[trigger] fields[i]).scalar.repr().admits(made[i]) by {
                    if i < front.len() {
                        assert(front[i] == fields[i]);
                    }
                }
            }
        }
    }
}

/// The constructor makes a fully formed record: a record that the entity
/// accepts, that holds the values handed in, in their order, in the fields
/// other than `id`, and in every `id` field the identifier derived from
/// those values.
pub proof fn lemma_created_record(entity: EntityDescriptorView, values: Seq<ValueView>)
    requires
        entity.wf(),
        entity.created(values) is Ok,
    ensures
        entity.accepts(entity.created(values)->Ok_0),
        hashed_values(entity.fields, entity.created(values)->Ok_0) == values,
        forall|i: int|
            0 <= i < entity.fields.len() && (#[trigger] entity.fields[i]).name == id_name()
                ==> entity.created(values)->Ok_0[i] == entity.derived_identifier(values),
{
    lemma_id_of_digest_bound(sha256(hash_input(hashed_fields(entity.fields), values)));
    lemma_assembled(entity.fields, values, entity.derived_identifier(values));
}

/// Identifier derivation is deterministic: the same values for the fields
/// other than `id` give the same record with the same identifier, however
/// often the constructor is called.
pub proof fn lemma_create_deterministic(
    entity: EntityDescriptorView,
    first: Seq<ValueView>,
    second: Seq<ValueView>,
)
    requires
        first =~= second,
    ensures
        entity.derived_identifier(first) == entity.derived_identifier(second),
        entity.created(first) == entity.created(second),
{
}

/// Round trip: the row of a valid record is read back into that record.
pub proof fn lemma_row_round_trip(entity: EntityDescriptorView, record: Seq<ValueView>)
    requires
        entity.accepts(record),
    ensures
        entity.to_row(record) == Ok::<Seq<ColumnView>, RecordError>(entity.row_of(record)),
        entity.from_row(entity.row_of(record)) == Ok::<Seq<ValueView>, RowError>(record),
{
    let row = entity.row_of(record);
    assert(entity.record_of(row) =~= record);
}

/// The default value of a representation belongs to its value space.
pub proof fn lemma_default_admitted(repr: NativeRepr)
    ensures
        repr.admits(repr.default_view()),
{
}

/// What is read out of a row is a valid record.
pub proof fn lemma_read_record_is_valid(entity: EntityDescriptorView, row: Seq<ColumnView>)
    requires
        entity.from_row(row) is Ok,
    ensures
        entity.accepts(entity.from_row(row)->Ok_0),
{
}

} // verus!
