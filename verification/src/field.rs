//! Field translation: from one declared field to its typed field, the
//! extractor that reads its slot of a row and the encoder that writes it.

use crate::error::{CompileError, CompileErrorView, RecordError, RowError};
use crate::scalar::{scalar_named, CloneStrategy, ScalarType, Value, ValueView};
use crate::schema::{FieldDefinition, FieldDefinitionView};
use crate::text::str_eq;
use vstd::prelude::*;

verus! {

/// The name of the reserved identifier field.
pub open spec fn id_name() -> Seq<char> {
    "id"@
}

/// Whether a field name is that of the reserved identifier field.
pub fn is_id_name(name: &str) -> (is_id: bool)
    ensures
        is_id == (name@ == id_name()),
{
    str_eq(name, "id")
}

/// One typed field of an entity.
#[derive(Debug, PartialEq, Eq)]
pub struct FieldDescriptor {
    pub name: String,
    pub scalar: ScalarType,
    pub nullable: bool,
}

/// What a [`FieldDescriptor`] holds.
pub struct FieldDescriptorView {
    pub name: Seq<char>,
    pub scalar: ScalarType,
    pub nullable: bool,
}

impl DeepView for FieldDescriptor {
    type V = FieldDescriptorView;

    open spec fn deep_view(&self) -> FieldDescriptorView {
        FieldDescriptorView { name: self.name@, scalar: self.scalar, nullable: self.nullable }
    }
}

impl View for FieldDescriptor {
    type V = FieldDescriptorView;

    open spec fn view(&self) -> FieldDescriptorView {
        self.deep_view()
    }
}

impl Clone for FieldDescriptor {
    fn clone(&self) -> (copy: FieldDescriptor)
        ensures
            copy@ == self@,
    {
        FieldDescriptor { name: self.name.clone(), scalar: self.scalar, nullable: self.nullable }
    }
}

/// One tagged column value of a row: the scalar it belongs to and its value,
/// if it has one.
#[derive(Debug, PartialEq, Eq)]
pub struct Column {
    pub tag: ScalarType,
    pub value: Option<Value>,
}

/// What a [`Column`] holds.
pub struct ColumnView {
    pub tag: ScalarType,
    pub value: Option<ValueView>,
}

impl DeepView for Column {
    type V = ColumnView;

    open spec fn deep_view(&self) -> ColumnView {
        ColumnView {
            tag: self.tag,
            value: match self.value {
                Some(v) => Some(v@),
                None => None,
            },
        }
    }
}

impl View for Column {
    type V = ColumnView;

    open spec fn view(&self) -> ColumnView {
        self.deep_view()
    }
}

impl Clone for Column {
    fn clone(&self) -> (copy: Column)
        ensures
            copy@ == self@,
    {
        Column {
            tag: self.tag,
            value: match &self.value {
                Some(v) => Some(v.clone()),
                None => None,
            },
        }
    }
}

/// Reads the typed value of one field out of its slot of a row.
#[derive(Clone, Copy, Debug, PartialEq, Eq, Structural)]
pub struct RowExtractor {
    /// Position of the field's column in a row.
    pub slot: usize,
    /// The scalar that the column must be tagged with.
    pub scalar: ScalarType,
    /// Whether the column may be without a value.
    pub nullable: bool,
}

/// Writes the typed value of one field into its slot of a row.
#[derive(Clone, Copy, Debug, PartialEq, Eq, Structural)]
pub struct RowEncoder {
    /// Position of the field's column in a row.
    pub slot: usize,
    /// The scalar that the column is tagged with.
    pub scalar: ScalarType,
    /// How the value is duplicated into the row.
    pub strategy: CloneStrategy,
}

impl RowExtractor {
    /// What the extractor reads out of a column: the column's value; the
    /// scalar's default where a nullable field's column has none; an error
    /// where the column belongs to another scalar, lacks a required value or
    /// holds a value outside the scalar's value space.
    pub open spec fn extracted(self, column: ColumnView) -> Result<ValueView, RowError> {
        if column.tag != self.scalar {
            Err(RowError::WrongColumn { slot: self.slot, expected: self.scalar, found: column.tag })
        } else {
            match column.value {
                None => if self.nullable {
                    Ok(self.scalar.repr().default_view())
                } else {
                    Err(RowError::MissingValue { slot: self.slot })
                },
                Some(v) => if self.scalar.repr().admits(v) {
                    Ok(v)
                } else {
                    Err(RowError::MalformedValue { slot: self.slot })
                },
            }
        }
    }

    /// Reads the field's value out of its column.
    pub fn extract(&self, column: &Column) -> (value: Result<Value, RowError>)
        ensures
            match value {
                Ok(v) => self.extracted(column@) == Ok::<ValueView, RowError>(v@),
                Err(e) => self.extracted(column@) == Err::<ValueView, RowError>(e),
            },
    {
        if column.tag != self.scalar {
            return Err(
                RowError::WrongColumn { slot: self.slot, expected: self.scalar, found: column.tag },
            );
        }
        match &column.value {
            None => {
                if self.nullable {
                    Ok(self.scalar.default_value())
                } else {
                    Err(RowError::MissingValue { slot: self.slot })
                }
            },
            Some(v) => {
                if self.scalar.native_repr().accepts(v) {
                    Ok(v.clone())
                } else {
                    Err(RowError::MalformedValue { slot: self.slot })
                }
            },
        }
    }
}

impl RowEncoder {
    /// The column that the encoder writes for a value of the field's scalar,
    /// and the error for any other value.
    pub open spec fn encoded(self, value: ValueView) -> Result<ColumnView, RecordError> {
        if self.scalar.repr().admits(value) {
            Ok(ColumnView { tag: self.scalar, value: Some(value) })
        } else {
            Err(RecordError::ValueMismatch { position: self.slot })
        }
    }

    /// Writes the field's value into a column.
    pub fn encode(&self, value: &Value) -> (column: Result<Column, RecordError>)
        ensures
            match column {
                Ok(c) => self.encoded(value@) == Ok::<ColumnView, RecordError>(c@),
                Err(e) => self.encoded(value@) == Err::<ColumnView, RecordError>(e),
            },
    {
        if self.scalar.native_repr().accepts(value) {
            Ok(Column { tag: self.scalar, value: Some(value.clone()) })
        } else {
            Err(RecordError::ValueMismatch { position: self.slot })
        }
    }
}

impl FieldDescriptorView {
    /// The extractor of this field at a slot.
    pub open spec fn extractor(self, slot: usize) -> RowExtractor {
        RowExtractor { slot, scalar: self.scalar, nullable: self.nullable }
    }

    /// The encoder of this field at a slot.
    pub open spec fn encoder(self, slot: usize) -> RowEncoder {
        RowEncoder { slot, scalar: self.scalar, strategy: self.scalar.repr().clone_kind() }
    }

    /// The reserved `id` field always has the identifier scalar and a value.
    pub open spec fn id_rule(self) -> bool {
        self.name == id_name() ==> self.scalar == ScalarType::Id && !self.nullable
    }
}

/// The typed field that a declared field translates to: the reserved `id`
/// field becomes a required identifier whatever was declared; any other
/// field keeps its nullability and takes the scalar registered under the
/// declared name; there is none where that name is not registered.
pub open spec fn translated(field: FieldDefinitionView) -> Option<FieldDescriptorView> {
    if field.name == id_name() {
        Some(FieldDescriptorView { name: field.name, scalar: ScalarType::Id, nullable: false })
    } else {
        match scalar_named(field.scalar) {
            Some(scalar) => Some(
                FieldDescriptorView { name: field.name, scalar, nullable: field.nullable },
            ),
            None => None,
        }
    }
}

/// The error for a field of `in_type` whose scalar is not registered.
pub open spec fn unknown_scalar(in_type: Seq<char>, field: FieldDefinitionView) -> CompileErrorView {
    CompileErrorView::UnknownScalar { in_type, field: field.name, scalar: field.scalar }
}

/// Translates the field of `in_type` declared at position `slot` into its
/// typed field, row extractor and row encoder.
pub fn translate(in_type: &str, field: &FieldDefinition, slot: usize) -> (out: Result<
    (FieldDescriptor, RowExtractor, RowEncoder),
    CompileError,
>)
    ensures
        match out {
            Ok((typed, extractor, encoder)) => {
                &&& translated(field@) == Some(typed@)
                &&& extractor == typed@.extractor(slot)
                &&& encoder == typed@.encoder(slot)
                &&& typed@.id_rule()
            },
            Err(e) => translated(field@) is None && e@ == unknown_scalar(in_type@, field@),
        },
{
    let (scalar, nullable) = if is_id_name(field.name.as_str()) {
        (ScalarType::Id, false)
    } else {
        match ScalarType::resolve(field.scalar.as_str()) {
            Ok(scalar) => (scalar, field.nullable),
            Err(unknown) => {
                return Err(
                    CompileError::UnknownScalar {
                        in_type: String::from_str(in_type),
                        field: field.name.clone(),
                        scalar: unknown.scalar,
                    },
                );
            },
        }
    };
    let typed = FieldDescriptor { name: field.name.clone(), scalar, nullable };
    let extractor = RowExtractor { slot, scalar, nullable };
    let encoder = RowEncoder { slot, scalar, strategy: scalar.clone_strategy() };
    Ok((typed, extractor, encoder))
}

/// The extractor and the encoder of one field are inverse over its slot: what
/// the encoder writes for a value of the field's scalar, the extractor reads
/// back as that value.
pub proof fn lemma_extract_inverts_encode(field: FieldDescriptorView, slot: usize, value: ValueView)
    requires
        field.scalar.repr().admits(value),
    ensures
        field.encoder(slot).encoded(value) is Ok,
        field.extractor(slot).extracted(field.encoder(slot).encoded(value)->Ok_0) == Ok::<
            ValueView,
            RowError,
        >(value),
{
}

} // verus!
