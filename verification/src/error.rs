//! Errors of schema compilation and of runtime conversions.

use crate::scalar::ScalarType;
use vstd::prelude::*;

verus! {

/// Why a type definition could not be compiled. Each error names the type
/// it arose in and what in it broke which rule.
#[derive(Debug, PartialEq, Eq)]
pub enum CompileError {
    /// A field's scalar is not registered.
    UnknownScalar { in_type: String, field: String, scalar: String },
    /// The type's name is reserved.
    DisallowedTypeName { in_type: String },
    /// A field of a union member differs in scalar or nullability from the
    /// field of that name in an earlier member.
    InconsistentUnionFieldType { in_type: String, field: String, member: String },
    /// A union names a member that the catalog does not hold.
    MissingUnionMember { in_type: String, member: String },
    /// The builder was handed a type definition of a kind it does not build.
    WrongTypeKindForBuilder { in_type: String },
}

/// What a [`CompileError`] holds.
pub enum CompileErrorView {
    UnknownScalar { in_type: Seq<char>, field: Seq<char>, scalar: Seq<char> },
    DisallowedTypeName { in_type: Seq<char> },
    InconsistentUnionFieldType { in_type: Seq<char>, field: Seq<char>, member: Seq<char> },
    MissingUnionMember { in_type: Seq<char>, member: Seq<char> },
    WrongTypeKindForBuilder { in_type: Seq<char> },
}

impl DeepView for CompileError {
    type V = CompileErrorView;

    open spec fn deep_view(&self) -> CompileErrorView {
        match self {
            CompileError::UnknownScalar { in_type, field, scalar } => {
                CompileErrorView::UnknownScalar {
                    in_type: in_type@,
                    field: field@,
                    scalar: scalar@,
                }
            },
            CompileError::DisallowedTypeName { in_type } => {
                CompileErrorView::DisallowedTypeName { in_type: in_type@ }
            },
            CompileError::InconsistentUnionFieldType { in_type, field, member } => {
                CompileErrorView::InconsistentUnionFieldType {
                    in_type: in_type@,
                    field: field@,
                    member: member@,
                }
            },
            CompileError::MissingUnionMember { in_type, member } => {
                CompileErrorView::MissingUnionMember { in_type: in_type@, member: member@ }
            },
            CompileError::WrongTypeKindForBuilder { in_type } => {
                CompileErrorView::WrongTypeKindForBuilder { in_type: in_type@ }
            },
        }
    }
}

impl View for CompileError {
    type V = CompileErrorView;

    open spec fn view(&self) -> CompileErrorView {
        self.deep_view()
    }
}

/// Why a row could not be read back into a record.
#[derive(Clone, Copy, Debug, PartialEq, Eq, Structural)]
pub enum RowError {
    /// The row has another number of columns than the entity has fields.
    ColumnCount { fields: usize, columns: usize },
    /// The column in a slot is tagged with another scalar than the field's.
    WrongColumn { slot: usize, expected: ScalarType, found: ScalarType },
    /// The column of a required field holds no value.
    MissingValue { slot: usize },
    /// The column's value is outside the value space of its scalar.
    MalformedValue { slot: usize },
}

/// Why values could not be taken as a record.
#[derive(Clone, Copy, Debug, PartialEq, Eq, Structural)]
pub enum RecordError {
    /// There is another number of values than fields to fill.
    FieldCount { expected: usize, found: usize },
    /// The value at a position of the values handed in is outside the value space
    /// of its field.
    ValueMismatch { position: usize },
    /// The entity has no `id` field, so no identifier can be derived.
    NoIdentifier,
    /// No member of an interchange object has the name of the field at a
    /// position.
    MissingMember { position: usize },
}

/// Why a text could not be converted to or from an enum variant.
#[derive(Debug, PartialEq, Eq)]
pub enum ConversionError {
    /// The text names no variant; `expected` lists the texts that do.
    UnrecognizedVariant { value: String, expected: Vec<String> },
}

/// What a [`ConversionError`] holds.
pub enum ConversionErrorView {
    UnrecognizedVariant { value: Seq<char>, expected: Seq<Seq<char>> },
}

impl DeepView for ConversionError {
    type V = ConversionErrorView;

    open spec fn deep_view(&self) -> ConversionErrorView {
        match self {
            ConversionError::UnrecognizedVariant { value, expected } => {
                ConversionErrorView::UnrecognizedVariant {
                    value: value@,
                    expected: expected.deep_view(),
                }
            },
        }
    }
}

impl View for ConversionError {
    type V = ConversionErrorView;

    open spec fn view(&self) -> ConversionErrorView {
        self.deep_view()
    }
}

/// The texts of a list, separated by a comma and a blank.
pub open spec fn listed(items: Seq<Seq<char>>) -> Seq<char>
    decreases items.len(),
{
    if items.len() == 0 {
        Seq::empty()
    } else if items.len() == 1 {
        items[0]
    } else {
        listed(items.drop_last()) + ", "@ + items.last()
    }
}

impl CompileErrorView {
    /// The message of a compile error: it names the type, the field and
    /// the rule that was broken.
    pub open spec fn message(self) -> Seq<char> {
        match self {
            CompileErrorView::UnknownScalar { in_type, field, scalar } => "Field '"@ + field
                + "' of type '"@ + in_type + "' has the unknown scalar '"@ + scalar + "'."@,
            CompileErrorView::DisallowedTypeName { in_type } => "Type name '"@ + in_type
                + "' is reserved."@,
            CompileErrorView::InconsistentUnionFieldType { in_type, field, member } => "Field '"@
                + field + "' of member '"@ + member
                + "' conflicts with an earlier member of union '"@ + in_type + "'."@,
            CompileErrorView::MissingUnionMember { in_type, member } => "Member '"@ + member
                + "' of union '"@ + in_type + "' is not in the schema."@,
            CompileErrorView::WrongTypeKindForBuilder { in_type } => "Type '"@ + in_type
                + "' is not of a kind that this decoder builds."@,
        }
    }
}

impl ConversionErrorView {
    /// The message of a conversion error: it names the value that was not
    /// recognized and the values that would have been.
    pub open spec fn message(self) -> Seq<char> {
        match self {
            ConversionErrorView::UnrecognizedVariant { value, expected } =>
                "Unrecognized enum value '"@ + value + "'; expected one of: "@ + listed(expected)
                    + "."@,
        }
    }
}

impl CompileError {
    /// The message that schema compilation ends with.
    pub fn message(&self) -> (text: String)
        ensures
            text@ == self@.message(),
    {
        match self {
            CompileError::UnknownScalar { in_type, field, scalar } => {
                let mut text = String::from_str("Field '");
                text.append(field.as_str());
                text.append("' of type '");
                text.append(in_type.as_str());
                text.append("' has the unknown scalar '");
                text.append(scalar.as_str());
                text.append("'.");
                text
            },
            CompileError::DisallowedTypeName { in_type } => {
                let mut text = String::from_str("Type name '");
                text.append(in_type.as_str());
                text.append("' is reserved.");
                text
            },
            CompileError::InconsistentUnionFieldType { in_type, field, member } => {
                let mut text = String::from_str("Field '");
                text.append(field.as_str());
                text.append("' of member '");
                text.append(member.as_str());
                text.append("' conflicts with an earlier member of union '");
                text.append(in_type.as_str());
                text.append("'.");
                text
            },
            CompileError::MissingUnionMember { in_type, member } => {
                let mut text = String::from_str("Member '");
                text.append(member.as_str());
                text.append("' of union '");
                text.append(in_type.as_str());
                text.append("' is not in the schema.");
                text
            },
            CompileError::WrongTypeKindForBuilder { in_type } => {
                let mut text = String::from_str("Type '");
                text.append(in_type.as_str());
                text.append("' is not of a kind that this decoder builds.");
                text
            },
        }
    }
}

/// Joins texts with a comma and a blank between them.
pub fn list(items: &Vec<String>) -> (text: String)
    ensures
        text@ == listed(items.deep_view()),
{
    let ghost all = items.deep_view();
    let mut text = String::new();
    let mut i: usize = 0;
    while i < items.len()
        invariant
            i <= items.len(),
            all == items.deep_view(),
            text@ == listed(all.take(i as int)),
        decreases items.len() - i,
    {
        proof {
            assert(all.take(i + 1).drop_last() =~= all.take(i as int));
        }
        if i > 0 {
            text.append(", ");
        }
        text.append(items[i].as_str());
        proof {
            if i == 0 {
            }
        }
        i += 1;
    }
    proof {
        assert(all.take(i as int) =~= all);
    }
    text
}

impl ConversionError {
    /// The message that a failed conversion is reported with.
    pub fn message(&self) -> (text: String)
        ensures
            text@ == self@.message(),
    {
        match self {
            ConversionError::UnrecognizedVariant { value, expected } => {
                let mut text = String::from_str("Unrecognized enum value '");
                text.append(value.as_str());
                text.append("'; expected one of: ");
                let names = list(expected);
                text.append(names.as_str());
                text.append(".");
                text
            },
        }
    }
}

} // verus!
