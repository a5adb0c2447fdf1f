//! Dispatch: each type definition goes to the builder of its kind.

use crate::decode::Decoder;
use crate::enum_decoder::EnumDecoder;
use crate::error::CompileError;
use crate::object::ObjectDecoder;
use crate::schema::{SchemaCatalog, SchemaCatalogView, TypeDefinition, TypeDefinitionView, TypeKind, TypeKindView};
use vstd::prelude::*;

verus! {

/// What a type definition compiles to.
#[derive(Debug, PartialEq, Eq)]
pub enum Descriptor {
    /// The descriptor of an object or a union.
    Entity(ObjectDecoder),
    /// The descriptor of an enum.
    Enum(EnumDecoder),
}

/// The outcome owed for compiling a type definition: what the builder of
/// its kind owes, an enum descriptor for an enum and an entity descriptor
/// for an object or a union.
pub open spec fn compiles(
    typ: TypeDefinitionView,
    parsed: SchemaCatalogView,
    outcome: Result<Descriptor, CompileError>,
) -> bool {
    match typ.kind {
        TypeKindView::Enum(_) => match outcome {
            Ok(Descriptor::Enum(decoder)) => EnumDecoder::decodes(typ, parsed, Ok(decoder)),
            Ok(Descriptor::Entity(_)) => false,
            Err(e) => EnumDecoder::decodes(typ, parsed, Err(e)),
        },
        _ => match outcome {
            Ok(Descriptor::Entity(decoder)) => ObjectDecoder::decodes(typ, parsed, Ok(decoder)),
            Ok(Descriptor::Enum(_)) => false,
            Err(e) => ObjectDecoder::decodes(typ, parsed, Err(e)),
        },
    }
}

/// Compiles one type definition with the builder of its kind.
pub fn compile(typ: &TypeDefinition, parsed: &SchemaCatalog) -> (outcome: Result<
    Descriptor,
    CompileError,
>)
    ensures
        compiles(typ@, parsed@, outcome),
{
    match &typ.kind {
        TypeKind::Enum(_) => match EnumDecoder::from_typedef(typ, parsed) {
            Ok(decoder) => Ok(Descriptor::Enum(decoder)),
            Err(e) => Err(e),
        },
        _ => match ObjectDecoder::from_typedef(typ, parsed) {
            Ok(decoder) => Ok(Descriptor::Entity(decoder)),
            Err(e) => Err(e),
        },
    }
}

} // verus!
