//! The decoder contract: from one type definition of a schema to the
//! descriptor of its kind.

use crate::error::CompileError;
use crate::scalar::{scalar_named, ScalarType};
use crate::schema::{SchemaCatalog, SchemaCatalogView, TypeDefinition, TypeDefinitionView};
use crate::text::str_eq;
use vstd::prelude::*;

verus! {

/// A descriptor that is built from a type definition of its kind.
pub trait Decoder: Sized {
    /// The outcome owed for a type definition under a catalog: the
    /// descriptor, or the error that the definition is rejected with.
    spec fn decodes(
        typ: TypeDefinitionView,
        parsed: SchemaCatalogView,
        outcome: Result<Self, CompileError>,
    ) -> bool;

    /// Builds the descriptor of a type definition.
    fn from_typedef(typ: &TypeDefinition, parsed: &SchemaCatalog) -> (outcome: Result<
        Self,
        CompileError,
    >)
        ensures
            Self::decodes(typ@, parsed@, outcome),
    ;
}

/// Whether a name is kept from type definitions: the names of the
/// registered scalars and of the schema language's root operations.
pub open spec fn reserved_type_name(name: Seq<char>) -> bool {
    ||| scalar_named(name) is Some
    ||| name == "Query"@
    ||| name == "Mutation"@
    ||| name == "Subscription"@
}

/// Whether a name is kept from type definitions.
pub fn is_reserved_type_name(name: &str) -> (reserved: bool)
    ensures
        reserved == reserved_type_name(name@),
{
    ScalarType::resolve(name).is_ok() || str_eq(name, "Query") || str_eq(name, "Mutation")
        || str_eq(name, "Subscription")
}

} // verus!
