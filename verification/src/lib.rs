//! Compiles validated schema type definitions into entity descriptors:
//! typed field layouts, row conversions, content-derived identifiers and
//! enum string mappings.

pub mod compile;
pub mod decode;
pub mod digest;
pub mod encoding;
pub mod entity;
pub mod enum_decoder;
pub mod error;
pub mod field;
pub mod field_set;
pub mod interchange;
pub mod object;
pub mod persistence;
pub mod scalar;
pub mod schema;
pub mod text;

pub use crate::decode::Decoder;
pub use crate::enum_decoder::EnumDecoder;
pub use crate::object::ObjectDecoder;
