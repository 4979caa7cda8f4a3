//! Structural queries over OpenAPI-style documents that may be split across
//! several files through `$ref` pointers: list the paths, the operations, or
//! the schema names of a specification, following external references.

pub mod bindings;
pub mod content;
pub mod error;
pub mod laws;
pub mod operation;
pub mod path;
pub mod schema;
pub mod yaml;
