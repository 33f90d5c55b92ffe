//! Validation, indexing and composition of subgraph type schemas.
//!
//! A subgraph schema is a GraphQL-style type-definition document. This crate
//! models such documents, checks a battery of structural invariants over
//! them, builds the interface/implementor index, resolves `@import`
//! references across schemas, and derives the query-facing API schema.

pub mod api;
pub mod errors;
pub mod fulltext;
pub mod imports;
pub mod model;
pub mod parsing;
pub mod schema;
pub mod store;
pub mod validate;
