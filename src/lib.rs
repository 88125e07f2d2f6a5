//! Schema derivation for database extensions: classification of declared
//! return types, the entity dependency graph and its linearization into DDL,
//! assembly of the versioned install script, and a typed accessor for
//! composite record values.

pub mod text;
pub mod type_expr;
pub mod used_type;
pub mod returning;
pub mod order;
pub mod graph;
pub mod sql;
pub mod record;
pub mod install;
pub mod version;
