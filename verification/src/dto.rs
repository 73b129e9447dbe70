//! The configuration documents of sources, queries and reactions, with the
//! defaults they take for absent fields.
pub mod config_value;
pub mod http_reaction;
pub mod http_source;
pub mod mock;
pub mod query;
pub mod query_mapping;
pub mod storedproc;
