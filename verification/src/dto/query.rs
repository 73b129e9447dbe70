//! Continuous query configuration.
use vstd::prelude::*;

use super::config_value::{static_text, ConfigValue};

verus! {

/// Query configuration.
#[derive(Debug, Clone)]
pub struct QueryConfigDto {
    pub id: String,
    pub auto_start: bool,
    pub query: ConfigValue<String>,
    pub query_language: ConfigValue<String>,
    pub middleware: Vec<String>,
    pub sources: Vec<SourceSubscriptionConfigDto>,
    pub enable_bootstrap: bool,
    pub bootstrap_buffer_size: usize,
    pub joins: Option<serde_json::Value>,
    pub priority_queue_capacity: Option<usize>,
    pub dispatch_buffer_capacity: Option<usize>,
    pub dispatch_mode: Option<String>,
    pub storage_backend: Option<serde_json::Value>,
}

/// A query's subscription to a source.
#[derive(Debug, Clone)]
pub struct SourceSubscriptionConfigDto {
    pub source_id: ConfigValue<String>,
    pub nodes: Vec<String>,
    pub relations: Vec<String>,
    pub pipeline: Vec<String>,
}

/// Queries do not start by themselves unless asked to.
pub fn default_auto_start() -> (r: bool)
    ensures
        !r,
{
    false
}

/// Queries are written in GQL unless they say otherwise.
pub fn default_query_language() -> (r: ConfigValue<String>)
    ensures
        r matches ConfigValue::Static(t) && t@ == "GQL"@,
{
    static_text("GQL")
}

/// Queries bootstrap unless they say otherwise.
pub fn default_enable_bootstrap() -> (r: bool)
    ensures
        r,
{
    true
}

/// The bootstrap buffer holds 10000 elements unless a query says otherwise.
pub fn default_bootstrap_buffer_size() -> (r: usize)
    ensures
        r == 10000,
{
    10000
}

} // verus!
