//! Verified core of the Drasi server's management API.
use vstd::prelude::*;

pub mod api_error;
pub mod cli;
pub mod clone_plan;
pub mod config_map;
pub mod content;
pub mod deploy;
pub mod dto;
pub mod envelope;
pub mod graph_check;
pub mod instance;
pub mod operations;
pub mod plugins;
pub mod order;
pub mod solution;
pub mod template_plan;
pub mod template_scan;
pub mod templates;
pub mod text;
pub mod variables;
pub mod yaml_lines;

verus! {
} // verus!
