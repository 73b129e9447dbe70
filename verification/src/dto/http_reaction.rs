//! HTTP reaction configuration.
use std::collections::HashMap;
use vstd::prelude::*;

verus! {

/// HTTP reaction configuration.
#[derive(Debug, Clone)]
pub struct HttpReactionConfigDto {
    pub base_url: String,
    pub token: Option<String>,
    pub timeout_ms: u64,
    pub routes: HashMap<String, QueryConfigDto>,
}

/// The calls an HTTP reaction makes for a query's added, updated and deleted results.
#[derive(Debug, Clone)]
pub struct QueryConfigDto {
    pub added: Option<CallSpecDto>,
    pub updated: Option<CallSpecDto>,
    pub deleted: Option<CallSpecDto>,
}

/// One HTTP call.
#[derive(Debug, Clone)]
pub struct CallSpecDto {
    pub url: String,
    pub method: String,
    pub body: String,
    pub headers: HashMap<String, String>,
}

/// Adaptive HTTP reaction configuration.
#[derive(Debug, Clone)]
pub struct HttpAdaptiveReactionConfigDto {
    pub base_url: String,
    pub token: Option<String>,
    pub timeout_ms: u64,
    pub routes: HashMap<String, QueryConfigDto>,
    pub adaptive: AdaptiveBatchConfigDto,
}

/// How an adaptive reaction batches.
#[derive(Debug, Clone)]
pub struct AdaptiveBatchConfigDto {
    pub adaptive_min_batch_size: usize,
    pub adaptive_max_batch_size: usize,
    pub adaptive_window_size: usize,
    pub adaptive_batch_timeout_ms: u64,
}

/// Reactions call `http://localhost` unless they say otherwise.
pub fn default_base_url() -> (r: String)
    ensures
        r@ == "http://localhost"@,
{
    "http://localhost".to_string()
}

/// Reaction calls time out after 5000 ms unless they say otherwise.
pub fn default_reaction_timeout_ms() -> (r: u64)
    ensures
        r == 5000,
{
    5000
}

/// The adaptive window holds 100 samples by default.
pub fn default_adaptive_window_size() -> (r: usize)
    ensures
        r == 100,
{
    100
}

/// An adaptive batch waits at most 1000 ms by default.
pub fn default_adaptive_batch_timeout_ms() -> (r: u64)
    ensures
        r == 1000,
{
    1000
}

/// An adaptive batch holds at most 1000 results by default.
pub fn default_adaptive_max_batch_size() -> (r: usize)
    ensures
        r == 1000,
{
    1000
}

/// An adaptive batch holds at least 1 result by default.
pub fn default_adaptive_min_batch_size() -> (r: usize)
    ensures
        r == 1,
{
    1
}

} // verus!
