//! HTTP source configuration: the endpoint, adaptive batching and webhooks.
use std::collections::HashMap;
use vstd::prelude::*;

use super::config_value::{static_text, ConfigValue};

verus! {

/// HTTP source configuration.
#[derive(Debug, Clone)]
pub struct HttpSourceConfigDto {
    pub host: ConfigValue<String>,
    pub port: ConfigValue<u16>,
    pub endpoint: Option<ConfigValue<String>>,
    pub timeout_ms: ConfigValue<u64>,
    pub adaptive_max_batch_size: Option<ConfigValue<usize>>,
    pub adaptive_min_batch_size: Option<ConfigValue<usize>>,
    pub adaptive_max_wait_ms: Option<ConfigValue<u64>>,
    pub adaptive_min_wait_ms: Option<ConfigValue<u64>>,
    pub adaptive_window_secs: Option<ConfigValue<u64>>,
    pub adaptive_enabled: Option<ConfigValue<bool>>,
    pub webhooks: Option<WebhookConfigDto>,
}

/// Webhook handling of an HTTP source.
#[derive(Debug, Clone)]
pub struct WebhookConfigDto {
    pub error_behavior: ErrorBehaviorDto,
    pub cors: Option<CorsConfigDto>,
    pub routes: Vec<WebhookRouteDto>,
}

/// Cross-origin settings of the webhook endpoint.
#[derive(Debug, Clone)]
pub struct CorsConfigDto {
    pub enabled: bool,
    pub allow_origins: Vec<ConfigValue<String>>,
    pub allow_methods: Vec<ConfigValue<String>>,
    pub allow_headers: Vec<ConfigValue<String>>,
    pub expose_headers: Vec<ConfigValue<String>>,
    pub allow_credentials: bool,
    pub max_age: u64,
}

/// What a webhook does with a request it cannot map.
#[derive(Debug, Clone, Copy, PartialEq, Eq, Structural)]
pub enum ErrorBehaviorDto {
    AcceptAndLog,
    AcceptAndSkip,
    Reject,
}

impl Default for ErrorBehaviorDto {
    /// Accept and log, unless configured otherwise.
    fn default() -> (r: Self)
        ensures
            r == ErrorBehaviorDto::AcceptAndLog,
    {
        ErrorBehaviorDto::AcceptAndLog
    }
}

/// One webhook route.
#[derive(Debug, Clone)]
pub struct WebhookRouteDto {
    pub path: ConfigValue<String>,
    pub methods: Vec<HttpMethodDto>,
    pub auth: Option<AuthConfigDto>,
    pub error_behavior: Option<ErrorBehaviorDto>,
    pub mappings: Vec<WebhookMappingDto>,
}

/// HTTP methods a route accepts.
#[derive(Debug, Clone, Copy, PartialEq, Eq, Hash, Structural)]
pub enum HttpMethodDto {
    Get,
    Post,
    Put,
    Patch,
    Delete,
}

/// How a route authenticates requests.
#[derive(Debug, Clone)]
pub struct AuthConfigDto {
    pub signature: Option<SignatureConfigDto>,
    pub bearer: Option<BearerConfigDto>,
}

/// Signature verification of requests.
#[derive(Debug, Clone)]
pub struct SignatureConfigDto {
    pub algorithm: SignatureAlgorithmDto,
    pub secret_env: ConfigValue<String>,
    pub header: ConfigValue<String>,
    pub prefix: Option<ConfigValue<String>>,
    pub encoding: SignatureEncodingDto,
}

/// Signature algorithms.
#[derive(Debug, Clone, Copy, PartialEq, Eq, Structural)]
pub enum SignatureAlgorithmDto {
    HmacSha1,
    HmacSha256,
}

/// Signature encodings.
#[derive(Debug, Clone, Copy, PartialEq, Eq, Structural)]
pub enum SignatureEncodingDto {
    Hex,
    Base64,
}

impl Default for SignatureEncodingDto {
    /// Hexadecimal, unless configured otherwise.
    fn default() -> (r: Self)
        ensures
            r == SignatureEncodingDto::Hex,
    {
        SignatureEncodingDto::Hex
    }
}

/// Bearer token verification of requests.
#[derive(Debug, Clone)]
pub struct BearerConfigDto {
    pub token_env: ConfigValue<String>,
}

/// How a request becomes a graph change.
#[derive(Debug, Clone)]
pub struct WebhookMappingDto {
    pub when: Option<MappingConditionDto>,
    pub operation: Option<OperationTypeDto>,
    pub operation_from: Option<ConfigValue<String>>,
    pub operation_map: Option<HashMap<String, OperationTypeDto>>,
    pub element_type: ElementTypeDto,
    pub effective_from: Option<EffectiveFromConfigDto>,
    pub template: ElementTemplateDto,
}

/// When a mapping applies.
#[derive(Debug, Clone)]
pub struct MappingConditionDto {
    pub header: Option<ConfigValue<String>>,
    pub field: Option<ConfigValue<String>>,
    pub equals: Option<ConfigValue<String>>,
    pub contains: Option<ConfigValue<String>>,
    pub regex: Option<ConfigValue<String>>,
}

/// Graph operations.
#[derive(Debug, Clone, Copy, PartialEq, Eq, Structural)]
pub enum OperationTypeDto {
    Insert,
    Update,
    Delete,
}

/// Graph element types.
#[derive(Debug, Clone, Copy, PartialEq, Eq, Structural)]
pub enum ElementTypeDto {
    Node,
    Relation,
}

/// Where a change's effective time comes from.
#[derive(Debug, Clone)]
pub enum EffectiveFromConfigDto {
    Simple(ConfigValue<String>),
    Explicit { value: ConfigValue<String>, format: TimestampFormatDto },
}

/// Timestamp formats.
#[derive(Debug, Clone, Copy, PartialEq, Eq, Structural)]
pub enum TimestampFormatDto {
    Iso8601,
    UnixSeconds,
    UnixMillis,
    UnixNanos,
}

/// The element a mapping builds.
#[derive(Debug, Clone)]
pub struct ElementTemplateDto {
    pub id: ConfigValue<String>,
    pub labels: Vec<ConfigValue<String>>,
    pub properties: Option<serde_json::Value>,
    pub from: Option<ConfigValue<String>>,
    pub to: Option<ConfigValue<String>>,
}

/// Requests time out after 10000 ms unless a source says otherwise.
pub fn default_http_timeout_ms() -> (r: ConfigValue<u64>)
    ensures
        r matches ConfigValue::Static(v) && v == 10000,
{
    ConfigValue::Static(10000)
}

/// Cross-origin requests are enabled unless a source says otherwise.
pub fn default_cors_enabled() -> (r: bool)
    ensures
        r,
{
    true
}

/// The inline texts of a list of values, where all are inline.
pub open spec fn static_texts(v: Seq<ConfigValue<String>>) -> Option<Seq<Seq<char>>>
    decreases v.len(),
{
    if v.len() == 0 {
        Some(seq![])
    } else {
        match (static_texts(v.drop_last()), v.last()) {
            (Some(s), ConfigValue::Static(t)) => Some(s.push(t@)),
            _ => None,
        }
    }
}

fn static_list(items: &Vec<&'static str>) -> (r: Vec<ConfigValue<String>>)
    ensures
        static_texts(r@) == Some(items@.map_values(|s: &'static str| s@)),
{
    let mut out: Vec<ConfigValue<String>> = Vec::new();
    let mut i: usize = 0;
    while i < items.len()
        invariant
            i <= items@.len(),
            out@.len() == i,
            static_texts(out@) == Some(items@.subrange(0, i as int).map_values(|s: &'static str| s@)),
        decreases items@.len() - i,
    {
        let ghost before = out@;
        out.push(static_text(items[i]));
        proof {
            assert(out@.drop_last() =~= before);
            assert(items@.subrange(0, i + 1).map_values(|s: &'static str| s@) =~= items@.subrange(
                0,
                i as int,
            ).map_values(|s: &'static str| s@).push(items@[i as int]@));
        }
        i = i + 1;
    }
    assert(items@.subrange(0, items@.len() as int) =~= items@);
    out
}

/// Any origin is allowed unless a source says otherwise.
pub fn default_cors_origins() -> (r: Vec<ConfigValue<String>>)
    ensures
        static_texts(r@) == Some(seq!["*"@]),
{
    let items: Vec<&'static str> = vec!["*"];
    let r = static_list(&items);
    assert(items@.map_values(|s: &'static str| s@) =~= seq!["*"@]);
    r
}

/// The usual methods are allowed unless a source says otherwise.
pub fn default_cors_methods() -> (r: Vec<ConfigValue<String>>)
    ensures
        static_texts(r@) == Some(seq!["GET"@, "POST"@, "PUT"@, "PATCH"@, "DELETE"@, "OPTIONS"@]),
{
    let items: Vec<&'static str> = vec!["GET", "POST", "PUT", "PATCH", "DELETE", "OPTIONS"];
    let r = static_list(&items);
    assert(items@.map_values(|s: &'static str| s@) =~= seq![
        "GET"@,
        "POST"@,
        "PUT"@,
        "PATCH"@,
        "DELETE"@,
        "OPTIONS"@,
    ]);
    r
}

/// The usual headers are allowed unless a source says otherwise.
pub fn default_cors_headers() -> (r: Vec<ConfigValue<String>>)
    ensures
        static_texts(r@) == Some(seq!["Content-Type"@, "Authorization"@, "X-Requested-With"@]),
{
    let items: Vec<&'static str> = vec!["Content-Type", "Authorization", "X-Requested-With"];
    let r = static_list(&items);
    assert(items@.map_values(|s: &'static str| s@) =~= seq![
        "Content-Type"@,
        "Authorization"@,
        "X-Requested-With"@,
    ]);
    r
}

/// Browsers may cache the cross-origin answer for 3600 s unless a source
/// says otherwise.
pub fn default_cors_max_age() -> (r: u64)
    ensures
        r == 3600,
{
    3600
}

/// A route accepts POST unless it says otherwise.
pub fn default_methods() -> (r: Vec<HttpMethodDto>)
    ensures
        r@ == seq![HttpMethodDto::Post],
{
    let mut v: Vec<HttpMethodDto> = Vec::new();
    v.push(HttpMethodDto::Post);
    assert(v@ =~= seq![HttpMethodDto::Post]);
    v
}

} // verus!
