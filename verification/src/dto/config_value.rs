//! Configuration values that are given inline, or name an environment
//! variable or a secret that supplies them.
use vstd::prelude::*;

verus! {

/// A configuration value.
#[derive(Debug, Clone)]
pub enum ConfigValue<T> {
    /// A reference to a secret (resolved to a string at runtime, then parsed)
    Secret { name: String },
    /// A reference to an environment variable, with a default
    EnvironmentVariable { name: String, default: Option<String> },
    /// A value given inline
    Static(T),
}

/// An inline text value.
pub fn static_text(s: &str) -> (v: ConfigValue<String>)
    ensures
        v matches ConfigValue::Static(t) && t@ == s@,
{
    ConfigValue::Static(s.to_string())
}

/// The JSON value of a configuration field that the server passes through.
#[verifier::external_type_specification]
#[verifier::external_body]
pub struct ExJsonValue(serde_json::Value);

} // verus!
