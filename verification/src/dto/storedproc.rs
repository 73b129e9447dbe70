//! Stored procedure reaction configuration for PostgreSQL, MySQL and MSSQL.
use std::collections::HashMap;
use vstd::prelude::*;

use super::config_value::{static_text, ConfigValue};

verus! {

/// The stored procedure command of one operation.
#[derive(Debug, Clone)]
pub struct StoredProcTemplateSpecDto {
    pub command: ConfigValue<String>,
}

/// The commands for a query's added, updated and deleted results.
#[derive(Debug, Clone)]
pub struct StoredProcQueryConfigDto {
    pub added: Option<StoredProcTemplateSpecDto>,
    pub updated: Option<StoredProcTemplateSpecDto>,
    pub deleted: Option<StoredProcTemplateSpecDto>,
}

/// PostgreSQL stored procedure reaction configuration.
#[derive(Debug, Clone)]
pub struct PostgresStoredProcReactionConfigDto {
    pub hostname: ConfigValue<String>,
    pub port: Option<ConfigValue<u16>>,
    pub database: ConfigValue<String>,
    pub ssl: bool,
    pub identity_provider_id: Option<String>,
    pub user: Option<ConfigValue<String>>,
    pub password: Option<ConfigValue<String>>,
    pub routes: HashMap<String, StoredProcQueryConfigDto>,
    pub default_template: Option<StoredProcQueryConfigDto>,
    pub command_timeout_ms: ConfigValue<u64>,
    pub retry_attempts: ConfigValue<u32>,
}

/// MySQL stored procedure reaction configuration.
#[derive(Debug, Clone)]
pub struct MysqlStoredProcReactionConfigDto {
    pub hostname: ConfigValue<String>,
    pub port: Option<ConfigValue<u16>>,
    pub database: ConfigValue<String>,
    pub ssl: bool,
    pub identity_provider_id: Option<String>,
    pub user: Option<ConfigValue<String>>,
    pub password: Option<ConfigValue<String>>,
    pub routes: HashMap<String, StoredProcQueryConfigDto>,
    pub default_template: Option<StoredProcQueryConfigDto>,
    pub command_timeout_ms: ConfigValue<u64>,
    pub retry_attempts: ConfigValue<u32>,
}

/// MSSQL stored procedure reaction configuration.
#[derive(Debug, Clone)]
pub struct MssqlStoredProcReactionConfigDto {
    pub hostname: ConfigValue<String>,
    pub port: Option<ConfigValue<u16>>,
    pub database: ConfigValue<String>,
    pub ssl: bool,
    pub identity_provider_id: Option<String>,
    pub user: Option<ConfigValue<String>>,
    pub password: Option<ConfigValue<String>>,
    pub routes: HashMap<String, StoredProcQueryConfigDto>,
    pub default_template: Option<StoredProcQueryConfigDto>,
    pub command_timeout_ms: ConfigValue<u64>,
    pub retry_attempts: ConfigValue<u32>,
}

/// The database runs on `localhost` unless a reaction says otherwise.
pub fn default_hostname() -> (r: ConfigValue<String>)
    ensures
        r matches ConfigValue::Static(t) && t@ == "localhost"@,
{
    static_text("localhost")
}

/// Commands time out after 5000 ms unless a reaction says otherwise.
pub fn default_timeout_ms() -> (r: ConfigValue<u64>)
    ensures
        r matches ConfigValue::Static(v) && v == 5000,
{
    ConfigValue::Static(5000)
}

/// A failed command is tried 3 more times unless a reaction says otherwise.
pub fn default_retry_attempts() -> (r: ConfigValue<u32>)
    ensures
        r matches ConfigValue::Static(v) && v == 3,
{
    ConfigValue::Static(3)
}

} // verus!
