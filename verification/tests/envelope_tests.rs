use drasi_server::envelope::{inherited_bootstrap_fields, Envelope, KeyDecision};
use drasi_server::config_map::{read_reaction_map, read_source_map, ConfigMapError, EntryValue, ReactionFields, SourceFields};
use serde_json::Value;

/// A configuration document read through an envelope: its envelope fields
/// by position, and the rest.
struct Read {
    fields: Vec<Option<Value>>,
    config: serde_json::Map<String, Value>,
}

fn read(mut envelope: Envelope, text: &str, yaml: bool) -> Result<Read, String> {
    let value: Value = if yaml {
        serde_yaml::from_str(text).map_err(|e| e.to_string())?
    } else {
        serde_json::from_str(text).map_err(|e| e.to_string())?
    };
    let Value::Object(map) = value else {
        return Err("not a map".to_string());
    };
    let mut fields: Vec<Option<Value>> = vec![None; envelope.fields.len()];
    let mut config = serde_json::Map::new();
    for (key, v) in map {
        match envelope.read_key(&key).map_err(|e| e.message())? {
            KeyDecision::Field(i) => fields[i] = Some(v),
            KeyDecision::Config => {
                config.insert(key, v);
            }
        }
    }
    envelope.check_required().map_err(|e| e.message())?;
    Ok(Read { fields, config })
}

/// A source map read by the library: the envelope it found, and the map's
/// entries, which its positions refer to.
struct SourceRead {
    fields: SourceFields,
    entries: Vec<(String, Value)>,
}

/// The entries of a map, in order, repeated keys included.
struct Entries(Vec<(String, Value)>);

struct EntriesVisitor;

impl<'de> serde::de::Visitor<'de> for EntriesVisitor {
    type Value = Entries;

    fn expecting(&self, f: &mut std::fmt::Formatter) -> std::fmt::Result {
        f.write_str("a map")
    }

    fn visit_map<M: serde::de::MapAccess<'de>>(self, mut map: M) -> Result<Entries, M::Error> {
        let mut entries = Vec::new();
        while let Some(key) = map.next_key::<String>()? {
            let value: Value = map.next_value()?;
            entries.push((key, value));
        }
        Ok(Entries(entries))
    }
}

impl<'de> serde::Deserialize<'de> for Entries {
    fn deserialize<D: serde::Deserializer<'de>>(deserializer: D) -> Result<Entries, D::Error> {
        deserializer.deserialize_map(EntriesVisitor)
    }
}

fn map_entries(text: &str, yaml: bool) -> Vec<(String, Value)> {
    let entries: Entries = if yaml { serde_yaml::from_str(text).unwrap() } else { serde_json::from_str(text).unwrap() };
    entries.0
}

fn classify(entries: &[(String, Value)]) -> Vec<(String, EntryValue)> {
    entries
        .iter()
        .map(|(k, v)| {
            let e = match v {
                Value::String(s) => EntryValue::Text(s.clone()),
                Value::Bool(b) => EntryValue::Flag(*b),
                Value::Array(items) if items.iter().all(|i| i.is_string()) => EntryValue::TextList(
                    items.iter().map(|i| i.as_str().unwrap().to_string()).collect(),
                ),
                _ => EntryValue::Other,
            };
            (k.clone(), e)
        })
        .collect()
}

fn read_source_entries(entries: Vec<(String, Value)>) -> Result<SourceRead, String> {
    match read_source_map(&classify(&entries)) {
        Ok(fields) => Ok(SourceRead { fields, entries }),
        Err(e) => Err(message(e)),
    }
}

fn message(e: ConfigMapError) -> String {
    e.message()
}

/// A reaction map read by the library, with the map's entries.
struct ReactionRead {
    fields: ReactionFields,
    entries: Vec<(String, Value)>,
}

fn read_reaction(text: &str) -> Result<ReactionRead, String> {
    read_reaction_text(text, false)
}

fn read_reaction_text(text: &str, yaml: bool) -> Result<ReactionRead, String> {
    let entries = map_entries(text, yaml);
    match read_reaction_map(&classify(&entries)) {
        Ok(fields) => Ok(ReactionRead { fields, entries }),
        Err(e) => Err(message(e)),
    }
}

fn reaction_config(r: &ReactionRead) -> serde_json::Map<String, Value> {
    r.fields.config.iter().map(|(k, p)| (k.clone(), r.entries[*p].1.clone())).collect()
}

fn read_source(text: &str, yaml: bool) -> Result<SourceRead, String> {
    read_source_entries(map_entries(text, yaml))
}

/// The plugin's own configuration of a source, as a map.
fn source_config(r: &SourceRead) -> serde_json::Map<String, Value> {
    r.fields.config.iter().map(|(k, p)| (k.clone(), r.entries[*p].1.clone())).collect()
}

/// The bootstrap provider of a source, with the fields it inherits.
fn bootstrap_of(r: &SourceRead) -> Option<serde_json::Map<String, Value>> {
    let p = r.fields.bootstrap_provider?;
    let Value::Object(mut bootstrap) = r.entries[p].1.clone() else {
        return None;
    };
    let config = source_config(r);
    let kind = bootstrap.get("kind").and_then(|k| k.as_str()).map(String::from);
    let bootstrap_keys: Vec<String> = bootstrap.keys().cloned().collect();
    let source_keys: Vec<String> = config.keys().cloned().collect();
    for f in inherited_bootstrap_fields(&r.fields.kind, kind.as_deref(), &bootstrap_keys, &source_keys) {
        bootstrap.insert(f.to_string(), config[f].clone());
    }
    Some(bootstrap)
}

#[test]
fn test_source_deserialize_mock_minimal() {
    let r = read_source(r#"{ "kind": "mock", "id": "test-source" }"#, false).unwrap();
    assert_eq!(r.fields.id, "test-source");
    assert!(r.fields.auto_start);
}

#[test]
fn test_source_deserialize_auto_start_explicit_false() {
    let r = read_source(r#"{ "kind": "mock", "id": "test-source", "autoStart": false }"#, false).unwrap();
    assert!(!r.fields.auto_start);
}

#[test]
fn test_source_deserialize_missing_kind() {
    let err = read_source(r#"{ "id": "test-source" }"#, false).err().unwrap();
    assert!(err.contains("kind"), "Error should mention 'kind': {err}");
}

#[test]
fn test_source_deserialize_missing_id() {
    let err = read_source(r#"{ "kind": "mock" }"#, false).err().unwrap();
    assert!(err.contains("id"), "Error should mention 'id': {err}");
}

#[test]
fn test_source_deserialize_unknown_kind_accepted() {
    let r = read_source(r#"{ "kind": "unknown-source-type", "id": "test-source" }"#, false).unwrap();
    assert_eq!(r.fields.kind, "unknown-source-type");
    assert_eq!(r.fields.id, "test-source");
}

#[test]
fn test_source_deserialize_extra_fields_stored_in_config() {
    let r = read_source(r#"{ "kind": "mock", "id": "test-source", "extraField": "value" }"#, false).unwrap();
    assert_eq!(r.fields.id, "test-source");
    assert_eq!(source_config(&r)["extraField"], "value");
}

#[test]
fn test_source_deserialize_snake_case_auto_start_rejected() {
    let err = read_source(r#"{ "kind": "mock", "id": "test-source", "auto_start": true }"#, false).err().unwrap();
    assert!(err.contains("auto_start"), "Error should mention auto_start: {err}");
    assert!(err.contains("autoStart"), "Error should suggest autoStart: {err}");
}

#[test]
fn test_source_deserialize_snake_case_data_type_stored_in_config() {
    let r = read_source(r#"{ "kind": "mock", "id": "test-source", "data_type": "sensor" }"#, false).unwrap();
    assert_eq!(source_config(&r)["data_type"], "sensor");
}

#[test]
fn test_source_deserialize_with_bootstrap_provider() {
    let r = read_source(r#"{ "kind": "mock", "id": "test-source", "bootstrapProvider": { "kind": "noop" } }"#, false).unwrap();
    assert_eq!(r.fields.id, "test-source");
    assert!(bootstrap_of(&r).is_some());
}

const POSTGRES_SOURCE: &str = r#"
kind: postgres
id: source-with-bootstrap
host: localhost
port: 5432
database: drasi
user: drasi_user
password: drasi_pass
slotName: drasi_slot
publicationName: drasi_pub
"#;

#[test]
fn test_bootstrap_provider_inherits_postgres_fields() {
    let yaml = format!("{POSTGRES_SOURCE}bootstrapProvider:\n  kind: postgres\n");
    let r = read_source(&yaml, true).unwrap();
    let bp = bootstrap_of(&r).expect("Expected bootstrap provider");
    assert_eq!(bp["kind"], "postgres");
    assert_eq!(bp["host"], "localhost");
    assert_eq!(bp["port"], 5432);
    assert_eq!(bp["database"], "drasi");
    assert_eq!(bp["user"], "drasi_user");
    assert_eq!(bp["password"], "drasi_pass");
    assert_eq!(bp["slotName"], "drasi_slot");
    assert_eq!(bp["publicationName"], "drasi_pub");
}

#[test]
fn test_bootstrap_provider_postgres_override() {
    let yaml = format!(
        "{POSTGRES_SOURCE}bootstrapProvider:\n  kind: postgres\n  database: bootstrap_db\n  user: bootstrap_user\n"
    );
    let r = read_source(&yaml, true).unwrap();
    let bp = bootstrap_of(&r).expect("Expected bootstrap provider");
    assert_eq!(bp["kind"], "postgres");
    assert_eq!(bp["database"], "bootstrap_db");
    assert_eq!(bp["user"], "bootstrap_user");
    assert_eq!(bp["password"], "drasi_pass");
}

#[test]
fn test_reaction_deserialize_missing_kind() {
    let err = read_reaction(r#"{ "id": "test-reaction", "queries": ["query1"] }"#).err().unwrap();
    assert!(err.contains("kind"), "Error should mention 'kind': {err}");
}

#[test]
fn test_reaction_deserialize_missing_id() {
    let err = read_reaction(r#"{ "kind": "log", "queries": ["query1"] }"#).err().unwrap();
    assert!(err.contains("id"), "Error should mention 'id': {err}");
}

#[test]
fn test_reaction_deserialize_missing_queries() {
    let err = read_reaction(r#"{ "kind": "log", "id": "test-reaction" }"#).err().unwrap();
    assert!(err.contains("queries"), "Error should mention 'queries': {err}");
}

#[test]
fn test_reaction_deserialize_extra_fields_stored_in_config() {
    let r = read_reaction(r#"{ "kind": "log", "id": "test-reaction", "queries": ["query1"], "extraField": "value" }"#)
        .unwrap();
    assert_eq!(reaction_config(&r)["extraField"], "value");
}

#[test]
fn test_reaction_deserialize_snake_case_auto_start_rejected() {
    let err = read_reaction(r#"{ "kind": "log", "id": "test-reaction", "queries": ["query1"], "auto_start": true }"#)
        .err()
        .unwrap();
    assert!(err.contains("auto_start"));
    assert!(err.contains("autoStart"));
}

#[test]
fn test_missing_kind_field() {
    let err = read(Envelope::kind_only(), r#"{"filePaths": ["/test.jsonl"]}"#, false).err().unwrap();
    assert!(err.contains("missing field `kind`"), "{err}");
}

#[test]
fn test_state_store_deserialize_missing_kind() {
    let err = read(Envelope::kind_only(), r#"{ "path": "./data/state.redb" }"#, false).err().unwrap();
    assert!(err.contains("kind"), "{err}");
}

fn entries(items: &[(&str, Value)]) -> Vec<(String, Value)> {
    items.iter().map(|(k, v)| (k.to_string(), v.clone())).collect()
}

#[test]
fn source_map_refuses_a_repeated_field() {
    let err = read_source_entries(entries(&[
        ("kind", Value::from("mock")),
        ("id", Value::from("a")),
        ("id", Value::from("b")),
    ]))
    .err()
    .unwrap();
    assert_eq!(err, "duplicate field `id`");
}

#[test]
fn source_map_first_wrong_key_decides() {
    let err = read_source_entries(entries(&[
        ("identity_provider", Value::from("x")),
        ("kind", Value::from("mock")),
        ("kind", Value::from("mock")),
    ]))
    .err()
    .unwrap();
    assert_eq!(err, "unknown field `identity_provider`, did you mean `identityProvider`?");
    let err = read_source_entries(entries(&[("bootstrap_provider", Value::Null)])).err().unwrap();
    assert!(err.contains("bootstrapProvider"));
}

#[test]
fn source_map_refuses_wrong_types() {
    let err = read_source_entries(entries(&[("kind", Value::from(5)), ("id", Value::from("a"))])).err().unwrap();
    assert_eq!(err, "invalid type for `kind`, expected a string");
    let err = read_source_entries(entries(&[("kind", Value::from("k")), ("autoStart", Value::from("yes"))]))
        .err()
        .unwrap();
    assert_eq!(err, "invalid type for `autoStart`, expected a boolean");
}

#[test]
fn source_map_missing_kind_comes_before_missing_id() {
    let err = read_source_entries(entries(&[("x", Value::from(1))])).err().unwrap();
    assert_eq!(err, "missing field `kind`");
}

#[test]
fn source_map_keeps_the_rest_in_order() {
    let r = read_source_entries(entries(&[
        ("zeta", Value::from(1)),
        ("kind", Value::from("mock")),
        ("identityProvider", Value::from("idp")),
        ("alpha", Value::from(2)),
        ("id", Value::from("s")),
        ("bootstrapProvider", Value::Null),
        ("autoStart", Value::from(false)),
    ]))
    .unwrap();
    assert_eq!(r.fields.kind, "mock");
    assert_eq!(r.fields.id, "s");
    assert!(!r.fields.auto_start);
    assert_eq!(r.fields.identity_provider.as_deref(), Some("idp"));
    assert_eq!(r.fields.bootstrap_provider, Some(5));
    assert_eq!(r.fields.config, vec![("zeta".to_string(), 0), ("alpha".to_string(), 3)]);
}

#[test]
fn reaction_map_reads_queries_and_defaults_auto_start() {
    let r = read_reaction(r#"{ "kind": "log", "id": "r1", "queries": ["q1", "q2"] }"#).unwrap();
    assert_eq!(r.fields.kind, "log");
    assert_eq!(r.fields.id, "r1");
    assert_eq!(r.fields.queries, vec!["q1".to_string(), "q2".to_string()]);
    assert!(r.fields.auto_start);
    assert!(r.fields.config.is_empty());
}

#[test]
fn reaction_map_refuses_queries_that_are_not_strings() {
    let err = read_reaction(r#"{ "kind": "log", "id": "r1", "queries": "q1" }"#).err().unwrap();
    assert_eq!(err, "invalid type for `queries`, expected a sequence of strings");
}

#[test]
fn test_source_deserialize_auto_start_defaults_true() {
    let r = read_source(r#"{ "kind": "mock", "id": "test-source" }"#, false).unwrap();
    assert!(r.fields.auto_start);
}

#[test]
fn test_source_deserialize_http_valid() {
    let r = read_source(
        r#"{ "kind": "http", "id": "http-source", "autoStart": true, "host": "localhost", "port": 8080, "timeoutMs": 5000 }"#,
        false,
    )
    .unwrap();
    assert_eq!(r.fields.id, "http-source");
    assert_eq!(r.fields.kind, "http");
}

#[test]
fn test_source_deserialize_grpc_valid() {
    let r = read_source(r#"{ "kind": "grpc", "id": "grpc-source", "endpoint": "http://localhost:50051" }"#, false)
        .unwrap();
    assert_eq!(r.fields.id, "grpc-source");
    assert_eq!(r.fields.kind, "grpc");
}

#[test]
fn test_source_deserialize_postgres_valid() {
    let r = read_source(
        r#"{ "kind": "postgres", "id": "pg-source", "host": "localhost", "port": 5432, "database": "testdb",
             "user": "postgres", "password": "secret", "slotName": "test_slot", "publicationName": "test_pub" }"#,
        false,
    )
    .unwrap();
    assert_eq!(r.fields.id, "pg-source");
    assert_eq!(r.fields.kind, "postgres");
}

#[test]
fn test_source_deserialize_unknown_kind_accepted_at_deser() {
    let r = read_source(r#"{ "kind": "unknown-source-type", "id": "test-source" }"#, false).unwrap();
    assert_eq!(r.fields.kind, "unknown-source-type");
    assert_eq!(r.fields.id, "test-source");
}

#[test]
fn test_source_deserialize_unknown_field_stored_in_config() {
    let r = read_source(r#"{ "kind": "mock", "id": "test-source", "unknownField": "value" }"#, false).unwrap();
    assert_eq!(r.fields.id, "test-source");
    assert_eq!(source_config(&r)["unknownField"], "value");
}

#[test]
fn test_source_deserialize_extra_field_stored_with_kind_context() {
    let r = read_source(r#"{ "kind": "mock", "id": "my-unique-source", "badField": "value" }"#, false).unwrap();
    assert_eq!(r.fields.id, "my-unique-source");
    assert_eq!(r.fields.kind, "mock");
    assert_eq!(source_config(&r)["badField"], "value");
}

#[test]
fn test_source_deserialize_kind_preserved() {
    let r = read_source(r#"{ "kind": "mock", "id": "test-source", "badField": "value" }"#, false).unwrap();
    assert_eq!(r.fields.kind, "mock");
}

#[test]
fn test_source_deserialize_yaml_format() {
    let yaml = "\nkind: mock\nid: yaml-source\nautoStart: true\ndataType:\n  type: sensorReading\nintervalMs: 1000\n";
    let r = read_source(yaml, true).unwrap();
    assert_eq!(r.fields.id, "yaml-source");
    assert!(r.fields.auto_start);
}

#[test]
fn test_source_deserialize_duplicate_field_rejected() {
    let err = read_source(r#"{ "kind": "mock", "id": "first-id", "id": "second-id" }"#, false).err().unwrap();
    assert!(err.contains("duplicate"), "Error should mention duplicate field: {err}");
}

#[test]
fn test_source_deserialize_with_enum_data_type() {
    let r = read_source(
        r#"{ "kind": "mock", "id": "test-source", "dataType": { "type": "sensorReading", "sensorCount": 10 }, "intervalMs": 1000 }"#,
        false,
    )
    .unwrap();
    assert_eq!(r.fields.id, "test-source");
    assert_eq!(r.fields.kind, "mock");
    let config = source_config(&r);
    assert_eq!(config["dataType"]["type"], "sensorReading");
    assert_eq!(config["dataType"]["sensorCount"], 10);
}

#[test]
fn source_map_later_config_entry_replaces_earlier() {
    let r = read_source(r#"{ "kind": "mock", "id": "s", "port": 1, "port": 2 }"#, false).unwrap();
    assert_eq!(r.fields.config, vec![("port".to_string(), 3)]);
    assert_eq!(source_config(&r)["port"], 2);
}

#[test]
fn test_reaction_deserialize_log_valid() {
    let r = read_reaction(r#"{ "kind": "log", "id": "test-log", "queries": ["query1", "query2"], "autoStart": true }"#)
        .unwrap();
    assert_eq!(r.fields.id, "test-log");
    assert_eq!(r.fields.queries, vec!["query1".to_string(), "query2".to_string()]);
    assert!(r.fields.auto_start);
    assert_eq!(r.fields.kind, "log");
}

#[test]
fn test_reaction_deserialize_log_minimal() {
    let r = read_reaction(r#"{ "kind": "log", "id": "test-log", "queries": ["query1"] }"#).unwrap();
    assert_eq!(r.fields.id, "test-log");
    assert!(r.fields.auto_start);
}

#[test]
fn test_reaction_deserialize_auto_start_defaults_true() {
    let r = read_reaction(r#"{ "kind": "log", "id": "test-log", "queries": ["query1"] }"#).unwrap();
    assert!(r.fields.auto_start);
}

#[test]
fn test_reaction_deserialize_auto_start_explicit_false() {
    let r = read_reaction(r#"{ "kind": "log", "id": "test-log", "queries": ["query1"], "autoStart": false }"#).unwrap();
    assert!(!r.fields.auto_start);
}

#[test]
fn test_reaction_deserialize_http_valid() {
    let r = read_reaction(
        r#"{ "kind": "http", "id": "http-reaction", "queries": ["query1"], "baseUrl": "http://localhost:8080", "timeoutMs": 5000, "routes": {} }"#,
    )
    .unwrap();
    assert_eq!(r.fields.id, "http-reaction");
    assert_eq!(r.fields.kind, "http");
}

#[test]
fn test_reaction_deserialize_http_adaptive_valid() {
    let r = read_reaction(
        r#"{ "kind": "http-adaptive", "id": "http-adaptive-reaction", "queries": ["query1"], "baseUrl": "http://localhost:8080", "timeoutMs": 5000, "routes": {} }"#,
    )
    .unwrap();
    assert_eq!(r.fields.id, "http-adaptive-reaction");
    assert_eq!(r.fields.kind, "http-adaptive");
}

#[test]
fn test_reaction_deserialize_grpc_valid() {
    let r = read_reaction(
        r#"{ "kind": "grpc", "id": "grpc-reaction", "queries": ["query1"], "endpoint": "http://localhost:50051" }"#,
    )
    .unwrap();
    assert_eq!(r.fields.id, "grpc-reaction");
    assert_eq!(r.fields.kind, "grpc");
}

#[test]
fn test_reaction_deserialize_grpc_adaptive_valid() {
    let r = read_reaction(
        r#"{ "kind": "grpc-adaptive", "id": "grpc-adaptive-reaction", "queries": ["query1"], "endpoint": "http://localhost:50051" }"#,
    )
    .unwrap();
    assert_eq!(r.fields.id, "grpc-adaptive-reaction");
    assert_eq!(r.fields.kind, "grpc-adaptive");
}

#[test]
fn test_reaction_deserialize_sse_valid() {
    let r = read_reaction(r#"{ "kind": "sse", "id": "sse-reaction", "queries": ["query1"] }"#).unwrap();
    assert_eq!(r.fields.id, "sse-reaction");
    assert_eq!(r.fields.kind, "sse");
}

#[test]
fn test_reaction_deserialize_platform_valid() {
    let r = read_reaction(
        r#"{ "kind": "platform", "id": "platform-reaction", "queries": ["query1"], "redisUrl": "redis://localhost:6379" }"#,
    )
    .unwrap();
    assert_eq!(r.fields.id, "platform-reaction");
    assert_eq!(r.fields.kind, "platform");
}

#[test]
fn test_reaction_deserialize_profiler_valid() {
    let r = read_reaction(r#"{ "kind": "profiler", "id": "profiler-reaction", "queries": ["query1"] }"#).unwrap();
    assert_eq!(r.fields.id, "profiler-reaction");
    assert_eq!(r.fields.kind, "profiler");
}

#[test]
fn test_reaction_deserialize_unknown_kind_accepted() {
    let r = read_reaction(r#"{ "kind": "unknown-reaction-type", "id": "test-reaction", "queries": ["query1"] }"#)
        .unwrap();
    assert_eq!(r.fields.kind, "unknown-reaction-type");
}

#[test]
fn test_reaction_deserialize_unknown_kind_accepted_at_deser() {
    let r = read_reaction(r#"{ "kind": "unknown-reaction-type", "id": "test-reaction", "queries": ["query1"] }"#)
        .unwrap();
    assert_eq!(r.fields.kind, "unknown-reaction-type");
    assert_eq!(r.fields.id, "test-reaction");
}

#[test]
fn test_reaction_deserialize_unknown_field_stored_in_config() {
    let r = read_reaction(r#"{ "kind": "log", "id": "test-reaction", "queries": ["query1"], "unknownField": "value" }"#)
        .unwrap();
    assert_eq!(r.fields.id, "test-reaction");
    assert_eq!(reaction_config(&r)["unknownField"], "value");
}

#[test]
fn test_reaction_deserialize_extra_field_stored_with_id_context() {
    let r = read_reaction(r#"{ "kind": "log", "id": "my-unique-reaction", "queries": ["query1"], "badField": "value" }"#)
        .unwrap();
    assert_eq!(r.fields.id, "my-unique-reaction");
    assert_eq!(reaction_config(&r)["badField"], "value");
}

#[test]
fn test_reaction_deserialize_kind_preserved() {
    let r = read_reaction(r#"{ "kind": "log", "id": "test-reaction", "queries": ["query1"], "badField": "value" }"#)
        .unwrap();
    assert_eq!(r.fields.kind, "log");
}

#[test]
fn test_reaction_deserialize_yaml_format() {
    let yaml = "\nkind: log\nid: yaml-reaction\nqueries:\n  - query1\n  - query2\nautoStart: true\n";
    let r = read_reaction_text(yaml, true).unwrap();
    assert_eq!(r.fields.id, "yaml-reaction");
    assert_eq!(r.fields.queries, vec!["query1".to_string(), "query2".to_string()]);
    assert!(r.fields.auto_start);
}

#[test]
fn test_reaction_deserialize_empty_queries() {
    let r = read_reaction(r#"{ "kind": "log", "id": "test-reaction", "queries": [] }"#).unwrap();
    assert!(r.fields.queries.is_empty());
}

#[test]
fn test_reaction_deserialize_with_env_var_syntax() {
    let r = read_reaction(
        r#"{ "kind": "http", "id": "test-http", "queries": ["query1"], "baseUrl": "${BASE_URL:-http://localhost:8080}", "timeoutMs": 5000, "routes": {} }"#,
    )
    .unwrap();
    assert_eq!(r.fields.id, "test-http");
    assert_eq!(r.fields.kind, "http");
    assert_eq!(reaction_config(&r)["baseUrl"].as_str().unwrap(), "${BASE_URL:-http://localhost:8080}");
}
