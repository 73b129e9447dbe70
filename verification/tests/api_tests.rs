use drasi_server::plugins::{find_kind, kind_not_found_message, match_factory, parse_schema_category, property_shape, required_fields, ConfigField, ConfigType, FactoryMatch, PluginKindInfoDto, SchemaCategory};
use drasi_server::operations::{instance_links, source_events_url};
use drasi_server::graph_check::{check_snapshot, cleanup_outcome, preparation_failure_message, SnapshotError};
use drasi_server::templates::{
    choose_body_reading, component_ids, template_file_names, template_id_for_file, BodyReading,
};
use drasi_server::api_error::{error_detail, error_to_status_code, ApiErrorResponse, RuntimeError};
use drasi_server::cli::{install_summary_parts, summary_parts, Tone};
use drasi_server::dto::config_value::ConfigValue;
use drasi_server::dto::http_reaction::{
    default_adaptive_batch_timeout_ms, default_adaptive_max_batch_size,
    default_adaptive_min_batch_size, default_adaptive_window_size, default_base_url,
    default_reaction_timeout_ms,
};
use drasi_server::dto::http_source::{
    default_cors_enabled, default_cors_headers, default_cors_max_age, default_cors_methods,
    default_cors_origins, default_http_timeout_ms, default_methods, ErrorBehaviorDto,
    HttpMethodDto, SignatureEncodingDto,
};
use drasi_server::dto::mock::{default_interval_ms, default_sensor_count, DataTypeDto};
use drasi_server::dto::query::{
    default_auto_start, default_bootstrap_buffer_size, default_enable_bootstrap,
    default_query_language,
};
use drasi_server::dto::storedproc::{default_hostname, default_retry_attempts, default_timeout_ms};
use drasi_server::envelope::{
    allowed_bootstrap_provider_fields, inherited_bootstrap_fields, Envelope, EnvelopeError,
    KeyDecision,
};
use drasi_server::graph_check::{
    validate_definition, ComponentDeclaration, ComputationGraphConfig, DefinitionError, GraphDefinition,
    PipeDeclaration, RecipeEntry, ResourceDeclaration, ComputationResourceConfig, ResourceRole,
};
use drasi_server::instance::{
    invalid_memory_budget_error, operation_error, require_writable, wal_directory,
    CreateInstanceRequest,
};
use drasi_server::operations::{
    apply_limit, attach_reaction_id, attach_start_failure_is_fatal, check_upsert_id,
    component_links, is_duplicate_error, is_duplicate_query_error, read_only_refusal,
    upsert_action, upsert_success_message, ComponentViewQuery, UpsertAction,
};
use drasi_server::plugins::{
    component_dependents, computation_plugin_id, default_max_concurrent, default_search_query,
    is_computation_plugin, upgrade_error_status, ComponentNode, NodeKind, UpgradeErrorKind,
};

fn text(v: &ConfigValue<String>) -> String {
    match v {
        ConfigValue::Static(s) => s.clone(),
        _ => panic!("expected an inline value"),
    }
}

#[test]
fn defaults_of_configuration_documents() {
    assert!(!default_auto_start());
    assert_eq!(text(&default_query_language()), "GQL");
    assert!(default_enable_bootstrap());
    assert_eq!(default_bootstrap_buffer_size(), 10000);
    assert_eq!(default_base_url(), "http://localhost");
    assert_eq!(default_reaction_timeout_ms(), 5000);
    assert_eq!(default_adaptive_window_size(), 100);
    assert_eq!(default_adaptive_batch_timeout_ms(), 1000);
    assert_eq!(default_adaptive_max_batch_size(), 1000);
    assert_eq!(default_adaptive_min_batch_size(), 1);
    assert_eq!(default_sensor_count(), 5);
    assert!(matches!(default_interval_ms(), ConfigValue::Static(5000)));
    assert_eq!(DataTypeDto::default(), DataTypeDto::Generic);
    assert_eq!(text(&default_hostname()), "localhost");
    assert!(matches!(default_timeout_ms(), ConfigValue::Static(5000)));
    assert!(matches!(default_retry_attempts(), ConfigValue::Static(3)));
    assert!(matches!(default_http_timeout_ms(), ConfigValue::Static(10000)));
    assert!(default_cors_enabled());
    assert_eq!(default_cors_max_age(), 3600);
    assert_eq!(default_methods(), vec![HttpMethodDto::Post]);
    assert_eq!(ErrorBehaviorDto::default(), ErrorBehaviorDto::AcceptAndLog);
    assert_eq!(SignatureEncodingDto::default(), SignatureEncodingDto::Hex);
    let origins: Vec<String> = default_cors_origins().iter().map(text).collect();
    assert_eq!(origins, vec!["*"]);
    let methods: Vec<String> = default_cors_methods().iter().map(text).collect();
    assert_eq!(methods, vec!["GET", "POST", "PUT", "PATCH", "DELETE", "OPTIONS"]);
    let headers: Vec<String> = default_cors_headers().iter().map(text).collect();
    assert_eq!(headers, vec!["Content-Type", "Authorization", "X-Requested-With"]);
    assert_eq!(default_search_query(), "*");
    assert_eq!(default_max_concurrent(), 1);
}

#[test]
fn source_envelope_reads_fields_once() {
    let mut e = Envelope::source();
    assert_eq!(e.read_key("kind").unwrap(), KeyDecision::Field(0));
    assert_eq!(e.read_key("id").unwrap(), KeyDecision::Field(1));
    assert_eq!(e.read_key("host").unwrap(), KeyDecision::Config);
    assert!(e.check_required().is_ok());
    match e.read_key("kind") {
        Err(EnvelopeError::DuplicateField(f)) => assert_eq!(f, "kind"),
        other => panic!("unexpected {other:?}"),
    }
    let err = e.read_key("auto_start").unwrap_err();
    assert_eq!(err.message(), "unknown field `auto_start`, did you mean `autoStart`?");
}

#[test]
fn envelopes_report_the_first_missing_field() {
    let mut e = Envelope::reaction();
    e.read_key("id").unwrap();
    match e.check_required() {
        Err(EnvelopeError::MissingField(f)) => assert_eq!(f, "kind"),
        other => panic!("unexpected {other:?}"),
    }
    e.read_key("kind").unwrap();
    assert_eq!(e.check_required().unwrap_err().message(), "missing field `queries`");
    let mut b = Envelope::kind_only();
    assert_eq!(b.read_key("auto_start").unwrap(), KeyDecision::Config);
    assert!(b.check_required().is_err());
    let mut t = Envelope::kind_and_id();
    t.read_key("kind").unwrap();
    assert_eq!(t.check_required().unwrap_err().message(), "missing field `id`");
    let dup = EnvelopeError::DuplicateField("id");
    assert_eq!(dup.message(), "duplicate field `id`");
}

#[test]
fn bootstrap_providers_inherit_source_fields() {
    assert_eq!(allowed_bootstrap_provider_fields("scriptfile"), Some(vec!["filePaths"]));
    assert_eq!(allowed_bootstrap_provider_fields("noop"), Some(vec![]));
    assert_eq!(allowed_bootstrap_provider_fields("http"), None);
    assert_eq!(allowed_bootstrap_provider_fields("postgres").unwrap().len(), 10);
    let keys = |v: &[&str]| v.iter().map(|s| s.to_string()).collect::<Vec<String>>();
    let inherited = inherited_bootstrap_fields(
        "postgres",
        Some("postgres"),
        &keys(&["kind", "host"]),
        &keys(&["host", "port", "database", "other"]),
    );
    assert_eq!(inherited, vec!["port", "database"]);
    assert!(inherited_bootstrap_fields("postgres", Some("scriptfile"), &keys(&[]), &keys(&["filePaths"])).is_empty());
    assert!(inherited_bootstrap_fields("postgres", None, &keys(&[]), &keys(&["host"])).is_empty());
}

fn resource(id: &str, role: ResourceRole, owned: bool) -> ResourceDeclaration {
    ResourceDeclaration { id: id.to_string(), role, graph_owned: owned }
}

fn graph() -> ComputationGraphConfig {
    ComputationGraphConfig { auto_start: true, definition: definition() }
}

fn definition() -> GraphDefinition {
    GraphDefinition {
        graph_id: "g1".to_string(),
        version: 1,
        graph_id_error: None,
        components: vec![ComponentDeclaration { is_factory: true, required_resources: vec!["idx".to_string()] }],
        boundary_relationships: 0,
        relationships: vec![PipeDeclaration::Plain],
        resources: vec![resource("idx", ResourceRole::IndexBackend, true)],
        resource_configurations: vec![(
            "idx".to_string(),
            RecipeEntry::Parsed(ComputationResourceConfig::RocksdbIndexes { path: "/data".to_string() }),
        )],
        component_resources: vec![],
    }
}

#[test]
fn graph_definitions_are_checked_in_order() {
    assert!(validate_definition(&graph()).is_ok());

    let mut g = graph();
    g.definition.version = 2;
    assert!(matches!(validate_definition(&g), Err(DefinitionError::UnsupportedVersion)));

    let mut g = graph();
    g.definition.resources.push(resource("idx", ResourceRole::IndexBackend, true));
    assert!(matches!(validate_definition(&g), Err(DefinitionError::DuplicateResource)));

    let mut g = graph();
    g.definition.resources[0].graph_owned = false;
    let e = validate_definition(&g).unwrap_err();
    assert_eq!(e.message(), "server-created RocksDB resources require graph cleanup ownership");

    let mut g = graph();
    g.definition.resource_configurations.clear();
    let e = validate_definition(&g).unwrap_err();
    assert_eq!(
        e.message(),
        "resource idx has no construction recipe; external bindings cannot be persisted or cloned"
    );

    let mut g = graph();
    g.definition.components[0].required_resources.push("ghost".to_string());
    let e = validate_definition(&g).unwrap_err();
    assert_eq!(e.message(), "required resource ghost has no declaration or construction recipe");

    let mut g = graph();
    g.definition.relationships.push(PipeDeclaration::Provided {
        requirements: vec![("idx".to_string(), ResourceRole::Middleware)],
    });
    let e = validate_definition(&g).unwrap_err();
    assert_eq!(e.message(), "pipe resource idx has an incompatible declared role");

    let mut g = graph();
    g.definition.relationships.push(PipeDeclaration::External);
    assert!(matches!(validate_definition(&g), Err(DefinitionError::ExternalBinding)));
}

#[test]
fn links_views_and_limits() {
    let links = component_links("/api/v1", "inst", "sources", "s1");
    assert_eq!(links.self_link, "/api/v1/instances/inst/sources/s1");
    assert_eq!(links.full, "/api/v1/instances/inst/sources/s1?view=full");
    assert!(ComponentViewQuery::new(Some("full".to_string())).include_config());
    assert!(!ComponentViewQuery::new(Some("brief".to_string())).include_config());
    assert!(!ComponentViewQuery::new(None).include_config());
    let items: Vec<u32> = (0..150).collect();
    assert_eq!(apply_limit(items.clone(), None).len(), 100);
    assert_eq!(apply_limit(items.clone(), None)[0], 50);
    assert!(apply_limit(items.clone(), Some(0)).is_empty());
    assert_eq!(apply_limit(items.clone(), Some(3)), vec![147, 148, 149]);
    assert_eq!(apply_limit(vec![1, 2], Some(5)), vec![1, 2]);
}

#[test]
fn upserts_and_refusals() {
    assert_eq!(read_only_refusal("create sources"), "Server is in read-only mode. Cannot create sources.");
    assert!(check_upsert_id("a", "a").is_ok());
    assert_eq!(check_upsert_id("a", "b").unwrap_err(), "Path id 'a' does not match body id 'b'");
    assert_eq!(upsert_action(true), UpsertAction::Update);
    assert_eq!(upsert_action(false), UpsertAction::Create);
    assert_eq!(upsert_success_message("Source", "s1", UpsertAction::Update), "Source 's1' updated successfully");
    assert_eq!(upsert_success_message("Reaction", "r", UpsertAction::Create), "Reaction 'r' created successfully");
    assert!(is_duplicate_error("source 's1' already exists"));
    assert!(!is_duplicate_error("something else"));
    assert!(is_duplicate_query_error("duplicate id"));
    assert_eq!(attach_reaction_id("q1", "abc"), "__attach_q1_abc");
    assert!(!attach_start_failure_is_fatal("reaction is already running"));
    assert!(attach_start_failure_is_fatal("boom"));
}

#[test]
fn plugin_dependents_and_upgrades() {
    let nodes = vec![
        ComponentNode { id: "s1".to_string(), kind: NodeKind::Source, plugin_id: Some("p".to_string()), plugin_kind: Some("pg".to_string()), running: true },
        ComponentNode { id: "q1".to_string(), kind: NodeKind::Other, plugin_id: Some("p".to_string()), plugin_kind: None, running: true },
        ComponentNode { id: "r1".to_string(), kind: NodeKind::Reaction, plugin_id: Some("p".to_string()), plugin_kind: None, running: false },
        ComponentNode { id: "r2".to_string(), kind: NodeKind::Reaction, plugin_id: Some("other".to_string()), plugin_kind: None, running: false },
    ];
    let deps = component_dependents("inst", &nodes, "p");
    assert_eq!(deps.len(), 2);
    assert_eq!(deps[0].component_id, "s1");
    assert_eq!(deps[0].component_type, "source");
    assert_eq!(deps[0].kind, "pg");
    assert!(deps[0].running);
    assert_eq!(deps[1].component_type, "reaction");
    assert_eq!(deps[1].kind, "");
    assert_eq!(deps[1].instance_id, "inst");
    assert_eq!(computation_plugin_id("x", "1.0"), "computation:x@1.0");
    assert!(is_computation_plugin("computation:x@1.0"));
    assert!(!is_computation_plugin("source/x"));
    assert_eq!(upgrade_error_status(UpgradeErrorKind::PlanNotFound), (404, "UPGRADE_PLAN_NOT_FOUND"));
    assert_eq!(upgrade_error_status(UpgradeErrorKind::CannotCancel), (409, "UPGRADE_CANNOT_CANCEL"));
    assert_eq!(upgrade_error_status(UpgradeErrorKind::DependentLookupFailed), (400, "UPGRADE_NO_DEPENDENTS"));
}

#[test]
fn runtime_errors_map_to_details_and_statuses() {
    let d = error_detail(&RuntimeError::ComponentNotFound("s1".to_string()));
    assert_eq!(d.code, "COMPONENT_NOT_FOUND");
    assert_eq!(d.message, "Component not found: s1");
    assert_eq!(d.component_id, Some("s1".to_string()));
    let d = error_detail(&RuntimeError::Other("x".to_string()));
    assert_eq!(d.code, "INTERNAL_ERROR");
    assert_eq!(d.message, "Error: x");
    assert!(d.component_id.is_none());
    assert_eq!(error_to_status_code(&RuntimeError::ComponentAlreadyExists("a".to_string())), 409);
    assert_eq!(error_to_status_code(&RuntimeError::Configuration("a".to_string())), 400);
    assert_eq!(error_to_status_code(&RuntimeError::IoError("a".to_string())), 500);
    let r = ApiErrorResponse::with_component("C", "m", "id");
    assert!(!r.success);
    assert_eq!(r.error.component_id, Some("id".to_string()));
    assert!(ApiErrorResponse::new("C", "m").error.component_id.is_none());
}

#[test]
fn summaries_show_nonzero_counts() {
    let parts = summary_parts(2, 0, 1, 0);
    assert_eq!(parts.len(), 2);
    assert_eq!((parts[0].count, parts[0].label, parts[0].tone), (2, "upgraded", Tone::Good));
    assert_eq!((parts[1].count, parts[1].label, parts[1].tone), (1, "skipped", Tone::Warning));
    assert!(summary_parts(0, 0, 0, 0).is_empty());
    let parts = install_summary_parts(0, 3, 1);
    assert_eq!(parts.len(), 2);
    assert_eq!(parts[0].label, "already installed");
    assert_eq!(parts[1].label, "failed");
}

#[test]
fn instances_and_refusals() {
    let req = CreateInstanceRequest {
        id: "i".to_string(),
        persist_index: None,
        enable_archive: Some(true),
        memory_budget_mib: None,
        default_priority_queue_capacity: None,
        default_dispatch_buffer_capacity: None,
    };
    let s = req.storage();
    assert!(!s.persist_index);
    assert!(s.enable_archive);
    assert_eq!(wal_directory("abc"), "./data/abc/wal");
    let r = invalid_memory_budget_error("i", "too small");
    assert_eq!(r.code, "INVALID_REQUEST");
    assert_eq!(r.message, "Invalid instance memory budget configuration");
    assert_eq!(r.context.component_id, Some("i".to_string()));
    assert_eq!(operation_error("g", "start", "e").message, "Failed to start computation graph");
    assert_eq!(operation_error("g", "start", "e").code, "COMPUTATION_OPERATION_FAILED");
    assert!(require_writable(false).is_ok());
    assert!(require_writable(true).is_err());
}

#[test]
fn source_push_proxy_urls() {
    assert_eq!(
        source_events_url(None, None, None, "s1"),
        "http://127.0.0.1:8081/sources/s1/events"
    );
    assert_eq!(
        source_events_url(Some("0.0.0.0"), Some(9000), Some("//api"), "s2"),
        "http://127.0.0.1:9000/api/sources/s2/events"
    );
    assert_eq!(
        source_events_url(Some("example.org"), Some(0), Some(""), "x"),
        "http://example.org:0/sources/x/events"
    );
    let links = instance_links("/api/v1", "inst");
    assert_eq!(links.self_link, "/api/v1/instances/inst");
    assert_eq!(links.sources, "/api/v1/instances/inst/sources");
    assert_eq!(links.queries, "/api/v1/instances/inst/queries");
    assert_eq!(links.reactions, "/api/v1/instances/inst/reactions");
}

#[test]
fn saved_configurations_are_checked_graph_by_graph() {
    let good = graph();
    let mut bad = graph();
    bad.definition.graph_id = "broken".to_string();
    bad.definition.version = 7;
    let graphs = vec![good, bad];
    assert!(matches!(check_snapshot(2, false, &graphs), Err(SnapshotError::UnsupportedVersion)));
    assert!(matches!(check_snapshot(1, true, &graphs), Err(SnapshotError::NativeComponents)));
    let err = check_snapshot(1, false, &graphs).unwrap_err();
    assert!(matches!(err, SnapshotError::Graph(1, DefinitionError::UnsupportedVersion)));
    assert_eq!(err.message(&graphs), "computation graph 'broken' cannot be persisted or cloned");
    assert!(check_snapshot(1, false, &vec![graph()]).is_ok());
    assert!(cleanup_outcome(&Vec::new()).is_ok());
    assert_eq!(
        cleanup_outcome(&vec!["a".to_string(), "b".to_string()]).unwrap_err(),
        "instance cleanup failed: a; b"
    );
    assert_eq!(
        preparation_failure_message("boom", &vec!["x".to_string()]),
        "boom; cleanup remains owned and retryable: x"
    );
}

#[test]
fn template_files_and_bodies() {
    assert_eq!(template_id_for_file("iot-monitor.yaml"), Some("iot-monitor".to_string()));
    assert_eq!(template_id_for_file("a.b.yml"), Some("a.b".to_string()));
    assert_eq!(template_id_for_file(".yaml"), None);
    assert_eq!(template_id_for_file("notes.txt"), None);
    assert_eq!(template_id_for_file("README"), None);
    assert_eq!(template_file_names("x"), ("x.yaml".to_string(), "x.yml".to_string()));
    assert_eq!(
        component_ids(&vec![Some("a".to_string()), None, Some("c".to_string())]),
        vec!["a".to_string(), "c".to_string()]
    );
    assert_eq!(choose_body_reading(Some("application/json"), Some("{}")), BodyReading::Json);
    assert_eq!(choose_body_reading(None, None), BodyReading::Json);
    assert_eq!(choose_body_reading(Some("text/yaml"), Some("a: 1")), BodyReading::Yaml);
    assert_eq!(choose_body_reading(Some("text/yaml"), Some("a: &x 1\nb: *x")), BodyReading::RefuseAliases);
    assert_eq!(choose_body_reading(Some("text/yaml"), None), BodyReading::Yaml);
}

fn kind_info(kind: &str) -> PluginKindInfoDto {
    PluginKindInfoDto {
        kind: kind.to_string(),
        config_version: "1".to_string(),
        config_schema_json: String::new(),
        config_schema_name: String::new(),
        plugin_id: "p".to_string(),
    }
}

#[test]
fn schema_requests() {
    assert_eq!(parse_schema_category("sources").unwrap(), SchemaCategory::Source);
    assert_eq!(parse_schema_category("bootstrappers").unwrap(), SchemaCategory::Bootstrap);
    assert_eq!(parse_schema_category("computation").unwrap(), SchemaCategory::Computation);
    assert_eq!(
        parse_schema_category("widgets").unwrap_err(),
        "Unknown category 'widgets'. Valid categories: source, reaction, bootstrap, computation"
    );
    let infos = vec![kind_info("http"), kind_info("mock")];
    assert_eq!(find_kind(&infos, "mock"), Some(1));
    assert_eq!(find_kind(&infos, "grpc"), None);
    assert_eq!(kind_not_found_message("grpc", "source"), "Kind 'grpc' not found in category 'source'");
    let names = vec!["a".to_string(), "b".to_string(), "a".to_string()];
    assert_eq!(match_factory(&names, "b"), FactoryMatch::One(1));
    assert_eq!(match_factory(&names, "c"), FactoryMatch::Missing);
    assert_eq!(match_factory(&names, "a"), FactoryMatch::Ambiguous);
    let fields = vec![
        ConfigField { name: "list".to_string(), value_type: ConfigType::Array, secret: false, required: true },
        ConfigField { name: "token".to_string(), value_type: ConfigType::String, secret: true, required: false },
        ConfigField { name: "raw".to_string(), value_type: ConfigType::Json, secret: false, required: true },
    ];
    let s0 = property_shape(&fields[0]);
    assert_eq!(s0.json_kind, Some("array"));
    assert!(s0.has_items);
    let s1 = property_shape(&fields[1]);
    assert!(s1.write_only);
    assert_eq!(property_shape(&fields[2]).json_kind, None);
    assert_eq!(required_fields(&fields), vec!["list".to_string(), "raw".to_string()]);
}

#[test]
fn small_messages() {
    assert_eq!(drasi_server::instance::instance_created_message("i1"), "Instance 'i1' created successfully");
    let r = drasi_server::instance::plugin_operation_error("PLUGIN_LOAD_FAILED", "Plugin loading failed", "bad file");
    assert_eq!(r.code, "PLUGIN_LOAD_FAILED");
    assert_eq!(r.message, "Plugin loading failed");
    assert_eq!(r.context.component_type, Some("plugin".to_string()));
    assert_eq!(r.context.technical_details, Some("bad file".to_string()));
    assert_eq!(
        drasi_server::yaml_lines::extract_component_id("  - id: \"my-source\""),
        Some("my-source".to_string())
    );
    assert_eq!(drasi_server::yaml_lines::extract_component_id("id: ${X}"), None);
    assert_eq!(drasi_server::yaml_lines::extract_component_id("name: x"), None);
}

#[test]
fn builtin_identity_kinds() {
    assert!(drasi_server::envelope::is_builtin_identity_kind("password"));
    assert!(!drasi_server::envelope::is_builtin_identity_kind("azure"));
    assert_eq!(drasi_server::envelope::BUILTIN_PASSWORD_KIND, "password");
}

#[test]
fn error_responses_with_details() {
    let r = ApiErrorResponse::with_details("C", "m", serde_json::Value::Bool(true));
    assert!(!r.success);
    assert_eq!(r.error.details, Some(serde_json::Value::Bool(true)));
    assert!(r.error.component_id.is_none());
}
