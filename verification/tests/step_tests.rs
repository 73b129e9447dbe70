use drasi_server::deploy::query_mapping_check;
use drasi_server::operations::create_success_message;
use drasi_server::deploy::{ComponentKind, DeployStep, Deployment};
use drasi_server::dto::config_value::ConfigValue;
use drasi_server::dto::query::{QueryConfigDto, SourceSubscriptionConfigDto};
use drasi_server::dto::query_mapping::QueryConfigMapper;
use drasi_server::instance::{persist_after_operation, PERSISTENCE_FAILED};
use drasi_server::solution::DeployPhase;

fn components(items: &[(ComponentKind, &str, bool)]) -> Vec<(ComponentKind, String, bool)> {
    items.iter().map(|(k, id, s)| (*k, id.to_string(), *s)).collect()
}

#[test]
fn deployment_creates_in_order_then_starts() {
    let mut d = Deployment::new(components(&[
        (ComponentKind::Source, "s1", true),
        (ComponentKind::Query, "q1", false),
        (ComponentKind::Reaction, "r1", true),
    ]));
    for expected in 0..3 {
        match d.next_step() {
            DeployStep::Create(i) => assert_eq!(i, expected),
            DeployStep::Start(_) => panic!("started before everything was created"),
        }
        assert!(d.record_creation(Ok(())).is_none());
    }
    match d.next_step() {
        DeployStep::Start(plan) => assert_eq!(
            plan,
            vec![(ComponentKind::Source, "s1".to_string()), (ComponentKind::Reaction, "r1".to_string())]
        ),
        DeployStep::Create(_) => panic!("nothing is left to create"),
    }
    let response = d.progress.finish();
    assert!(response.success);
    assert_eq!(response.sources_created, vec!["s1".to_string()]);
    assert_eq!(response.queries_created, vec!["q1".to_string()]);
    assert_eq!(response.reactions_created, vec!["r1".to_string()]);
}

#[test]
fn deployment_rolls_back_what_it_created_on_failure() {
    let mut d = Deployment::new(components(&[
        (ComponentKind::Source, "s1", true),
        (ComponentKind::Source, "s2", true),
        (ComponentKind::Query, "q1", true),
        (ComponentKind::Reaction, "r1", true),
    ]));
    assert!(d.record_creation(Ok(())).is_none());
    assert!(d.record_creation(Ok(())).is_none());
    assert!(d.record_creation(Ok(())).is_none());
    let (rollback, response) = d.record_creation(Err("no such kind".to_string())).unwrap();
    assert_eq!(
        rollback,
        vec![
            (ComponentKind::Query, "q1".to_string()),
            (ComponentKind::Source, "s1".to_string()),
            (ComponentKind::Source, "s2".to_string()),
        ]
    );
    assert!(!response.success);
    assert!(response.sources_created.is_empty());
    assert_eq!(response.errors.len(), 1);
    assert_eq!(response.errors[0].phase, DeployPhase::Creation);
    assert_eq!(response.errors[0].component_type.as_deref(), Some("reaction"));
    assert_eq!(response.errors[0].component_id.as_deref(), Some("r1"));
    assert_eq!(response.errors[0].message, "no such kind");
}

#[test]
fn deployment_failing_first_creation_rolls_back_nothing() {
    let mut d = Deployment::new(components(&[(ComponentKind::Query, "q1", true)]));
    let (rollback, response) = d.record_creation(Err("bad".to_string())).unwrap();
    assert!(rollback.is_empty());
    assert_eq!(response.errors[0].component_id.as_deref(), Some("q1"));
}

fn query_dto(sources: Vec<ConfigValue<String>>) -> QueryConfigDto {
    QueryConfigDto {
        id: "q1".to_string(),
        auto_start: true,
        query: ConfigValue::Static("MATCH (n) RETURN n".to_string()),
        query_language: ConfigValue::EnvironmentVariable { name: "LANG_VAR".to_string(), default: None },
        middleware: vec!["m1".to_string()],
        sources: sources
            .into_iter()
            .map(|source_id| SourceSubscriptionConfigDto {
                source_id,
                nodes: vec![],
                relations: vec![],
                pipeline: vec!["p1".to_string()],
            })
            .collect(),
        enable_bootstrap: false,
        bootstrap_buffer_size: 42,
        joins: None,
        priority_queue_capacity: None,
        dispatch_buffer_capacity: None,
        dispatch_mode: None,
        storage_backend: None,
    }
}

#[test]
fn query_mapping_uses_static_values_and_lookups() {
    let dto = query_dto(vec![
        ConfigValue::Static("s1".to_string()),
        ConfigValue::EnvironmentVariable { name: "SRC".to_string(), default: None },
    ]);
    let mapped = QueryConfigMapper
        .map(
            &dto,
            vec![Ok("ignored".to_string()), Ok("s2".to_string())],
            Ok("ignored too".to_string()),
            Ok("Cypher".to_string()),
        )
        .unwrap();
    assert_eq!(mapped.id, "q1");
    assert!(mapped.auto_start);
    assert_eq!(mapped.query, "MATCH (n) RETURN n");
    assert_eq!(mapped.query_language, "Cypher");
    assert_eq!(mapped.middleware, vec!["m1".to_string()]);
    assert_eq!(mapped.sources.len(), 2);
    assert_eq!(mapped.sources[0].source_id, "s1");
    assert_eq!(mapped.sources[1].source_id, "s2");
    assert_eq!(mapped.sources[1].pipeline, vec!["p1".to_string()]);
    assert!(!mapped.enable_bootstrap);
    assert_eq!(mapped.bootstrap_buffer_size, 42);
}

#[test]
fn query_mapping_reports_the_first_failed_source() {
    let dto = query_dto(vec![
        ConfigValue::Secret { name: "a".to_string() },
        ConfigValue::Secret { name: "b".to_string() },
    ]);
    let err = QueryConfigMapper
        .map(&dto, vec![Err("first".to_string()), Err("second".to_string())], Ok(String::new()), Err("lang".to_string()))
        .err()
        .unwrap();
    assert_eq!(err, "first");
}

#[test]
fn query_mapping_reports_the_language_lookup() {
    let dto = query_dto(vec![]);
    let err = QueryConfigMapper.map(&dto, vec![], Ok(String::new()), Err("no LANG_VAR".to_string())).err().unwrap();
    assert_eq!(err, "no LANG_VAR");
}

#[test]
fn persistence_off_or_saved_reports_nothing() {
    assert!(persist_after_operation(None, "creating source").is_ok());
    assert!(persist_after_operation(Some(Ok(())), "creating source").is_ok());
}

#[test]
fn persistence_failure_is_refused() {
    let refusal = persist_after_operation(Some(Err("disk full".to_string())), "creating source").err().unwrap();
    assert_eq!(
        refusal.message,
        "Configuration change applied in memory but could not be persisted to disk after creating source. \
         The runtime state has changed; the on-disk configuration has not. Retry the operation or restart \
         the server after fixing the underlying persistence issue."
    );
    assert_eq!(refusal.context.technical_details.as_deref(), Some("disk full"));
    assert!(refusal.context.component_id.is_none());
    assert_eq!(refusal.code, PERSISTENCE_FAILED);
    assert_eq!(PERSISTENCE_FAILED, "PERSISTENCE_FAILED");
}

#[test]
fn query_mapping_failure_is_a_validation_error() {
    let dto = query_dto(vec![]);
    let ok = QueryConfigMapper.map(&dto, vec![], Ok(String::new()), Ok("GQL".to_string()));
    assert!(query_mapping_check("q1", &ok).is_none());
    let failed = QueryConfigMapper.map(&dto, vec![], Ok(String::new()), Err("no LANG_VAR".to_string()));
    let e = query_mapping_check("q1", &failed).unwrap();
    assert_eq!(e.phase, DeployPhase::Validation);
    assert_eq!(e.message, "in query 'q1': no LANG_VAR");
}

#[test]
fn created_messages() {
    assert_eq!(create_success_message(ComponentKind::Query, "q1"), "Query created successfully");
    assert_eq!(create_success_message(ComponentKind::Source, "s1"), "Source 's1' created successfully");
    assert_eq!(create_success_message(ComponentKind::Reaction, "r1"), "Reaction 'r1' created successfully");
}
