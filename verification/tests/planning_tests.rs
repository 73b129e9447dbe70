use drasi_server::clone_plan::{clone_order, is_internal_component, CloneTally};
use drasi_server::deploy::{
    check_plugin_ref, component_error, component_kind_error, creation_failed, failure_summary,
    missing_plugin_error, ComponentKind, DeployProgress, PluginCategory,
};
use drasi_server::solution::{DeployPhase, SolutionDeployError};
use drasi_server::template_plan::{
    find_id, required_plugin_refs, select_components, ReactionSummary, SourceSummary,
};
use drasi_server::variables::{contains_variable_reference, resolve_yaml_variables};

fn pairs(items: &[(&str, &str)]) -> Vec<(String, String)> {
    items.iter().map(|(a, b)| (a.to_string(), b.to_string())).collect()
}

#[test]
fn test_var_resolve_regex_compiles() {
    assert!(contains_variable_reference("${FOO}"));
    assert!(contains_variable_reference("${FOO:-bar}"));
    assert!(!contains_variable_reference("plain text"));
}

#[test]
fn resolve_prefers_overrides_then_environment_then_default() {
    let yaml = "a: ${A:-da}\nb: ${B:-db}\nc: ${C:-dc}\nd: ${D}\n";
    let overrides = pairs(&[("A", "over")]);
    let env = pairs(&[("A", "envA"), ("B", "envB")]);
    let out = resolve_yaml_variables(yaml, &overrides, &env);
    assert_eq!(out, "a: over\nb: envB\nc: dc\nd: \n");
}

#[test]
fn resolve_without_references_is_identity() {
    let yaml = "plain: text $ and {braces} ${ not a ref";
    let out = resolve_yaml_variables(yaml, &Vec::new(), &Vec::new());
    assert_eq!(out, yaml);
}

#[test]
fn resolve_uses_first_binding_of_a_name() {
    let out = resolve_yaml_variables("${X}", &pairs(&[("X", "1"), ("X", "2")]), &Vec::new());
    assert_eq!(out, "1");
}

#[test]
fn plugin_refs_are_checked() {
    let ok = check_plugin_ref("source/http").unwrap();
    assert_eq!(ok.category, PluginCategory::Source);
    assert_eq!(ok.kind, "http");
    let b = check_plugin_ref("bootstrap/a/b").unwrap();
    assert_eq!(b.category, PluginCategory::Bootstrap);
    assert_eq!(b.kind, "a/b");
    let r = check_plugin_ref("reaction/log").unwrap();
    assert_eq!(r.category, PluginCategory::Reaction);

    let bad = check_plugin_ref("sourcehttp").unwrap_err();
    assert_eq!(bad.phase, DeployPhase::Validation);
    assert_eq!(
        bad.message,
        "Invalid plugin reference 'sourcehttp': expected 'type/kind' (e.g., 'source/http')"
    );
    let unknown = check_plugin_ref("widget/x").unwrap_err();
    assert_eq!(unknown.message, "Unknown plugin type 'widget' in reference 'widget/x'");
    let missing = missing_plugin_error("source/pg");
    assert_eq!(
        missing.message,
        "Required plugin 'source/pg' is not registered. Install it or add it to the server config plugins list."
    );
}

#[test]
fn failure_summary_joins_messages() {
    let errors = vec![
        SolutionDeployError::validation("one"),
        SolutionDeployError::validation("two"),
    ];
    assert_eq!(failure_summary("Plugin validation failed: ", &errors), "Plugin validation failed: one; two");
    assert_eq!(failure_summary("X: ", &Vec::new()), "X: ");
}

#[test]
fn component_errors_name_the_component() {
    assert_eq!(component_error("query", Some("q1"), "bad").message, "in query 'q1': bad");
    assert_eq!(component_error("query", None, "bad").message, "in query 'unknown': bad");
    assert_eq!(
        component_kind_error("source", Some("s1"), Some("mock"), "oops").message,
        "in source 's1' (kind=mock): oops"
    );
    assert_eq!(
        component_kind_error("reaction", None, None, "oops").message,
        "in reaction 'unknown' (kind=unknown): oops"
    );
}

#[test]
fn deploy_progress_rolls_back_in_reverse_kind_order() {
    let mut p = DeployProgress::new();
    p.record_created(ComponentKind::Source, "s1".to_string(), true);
    p.record_created(ComponentKind::Source, "s2".to_string(), false);
    p.record_created(ComponentKind::Query, "q1".to_string(), true);
    p.record_created(ComponentKind::Reaction, "r1".to_string(), true);
    let plan: Vec<(ComponentKind, String)> = p.rollback_plan();
    assert_eq!(
        plan,
        vec![
            (ComponentKind::Reaction, "r1".to_string()),
            (ComponentKind::Query, "q1".to_string()),
            (ComponentKind::Source, "s1".to_string()),
            (ComponentKind::Source, "s2".to_string()),
        ]
    );
    let start = p.start_plan();
    assert_eq!(
        start,
        vec![
            (ComponentKind::Source, "s1".to_string()),
            (ComponentKind::Query, "q1".to_string()),
            (ComponentKind::Reaction, "r1".to_string()),
        ]
    );
}

#[test]
fn deploy_start_failures_keep_success() {
    let mut p = DeployProgress::new();
    p.record_created(ComponentKind::Source, "s1".to_string(), true);
    p.record_created(ComponentKind::Query, "q1".to_string(), true);
    p.record_started(ComponentKind::Source, "s1");
    p.record_start_failed(ComponentKind::Query, "q1", "boom");
    let resp = p.finish();
    assert!(resp.success);
    assert_eq!(resp.sources_created, vec!["s1"]);
    assert_eq!(resp.queries_created, vec!["q1"]);
    assert_eq!(resp.components_started, vec!["source:s1"]);
    assert_eq!(resp.errors.len(), 1);
    assert_eq!(resp.errors[0].phase, DeployPhase::Start);
    assert_eq!(resp.errors[0].component_id, Some("q1".to_string()));
}

#[test]
fn deploy_creation_failure_reports_one_error() {
    let resp = creation_failed(ComponentKind::Reaction, "r9", "no such kind");
    assert!(!resp.success);
    assert!(resp.reactions_created.is_empty());
    assert_eq!(resp.errors.len(), 1);
    assert_eq!(resp.errors[0].phase, DeployPhase::Creation);
    assert_eq!(resp.errors[0].component_type, Some("reaction".to_string()));
    assert_eq!(resp.errors[0].message, "no such kind");
}

#[test]
fn clone_skips_internal_components() {
    assert!(is_internal_component("__attach_q_1"));
    assert!(!is_internal_component("_single"));
    assert!(!is_internal_component("source-1"));
}

#[test]
fn clone_tally_reports_failures() {
    let mut t = CloneTally::new();
    t.record_added(ComponentKind::Source, "s1".to_string());
    t.record_failure("create", ComponentKind::Reaction, "r1", "bad");
    t.record_late_failure(ComponentKind::Source, "s1", "timeout");
    let r = t.finish();
    assert!(!r.success);
    assert_eq!(r.sources_created, vec!["s1"]);
    assert_eq!(
        r.errors,
        vec![
            "Failed to create reaction 'r1': bad".to_string(),
            "Source 's1' was added but creation failed: timeout".to_string(),
        ]
    );
    let ok = CloneTally::new().finish();
    assert!(ok.success);
}

#[test]
fn template_selection_finds_requested_components() {
    let available = vec!["a".to_string(), "b".to_string(), "c".to_string()];
    assert_eq!(find_id(&available, "b"), Some(1));
    assert_eq!(find_id(&available, "z"), None);
    assert_eq!(
        select_components(&vec!["c".to_string(), "a".to_string()], &available),
        Ok(vec![2, 0])
    );
    assert_eq!(
        select_components(&vec!["a".to_string(), "x".to_string(), "y".to_string()], &available),
        Err(1)
    );
}

#[test]
fn required_plugins_are_listed_once_in_order() {
    let sources = vec![
        SourceSummary { id: "s1".to_string(), kind: "postgres".to_string(), bootstrap_kind: Some("postgres".to_string()) },
        SourceSummary { id: "s2".to_string(), kind: "postgres".to_string(), bootstrap_kind: None },
        SourceSummary { id: "s3".to_string(), kind: "http".to_string(), bootstrap_kind: Some("scriptfile".to_string()) },
    ];
    let reactions = vec![
        ReactionSummary { id: "r1".to_string(), kind: "log".to_string() },
        ReactionSummary { id: "r2".to_string(), kind: "log".to_string() },
    ];
    assert_eq!(
        required_plugin_refs(&sources, &reactions),
        vec![
            "source/postgres",
            "bootstrap/postgres",
            "source/http",
            "bootstrap/scriptfile",
            "reaction/log",
        ]
    );
}

#[test]
fn attach_reactions_are_not_cloned() {
    let id = drasi_server::operations::attach_reaction_id("q1", "token");
    assert!(is_internal_component(&id));
}

#[test]
fn overrides_shadow_the_environment() {
    let yaml = "a: ${A}\nb: ${B:-x}\n";
    let overrides = pairs(&[("A", "1"), ("B", "2")]);
    let one = resolve_yaml_variables(yaml, &overrides, &pairs(&[("A", "env")]));
    let two = resolve_yaml_variables(yaml, &overrides, &Vec::new());
    assert_eq!(one, two);
    assert_eq!(one, "a: 1\nb: 2\n");
}

#[test]
fn clone_order_skips_the_servers_components() {
    let strings = |v: &[&str]| v.iter().map(|s| s.to_string()).collect::<Vec<String>>();
    let order = clone_order(&strings(&["s1", "__internal", "s2"]), &strings(&["__q"]), &strings(&["r1"]));
    assert_eq!(
        order,
        vec![(ComponentKind::Source, 0), (ComponentKind::Source, 2), (ComponentKind::Reaction, 0)]
    );
}
