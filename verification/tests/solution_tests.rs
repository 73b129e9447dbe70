use drasi_server::template_plan::{template_layout, TemplateKey};
use drasi_server::templates::{
    list_solution_templates, solutions_dir_or_default, DirectoryEntry, SolutionsListing,
};
use std::collections::HashMap;

use drasi_server::solution::{
    CreateSolutionTemplateRequest, DeployPhase, SolutionDeployError, SolutionDeployRequest,
    SolutionDeployResponse,
};
use drasi_server::template_scan::extract_variables;
use drasi_server::yaml_lines::extract_line_comment;

#[test]
fn test_extract_variables_simple() {
    let yaml = r#"host: "${HOST}""#;
    let vars = extract_variables(yaml);
    assert_eq!(vars.len(), 1);
    assert_eq!(vars[0].name, "HOST");
    assert!(vars[0].required);
    assert!(vars[0].default.is_none());
}

#[test]
fn test_extract_variables_with_default() {
    let yaml = r#"host: "${HOST:-localhost}""#;
    let vars = extract_variables(yaml);
    assert_eq!(vars.len(), 1);
    assert_eq!(vars[0].name, "HOST");
    assert!(!vars[0].required);
    assert_eq!(vars[0].default, Some("localhost".to_string()));
}

#[test]
fn test_extract_variables_multiple() {
    let yaml = r#"
host: "${HOST:-localhost}"
port: "${PORT:-8080}"
db: "${DATABASE}"
"#;
    let vars = extract_variables(yaml);
    assert_eq!(vars.len(), 3);

    let host = vars.iter().find(|v| v.name == "HOST").unwrap();
    assert_eq!(host.default, Some("localhost".to_string()));
    assert!(!host.required);

    let port = vars.iter().find(|v| v.name == "PORT").unwrap();
    assert_eq!(port.default, Some("8080".to_string()));
    assert!(!port.required);

    let db = vars.iter().find(|v| v.name == "DATABASE").unwrap();
    assert!(db.default.is_none());
    assert!(db.required);
}

#[test]
fn test_extract_variables_deduplicates() {
    let yaml = r#"
host1: "${HOST:-localhost}"
host2: "${HOST:-different}"
"#;
    let vars = extract_variables(yaml);
    assert_eq!(vars.len(), 1);
    assert_eq!(vars[0].name, "HOST");
    assert_eq!(vars[0].default, Some("localhost".to_string()));
}

#[test]
fn test_extract_variables_empty_default() {
    let yaml = r#"value: "${VAR:-}""#;
    let vars = extract_variables(yaml);
    assert_eq!(vars.len(), 1);
    assert_eq!(vars[0].name, "VAR");
    assert_eq!(vars[0].default, Some("".to_string()));
    assert!(!vars[0].required);
}

#[test]
fn test_extract_variables_in_query() {
    let yaml = r#"
query: "MATCH (s:Sensor) WHERE s.temp > ${THRESHOLD:-75} RETURN s"
"#;
    let vars = extract_variables(yaml);
    assert_eq!(vars.len(), 1);
    assert_eq!(vars[0].name, "THRESHOLD");
    assert_eq!(vars[0].default, Some("75".to_string()));
}

#[test]
fn test_extract_variables_complex_default() {
    let yaml = r#"url: "${URL:-http://localhost:8080/api}""#;
    let vars = extract_variables(yaml);
    assert_eq!(vars.len(), 1);
    assert_eq!(vars[0].name, "URL");
    assert_eq!(vars[0].default, Some("http://localhost:8080/api".to_string()));
}

#[test]
fn test_extract_variables_none() {
    let yaml = r#"
host: "localhost"
port: 8080
"#;
    let vars = extract_variables(yaml);
    assert!(vars.is_empty());
}

#[test]
fn test_extract_variables_with_comments() {
    let yaml = r#"
sources:
  - kind: mock
    id: my-source
    interval: "${INTERVAL:-1000}"  # Polling interval in milliseconds
"#;
    let vars = extract_variables(yaml);
    assert_eq!(vars.len(), 1);
    let interval = &vars[0];
    assert_eq!(interval.name, "INTERVAL");
    assert_eq!(
        interval.description,
        Some("Polling interval in milliseconds".to_string())
    );
    assert_eq!(interval.used_by, vec!["my-source".to_string()]);
}

#[test]
fn test_extract_variables_used_by_multiple_components() {
    let yaml = r#"
sources:
  - kind: http
    id: source-1
    url: "${API_URL}"
  - kind: http
    id: source-2
    url: "${API_URL}"
reactions:
  - kind: http
    id: reaction-1
    url: "${API_URL}"
"#;
    let vars = extract_variables(yaml);
    assert_eq!(vars.len(), 1);
    let api_url = &vars[0];
    assert_eq!(api_url.name, "API_URL");
    assert!(api_url.used_by.contains(&"source-1".to_string()));
    assert!(api_url.used_by.contains(&"source-2".to_string()));
    assert!(api_url.used_by.contains(&"reaction-1".to_string()));
}

#[test]
fn extract_variables_documented_example_sorts_by_name() {
    let yaml = r#"
host: "${HOST:-localhost}"  # Database host address
port: "${PORT}"
db: "${DB:-mydb}"
"#;
    let vars = extract_variables(yaml);
    assert_eq!(vars.len(), 3);
    let names: Vec<&str> = vars.iter().map(|v| v.name.as_str()).collect();
    assert_eq!(names, vec!["DB", "HOST", "PORT"]);
    let host_var = vars.iter().find(|v| v.name == "HOST").unwrap();
    assert_eq!(host_var.description, Some("Database host address".to_string()));
}

#[test]
fn extract_variables_keeps_first_description_and_users_once() {
    let yaml = "queries:\n  - id: q1\n    a: ${X}\n    b: ${X} # second\n    c: ${X} # third\n  - id: q1\n    d: ${X}\n";
    let vars = extract_variables(yaml);
    assert_eq!(vars.len(), 1);
    assert_eq!(vars[0].description, Some("second".to_string()));
    assert_eq!(vars[0].used_by, vec!["q1".to_string()]);
}

#[test]
fn extract_variables_outside_sections_has_no_users() {
    let yaml = "name: demo\nid: not-a-component\nvalue: ${V}\n";
    let vars = extract_variables(yaml);
    assert_eq!(vars.len(), 1);
    assert!(vars[0].used_by.is_empty());
}

#[test]
fn extract_variables_ignores_malformed_references() {
    let yaml = "a: ${1BAD}\nb: ${OPEN:-never closed\nc: $NOBRACE\nd: ${OK}\n";
    let vars = extract_variables(yaml);
    assert_eq!(vars.len(), 1);
    assert_eq!(vars[0].name, "OK");
}

#[test]
fn extract_variables_handles_crlf_lines() {
    let yaml = "sources:\r\n  - id: s1\r\n    x: ${A} # note\r\n";
    let vars = extract_variables(yaml);
    assert_eq!(vars.len(), 1);
    assert_eq!(vars[0].description, Some("note".to_string()));
    assert_eq!(vars[0].used_by, vec!["s1".to_string()]);
}

#[test]
fn test_deploy_request_validate_both() {
    let req = SolutionDeployRequest {
        template_id: Some("test".to_string()),
        yaml: Some("yaml content".to_string()),
        variables: HashMap::new(),
    };
    assert!(req.validate().is_err());
}

#[test]
fn test_deploy_request_validate_neither() {
    let req = SolutionDeployRequest {
        template_id: None,
        yaml: None,
        variables: HashMap::new(),
    };
    assert!(req.validate().is_err());
}

#[test]
fn test_deploy_request_validate_template_id_only() {
    let req = SolutionDeployRequest {
        template_id: Some("test".to_string()),
        yaml: None,
        variables: HashMap::new(),
    };
    assert!(req.validate().is_ok());
}

#[test]
fn test_deploy_request_validate_yaml_only() {
    let req = SolutionDeployRequest {
        template_id: None,
        yaml: Some("yaml content".to_string()),
        variables: HashMap::new(),
    };
    assert!(req.validate().is_ok());
}

#[test]
fn deploy_request_validation_messages() {
    let both = SolutionDeployRequest {
        template_id: Some("t".to_string()),
        yaml: Some("y".to_string()),
        variables: HashMap::new(),
    };
    assert_eq!(both.validate().unwrap_err(), "Cannot specify both templateId and yaml");
    let neither = SolutionDeployRequest { template_id: None, yaml: None, variables: HashMap::new() };
    assert_eq!(neither.validate().unwrap_err(), "Must specify either templateId or yaml");
}

#[test]
fn test_deploy_response_success() {
    let resp = SolutionDeployResponse::success(
        vec!["s1".to_string()],
        vec!["q1".to_string()],
        vec!["r1".to_string()],
        vec!["s1".to_string(), "q1".to_string(), "r1".to_string()],
    );
    assert!(resp.success);
    assert_eq!(resp.sources_created, vec!["s1"]);
    assert_eq!(resp.queries_created, vec!["q1"]);
    assert_eq!(resp.reactions_created, vec!["r1"]);
    assert!(resp.errors.is_empty());
}

#[test]
fn test_deploy_response_failed() {
    let resp = SolutionDeployResponse::failed(vec![SolutionDeployError::validation(
        "Missing required variable",
    )]);
    assert!(!resp.success);
    assert!(resp.sources_created.is_empty());
    assert_eq!(resp.errors.len(), 1);
}

#[test]
fn test_deploy_error_types() {
    let validation = SolutionDeployError::validation("bad input");
    assert_eq!(validation.phase, DeployPhase::Validation);
    assert!(validation.component_type.is_none());

    let creation = SolutionDeployError::creation("source", "my-source", "already exists");
    assert_eq!(creation.phase, DeployPhase::Creation);
    assert_eq!(creation.component_type, Some("source".to_string()));
    assert_eq!(creation.component_id, Some("my-source".to_string()));

    let start = SolutionDeployError::start("query", "my-query", "failed to start");
    assert_eq!(start.phase, DeployPhase::Start);
    assert_eq!(start.component_type, Some("query".to_string()));
}

#[test]
fn test_extract_line_comment() {
    assert_eq!(
        extract_line_comment("value: 123  # This is a comment"),
        Some("This is a comment".to_string())
    );
    assert_eq!(extract_line_comment("value: \"string with # inside\""), None);
    assert_eq!(extract_line_comment("value: 123"), None);
}

#[test]
fn extract_line_comment_edge_cases() {
    assert_eq!(extract_line_comment("value: 1 #   "), None);
    assert_eq!(extract_line_comment("a: 'x' # after single quotes"), Some("after single quotes".to_string()));
    assert_eq!(extract_line_comment("a: b # one # two"), Some("two".to_string()));
}

fn template_request(
    id: &str,
    name: &str,
    sources: Vec<&str>,
    queries: Vec<&str>,
    reactions: Vec<&str>,
) -> CreateSolutionTemplateRequest {
    CreateSolutionTemplateRequest {
        id: id.to_string(),
        name: name.to_string(),
        description: None,
        version: None,
        author: None,
        license: None,
        source_ids: sources.into_iter().map(String::from).collect(),
        query_ids: queries.into_iter().map(String::from).collect(),
        reaction_ids: reactions.into_iter().map(String::from).collect(),
    }
}

#[test]
fn test_create_template_request_validate_empty_id() {
    let req = template_request("", "Test Template", vec!["source-1"], vec![], vec![]);
    assert!(req.validate().is_err());
    assert_eq!(req.validate().unwrap_err(), "Template ID is required");
}

#[test]
fn test_create_template_request_validate_empty_name() {
    let req = template_request("my-template", "", vec!["source-1"], vec![], vec![]);
    assert!(req.validate().is_err());
    assert_eq!(req.validate().unwrap_err(), "Template name is required");
}

#[test]
fn test_create_template_request_validate_no_components() {
    let req = template_request("my-template", "Test Template", vec![], vec![], vec![]);
    assert!(req.validate().is_err());
    assert_eq!(req.validate().unwrap_err(), "At least one component must be selected");
}

#[test]
fn test_create_template_request_validate_with_sources_only() {
    let req = CreateSolutionTemplateRequest {
        id: "my-template".to_string(),
        name: "Test Template".to_string(),
        description: Some("A description".to_string()),
        version: Some("1.0.0".to_string()),
        author: Some("Test Author".to_string()),
        license: Some("MIT".to_string()),
        source_ids: vec!["source-1".to_string(), "source-2".to_string()],
        query_ids: vec![],
        reaction_ids: vec![],
    };
    assert!(req.validate().is_ok());
}

#[test]
fn test_create_template_request_validate_with_queries_only() {
    let req = template_request("my-template", "Test Template", vec![], vec!["query-1"], vec![]);
    assert!(req.validate().is_ok());
}

#[test]
fn test_create_template_request_validate_with_reactions_only() {
    let req = template_request("my-template", "Test Template", vec![], vec![], vec!["reaction-1"]);
    assert!(req.validate().is_ok());
}

#[test]
fn test_create_template_request_validate_with_all_components() {
    let req = CreateSolutionTemplateRequest {
        id: "full-template".to_string(),
        name: "Full Template".to_string(),
        description: Some("Has all component types".to_string()),
        version: Some("2.0.0".to_string()),
        author: Some("Drasi Team".to_string()),
        license: Some("Apache-2.0".to_string()),
        source_ids: vec!["s1".to_string(), "s2".to_string()],
        query_ids: vec!["q1".to_string()],
        reaction_ids: vec!["r1".to_string(), "r2".to_string()],
    };
    assert!(req.validate().is_ok());
}

fn metadata(name: &str) -> drasi_server::solution::SolutionTemplateMetadata {
    drasi_server::solution::SolutionTemplateMetadata {
        name: name.to_string(),
        description: Some("Monitors sensors for high temps".to_string()),
        version: Some("1.0.0".to_string()),
        author: Some("Test Author".to_string()),
        license: None,
        default_instance_id: None,
    }
}

fn template_entry(file_name: &str, counts: Option<(usize, usize, usize)>) -> drasi_server::templates::DirectoryEntry {
    drasi_server::templates::DirectoryEntry {
        file_name: file_name.to_string(),
        is_file: true,
        template: counts.map(|(s, q, r)| drasi_server::templates::ParsedTemplate {
            metadata: metadata("IoT Temperature Monitor"),
            source_count: s,
            query_count: q,
            reaction_count: r,
        }),
    }
}

#[test]
fn test_list_solutions_empty_dir() {
    let summaries = list_solution_templates("/tmp/empty", SolutionsListing::Entries(vec![])).unwrap();
    assert!(summaries.is_empty());
}

#[test]
fn test_list_solutions_non_existent_dir() {
    let summaries = list_solution_templates("/non/existent/path", SolutionsListing::Missing).unwrap();
    assert!(summaries.is_empty());
}

#[test]
fn test_list_solutions_with_templates() {
    let summaries = list_solution_templates(
        "/tmp/solutions",
        SolutionsListing::Entries(vec![template_entry("iot-monitor.yaml", Some((1, 1, 1)))]),
    )
    .unwrap();
    assert_eq!(summaries.len(), 1);
    assert_eq!(summaries[0].id, "iot-monitor");
    assert_eq!(summaries[0].metadata.name, "IoT Temperature Monitor");
    assert_eq!(summaries[0].source_count, 1);
    assert_eq!(summaries[0].query_count, 1);
    assert_eq!(summaries[0].reaction_count, 1);
}

#[test]
fn listing_skips_what_is_no_template() {
    let mut dir_entry = template_entry("nested.yaml", Some((1, 0, 0)));
    dir_entry.is_file = false;
    let summaries = list_solution_templates(
        "/tmp/solutions",
        SolutionsListing::Entries(vec![
            template_entry("notes.txt", Some((1, 1, 1))),
            template_entry("broken.yml", None),
            dir_entry,
            template_entry("b.yml", Some((2, 0, 3))),
            DirectoryEntry { file_name: ".yaml".to_string(), is_file: true, template: None },
        ]),
    )
    .unwrap();
    assert_eq!(summaries.len(), 1);
    assert_eq!(summaries[0].id, "b");
    assert_eq!(summaries[0].source_count, 2);
    assert_eq!(summaries[0].reaction_count, 3);
}

#[test]
fn listing_reports_unusable_directories() {
    assert_eq!(
        list_solution_templates("./x", SolutionsListing::NotADirectory).err().unwrap(),
        "Solutions path './x' is not a directory"
    );
    assert_eq!(
        list_solution_templates("./x", SolutionsListing::Unreadable("denied".to_string())).err().unwrap(),
        "Failed to read solutions directory './x': denied"
    );
    assert_eq!(solutions_dir_or_default(None), "./solutions");
    assert_eq!(solutions_dir_or_default(Some("/s")), "/s");
}

#[test]
fn template_layout_omits_what_is_absent() {
    let mut req = template_request("t", "T", vec!["s1"], vec![], vec![]);
    req.version = Some("1.0".to_string());
    assert_eq!(
        template_layout(&req, 1, 1, 0, 0),
        vec![TemplateKey::Name, TemplateKey::Version, TemplateKey::Plugins, TemplateKey::Sources]
    );
    req.description = Some("d".to_string());
    req.author = Some("a".to_string());
    req.license = Some("MIT".to_string());
    assert_eq!(
        template_layout(&req, 0, 0, 2, 3),
        vec![
            TemplateKey::Name,
            TemplateKey::Description,
            TemplateKey::Version,
            TemplateKey::Author,
            TemplateKey::License,
            TemplateKey::Queries,
            TemplateKey::Reactions,
        ]
    );
}
