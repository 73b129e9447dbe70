//! Solution templates: collections of sources, queries and reactions that are
//! deployed together with user-provided variable values.
use std::collections::HashMap;
use vstd::prelude::*;

verus! {

/// Metadata for a solution template.
#[derive(Debug, Clone)]
pub struct SolutionTemplateMetadata {
    /// Human-readable name of the solution
    pub name: String,
    /// Description of what this solution does
    pub description: Option<String>,
    /// Version of the solution template
    pub version: Option<String>,
    /// Author of the solution template
    pub author: Option<String>,
    /// License for the solution template
    pub license: Option<String>,
    /// Default instance ID to use when deploying
    pub default_instance_id: Option<String>,
}

/// A variable extracted from a solution template.
#[derive(Debug, Clone, PartialEq, Eq)]
pub struct SolutionVariable {
    /// The variable name (without `${ }`)
    pub name: String,
    /// The default value, if specified with `:-` syntax
    pub default: Option<String>,
    /// Whether this variable is required (no default provided)
    pub required: bool,
    /// Description extracted from a YAML comment on the same line
    pub description: Option<String>,
    /// Component IDs that use this variable
    pub used_by: Vec<String>,
}

/// Summary of a solution template for list views.
#[derive(Debug, Clone)]
pub struct SolutionTemplateSummary {
    /// Template ID (derived from filename)
    pub id: String,
    /// Template metadata
    pub metadata: SolutionTemplateMetadata,
    /// Number of sources in the template
    pub source_count: usize,
    /// Number of queries in the template
    pub query_count: usize,
    /// Number of reactions in the template
    pub reaction_count: usize,
}

/// Detailed view of a solution template.
#[derive(Debug, Clone)]
pub struct SolutionTemplateDetail {
    /// Template ID (derived from filename)
    pub id: String,
    /// Template metadata
    pub metadata: SolutionTemplateMetadata,
    /// Variables that can be configured when deploying
    pub variables: Vec<SolutionVariable>,
    /// IDs of the sources in the template
    pub source_ids: Vec<String>,
    /// IDs of the queries in the template
    pub query_ids: Vec<String>,
    /// IDs of the reactions in the template
    pub reaction_ids: Vec<String>,
}

/// Request to deploy a solution template.
#[derive(Debug, Clone)]
pub struct SolutionDeployRequest {
    /// Template ID to deploy (mutually exclusive with yaml)
    pub template_id: Option<String>,
    /// Raw YAML content to deploy (mutually exclusive with template_id)
    pub yaml: Option<String>,
    /// Variable values to substitute in the template
    pub variables: HashMap<String, String>,
}

/// Why a deploy request is malformed.
pub open spec fn deploy_request_error(template_id: bool, yaml: bool) -> Option<Seq<char>> {
    if template_id && yaml {
        Some("Cannot specify both templateId and yaml"@)
    } else if !template_id && !yaml {
        Some("Must specify either templateId or yaml"@)
    } else {
        None
    }
}

impl SolutionDeployRequest {
    /// Validates the request: exactly one of `template_id` and `yaml` must be given.
    pub fn validate(&self) -> (r: Result<(), &'static str>)
        ensures
            r is Ok <==> (self.template_id is Some != self.yaml is Some),
            r matches Err(m) ==> Some(m@) == deploy_request_error(
                self.template_id is Some,
                self.yaml is Some,
            ),
    {
        match (&self.template_id, &self.yaml) {
            (Some(_), Some(_)) => Err("Cannot specify both templateId and yaml"),
            (None, None) => Err("Must specify either templateId or yaml"),
            _ => Ok(()),
        }
    }
}

/// Request to create a new solution template from existing components.
#[derive(Debug, Clone)]
pub struct CreateSolutionTemplateRequest {
    /// Unique ID for the template (used as filename)
    pub id: String,
    /// Human-readable name of the solution
    pub name: String,
    /// Description of what this solution does
    pub description: Option<String>,
    /// Version of the solution template
    pub version: Option<String>,
    /// Author of the solution template
    pub author: Option<String>,
    /// License for the solution template
    pub license: Option<String>,
    /// IDs of sources to include in the template
    pub source_ids: Vec<String>,
    /// IDs of queries to include in the template
    pub query_ids: Vec<String>,
    /// IDs of reactions to include in the template
    pub reaction_ids: Vec<String>,
}

/// The first rule that a template-creation request breaks, if any.
pub open spec fn create_template_error(
    id: Seq<char>,
    name: Seq<char>,
    n_sources: nat,
    n_queries: nat,
    n_reactions: nat,
) -> Option<Seq<char>> {
    if id.len() == 0 {
        Some("Template ID is required"@)
    } else if name.len() == 0 {
        Some("Template name is required"@)
    } else if n_sources == 0 && n_queries == 0 && n_reactions == 0 {
        Some("At least one component must be selected"@)
    } else {
        None
    }
}

impl CreateSolutionTemplateRequest {
    /// Validates the request: an ID, a name and at least one component.
    pub fn validate(&self) -> (r: Result<(), &'static str>)
        ensures
            r is Ok <==> create_template_error(
                self.id@,
                self.name@,
                self.source_ids@.len(),
                self.query_ids@.len(),
                self.reaction_ids@.len(),
            ) is None,
            r matches Err(m) ==> Some(m@) == create_template_error(
                self.id@,
                self.name@,
                self.source_ids@.len(),
                self.query_ids@.len(),
                self.reaction_ids@.len(),
            ),
    {
        if self.id.as_str().is_empty() {
            return Err("Template ID is required");
        }
        if self.name.as_str().is_empty() {
            return Err("Template name is required");
        }
        if self.source_ids.len() == 0 && self.query_ids.len() == 0 && self.reaction_ids.len() == 0 {
            return Err("At least one component must be selected");
        }
        Ok(())
    }
}

/// Response from creating a solution template.
#[derive(Debug, Clone)]
pub struct CreateSolutionTemplateResponse {
    /// Whether the creation was successful
    pub success: bool,
    /// The ID of the created template
    pub template_id: Option<String>,
    /// Error message if creation failed
    pub error: Option<String>,
}

/// The phase of deployment where an error occurred.
#[derive(Debug, Clone, Copy, PartialEq, Eq, Structural)]
pub enum DeployPhase {
    /// Error during request validation
    Validation,
    /// Error during component creation
    Creation,
    /// Error during component start
    Start,
}

/// An error that occurred during solution deployment.
#[derive(Debug, Clone)]
pub struct SolutionDeployError {
    /// The phase where the error occurred
    pub phase: DeployPhase,
    /// The component type that failed (if applicable)
    pub component_type: Option<String>,
    /// The component ID that failed (if applicable)
    pub component_id: Option<String>,
    /// Error message
    pub message: String,
}

impl SolutionDeployError {
    /// Creates a validation error.
    pub fn validation(message: &str) -> (e: Self)
        ensures
            e.phase == DeployPhase::Validation,
            e.component_type is None,
            e.component_id is None,
            e.message@ == message@,
    {
        SolutionDeployError {
            phase: DeployPhase::Validation,
            component_type: None,
            component_id: None,
            message: message.to_string(),
        }
    }

    /// Creates a creation error for a specific component.
    pub fn creation(component_type: &str, component_id: &str, message: &str) -> (e: Self)
        ensures
            e.phase == DeployPhase::Creation,
            e.component_type matches Some(t) && t@ == component_type@,
            e.component_id matches Some(i) && i@ == component_id@,
            e.message@ == message@,
    {
        SolutionDeployError {
            phase: DeployPhase::Creation,
            component_type: Some(component_type.to_string()),
            component_id: Some(component_id.to_string()),
            message: message.to_string(),
        }
    }

    /// Creates a start error for a specific component.
    pub fn start(component_type: &str, component_id: &str, message: &str) -> (e: Self)
        ensures
            e.phase == DeployPhase::Start,
            e.component_type matches Some(t) && t@ == component_type@,
            e.component_id matches Some(i) && i@ == component_id@,
            e.message@ == message@,
    {
        SolutionDeployError {
            phase: DeployPhase::Start,
            component_type: Some(component_type.to_string()),
            component_id: Some(component_id.to_string()),
            message: message.to_string(),
        }
    }
}

/// Response from deploying a solution template.
#[derive(Debug, Clone)]
pub struct SolutionDeployResponse {
    /// Whether the deployment was successful
    pub success: bool,
    /// IDs of created sources
    pub sources_created: Vec<String>,
    /// IDs of created queries
    pub queries_created: Vec<String>,
    /// IDs of created reactions
    pub reactions_created: Vec<String>,
    /// IDs of components that were started
    pub components_started: Vec<String>,
    /// Any errors that occurred during deployment
    pub errors: Vec<SolutionDeployError>,
}

impl SolutionDeployResponse {
    /// Creates a successful response with no errors.
    pub fn success(
        sources: Vec<String>,
        queries: Vec<String>,
        reactions: Vec<String>,
        started: Vec<String>,
    ) -> (r: Self)
        ensures
            r.success,
            r.sources_created == sources,
            r.queries_created == queries,
            r.reactions_created == reactions,
            r.components_started == started,
            r.errors@.len() == 0,
    {
        SolutionDeployResponse {
            success: true,
            sources_created: sources,
            queries_created: queries,
            reactions_created: reactions,
            components_started: started,
            errors: Vec::new(),
        }
    }

    /// Creates a failed response with errors.
    pub fn failed(errors: Vec<SolutionDeployError>) -> (r: Self)
        ensures
            !r.success,
            r.sources_created@.len() == 0,
            r.queries_created@.len() == 0,
            r.reactions_created@.len() == 0,
            r.components_started@.len() == 0,
            r.errors == errors,
    {
        SolutionDeployResponse {
            success: false,
            sources_created: Vec::new(),
            queries_created: Vec::new(),
            reactions_created: Vec::new(),
            components_started: Vec::new(),
            errors,
        }
    }
}

} // verus!
