//! The plugin API: its documents, which components depend on a plugin, and
//! how refusals of plugin upgrades are answered.
use vstd::prelude::*;

use crate::text::{append, chars_equal, chars_of};

verus! {

/// The loaded plugins.
#[derive(Debug)]
pub struct PluginListResponse {
    pub plugins: Vec<PluginInfoDto>,
}

/// A loaded plugin.
#[derive(Debug)]
pub struct PluginInfoDto {
    pub id: String,
    pub status: String,
    pub plugin_version: String,
    pub sdk_version: String,
    pub file_path: String,
    pub loaded_at: String,
    pub dependent_count: usize,
    pub kinds: Vec<PluginKindDto>,
}

/// A kind that a plugin provides.
#[derive(Debug)]
pub struct PluginKindDto {
    pub category: String,
    pub kind: String,
    pub config_version: String,
}

/// A plugin kind and its configuration schema.
#[derive(Debug)]
pub struct PluginKindInfoDto {
    pub kind: String,
    pub config_version: String,
    pub config_schema_json: String,
    pub config_schema_name: String,
    pub plugin_id: String,
}

/// The components that depend on a plugin.
#[derive(Debug)]
pub struct PluginDependentsResponse {
    pub plugin_id: String,
    pub dependent_count: usize,
    pub dependents: Vec<PluginDependentDto>,
}

/// A component that depends on a plugin.
#[derive(Debug)]
pub struct PluginDependentDto {
    pub instance_id: String,
    pub component_id: String,
    pub component_type: String,
    pub kind: String,
    pub running: bool,
    /// The computation graph of the component (absent for sources and reactions)
    pub graph_id: Option<String>,
}

/// Request to load a plugin file.
#[derive(Debug)]
pub struct LoadPluginRequest {
    pub filename: String,
}

/// Request to install a plugin from a registry.
#[derive(Debug)]
pub struct InstallPluginRequest {
    /// Plugin reference, e.g. `source/postgres`
    pub plugin_ref: String,
    /// Registry to install from, when not the configured one
    pub registry: Option<String>,
}

/// Query of a plugin registry search.
#[derive(Debug)]
pub struct SearchRegistryParams {
    pub q: String,
    pub registry: Option<String>,
}

/// A search matches every plugin unless it says otherwise.
pub fn default_search_query() -> (r: String)
    ensures
        r@ == "*"@,
{
    "*".to_string()
}

/// A plugin available in a registry.
#[derive(Debug)]
pub struct RegistryPluginDto {
    pub reference: String,
    pub full_reference: String,
    pub version: String,
    pub filename: String,
    pub source: String,
}

/// Request to plan a plugin upgrade.
#[derive(Debug)]
pub struct PlanUpgradeRequest {
    pub plugin_kind: String,
    pub binary_path: String,
}

/// Request to execute a planned upgrade.
#[derive(Debug)]
pub struct ExecuteUpgradeRequest {
    pub max_concurrent: usize,
}

/// An upgrade migrates one component at a time unless it says otherwise.
pub fn default_max_concurrent() -> (r: usize)
    ensures
        r == 1,
{
    1
}

// ----------------------------------------------------------------------------
// Dependents
// ----------------------------------------------------------------------------

/// The kind of a node of an instance's component graph.
#[derive(Debug, Clone, Copy, PartialEq, Eq, Structural)]
pub enum NodeKind {
    Source,
    Reaction,
    Other,
}

/// A node of an instance's component graph, as far as dependents are concerned.
#[derive(Debug)]
pub struct ComponentNode {
    pub id: String,
    pub kind: NodeKind,
    /// The `pluginId` recorded for the node
    pub plugin_id: Option<String>,
    /// The `kind` recorded for the node
    pub plugin_kind: Option<String>,
    pub running: bool,
}

/// A source or reaction that the plugin built.
pub open spec fn depends_on(n: ComponentNode, plugin_id: Seq<char>) -> bool {
    &&& n.kind != NodeKind::Other
    &&& n.plugin_id matches Some(p) && p@ == plugin_id
}

/// The nodes that depend on the plugin, in order.
pub open spec fn dependents_of(nodes: Seq<ComponentNode>, plugin_id: Seq<char>) -> Seq<ComponentNode>
    decreases nodes.len(),
{
    if nodes.len() == 0 {
        seq![]
    } else if depends_on(nodes.last(), plugin_id) {
        dependents_of(nodes.drop_last(), plugin_id).push(nodes.last())
    } else {
        dependents_of(nodes.drop_last(), plugin_id)
    }
}

/// How a dependent is reported.
pub open spec fn reports(d: PluginDependentDto, n: ComponentNode, instance_id: Seq<char>) -> bool {
    &&& d.instance_id@ == instance_id
    &&& d.component_id@ == n.id@
    &&& d.component_type@ == (if n.kind == NodeKind::Source {
        "source"@
    } else {
        "reaction"@
    })
    &&& d.kind@ == match n.plugin_kind {
        Some(k) => k@,
        None => Seq::<char>::empty(),
    }
    &&& d.running == n.running
    &&& d.graph_id is None
}

/// The sources and reactions of an instance that a plugin built, in order.
pub fn component_dependents(instance_id: &str, nodes: &Vec<ComponentNode>, plugin_id: &str) -> (r:
    Vec<PluginDependentDto>)
    ensures
        r@.len() == dependents_of(nodes@, plugin_id@).len(),
        forall|i: int|
            0 <= i < r@.len() ==> reports(
                #[trigger] r@[i],
                dependents_of(nodes@, plugin_id@)[i],
                instance_id@,
            ),
{
    let mut out: Vec<PluginDependentDto> = Vec::new();
    let pid = chars_of(plugin_id);
    let mut i: usize = 0;
    while i < nodes.len()
        invariant
            i <= nodes@.len(),
            pid@ == plugin_id@,
            out@.len() == dependents_of(nodes@.subrange(0, i as int), plugin_id@).len(),
            forall|k: int|
                0 <= k < out@.len() ==> reports(
                    #[trigger] out@[k],
                    dependents_of(nodes@.subrange(0, i as int), plugin_id@)[k],
                    instance_id@,
                ),
        decreases nodes@.len() - i,
    {
        let n = &nodes[i];
        let ghost prefix = nodes@.subrange(0, i + 1);
        assert(prefix.drop_last() =~= nodes@.subrange(0, i as int));
        assert(prefix.last() == nodes@[i as int]);
        let matches = match n.kind {
            NodeKind::Other => false,
            _ => match &n.plugin_id {
                Some(p) => chars_equal(&chars_of(p.as_str()), &pid),
                None => false,
            },
        };
        if matches {
            let component_type = match n.kind {
                NodeKind::Source => "source".to_string(),
                _ => "reaction".to_string(),
            };
            let kind = match &n.plugin_kind {
                Some(k) => k.clone(),
                None => String::new(),
            };
            let d = PluginDependentDto {
                instance_id: instance_id.to_string(),
                component_id: n.id.clone(),
                component_type,
                kind,
                running: n.running,
                graph_id: None,
            };
            let ghost before = out@;
            out.push(d);
            proof {
                let old_deps = dependents_of(nodes@.subrange(0, i as int), plugin_id@);
                assert(dependents_of(prefix, plugin_id@) == old_deps.push(nodes@[i as int]));
                assert forall|k: int| 0 <= k < out@.len() implies reports(
                    #[trigger] out@[k],
                    dependents_of(prefix, plugin_id@)[k],
                    instance_id@,
                ) by {
                    if k < before.len() {
                        assert(out@[k] == before[k]);
                    }
                }
            }
        } else {
            assert(dependents_of(prefix, plugin_id@) == dependents_of(
                nodes@.subrange(0, i as int),
                plugin_id@,
            ));
        }
        i = i + 1;
    }
    assert(nodes@.subrange(0, nodes@.len() as int) =~= nodes@);
    out
}

/// `computation:<id>@<version>`: how computation plugins are named.
pub open spec fn computation_plugin(id: Seq<char>, version: Seq<char>) -> Seq<char> {
    "computation:"@ + id + "@"@ + version
}

/// The name of a computation plugin.
pub fn computation_plugin_id(id: &str, version: &str) -> (r: String)
    ensures
        r@ == computation_plugin(id@, version@),
{
    let mut m = String::new();
    append(&mut m, "computation:");
    append(&mut m, id);
    append(&mut m, "@");
    append(&mut m, version);
    m
}

/// Whether a plugin id names a computation plugin (starts with `computation:`).
pub fn is_computation_plugin(plugin_id: &str) -> (r: bool)
    ensures
        r == (plugin_id@.len() >= 12 && plugin_id@.subrange(0, 12) == "computation:"@),
{
    let s = chars_of(plugin_id);
    let p = chars_of("computation:");
    proof {
        reveal_strlit("computation:");
    }
    if s.len() < 12 {
        return false;
    }
    let r = crate::yaml_lines::starts_with_at(&s, 0, &p);
    r
}

/// Every computation plugin's name marks it as one.
pub proof fn lemma_computation_names_are_marked(id: Seq<char>, version: Seq<char>)
    ensures
        computation_plugin(id, version).len() >= 12,
        computation_plugin(id, version).subrange(0, 12) == "computation:"@,
{
    reveal_strlit("computation:");
    assert(computation_plugin(id, version).subrange(0, 12) =~= "computation:"@);
}

// ----------------------------------------------------------------------------
// Upgrade refusals
// ----------------------------------------------------------------------------

/// Why a plugin upgrade was refused or failed.
#[derive(Debug, Clone, Copy, PartialEq, Eq, Structural)]
pub enum UpgradeErrorKind {
    PluginNotLoaded,
    PlanNotFound,
    AbiMismatch,
    TargetMismatch,
    UpgradeAlreadyInProgress,
    InvalidPlanState,
    CannotCancel,
    LoadFailed,
    ComponentFailed,
    OldPluginNotAvailable,
    DependentLookupFailed,
    Internal,
}

/// The HTTP status and error code of an upgrade error: not found for an
/// unknown plugin or plan, bad request for a mismatch or a plugin without
/// dependents, conflict for an upgrade in the wrong state, and a server error
/// for failures.
pub open spec fn upgrade_answer(e: UpgradeErrorKind) -> (u16, Seq<char>) {
    match e {
        UpgradeErrorKind::PluginNotLoaded => (404, "UPGRADE_PLUGIN_NOT_FOUND"@),
        UpgradeErrorKind::PlanNotFound => (404, "UPGRADE_PLAN_NOT_FOUND"@),
        UpgradeErrorKind::AbiMismatch => (400, "UPGRADE_ABI_MISMATCH"@),
        UpgradeErrorKind::TargetMismatch => (400, "UPGRADE_TARGET_MISMATCH"@),
        UpgradeErrorKind::UpgradeAlreadyInProgress => (409, "UPGRADE_ALREADY_IN_PROGRESS"@),
        UpgradeErrorKind::InvalidPlanState => (409, "UPGRADE_INVALID_STATE"@),
        UpgradeErrorKind::CannotCancel => (409, "UPGRADE_CANNOT_CANCEL"@),
        UpgradeErrorKind::LoadFailed => (500, "UPGRADE_LOAD_FAILED"@),
        UpgradeErrorKind::ComponentFailed => (500, "UPGRADE_COMPONENT_FAILED"@),
        UpgradeErrorKind::OldPluginNotAvailable => (500, "UPGRADE_ROLLBACK_UNAVAILABLE"@),
        UpgradeErrorKind::DependentLookupFailed => (400, "UPGRADE_NO_DEPENDENTS"@),
        UpgradeErrorKind::Internal => (500, "UPGRADE_INTERNAL_ERROR"@),
    }
}

/// The HTTP status and error code with which an upgrade error is answered.
pub fn upgrade_error_status(e: UpgradeErrorKind) -> (r: (u16, &'static str))
    ensures
        (r.0, r.1@) == upgrade_answer(e),
{
    match e {
        UpgradeErrorKind::PluginNotLoaded => (404, "UPGRADE_PLUGIN_NOT_FOUND"),
        UpgradeErrorKind::PlanNotFound => (404, "UPGRADE_PLAN_NOT_FOUND"),
        UpgradeErrorKind::AbiMismatch => (400, "UPGRADE_ABI_MISMATCH"),
        UpgradeErrorKind::TargetMismatch => (400, "UPGRADE_TARGET_MISMATCH"),
        UpgradeErrorKind::UpgradeAlreadyInProgress => (409, "UPGRADE_ALREADY_IN_PROGRESS"),
        UpgradeErrorKind::InvalidPlanState => (409, "UPGRADE_INVALID_STATE"),
        UpgradeErrorKind::CannotCancel => (409, "UPGRADE_CANNOT_CANCEL"),
        UpgradeErrorKind::LoadFailed => (500, "UPGRADE_LOAD_FAILED"),
        UpgradeErrorKind::ComponentFailed => (500, "UPGRADE_COMPONENT_FAILED"),
        UpgradeErrorKind::OldPluginNotAvailable => (500, "UPGRADE_ROLLBACK_UNAVAILABLE"),
        UpgradeErrorKind::DependentLookupFailed => (400, "UPGRADE_NO_DEPENDENTS"),
        UpgradeErrorKind::Internal => (500, "UPGRADE_INTERNAL_ERROR"),
    }
}

// ----------------------------------------------------------------------------
// Configuration schemas
// ----------------------------------------------------------------------------

/// The categories whose configuration schemas can be asked for.
#[derive(Debug, Clone, Copy, PartialEq, Eq, Structural)]
pub enum SchemaCategory {
    Source,
    Reaction,
    Bootstrap,
    Computation,
}

/// The category a path names: singular or plural, and `computation`.
pub open spec fn schema_category_of(c: Seq<char>) -> Option<SchemaCategory> {
    if c == "computation"@ {
        Some(SchemaCategory::Computation)
    } else if c == "source"@ || c == "sources"@ {
        Some(SchemaCategory::Source)
    } else if c == "reaction"@ || c == "reactions"@ {
        Some(SchemaCategory::Reaction)
    } else if c == "bootstrap"@ || c == "bootstrappers"@ {
        Some(SchemaCategory::Bootstrap)
    } else {
        None
    }
}

fn same(a: &str, b: &str) -> (r: bool)
    ensures
        r == (a@ == b@),
{
    chars_equal(&chars_of(a), &chars_of(b))
}

/// Reads the category of a schema request, or the refusal of an unknown one.
pub fn parse_schema_category(category: &str) -> (r: Result<SchemaCategory, String>)
    ensures
        match schema_category_of(category@) {
            Some(c) => r == Ok::<SchemaCategory, String>(c),
            None => r matches Err(m) && m@ == "Unknown category '"@ + category@
                + "'. Valid categories: source, reaction, bootstrap, computation"@,
        },
{
    if same(category, "computation") {
        Ok(SchemaCategory::Computation)
    } else if same(category, "source") || same(category, "sources") {
        Ok(SchemaCategory::Source)
    } else if same(category, "reaction") || same(category, "reactions") {
        Ok(SchemaCategory::Reaction)
    } else if same(category, "bootstrap") || same(category, "bootstrappers") {
        Ok(SchemaCategory::Bootstrap)
    } else {
        let mut m = String::new();
        append(&mut m, "Unknown category '");
        append(&mut m, category);
        append(&mut m, "'. Valid categories: source, reaction, bootstrap, computation");
        Err(m)
    }
}

/// The position of the first kind named `kind`.
pub fn find_kind(infos: &Vec<PluginKindInfoDto>, kind: &str) -> (r: Option<usize>)
    ensures
        match r {
            Some(i) => i < infos@.len() && infos@[i as int].kind@ == kind@ && forall|j: int|
                0 <= j < i ==> (#[trigger] infos@[j]).kind@ != kind@,
            None => forall|j: int| 0 <= j < infos@.len() ==> (#[trigger] infos@[j]).kind@ != kind@,
        },
{
    let mut i: usize = 0;
    while i < infos.len()
        invariant
            i <= infos@.len(),
            forall|j: int| 0 <= j < i ==> (#[trigger] infos@[j]).kind@ != kind@,
        decreases infos@.len() - i,
    {
        if same(infos[i].kind.as_str(), kind) {
            return Some(i);
        }
        i = i + 1;
    }
    None
}

/// `Kind '<kind>' not found in category '<category>'`.
pub fn kind_not_found_message(kind: &str, category: &str) -> (r: String)
    ensures
        r@ == "Kind '"@ + kind@ + "' not found in category '"@ + category@ + "'"@,
{
    let mut m = String::new();
    append(&mut m, "Kind '");
    append(&mut m, kind);
    append(&mut m, "' not found in category '");
    append(&mut m, category);
    append(&mut m, "'");
    m
}

/// What asking for a native factory's schema finds.
#[derive(Debug, Clone, Copy, PartialEq, Eq, Structural)]
pub enum FactoryMatch {
    /// Exactly one factory, at this position
    One(usize),
    /// No factory
    Missing,
    /// Several versions match
    Ambiguous,
}

/// A native factory's schema is shown only when exactly one factory has the
/// requested implementation name.
pub fn match_factory(names: &Vec<String>, kind: &str) -> (r: FactoryMatch)
    ensures
        match r {
            FactoryMatch::One(i) => i < names@.len() && names@[i as int]@ == kind@ && forall|j: int|
                0 <= j < names@.len() && j != i ==> (#[trigger] names@[j])@ != kind@,
            FactoryMatch::Missing => forall|j: int| 0 <= j < names@.len() ==> (#[trigger] names@[j])@ != kind@,
            FactoryMatch::Ambiguous => exists|a: int, b: int|
                0 <= a < b < names@.len() && (#[trigger] names@[a])@ == kind@ && (#[trigger] names@[b])@ == kind@,
        },
{
    let mut found: Option<usize> = None;
    let mut i: usize = 0;
    while i < names.len()
        invariant
            i <= names@.len(),
            match found {
                Some(f) => f < i && names@[f as int]@ == kind@ && forall|j: int|
                    0 <= j < i && j != f ==> (#[trigger] names@[j])@ != kind@,
                None => forall|j: int| 0 <= j < i ==> (#[trigger] names@[j])@ != kind@,
            },
        decreases names@.len() - i,
    {
        if same(names[i].as_str(), kind) {
            match found {
                Some(f) => {
                    assert(names@[f as int]@ == kind@ && names@[i as int]@ == kind@);
                    return FactoryMatch::Ambiguous;
                },
                None => {
                    found = Some(i);
                },
            }
        }
        i = i + 1;
    }
    match found {
        Some(f) => FactoryMatch::One(f),
        None => FactoryMatch::Missing,
    }
}

/// The value types of native configuration fields.
#[derive(Debug, Clone, Copy, PartialEq, Eq, Structural)]
pub enum ConfigType {
    Boolean,
    Integer,
    String,
    Object,
    Array,
    Json,
}

/// A field of a native configuration.
#[derive(Debug, Clone)]
pub struct ConfigField {
    pub name: String,
    pub value_type: ConfigType,
    pub secret: bool,
    pub required: bool,
}

/// How a field appears in a JSON schema: its type (none for free JSON),
/// whether it lists items (arrays), whether it is write-only (secrets).
#[derive(Debug, Clone, Copy)]
pub struct PropertyShape {
    pub json_kind: Option<&'static str>,
    pub has_items: bool,
    pub write_only: bool,
}

/// The JSON schema type of a value type.
pub open spec fn json_type(t: ConfigType) -> Option<Seq<char>> {
    match t {
        ConfigType::Boolean => Some("boolean"@),
        ConfigType::Integer => Some("integer"@),
        ConfigType::String => Some("string"@),
        ConfigType::Object => Some("object"@),
        ConfigType::Array => Some("array"@),
        ConfigType::Json => None,
    }
}

/// How a field appears in the JSON schema of its configuration.
pub fn property_shape(field: &ConfigField) -> (r: PropertyShape)
    ensures
        match r.json_kind {
            Some(t) => json_type(field.value_type) == Some(t@),
            None => json_type(field.value_type) is None,
        },
        r.has_items == (field.value_type == ConfigType::Array),
        r.write_only == field.secret,
{
    let json_kind: Option<&'static str> = match field.value_type {
        ConfigType::Boolean => Some("boolean"),
        ConfigType::Integer => Some("integer"),
        ConfigType::String => Some("string"),
        ConfigType::Object => Some("object"),
        ConfigType::Array => Some("array"),
        ConfigType::Json => None,
    };
    let has_items = match field.value_type {
        ConfigType::Array => true,
        _ => false,
    };
    PropertyShape { json_kind, has_items, write_only: field.secret }
}

/// The names of the required fields, in order.
pub open spec fn required_names(fields: Seq<ConfigField>) -> Seq<Seq<char>>
    decreases fields.len(),
{
    if fields.len() == 0 {
        seq![]
    } else if fields.last().required {
        required_names(fields.drop_last()).push(fields.last().name@)
    } else {
        required_names(fields.drop_last())
    }
}

/// The names of the required fields of a native configuration.
pub fn required_fields(fields: &Vec<ConfigField>) -> (r: Vec<String>)
    ensures
        r@.map_values(|s: String| s@) == required_names(fields@),
{
    let mut out: Vec<String> = Vec::new();
    let mut i: usize = 0;
    while i < fields.len()
        invariant
            i <= fields@.len(),
            out@.map_values(|s: String| s@) == required_names(fields@.subrange(0, i as int)),
        decreases fields@.len() - i,
    {
        let ghost prefix = fields@.subrange(0, i + 1);
        assert(prefix.drop_last() =~= fields@.subrange(0, i as int));
        let ghost before = out@;
        if fields[i].required {
            out.push(fields[i].name.clone());
            assert(out@.map_values(|s: String| s@) =~= before.map_values(|s: String| s@).push(
                fields@[i as int].name@,
            ));
        }
        i = i + 1;
    }
    assert(fields@.subrange(0, fields@.len() as int) =~= fields@);
    out
}

} // verus!
