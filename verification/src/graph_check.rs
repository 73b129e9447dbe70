//! Which computation graph definitions the server accepts: those whose every
//! host binding can be reconstructed from the definition itself.
use vstd::prelude::*;

use crate::text::{append, chars_equal, chars_of};

verus! {

/// The role of a host resource.
#[derive(Debug, Clone, Copy, PartialEq, Eq, Structural)]
pub enum ResourceRole {
    IndexBackend,
    Middleware,
    Component,
    SecretStore,
}

/// How the server builds a host resource.
#[derive(Debug, Clone)]
pub enum ComputationResourceConfig {
    MemoryIndexes,
    RocksdbIndexes { path: String },
    Middleware,
    QueryMiddleware,
    TransactionalTransformers,
    Configuration,
}

/// The role of the resources a recipe builds.
pub open spec fn recipe_role(r: ComputationResourceConfig) -> ResourceRole {
    match r {
        ComputationResourceConfig::MemoryIndexes | ComputationResourceConfig::RocksdbIndexes { .. } => ResourceRole::IndexBackend,
        ComputationResourceConfig::Middleware | ComputationResourceConfig::QueryMiddleware => ResourceRole::Middleware,
        ComputationResourceConfig::TransactionalTransformers => ResourceRole::Component,
        ComputationResourceConfig::Configuration => ResourceRole::SecretStore,
    }
}

impl ComputationResourceConfig {
    /// The role of the resources this recipe builds.
    pub fn role(&self) -> (r: ResourceRole)
        ensures
            r == recipe_role(*self),
    {
        match self {
            ComputationResourceConfig::MemoryIndexes | ComputationResourceConfig::RocksdbIndexes { .. } => ResourceRole::IndexBackend,
            ComputationResourceConfig::Middleware | ComputationResourceConfig::QueryMiddleware => ResourceRole::Middleware,
            ComputationResourceConfig::TransactionalTransformers => ResourceRole::Component,
            ComputationResourceConfig::Configuration => ResourceRole::SecretStore,
        }
    }
}

/// A declared host resource.
#[derive(Debug, Clone)]
pub struct ResourceDeclaration {
    pub id: String,
    pub role: ResourceRole,
    /// Whether the graph owns the resource's cleanup
    pub graph_owned: bool,
}

/// The construction recipe stored for a resource id: read, or not readable
/// (with the reason).
#[derive(Debug, Clone)]
pub enum RecipeEntry {
    Parsed(ComputationResourceConfig),
    Invalid(String),
}

/// A component of the graph: built by a factory or bound from outside, and
/// the resources its factory specification depends on or refers to.
#[derive(Debug, Clone)]
pub struct ComponentDeclaration {
    pub is_factory: bool,
    pub required_resources: Vec<String>,
}

/// A relationship's pipe.
#[derive(Debug, Clone)]
pub enum PipeDeclaration {
    /// Bound from outside the definition
    External,
    /// Needs no host resource
    Plain,
    /// Provided by the host, with the resources (and their roles) it needs
    Provided { requirements: Vec<(String, ResourceRole)> },
}

/// A computation graph definition, as far as the server checks it.
#[derive(Debug, Clone)]
pub struct GraphDefinition {
    pub graph_id: String,
    pub version: u64,
    /// Why the graph id is not a valid component id, if it is not
    pub graph_id_error: Option<String>,
    pub components: Vec<ComponentDeclaration>,
    pub boundary_relationships: usize,
    pub relationships: Vec<PipeDeclaration>,
    pub resources: Vec<ResourceDeclaration>,
    /// The recipes by resource id, in the order of their ids
    pub resource_configurations: Vec<(String, RecipeEntry)>,
    /// The resources bound to components
    pub component_resources: Vec<String>,
}

/// A user-defined computation graph: whether it starts by itself, and its
/// definition.
#[derive(Debug, Clone)]
pub struct ComputationGraphConfig {
    pub auto_start: bool,
    pub definition: GraphDefinition,
}

/// Graphs start by themselves unless they say otherwise.
pub fn default_auto_start() -> (r: bool)
    ensures
        r,
{
    true
}

/// Why a definition is refused.
#[derive(Debug, Clone)]
pub enum DefinitionError {
    UnsupportedVersion,
    InvalidGraphId(String),
    ExternalComponent,
    ExternalBinding,
    DuplicateResource,
    RecipeWithoutDeclaration(String),
    MissingRecipe(String),
    InvalidRecipe(String, String),
    RoleMismatch(String),
    EmptyRocksdbPath,
    RocksdbOwnership,
    MissingResource(String),
    ExternalPipe,
    IncompatibleRole(String),
}

/// Why a definition is refused, as the rules state it.
pub enum DefinitionFault {
    UnsupportedVersion,
    InvalidGraphId(Seq<char>),
    ExternalComponent,
    ExternalBinding,
    DuplicateResource,
    RecipeWithoutDeclaration(Seq<char>),
    MissingRecipe(Seq<char>),
    InvalidRecipe(Seq<char>, Seq<char>),
    RoleMismatch(Seq<char>),
    EmptyRocksdbPath,
    RocksdbOwnership,
    MissingResource(Seq<char>),
    ExternalPipe,
    IncompatibleRole(Seq<char>),
}

/// The fault an error reports.
pub open spec fn fault(e: DefinitionError) -> DefinitionFault {
    match e {
        DefinitionError::UnsupportedVersion => DefinitionFault::UnsupportedVersion,
        DefinitionError::InvalidGraphId(m) => DefinitionFault::InvalidGraphId(m@),
        DefinitionError::ExternalComponent => DefinitionFault::ExternalComponent,
        DefinitionError::ExternalBinding => DefinitionFault::ExternalBinding,
        DefinitionError::DuplicateResource => DefinitionFault::DuplicateResource,
        DefinitionError::RecipeWithoutDeclaration(id) => DefinitionFault::RecipeWithoutDeclaration(id@),
        DefinitionError::MissingRecipe(id) => DefinitionFault::MissingRecipe(id@),
        DefinitionError::InvalidRecipe(id, d) => DefinitionFault::InvalidRecipe(id@, d@),
        DefinitionError::RoleMismatch(id) => DefinitionFault::RoleMismatch(id@),
        DefinitionError::EmptyRocksdbPath => DefinitionFault::EmptyRocksdbPath,
        DefinitionError::RocksdbOwnership => DefinitionFault::RocksdbOwnership,
        DefinitionError::MissingResource(id) => DefinitionFault::MissingResource(id@),
        DefinitionError::ExternalPipe => DefinitionFault::ExternalPipe,
        DefinitionError::IncompatibleRole(id) => DefinitionFault::IncompatibleRole(id@),
    }
}

// ----------------------------------------------------------------------------
// The rules
// ----------------------------------------------------------------------------

/// The first declaration of `id` at or after `i`.
pub open spec fn declaration_from(resources: Seq<ResourceDeclaration>, id: Seq<char>, i: int) -> Option<
    ResourceDeclaration,
>
    decreases resources.len() - i,
{
    if i < 0 || i >= resources.len() {
        None
    } else if resources[i].id@ == id {
        Some(resources[i])
    } else {
        declaration_from(resources, id, i + 1)
    }
}

pub open spec fn declaration(resources: Seq<ResourceDeclaration>, id: Seq<char>) -> Option<ResourceDeclaration> {
    declaration_from(resources, id, 0)
}

/// The first recipe stored for `id` at or after `i`.
pub open spec fn recipe_from(configs: Seq<(String, RecipeEntry)>, id: Seq<char>, i: int) -> Option<RecipeEntry>
    decreases configs.len() - i,
{
    if i < 0 || i >= configs.len() {
        None
    } else if configs[i].0@ == id {
        Some(configs[i].1)
    } else {
        recipe_from(configs, id, i + 1)
    }
}

/// Whether two declarations share an id.
pub open spec fn has_duplicate(resources: Seq<ResourceDeclaration>) -> bool {
    exists|i: int, j: int|
        0 <= i < j < resources.len() && #[trigger] resources[i].id@ == #[trigger] resources[j].id@
}

/// The first of `ids` from `i` on that no resource declares.
pub open spec fn first_undeclared(ids: Seq<String>, resources: Seq<ResourceDeclaration>, i: int) -> Option<
    Seq<char>,
>
    decreases ids.len() - i,
{
    if i < 0 || i >= ids.len() {
        None
    } else if declaration(resources, ids[i]@) is None {
        Some(ids[i]@)
    } else {
        first_undeclared(ids, resources, i + 1)
    }
}

/// The first recipe from `i` on whose id no resource declares.
pub open spec fn first_orphan_recipe(configs: Seq<(String, RecipeEntry)>, resources: Seq<ResourceDeclaration>, i: int) -> Option<
    Seq<char>,
>
    decreases configs.len() - i,
{
    if i < 0 || i >= configs.len() {
        None
    } else if declaration(resources, configs[i].0@) is None {
        Some(configs[i].0@)
    } else {
        first_orphan_recipe(configs, resources, i + 1)
    }
}

/// What is wrong with one declared resource and its recipe, if anything.
pub open spec fn resource_error(r: ResourceDeclaration, configs: Seq<(String, RecipeEntry)>) -> Option<DefinitionFault> {
    match recipe_from(configs, r.id@, 0) {
        None => Some(DefinitionFault::MissingRecipe(r.id@)),
        Some(RecipeEntry::Invalid(detail)) => Some(DefinitionFault::InvalidRecipe(r.id@, detail@)),
        Some(RecipeEntry::Parsed(recipe)) => if recipe_role(recipe) != r.role {
            Some(DefinitionFault::RoleMismatch(r.id@))
        } else {
            match recipe {
                ComputationResourceConfig::RocksdbIndexes { path } => if path@.len() == 0 {
                    Some(DefinitionFault::EmptyRocksdbPath)
                } else if !r.graph_owned {
                    Some(DefinitionFault::RocksdbOwnership)
                } else {
                    None
                },
                _ => None,
            }
        },
    }
}

/// The first error of the resources from `i` on.
pub open spec fn first_resource_error(resources: Seq<ResourceDeclaration>, configs: Seq<(String, RecipeEntry)>, i: int) -> Option<
    DefinitionFault,
>
    decreases resources.len() - i,
{
    if i < 0 || i >= resources.len() {
        None
    } else {
        match resource_error(resources[i], configs) {
            Some(e) => Some(e),
            None => first_resource_error(resources, configs, i + 1),
        }
    }
}

/// The first resource that a component from `i` on requires and no one declares.
pub open spec fn first_component_gap(components: Seq<ComponentDeclaration>, resources: Seq<ResourceDeclaration>, i: int) -> Option<
    Seq<char>,
>
    decreases components.len() - i,
{
    if i < 0 || i >= components.len() {
        None
    } else {
        match first_undeclared(components[i].required_resources@, resources, 0) {
            Some(id) => Some(id),
            None => first_component_gap(components, resources, i + 1),
        }
    }
}

/// What is wrong with one requirement of a pipe, if anything.
pub open spec fn requirement_error(req: (String, ResourceRole), resources: Seq<ResourceDeclaration>) -> Option<DefinitionFault> {
    match declaration(resources, req.0@) {
        None => Some(DefinitionFault::MissingResource(req.0@)),
        Some(d) => if d.role != req.1 {
            Some(DefinitionFault::IncompatibleRole(req.0@))
        } else {
            None
        },
    }
}

/// The first error of the requirements from `i` on.
pub open spec fn first_requirement_error(reqs: Seq<(String, ResourceRole)>, resources: Seq<ResourceDeclaration>, i: int) -> Option<
    DefinitionFault,
>
    decreases reqs.len() - i,
{
    if i < 0 || i >= reqs.len() {
        None
    } else {
        match requirement_error(reqs[i], resources) {
            Some(e) => Some(e),
            None => first_requirement_error(reqs, resources, i + 1),
        }
    }
}

/// The first error of the pipes from `i` on.
pub open spec fn first_pipe_error(pipes: Seq<PipeDeclaration>, resources: Seq<ResourceDeclaration>, i: int) -> Option<
    DefinitionFault,
>
    decreases pipes.len() - i,
{
    if i < 0 || i >= pipes.len() {
        None
    } else {
        match pipes[i] {
            PipeDeclaration::External => Some(DefinitionFault::ExternalPipe),
            PipeDeclaration::Plain => first_pipe_error(pipes, resources, i + 1),
            PipeDeclaration::Provided { requirements } => match first_requirement_error(
                requirements@,
                resources,
                0,
            ) {
                Some(e) => Some(e),
                None => first_pipe_error(pipes, resources, i + 1),
            },
        }
    }
}

/// The first rule that a definition breaks, in the order the server checks
/// them: version 1; a valid graph id; factory-built components only; no
/// external pipe or boundary binding; distinct resource ids; a declaration
/// for every recipe; for every resource a readable recipe of its role (and
/// for RocksDB a path and graph ownership); a declaration for every resource
/// that a component or a pipe needs, of the role the pipe needs.
pub open spec fn definition_error(d: GraphDefinition) -> Option<DefinitionFault> {
    let res = d.resources@;
    if d.version != 1 {
        Some(DefinitionFault::UnsupportedVersion)
    } else if d.graph_id_error is Some {
        Some(DefinitionFault::InvalidGraphId(d.graph_id_error->0@))
    } else if exists|i: int| 0 <= i < d.components@.len() && !(#[trigger] d.components@[i]).is_factory {
        Some(DefinitionFault::ExternalComponent)
    } else if d.boundary_relationships > 0 || exists|i: int|
        0 <= i < d.relationships@.len() && (#[trigger] d.relationships@[i]) is External {
        Some(DefinitionFault::ExternalBinding)
    } else if has_duplicate(res) {
        Some(DefinitionFault::DuplicateResource)
    } else if first_orphan_recipe(d.resource_configurations@, res, 0) is Some {
        Some(DefinitionFault::RecipeWithoutDeclaration(first_orphan_recipe(d.resource_configurations@, res, 0)->0))
    } else if first_resource_error(res, d.resource_configurations@, 0) is Some {
        first_resource_error(res, d.resource_configurations@, 0)
    } else if first_component_gap(d.components@, res, 0) is Some {
        Some(DefinitionFault::MissingResource(first_component_gap(d.components@, res, 0)->0))
    } else if first_undeclared(d.component_resources@, res, 0) is Some {
        Some(DefinitionFault::MissingResource(first_undeclared(d.component_resources@, res, 0)->0))
    } else {
        first_pipe_error(d.relationships@, res, 0)
    }
}

/// Without an error from `k` on, every resource from `k` on is sound.
proof fn lemma_no_resource_error(resources: Seq<ResourceDeclaration>, configs: Seq<(String, RecipeEntry)>, k: int, i: int)
    requires
        0 <= k <= i < resources.len(),
        first_resource_error(resources, configs, k) is None,
    ensures
        resource_error(resources[i], configs) is None,
    decreases i - k,
{
    if k < i {
        lemma_no_resource_error(resources, configs, k + 1, i);
    }
}

/// With no error before `i`, the first error from 0 is the first from `i`.
proof fn lemma_resource_error_skip(resources: Seq<ResourceDeclaration>, configs: Seq<(String, RecipeEntry)>, i: int)
    requires
        0 <= i <= resources.len(),
        forall|j: int| 0 <= j < i ==> resource_error(#[trigger] resources[j], configs) is None,
    ensures
        first_resource_error(resources, configs, 0) == first_resource_error(resources, configs, i),
    decreases i,
{
    if i > 0 {
        lemma_resource_error_skip(resources, configs, i - 1);
        assert(resource_error(resources[i - 1], configs) is None);
    }
}

/// An accepted definition gives every declared resource a readable recipe
/// that builds resources of the role the declaration states; a RocksDB
/// recipe has a path and belongs to a graph-owned resource.
pub proof fn lemma_accepted_resources_match_recipes(d: GraphDefinition, i: int)
    requires
        definition_error(d) is None,
        0 <= i < d.resources@.len(),
    ensures
        recipe_from(d.resource_configurations@, d.resources@[i].id@, 0) matches Some(
            RecipeEntry::Parsed(recipe),
        ) && recipe_role(recipe) == d.resources@[i].role && (recipe matches ComputationResourceConfig::RocksdbIndexes {
            path,
        } ==> path@.len() > 0 && d.resources@[i].graph_owned),
{
    lemma_no_resource_error(d.resources@, d.resource_configurations@, 0, i);
}

/// Without an undeclared id from `k` on, every id from `k` on is declared.
proof fn lemma_no_undeclared(ids: Seq<String>, resources: Seq<ResourceDeclaration>, k: int, i: int)
    requires
        0 <= k <= i < ids.len(),
        first_undeclared(ids, resources, k) is None,
    ensures
        declaration(resources, ids[i]@) is Some,
    decreases i - k,
{
    if k < i {
        lemma_no_undeclared(ids, resources, k + 1, i);
    }
}

/// A declaration found for `id` declares `id`.
proof fn lemma_declaration_names(resources: Seq<ResourceDeclaration>, id: Seq<char>, k: int)
    requires
        0 <= k,
    ensures
        declaration_from(resources, id, k) matches Some(d) ==> exists|j: int|
            k <= j < resources.len() && resources[j] == d && d.id@ == id,
    decreases resources.len() - k,
{
    if k < resources.len() && resources[k].id@ != id {
        lemma_declaration_names(resources, id, k + 1);
    }
}

proof fn lemma_no_component_gap(components: Seq<ComponentDeclaration>, resources: Seq<ResourceDeclaration>, k: int, i: int)
    requires
        0 <= k <= i < components.len(),
        first_component_gap(components, resources, k) is None,
    ensures
        first_undeclared(components[i].required_resources@, resources, 0) is None,
    decreases i - k,
{
    if k < i {
        lemma_no_component_gap(components, resources, k + 1, i);
    }
}

proof fn lemma_no_requirement_error(reqs: Seq<(String, ResourceRole)>, resources: Seq<ResourceDeclaration>, k: int, i: int)
    requires
        0 <= k <= i < reqs.len(),
        first_requirement_error(reqs, resources, k) is None,
    ensures
        requirement_error(reqs[i], resources) is None,
    decreases i - k,
{
    if k < i {
        lemma_no_requirement_error(reqs, resources, k + 1, i);
    }
}

proof fn lemma_no_pipe_error(pipes: Seq<PipeDeclaration>, resources: Seq<ResourceDeclaration>, k: int, i: int)
    requires
        0 <= k <= i < pipes.len(),
        first_pipe_error(pipes, resources, k) is None,
    ensures
        !(pipes[i] is External),
        pipes[i] matches PipeDeclaration::Provided { requirements } ==> first_requirement_error(
            requirements@,
            resources,
            0,
        ) is None,
    decreases i - k,
{
    if k < i {
        lemma_no_pipe_error(pipes, resources, k + 1, i);
    }
}

/// An accepted definition is of version 1 with a valid graph id; all its
/// components are built by factories; nothing is bound from outside;
/// resource ids are distinct; every resource a component needs or is bound
/// to is declared; and every resource a pipe needs is declared with the role
/// the pipe needs.
pub proof fn lemma_accepted_definition(d: GraphDefinition)
    requires
        definition_error(d) is None,
    ensures
        d.version == 1,
        d.graph_id_error is None,
        forall|k: int| 0 <= k < d.components@.len() ==> (#[trigger] d.components@[k]).is_factory,
        d.boundary_relationships == 0,
        forall|k: int| 0 <= k < d.relationships@.len() ==> !((#[trigger] d.relationships@[k]) is External),
        forall|i: int, j: int|
            0 <= i < j < d.resources@.len() ==> #[trigger] d.resources@[i].id@ != #[trigger] d.resources@[j].id@,
        forall|k: int, m: int|
            0 <= k < d.components@.len() && 0 <= m < d.components@[k].required_resources@.len() ==> exists|j: int|
                0 <= j < d.resources@.len() && d.resources@[j].id@ == (#[trigger] d.components@[k].required_resources@[m])@,
        forall|m: int|
            0 <= m < d.component_resources@.len() ==> exists|j: int|
                0 <= j < d.resources@.len() && d.resources@[j].id@ == (#[trigger] d.component_resources@[m])@,
        forall|k: int, m: int|
            0 <= k < d.relationships@.len() && d.relationships@[k] is Provided && 0 <= m
                < d.relationships@[k]->requirements@.len() ==> exists|j: int|
                0 <= j < d.resources@.len() && d.resources@[j].id@
                    == (#[trigger] d.relationships@[k]->requirements@[m]).0@ && d.resources@[j].role
                    == d.relationships@[k]->requirements@[m].1,
{
    let res = d.resources@;
    assert forall|k: int, m: int|
        0 <= k < d.components@.len() && 0 <= m < d.components@[k].required_resources@.len() implies exists|j: int|
            0 <= j < res.len() && res[j].id@ == (#[trigger] d.components@[k].required_resources@[m])@ by {
        lemma_no_component_gap(d.components@, res, 0, k);
        lemma_no_undeclared(d.components@[k].required_resources@, res, 0, m);
        lemma_declaration_names(res, d.components@[k].required_resources@[m]@, 0);
    }
    assert forall|m: int| 0 <= m < d.component_resources@.len() implies exists|j: int|
        0 <= j < res.len() && res[j].id@ == (#[trigger] d.component_resources@[m])@ by {
        lemma_no_undeclared(d.component_resources@, res, 0, m);
        lemma_declaration_names(res, d.component_resources@[m]@, 0);
    }
    assert forall|k: int| 0 <= k < d.relationships@.len() implies !((#[trigger] d.relationships@[k]) is External) by {
        lemma_no_pipe_error(d.relationships@, res, 0, k);
    }
    assert forall|k: int, m: int|
        0 <= k < d.relationships@.len() && d.relationships@[k] is Provided && 0 <= m
            < d.relationships@[k]->requirements@.len() implies exists|j: int|
            0 <= j < res.len() && res[j].id@ == (#[trigger] d.relationships@[k]->requirements@[m]).0@ && res[j].role
                == d.relationships@[k]->requirements@[m].1 by {
        lemma_no_pipe_error(d.relationships@, res, 0, k);
        let reqs = d.relationships@[k]->requirements@;
        lemma_no_requirement_error(reqs, res, 0, m);
        lemma_declaration_names(res, reqs[m].0@, 0);
    }
}

/// A definition that breaks none of the earlier rules (version, graph id,
/// components, bindings, distinct resources, declared recipes), whose
/// resources before `i` have readable recipes of their roles (RocksDB ones
/// with a path and graph-owned), and whose resource `i` has a readable
/// recipe of another role than the declared one, is refused because of
/// that resource's role.
pub proof fn lemma_role_mismatch_refused(d: GraphDefinition, i: int, recipe: ComputationResourceConfig)
    requires
        d.version == 1,
        d.graph_id_error is None,
        forall|k: int| 0 <= k < d.components@.len() ==> (#[trigger] d.components@[k]).is_factory,
        d.boundary_relationships == 0,
        forall|k: int| 0 <= k < d.relationships@.len() ==> !((#[trigger] d.relationships@[k]) is External),
        !has_duplicate(d.resources@),
        first_orphan_recipe(d.resource_configurations@, d.resources@, 0) is None,
        0 <= i < d.resources@.len(),
        forall|j: int|
            0 <= j < i ==> (recipe_from(d.resource_configurations@, (#[trigger] d.resources@[j]).id@, 0) matches Some(
                RecipeEntry::Parsed(r),
            ) && recipe_role(r) == d.resources@[j].role && (r matches ComputationResourceConfig::RocksdbIndexes {
                path,
            } ==> path@.len() > 0 && d.resources@[j].graph_owned)),
        recipe_from(d.resource_configurations@, d.resources@[i].id@, 0) == Some(RecipeEntry::Parsed(recipe)),
        recipe_role(recipe) != d.resources@[i].role,
    ensures
        definition_error(d) == Some(DefinitionFault::RoleMismatch(d.resources@[i].id@)),
{
    let res = d.resources@;
    let cfg = d.resource_configurations@;
    assert forall|j: int| 0 <= j < i implies resource_error(#[trigger] res[j], cfg) is None by {
        assert(recipe_from(cfg, res[j].id@, 0) matches Some(RecipeEntry::Parsed(_)));
    }
    lemma_resource_error_skip(res, cfg, i);
    assert(resource_error(res[i], cfg) == Some(DefinitionFault::RoleMismatch(res[i].id@)));
    assert(first_resource_error(res, cfg, i) == Some(DefinitionFault::RoleMismatch(res[i].id@)));
    assert(!exists|k: int| 0 <= k < d.components@.len() && !(#[trigger] d.components@[k]).is_factory);
    assert(!exists|k: int| 0 <= k < d.relationships@.len() && (#[trigger] d.relationships@[k]) is External);
}

// ----------------------------------------------------------------------------
// Checking
// ----------------------------------------------------------------------------

fn same_string(a: &String, b: &String) -> (r: bool)
    ensures
        r == (a@ == b@),
{
    chars_equal(&chars_of(a.as_str()), &chars_of(b.as_str()))
}

/// The position of the first declaration of `id`.
fn find_declaration(resources: &Vec<ResourceDeclaration>, id: &String) -> (r: Option<usize>)
    ensures
        match r {
            Some(i) => i < resources@.len() && declaration(resources@, id@) == Some(resources@[i as int]),
            None => declaration(resources@, id@) is None,
        },
{
    let mut i: usize = 0;
    while i < resources.len()
        invariant
            i <= resources@.len(),
            declaration(resources@, id@) == declaration_from(resources@, id@, i as int),
        decreases resources@.len() - i,
    {
        if same_string(&resources[i].id, id) {
            return Some(i);
        }
        i = i + 1;
    }
    None
}

/// The position of the first recipe stored for `id`.
fn find_recipe(configs: &Vec<(String, RecipeEntry)>, id: &String) -> (r: Option<usize>)
    ensures
        match r {
            Some(i) => i < configs@.len() && recipe_from(configs@, id@, 0) == Some(configs@[i as int].1),
            None => recipe_from(configs@, id@, 0) is None,
        },
{
    let mut i: usize = 0;
    while i < configs.len()
        invariant
            i <= configs@.len(),
            recipe_from(configs@, id@, 0) == recipe_from(configs@, id@, i as int),
        decreases configs@.len() - i,
    {
        if same_string(&configs[i].0, id) {
            return Some(i);
        }
        i = i + 1;
    }
    None
}

/// Whether two declarations share an id.
fn has_duplicate_ids(resources: &Vec<ResourceDeclaration>) -> (r: bool)
    ensures
        r == has_duplicate(resources@),
{
    let n = resources.len();
    let mut j: usize = 0;
    while j < n
        invariant
            j <= n,
            n == resources@.len(),
            forall|a: int, b: int|
                0 <= a < b < j ==> #[trigger] resources@[a].id@ != #[trigger] resources@[b].id@,
        decreases n - j,
    {
        let mut i: usize = 0;
        while i < j
            invariant
                i <= j < n,
                n == resources@.len(),
                forall|a: int, b: int|
                    0 <= a < b < j ==> #[trigger] resources@[a].id@ != #[trigger] resources@[b].id@,
                forall|a: int| 0 <= a < i ==> #[trigger] resources@[a].id@ != resources@[j as int].id@,
            decreases j - i,
        {
            if same_string(&resources[i].id, &resources[j].id) {
                return true;
            }
            i = i + 1;
        }
        j = j + 1;
    }
    false
}

/// The position of the first of `ids` that no resource declares.
fn find_undeclared(ids: &Vec<String>, resources: &Vec<ResourceDeclaration>) -> (r: Option<usize>)
    ensures
        match r {
            Some(i) => i < ids@.len() && first_undeclared(ids@, resources@, 0) == Some(ids@[i as int]@),
            None => first_undeclared(ids@, resources@, 0) is None,
        },
{
    let mut i: usize = 0;
    while i < ids.len()
        invariant
            i <= ids@.len(),
            first_undeclared(ids@, resources@, 0) == first_undeclared(ids@, resources@, i as int),
        decreases ids@.len() - i,
    {
        if find_declaration(resources, &ids[i]).is_none() {
            return Some(i);
        }
        i = i + 1;
    }
    None
}

/// What is wrong with one declared resource and its recipe, if anything.
fn check_resource(r: &ResourceDeclaration, configs: &Vec<(String, RecipeEntry)>) -> (e: Option<DefinitionError>)
    ensures
        match e {
            Some(err) => resource_error(*r, configs@) == Some(fault(err)),
            None => resource_error(*r, configs@) is None,
        },
{
    let k = match find_recipe(configs, &r.id) {
        Some(k) => k,
        None => {
            return Some(DefinitionError::MissingRecipe(r.id.clone()));
        },
    };
    match &configs[k].1 {
        RecipeEntry::Invalid(detail) => Some(DefinitionError::InvalidRecipe(r.id.clone(), detail.clone())),
        RecipeEntry::Parsed(recipe) => {
            if recipe.role() != r.role {
                return Some(DefinitionError::RoleMismatch(r.id.clone()));
            }
            match recipe {
                ComputationResourceConfig::RocksdbIndexes { path } => {
                    if path.as_str().is_empty() {
                        Some(DefinitionError::EmptyRocksdbPath)
                    } else if !r.graph_owned {
                        Some(DefinitionError::RocksdbOwnership)
                    } else {
                        None
                    }
                },
                _ => None,
            }
        },
    }
}

/// What is wrong with one requirement of a pipe, if anything.
fn check_requirements(reqs: &Vec<(String, ResourceRole)>, resources: &Vec<ResourceDeclaration>) -> (e: Option<DefinitionError>)
    ensures
        match e {
            Some(err) => first_requirement_error(reqs@, resources@, 0) == Some(fault(err)),
            None => first_requirement_error(reqs@, resources@, 0) is None,
        },
{
    let mut i: usize = 0;
    while i < reqs.len()
        invariant
            i <= reqs@.len(),
            first_requirement_error(reqs@, resources@, 0) == first_requirement_error(reqs@, resources@, i as int),
        decreases reqs@.len() - i,
    {
        match find_declaration(resources, &reqs[i].0) {
            None => {
                return Some(DefinitionError::MissingResource(reqs[i].0.clone()));
            },
            Some(k) => {
                if resources[k].role != reqs[i].1 {
                    return Some(DefinitionError::IncompatibleRole(reqs[i].0.clone()));
                }
            },
        }
        i = i + 1;
    }
    None
}

/// Checks a computation graph definition: `Ok` exactly when it breaks no
/// rule, else the first rule it breaks.
#[verifier::loop_isolation(false)]
pub fn validate_definition(config: &ComputationGraphConfig) -> (r: Result<(), DefinitionError>)
    ensures
        match r {
            Ok(()) => definition_error(config.definition) is None,
            Err(e) => definition_error(config.definition) == Some(fault(e)),
        },
{
    let d = &config.definition;
    if d.version != 1 {
        return Err(DefinitionError::UnsupportedVersion);
    }
    match &d.graph_id_error {
        Some(m) => {
            return Err(DefinitionError::InvalidGraphId(m.clone()));
        },
        None => {},
    }
    let mut i: usize = 0;
    while i < d.components.len()
        invariant
            i <= d.components@.len(),
            forall|k: int| 0 <= k < i ==> (#[trigger] d.components@[k]).is_factory,
        decreases d.components@.len() - i,
    {
        if !d.components[i].is_factory {
            return Err(DefinitionError::ExternalComponent);
        }
        i = i + 1;
    }
    if d.boundary_relationships > 0 {
        return Err(DefinitionError::ExternalBinding);
    }
    let mut i: usize = 0;
    while i < d.relationships.len()
        invariant
            i <= d.relationships@.len(),
            forall|k: int| 0 <= k < i ==> !((#[trigger] d.relationships@[k]) is External),
        decreases d.relationships@.len() - i,
    {
        if let PipeDeclaration::External = &d.relationships[i] {
            return Err(DefinitionError::ExternalBinding);
        }
        i = i + 1;
    }
    if has_duplicate_ids(&d.resources) {
        return Err(DefinitionError::DuplicateResource);
    }
    let configs = &d.resource_configurations;
    let mut i: usize = 0;
    while i < configs.len()
        invariant
            i <= configs@.len(),
            first_orphan_recipe(configs@, d.resources@, 0) == first_orphan_recipe(configs@, d.resources@, i as int),
        decreases configs@.len() - i,
    {
        if find_declaration(&d.resources, &configs[i].0).is_none() {
            return Err(DefinitionError::RecipeWithoutDeclaration(configs[i].0.clone()));
        }
        i = i + 1;
    }
    let mut i: usize = 0;
    while i < d.resources.len()
        invariant
            i <= d.resources@.len(),
            first_resource_error(d.resources@, configs@, 0) == first_resource_error(d.resources@, configs@, i as int),
        decreases d.resources@.len() - i,
    {
        match check_resource(&d.resources[i], configs) {
            Some(e) => {
                return Err(e);
            },
            None => {},
        }
        i = i + 1;
    }
    let mut i: usize = 0;
    while i < d.components.len()
        invariant
            i <= d.components@.len(),
            first_component_gap(d.components@, d.resources@, 0) == first_component_gap(d.components@, d.resources@, i as int),
        decreases d.components@.len() - i,
    {
        match find_undeclared(&d.components[i].required_resources, &d.resources) {
            Some(k) => {
                return Err(DefinitionError::MissingResource(d.components[i].required_resources[k].clone()));
            },
            None => {},
        }
        i = i + 1;
    }
    match find_undeclared(&d.component_resources, &d.resources) {
        Some(k) => {
            return Err(DefinitionError::MissingResource(d.component_resources[k].clone()));
        },
        None => {},
    }
    let mut i: usize = 0;
    while i < d.relationships.len()
        invariant
            i <= d.relationships@.len(),
            first_pipe_error(d.relationships@, d.resources@, 0) == first_pipe_error(d.relationships@, d.resources@, i as int),
        decreases d.relationships@.len() - i,
    {
        match &d.relationships[i] {
            PipeDeclaration::External => {
                return Err(DefinitionError::ExternalPipe);
            },
            PipeDeclaration::Plain => {},
            PipeDeclaration::Provided { requirements } => {
                match check_requirements(requirements, &d.resources) {
                    Some(e) => {
                        return Err(e);
                    },
                    None => {},
                }
            },
        }
        i = i + 1;
    }
    Ok(())
}

/// The message of a refusal.
pub open spec fn fault_message(f: DefinitionFault) -> Seq<char> {
    match f {
        DefinitionFault::UnsupportedVersion => "unsupported computation graph configuration version"@,
        DefinitionFault::InvalidGraphId(m) => m,
        DefinitionFault::ExternalComponent => "server computation graphs require factory specifications, not external component bindings"@,
        DefinitionFault::ExternalBinding => "server computation graphs cannot reconstruct external pipe or boundary bindings"@,
        DefinitionFault::DuplicateResource => "duplicate computation resource declarations"@,
        DefinitionFault::RecipeWithoutDeclaration(id) => "resource recipe "@ + id + " has no declaration"@,
        DefinitionFault::MissingRecipe(id) => "resource "@ + id
            + " has no construction recipe; external bindings cannot be persisted or cloned"@,
        DefinitionFault::InvalidRecipe(id, _) => "invalid configuration for resource "@ + id,
        DefinitionFault::RoleMismatch(id) => "resource "@ + id + " role differs from its recipe"@,
        DefinitionFault::EmptyRocksdbPath => "RocksDB path must not be empty"@,
        DefinitionFault::RocksdbOwnership => "server-created RocksDB resources require graph cleanup ownership"@,
        DefinitionFault::MissingResource(id) => "required resource "@ + id
            + " has no declaration or construction recipe"@,
        DefinitionFault::ExternalPipe => "external pipe binding cannot be reconstructed"@,
        DefinitionFault::IncompatibleRole(id) => "pipe resource "@ + id + " has an incompatible declared role"@,
    }
}

impl DefinitionError {
    /// The message of the refusal.
    pub fn message(&self) -> (r: String)
        ensures
            r@ == fault_message(fault(*self)),
    {
        let mut m = String::new();
        match self {
            DefinitionError::UnsupportedVersion => append(&mut m, "unsupported computation graph configuration version"),
            DefinitionError::InvalidGraphId(e) => append(&mut m, e.as_str()),
            DefinitionError::ExternalComponent => append(&mut m, "server computation graphs require factory specifications, not external component bindings"),
            DefinitionError::ExternalBinding => append(&mut m, "server computation graphs cannot reconstruct external pipe or boundary bindings"),
            DefinitionError::DuplicateResource => append(&mut m, "duplicate computation resource declarations"),
            DefinitionError::RecipeWithoutDeclaration(id) => {
                append(&mut m, "resource recipe ");
                append(&mut m, id.as_str());
                append(&mut m, " has no declaration");
            },
            DefinitionError::MissingRecipe(id) => {
                append(&mut m, "resource ");
                append(&mut m, id.as_str());
                append(&mut m, " has no construction recipe; external bindings cannot be persisted or cloned");
            },
            DefinitionError::InvalidRecipe(id, _) => {
                append(&mut m, "invalid configuration for resource ");
                append(&mut m, id.as_str());
            },
            DefinitionError::RoleMismatch(id) => {
                append(&mut m, "resource ");
                append(&mut m, id.as_str());
                append(&mut m, " role differs from its recipe");
            },
            DefinitionError::EmptyRocksdbPath => append(&mut m, "RocksDB path must not be empty"),
            DefinitionError::RocksdbOwnership => append(&mut m, "server-created RocksDB resources require graph cleanup ownership"),
            DefinitionError::MissingResource(id) => {
                append(&mut m, "required resource ");
                append(&mut m, id.as_str());
                append(&mut m, " has no declaration or construction recipe");
            },
            DefinitionError::ExternalPipe => append(&mut m, "external pipe binding cannot be reconstructed"),
            DefinitionError::IncompatibleRole(id) => {
                append(&mut m, "pipe resource ");
                append(&mut m, id.as_str());
                append(&mut m, " has an incompatible declared role");
            },
        }
        m
    }
}

// ----------------------------------------------------------------------------
// Saved configurations
// ----------------------------------------------------------------------------

/// Why a saved instance configuration cannot become server graphs.
#[derive(Debug, Clone)]
pub enum SnapshotError {
    UnsupportedVersion,
    NativeComponents,
    /// The graph at this position breaks a rule
    Graph(usize, DefinitionError),
}

/// The first graph from `i` on that breaks a rule, with its fault.
pub open spec fn first_graph_fault(graphs: Seq<ComputationGraphConfig>, i: int) -> Option<(int, DefinitionFault)>
    decreases graphs.len() - i,
{
    if i < 0 || i >= graphs.len() {
        None
    } else {
        match definition_error(graphs[i].definition) {
            Some(f) => Some((i, f)),
            None => first_graph_fault(graphs, i + 1),
        }
    }
}

/// A saved instance configuration becomes server graphs when it has version
/// 1, no native root components, and every graph keeps the rules; else the
/// first of these that fails.
pub fn check_snapshot(version: u64, has_native_components: bool, graphs: &Vec<ComputationGraphConfig>) -> (r: Result<(), SnapshotError>)
    ensures
        version != 1 ==> (r matches Err(SnapshotError::UnsupportedVersion)),
        version == 1 && has_native_components ==> (r matches Err(SnapshotError::NativeComponents)),
        version == 1 && !has_native_components ==> match r {
            Ok(()) => first_graph_fault(graphs@, 0) is None,
            Err(SnapshotError::Graph(i, e)) => first_graph_fault(graphs@, 0) == Some((i as int, fault(e))),
            Err(_) => false,
        },
{
    if version != 1 {
        return Err(SnapshotError::UnsupportedVersion);
    }
    if has_native_components {
        return Err(SnapshotError::NativeComponents);
    }
    let mut i: usize = 0;
    while i < graphs.len()
        invariant
            version == 1,
            !has_native_components,
            i <= graphs@.len(),
            first_graph_fault(graphs@, 0) == first_graph_fault(graphs@, i as int),
        decreases graphs@.len() - i,
    {
        match validate_definition(&graphs[i]) {
            Err(e) => {
                return Err(SnapshotError::Graph(i, e));
            },
            Ok(()) => {},
        }
        i = i + 1;
    }
    Ok(())
}

impl SnapshotError {
    /// The message of the refusal.
    pub fn message(&self, graphs: &Vec<ComputationGraphConfig>) -> (r: String)
        requires
            self matches SnapshotError::Graph(i, _) ==> i < graphs@.len(),
        ensures
            match self {
                SnapshotError::UnsupportedVersion => r@ == "unsupported instance configuration snapshot version"@,
                SnapshotError::NativeComponents => r@
                    == "native root components cannot be saved as separate server graphs; supply named graph definitions"@,
                SnapshotError::Graph(i, _) => r@ == "computation graph '"@ + graphs@[*i as int].definition.graph_id@
                    + "' cannot be persisted or cloned"@,
            },
    {
        match self {
            SnapshotError::UnsupportedVersion => "unsupported instance configuration snapshot version".to_string(),
            SnapshotError::NativeComponents => "native root components cannot be saved as separate server graphs; supply named graph definitions".to_string(),
            SnapshotError::Graph(i, _) => {
                let mut m = String::new();
                append(&mut m, "computation graph '");
                append(&mut m, graphs[*i].definition.graph_id.as_str());
                append(&mut m, "' cannot be persisted or cloned");
                m
            },
        }
    }
}

/// The outcome of cleaning up after a failed preparation: done when no step
/// failed, else the failures, joined.
pub fn cleanup_outcome(errors: &Vec<String>) -> (r: Result<(), String>)
    ensures
        r is Ok <==> errors@.len() == 0,
        r matches Err(m) ==> m@ == "instance cleanup failed: "@ + crate::text::join_seqs(
            errors@.map_values(|e: String| e@),
            "; "@,
        ),
{
    if errors.len() == 0 {
        return Ok(());
    }
    let joined = crate::text::join(errors, "; ");
    let mut m = String::new();
    append(&mut m, "instance cleanup failed: ");
    append(&mut m, joined.as_str());
    Err(m)
}

/// `<cause>; cleanup remains owned and retryable: <errors>`: how a failed
/// preparation whose cleanup also failed describes itself.
pub fn preparation_failure_message(cause: &str, cleanup_errors: &Vec<String>) -> (r: String)
    ensures
        r@ == cause@ + "; cleanup remains owned and retryable: "@ + crate::text::join_seqs(
            cleanup_errors@.map_values(|e: String| e@),
            "; "@,
        ),
{
    let joined = crate::text::join(cleanup_errors, "; ");
    let mut m = String::new();
    append(&mut m, cause);
    append(&mut m, "; cleanup remains owned and retryable: ");
    append(&mut m, joined.as_str());
    m
}

} // verus!
