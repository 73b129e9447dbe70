//! Deploying a solution template: the plugins it requires, the messages of
//! refused templates, and the progress of creation, rollback and start.
use vstd::prelude::*;

use crate::dto::query_mapping::ResolvedQueryConfig;
use crate::solution::{DeployPhase, SolutionDeployError, SolutionDeployResponse};
use crate::text::{append, chars_equal, chars_of, first_index_from, join, join_seqs, string_from_range};

verus! {

// ----------------------------------------------------------------------------
// Plugin references
// ----------------------------------------------------------------------------

/// The kinds of plugin that a template may require.
#[derive(Debug, Clone, Copy, PartialEq, Eq, Structural)]
pub enum PluginCategory {
    Source,
    Reaction,
    Bootstrap,
}

/// A plugin that a template requires: its category and kind.
#[derive(Debug, Clone)]
pub struct PluginRequirement {
    pub category: PluginCategory,
    pub kind: String,
}

/// A reference `type/kind` split at its first `/`.
pub open spec fn plugin_ref_parts(r: Seq<char>) -> Option<(Seq<char>, Seq<char>)> {
    let i = first_index_from(r, '/', 0);
    if i < r.len() {
        Some((r.subrange(0, i), r.subrange(i + 1, r.len() as int)))
    } else {
        None
    }
}

/// The category that a reference's type names.
pub open spec fn plugin_category(t: Seq<char>) -> Option<PluginCategory> {
    if t == "source"@ {
        Some(PluginCategory::Source)
    } else if t == "reaction"@ {
        Some(PluginCategory::Reaction)
    } else if t == "bootstrap"@ {
        Some(PluginCategory::Bootstrap)
    } else {
        None
    }
}

pub open spec fn malformed_ref_message(r: Seq<char>) -> Seq<char> {
    "Invalid plugin reference '"@ + r + "': expected 'type/kind' (e.g., 'source/http')"@
}

pub open spec fn unknown_type_message(t: Seq<char>, r: Seq<char>) -> Seq<char> {
    "Unknown plugin type '"@ + t + "' in reference '"@ + r + "'"@
}

pub open spec fn missing_plugin_message(r: Seq<char>) -> Seq<char> {
    "Required plugin '"@ + r
        + "' is not registered. Install it or add it to the server config plugins list."@
}

/// A validation error with `message`.
pub open spec fn is_validation_error(e: SolutionDeployError, message: Seq<char>) -> bool {
    &&& e.phase == DeployPhase::Validation
    &&& e.component_type is None
    &&& e.component_id is None
    &&& e.message@ == message
}

fn validation_error(message: String) -> (e: SolutionDeployError)
    ensures
        is_validation_error(e, message@),
{
    SolutionDeployError {
        phase: DeployPhase::Validation,
        component_type: None,
        component_id: None,
        message,
    }
}

/// Reads a plugin reference `type/kind`: the plugin it requires, or the
/// validation error of a reference without `/` or with an unknown type.
pub fn check_plugin_ref(reference: &str) -> (r: Result<PluginRequirement, SolutionDeployError>)
    ensures
        match plugin_ref_parts(reference@) {
            None => r matches Err(e) && is_validation_error(e, malformed_ref_message(reference@)),
            Some((t, k)) => match plugin_category(t) {
                Some(c) => r matches Ok(req) && req.category == c && req.kind@ == k,
                None => r matches Err(e) && is_validation_error(
                    e,
                    unknown_type_message(t, reference@),
                ),
            },
        },
{
    let s = chars_of(reference);
    let n = s.len();
    let mut i: usize = 0;
    while i < n && s[i] != '/'
        invariant
            i <= n,
            n == s@.len(),
            s@ == reference@,
            first_index_from(s@, '/', 0) == first_index_from(s@, '/', i as int),
        decreases n - i,
    {
        i = i + 1;
    }
    if i == n {
        let mut m = String::new();
        append(&mut m, "Invalid plugin reference '");
        append(&mut m, reference);
        append(&mut m, "': expected 'type/kind' (e.g., 'source/http')");
        return Err(validation_error(m));
    }
    let t = string_from_range(&s, 0, i);
    let k = string_from_range(&s, i + 1, n);
    let tc = chars_of(t.as_str());
    if chars_equal(&tc, &chars_of("source")) {
        Ok(PluginRequirement { category: PluginCategory::Source, kind: k })
    } else if chars_equal(&tc, &chars_of("reaction")) {
        Ok(PluginRequirement { category: PluginCategory::Reaction, kind: k })
    } else if chars_equal(&tc, &chars_of("bootstrap")) {
        Ok(PluginRequirement { category: PluginCategory::Bootstrap, kind: k })
    } else {
        let mut m = String::new();
        append(&mut m, "Unknown plugin type '");
        append(&mut m, t.as_str());
        append(&mut m, "' in reference '");
        append(&mut m, reference);
        append(&mut m, "'");
        Err(validation_error(m))
    }
}

/// The validation error for a required plugin that is not registered.
pub fn missing_plugin_error(reference: &str) -> (e: SolutionDeployError)
    ensures
        is_validation_error(e, missing_plugin_message(reference@)),
{
    let mut m = String::new();
    append(&mut m, "Required plugin '");
    append(&mut m, reference);
    append(
        &mut m,
        "' is not registered. Install it or add it to the server config plugins list.",
    );
    validation_error(m)
}

/// The messages of a list of errors.
pub open spec fn error_messages(errors: Seq<SolutionDeployError>) -> Seq<Seq<char>> {
    errors.map_values(|e: SolutionDeployError| e.message@)
}

/// `prefix` followed by the messages of `errors`, separated by `; `.
pub fn failure_summary(prefix: &str, errors: &Vec<SolutionDeployError>) -> (r: String)
    ensures
        r@ == prefix@ + join_seqs(error_messages(errors@), "; "@),
{
    let mut messages: Vec<String> = Vec::new();
    let mut i: usize = 0;
    while i < errors.len()
        invariant
            i <= errors@.len(),
            messages@.len() == i,
            ids_view(messages@) =~= error_messages(errors@.subrange(0, i as int)),
        decreases errors@.len() - i,
    {
        let m = errors[i].message.clone();
        let ghost before = messages@;
        messages.push(m);
        proof {
            assert(messages@ == before.push(m));
            assert forall|j: int| 0 <= j <= i implies #[trigger] ids_view(messages@)[j]
                == error_messages(errors@.subrange(0, i + 1))[j] by {
                if j < i {
                    assert(messages@[j] == before[j]);
                    assert(ids_view(before)[j] == error_messages(errors@.subrange(0, i as int))[j]);
                }
            }
        }
        i = i + 1;
        assert(ids_view(messages@) =~= error_messages(errors@.subrange(0, i as int)));
    }
    assert(errors@.subrange(0, errors@.len() as int) =~= errors@);
    assert(messages@.map_values(|p: String| p@) =~= ids_view(messages@));
    let joined = join(&messages, "; ");
    let mut out = String::new();
    append(&mut out, prefix);
    append(&mut out, joined.as_str());
    out
}

// ----------------------------------------------------------------------------
// Component validation messages
// ----------------------------------------------------------------------------

/// `value`, or `unknown` when it is absent.
pub open spec fn or_unknown(value: Option<Seq<char>>) -> Seq<char> {
    match value {
        Some(v) => v,
        None => "unknown"@,
    }
}

pub open spec fn str_opt_view(value: Option<&str>) -> Option<Seq<char>> {
    match value {
        Some(v) => Some(v@),
        None => None,
    }
}

/// `in <type> '<id>': <detail>`.
pub open spec fn component_message(component_type: Seq<char>, id: Seq<char>, detail: Seq<char>) -> Seq<
    char,
> {
    "in "@ + component_type + " '"@ + id + "': "@ + detail
}

/// `in <type> '<id>' (kind=<kind>): <detail>`.
pub open spec fn component_kind_message(
    component_type: Seq<char>,
    id: Seq<char>,
    kind: Seq<char>,
    detail: Seq<char>,
) -> Seq<char> {
    "in "@ + component_type + " '"@ + id + "' (kind="@ + kind + "): "@ + detail
}

fn append_id(out: &mut String, id: Option<&str>)
    ensures
        final(out)@ == old(out)@ + or_unknown(str_opt_view(id)),
{
    match id {
        Some(v) => append(out, v),
        None => append(out, "unknown"),
    }
}

/// The validation error of a template component (`id` is `unknown` when the
/// component has none).
pub fn component_error(component_type: &str, id: Option<&str>, detail: &str) -> (e:
    SolutionDeployError)
    ensures
        is_validation_error(
            e,
            component_message(component_type@, or_unknown(str_opt_view(id)), detail@),
        ),
{
    let mut m = String::new();
    append(&mut m, "in ");
    append(&mut m, component_type);
    append(&mut m, " '");
    append_id(&mut m, id);
    append(&mut m, "': ");
    append(&mut m, detail);
    validation_error(m)
}

/// The validation error of a template component whose configuration does not
/// parse, naming its kind (`unknown` when absent).
pub fn component_kind_error(
    component_type: &str,
    id: Option<&str>,
    kind: Option<&str>,
    detail: &str,
) -> (e: SolutionDeployError)
    ensures
        is_validation_error(
            e,
            component_kind_message(
                component_type@,
                or_unknown(str_opt_view(id)),
                or_unknown(str_opt_view(kind)),
                detail@,
            ),
        ),
{
    let mut m = String::new();
    append(&mut m, "in ");
    append(&mut m, component_type);
    append(&mut m, " '");
    append_id(&mut m, id);
    append(&mut m, "' (kind=");
    append_id(&mut m, kind);
    append(&mut m, "): ");
    append(&mut m, detail);
    validation_error(m)
}

/// What the validation of a template makes of mapping one of its queries:
/// nothing when the query maps; otherwise the validation error `in query
/// '<id>': <reason>`, and the deployment creates nothing.
pub fn query_mapping_check(query_id: &str, mapped: &Result<ResolvedQueryConfig, String>) -> (r: Option<
    SolutionDeployError,
>)
    ensures
        match mapped {
            Ok(_) => r is None,
            Err(m) => r matches Some(e) && is_validation_error(
                e,
                component_message("query"@, query_id@, m@),
            ),
        },
{
    match mapped {
        Ok(_) => None,
        Err(m) => Some(component_error("query", Some(query_id), m.as_str())),
    }
}

// ----------------------------------------------------------------------------
// Creation, rollback and start
// ----------------------------------------------------------------------------

/// The kinds of component a template creates.
#[derive(Debug, Clone, Copy, PartialEq, Eq, Structural)]
pub enum ComponentKind {
    Source,
    Query,
    Reaction,
}

/// The name of a component kind in messages.
pub open spec fn kind_name(kind: ComponentKind) -> Seq<char> {
    match kind {
        ComponentKind::Source => "source"@,
        ComponentKind::Query => "query"@,
        ComponentKind::Reaction => "reaction"@,
    }
}

/// The name of a component kind in messages.
pub fn component_kind_name(kind: ComponentKind) -> (r: &'static str)
    ensures
        r@ == kind_name(kind),
{
    match kind {
        ComponentKind::Source => "source",
        ComponentKind::Query => "query",
        ComponentKind::Reaction => "reaction",
    }
}

/// The characters of each string.
pub open spec fn ids_view(v: Seq<String>) -> Seq<Seq<char>> {
    v.map_values(|s: String| s@)
}

/// Each id of `ids`, tagged with `kind`.
pub open spec fn tagged(kind: ComponentKind, ids: Seq<String>) -> Seq<(ComponentKind, Seq<char>)> {
    ids.map_values(|s: String| (kind, s@))
}

/// What a deployment has done so far: the components it created, in order,
/// those of them to start, and the outcome of the starts.
pub struct DeployProgress {
    pub sources_created: Vec<String>,
    pub queries_created: Vec<String>,
    pub reactions_created: Vec<String>,
    pub sources_to_start: Vec<String>,
    pub queries_to_start: Vec<String>,
    pub reactions_to_start: Vec<String>,
    pub components_started: Vec<String>,
    pub start_errors: Vec<SolutionDeployError>,
}

impl DeployProgress {
    /// The ids created of one kind.
    pub open spec fn created(&self, kind: ComponentKind) -> Seq<String> {
        match kind {
            ComponentKind::Source => self.sources_created@,
            ComponentKind::Query => self.queries_created@,
            ComponentKind::Reaction => self.reactions_created@,
        }
    }

    /// The ids to start of one kind.
    pub open spec fn to_start(&self, kind: ComponentKind) -> Seq<String> {
        match kind {
            ComponentKind::Source => self.sources_to_start@,
            ComponentKind::Query => self.queries_to_start@,
            ComponentKind::Reaction => self.reactions_to_start@,
        }
    }

    /// What undoes the creations: reactions first, then queries, then
    /// sources, each in the order of creation.
    pub open spec fn rollback_view(&self) -> Seq<(ComponentKind, Seq<char>)> {
        tagged(ComponentKind::Reaction, self.reactions_created@) + tagged(
            ComponentKind::Query,
            self.queries_created@,
        ) + tagged(ComponentKind::Source, self.sources_created@)
    }

    /// What to start: sources first, then queries, then reactions.
    pub open spec fn start_view(&self) -> Seq<(ComponentKind, Seq<char>)> {
        tagged(ComponentKind::Source, self.sources_to_start@) + tagged(
            ComponentKind::Query,
            self.queries_to_start@,
        ) + tagged(ComponentKind::Reaction, self.reactions_to_start@)
    }

    /// A deployment that has done nothing yet.
    pub fn new() -> (p: Self)
        ensures
            p.sources_created@.len() == 0,
            p.queries_created@.len() == 0,
            p.reactions_created@.len() == 0,
            p.sources_to_start@.len() == 0,
            p.queries_to_start@.len() == 0,
            p.reactions_to_start@.len() == 0,
            p.components_started@.len() == 0,
            p.start_errors@.len() == 0,
    {
        DeployProgress {
            sources_created: Vec::new(),
            queries_created: Vec::new(),
            reactions_created: Vec::new(),
            sources_to_start: Vec::new(),
            queries_to_start: Vec::new(),
            reactions_to_start: Vec::new(),
            components_started: Vec::new(),
            start_errors: Vec::new(),
        }
    }

    /// Records a component created (stopped), and whether it is to be started.
    pub fn record_created(&mut self, kind: ComponentKind, id: String, should_start: bool)
        ensures
            forall|k: ComponentKind|
                #[trigger] final(self).created(k) == if k == kind {
                    old(self).created(k).push(id)
                } else {
                    old(self).created(k)
                },
            forall|k: ComponentKind|
                #[trigger] final(self).to_start(k) == if k == kind && should_start {
                    old(self).to_start(k).push(id)
                } else {
                    old(self).to_start(k)
                },
            final(self).components_started == old(self).components_started,
            final(self).start_errors == old(self).start_errors,
    {
        match kind {
            ComponentKind::Source => {
                if should_start {
                    self.sources_to_start.push(id.clone());
                }
                self.sources_created.push(id);
            },
            ComponentKind::Query => {
                if should_start {
                    self.queries_to_start.push(id.clone());
                }
                self.queries_created.push(id);
            },
            ComponentKind::Reaction => {
                if should_start {
                    self.reactions_to_start.push(id.clone());
                }
                self.reactions_created.push(id);
            },
        }
    }

    /// The components to delete after a failed creation: reactions, then
    /// queries, then sources.
    pub fn rollback_plan(&self) -> (r: Vec<(ComponentKind, String)>)
        ensures
            plan_view(r@) == self.rollback_view(),
    {
        let mut out: Vec<(ComponentKind, String)> = Vec::new();
        append_tagged(&mut out, ComponentKind::Reaction, &self.reactions_created);
        append_tagged(&mut out, ComponentKind::Query, &self.queries_created);
        append_tagged(&mut out, ComponentKind::Source, &self.sources_created);
        out
    }

    /// The components to start: sources, then queries, then reactions.
    pub fn start_plan(&self) -> (r: Vec<(ComponentKind, String)>)
        ensures
            plan_view(r@) == self.start_view(),
    {
        let mut out: Vec<(ComponentKind, String)> = Vec::new();
        append_tagged(&mut out, ComponentKind::Source, &self.sources_to_start);
        append_tagged(&mut out, ComponentKind::Query, &self.queries_to_start);
        append_tagged(&mut out, ComponentKind::Reaction, &self.reactions_to_start);
        out
    }

    /// Records a component that started: `<kind>:<id>` joins the started list.
    pub fn record_started(&mut self, kind: ComponentKind, id: &str)
        ensures
            final(self).components_started@.len() == old(self).components_started@.len() + 1,
            ids_view(final(self).components_started@) == ids_view(
                old(self).components_started@,
            ).push(kind_name(kind) + ":"@ + id@),
            final(self).start_errors == old(self).start_errors,
            forall|k: ComponentKind| #[trigger] final(self).created(k) == old(self).created(k),
            forall|k: ComponentKind| #[trigger] final(self).to_start(k) == old(self).to_start(k),
    {
        let mut label = String::new();
        append(&mut label, component_kind_name(kind));
        append(&mut label, ":");
        append(&mut label, id);
        let ghost before = self.components_started@;
        self.components_started.push(label);
        assert(ids_view(self.components_started@) =~= ids_view(before).push(
            kind_name(kind) + ":"@ + id@,
        ));
    }

    /// Records a component that failed to start; it stays created.
    pub fn record_start_failed(&mut self, kind: ComponentKind, id: &str, message: &str)
        ensures
            final(self).start_errors@ == old(self).start_errors@.push(
                final(self).start_errors@.last(),
            ),
            final(self).start_errors@.last().phase == DeployPhase::Start,
            final(self).start_errors@.last().component_type matches Some(t) && t@ == kind_name(
                kind,
            ),
            final(self).start_errors@.last().component_id matches Some(i) && i@ == id@,
            final(self).start_errors@.last().message@ == message@,
            final(self).components_started == old(self).components_started,
            forall|k: ComponentKind| #[trigger] final(self).created(k) == old(self).created(k),
            forall|k: ComponentKind| #[trigger] final(self).to_start(k) == old(self).to_start(k),
    {
        let e = SolutionDeployError::start(component_kind_name(kind), id, message);
        self.start_errors.push(e);
    }

    /// The response of a deployment whose components were all created: it
    /// succeeded, and the start errors, if any, are its errors.
    pub fn finish(self) -> (r: SolutionDeployResponse)
        ensures
            r.success,
            r.sources_created == self.sources_created,
            r.queries_created == self.queries_created,
            r.reactions_created == self.reactions_created,
            r.components_started == self.components_started,
            r.errors == self.start_errors,
    {
        SolutionDeployResponse {
            success: true,
            sources_created: self.sources_created,
            queries_created: self.queries_created,
            reactions_created: self.reactions_created,
            components_started: self.components_started,
            errors: self.start_errors,
        }
    }
}

/// The characters of each id of a plan.
pub open spec fn plan_view(v: Seq<(ComponentKind, String)>) -> Seq<(ComponentKind, Seq<char>)> {
    v.map_values(|s: (ComponentKind, String)| (s.0, s.1@))
}

/// Appends the ids of `ids`, tagged with `kind`, to `out`.
fn append_tagged(out: &mut Vec<(ComponentKind, String)>, kind: ComponentKind, ids: &Vec<String>)
    ensures
        plan_view(final(out)@) == plan_view(old(out)@) + tagged(kind, ids@),
{
    let ghost start = plan_view(out@);
    let mut i: usize = 0;
    while i < ids.len()
        invariant
            i <= ids@.len(),
            out@.len() == start.len() + i,
            plan_view(out@) =~= start + tagged(
                kind,
                ids@.subrange(0, i as int),
            ),
        decreases ids@.len() - i,
    {
        let id = ids[i].clone();
        let ghost before = out@;
        out.push((kind, id));
        proof {
            assert(out@ == before.push((kind, id)));
            assert forall|j: int| 0 <= j < out@.len() implies #[trigger] plan_view(out@)[j] == (start
                + tagged(kind, ids@.subrange(0, i + 1)))[j] by {
                if j < before.len() {
                    assert(out@[j] == before[j]);
                    assert(plan_view(before)[j] == (start + tagged(kind, ids@.subrange(0, i as int)))[j]);
                }
            }
        }
        i = i + 1;
        assert(plan_view(out@) =~= start + tagged(
            kind,
            ids@.subrange(0, i as int),
        ));
    }
    assert(ids@.subrange(0, ids@.len() as int) =~= ids@);
}

/// The response of a deployment whose creation of component `id` of `kind`
/// failed with `message`: it failed with that one creation error, and
/// reports nothing created.
pub open spec fn is_creation_failure(
    r: SolutionDeployResponse,
    kind: ComponentKind,
    id: Seq<char>,
    message: Seq<char>,
) -> bool {
    &&& !r.success
    &&& r.sources_created@.len() == 0
    &&& r.queries_created@.len() == 0
    &&& r.reactions_created@.len() == 0
    &&& r.components_started@.len() == 0
    &&& r.errors@.len() == 1
    &&& r.errors@[0].phase == DeployPhase::Creation
    &&& r.errors@[0].component_type matches Some(t) && t@ == kind_name(kind)
    &&& r.errors@[0].component_id matches Some(i) && i@ == id
    &&& r.errors@[0].message@ == message
}

/// The response of a deployment whose creation of a component failed: it
/// failed with that one creation error, and reports nothing created.
pub fn creation_failed(kind: ComponentKind, id: &str, message: &str) -> (r: SolutionDeployResponse)
    ensures
        is_creation_failure(r, kind, id@, message@),
{
    let e = SolutionDeployError::creation(component_kind_name(kind), id, message);
    let mut errors: Vec<SolutionDeployError> = Vec::new();
    errors.push(e);
    SolutionDeployResponse::failed(errors)
}

/// Rolling back after a failed creation deletes exactly the components that
/// were created, each once: every created component is in the plan, and the
/// plan holds nothing else.
pub proof fn lemma_rollback_undoes_creation(p: DeployProgress, kind: ComponentKind, id: Seq<char>)
    ensures
        p.rollback_view().len() == p.sources_created@.len() + p.queries_created@.len()
            + p.reactions_created@.len(),
        p.rollback_view().contains((kind, id)) <==> ids_view(p.created(kind)).contains(id),
{
    let rv = tagged(ComponentKind::Reaction, p.reactions_created@);
    let qv = tagged(ComponentKind::Query, p.queries_created@);
    let sv = tagged(ComponentKind::Source, p.sources_created@);
    let all = rv + qv + sv;
    assert(all == p.rollback_view());
    let created = p.created(kind);
    if ids_view(created).contains(id) {
        let j = choose|j: int| 0 <= j < ids_view(created).len() && ids_view(created)[j] == id;
        match kind {
            ComponentKind::Reaction => {
                assert(all[j] == (kind, id));
            },
            ComponentKind::Query => {
                assert(all[rv.len() + j] == (kind, id));
            },
            ComponentKind::Source => {
                assert(all[rv.len() + qv.len() + j] == (kind, id));
            },
        }
    }
    if all.contains((kind, id)) {
        let j = choose|j: int| 0 <= j < all.len() && all[j] == (kind, id);
        if j < rv.len() {
            assert(ids_view(p.reactions_created@)[j] == id);
        } else if j < rv.len() + qv.len() {
            assert(ids_view(p.queries_created@)[j - rv.len()] == id);
        } else {
            assert(ids_view(p.sources_created@)[j - rv.len() - qv.len()] == id);
        }
    }
}

// ----------------------------------------------------------------------------
// The deployment, step by step
// ----------------------------------------------------------------------------

/// The ids of the components of `kind` among `cs`, in order.
pub open spec fn ids_of_kind(cs: Seq<(ComponentKind, String, bool)>, kind: ComponentKind) -> Seq<
    Seq<char>,
>
    decreases cs.len(),
{
    if cs.len() == 0 {
        Seq::empty()
    } else {
        let rest = ids_of_kind(cs.drop_last(), kind);
        if cs.last().0 == kind {
            rest.push(cs.last().1@)
        } else {
            rest
        }
    }
}

/// The ids of the components of `kind` among `cs` that are to be started, in
/// order.
pub open spec fn start_ids_of_kind(cs: Seq<(ComponentKind, String, bool)>, kind: ComponentKind) -> Seq<
    Seq<char>,
>
    decreases cs.len(),
{
    if cs.len() == 0 {
        Seq::empty()
    } else {
        let rest = start_ids_of_kind(cs.drop_last(), kind);
        if cs.last().0 == kind && cs.last().2 {
            rest.push(cs.last().1@)
        } else {
            rest
        }
    }
}

/// What a deployment does next.
pub enum DeployStep {
    /// Create the component at this position, stopped
    Create(usize),
    /// Every component exists: start these, in this order
    Start(Vec<(ComponentKind, String)>),
}

/// A deployment of validated components: each is created in turn, stopped;
/// the first failed creation ends it and undoes the creations before it;
/// only once all exist are those that asked for it started.
pub struct Deployment {
    /// The components, in the order of creation: kind, id, and whether to start it
    pub components: Vec<(ComponentKind, String, bool)>,
    /// How many of them have been created
    pub created: usize,
    /// What has been done so far
    pub progress: DeployProgress,
}

impl Deployment {
    /// The progress records exactly the components created so far, by kind
    /// and in order, and those of them to start.
    pub open spec fn wf(&self) -> bool {
        &&& self.created <= self.components@.len()
        &&& forall|k: ComponentKind|
            #[trigger] ids_view(self.progress.created(k)) == ids_of_kind(
                self.components@.subrange(0, self.created as int),
                k,
            )
        &&& forall|k: ComponentKind|
            #[trigger] ids_view(self.progress.to_start(k)) == start_ids_of_kind(
                self.components@.subrange(0, self.created as int),
                k,
            )
    }

    /// A deployment of `components` that has created nothing yet.
    pub fn new(components: Vec<(ComponentKind, String, bool)>) -> (d: Self)
        ensures
            d.wf(),
            d.components == components,
            d.created == 0,
            d.progress.components_started@.len() == 0,
            d.progress.start_errors@.len() == 0,
    {
        let progress = DeployProgress::new();
        let d = Deployment { components, created: 0, progress };
        assert forall|k: ComponentKind| #[trigger] ids_view(d.progress.created(k)) == ids_of_kind(
            d.components@.subrange(0, 0),
            k,
        ) by {
            assert(ids_view(d.progress.created(k)) =~= Seq::<Seq<char>>::empty());
        }
        assert forall|k: ComponentKind| #[trigger] ids_view(d.progress.to_start(k))
            == start_ids_of_kind(d.components@.subrange(0, 0), k) by {
            assert(ids_view(d.progress.to_start(k)) =~= Seq::<Seq<char>>::empty());
        }
        d
    }

    /// The next step: create the next component while some remain, then
    /// start those that asked for it, sources first, then queries, then
    /// reactions.
    pub fn next_step(&self) -> (s: DeployStep)
        requires
            self.wf(),
        ensures
            self.created < self.components@.len() ==> s == DeployStep::Create(self.created),
            self.created == self.components@.len() ==> (s matches DeployStep::Start(plan)
                && plan_view(plan@) == self.progress.start_view()),
    {
        if self.created < self.components.len() {
            DeployStep::Create(self.created)
        } else {
            DeployStep::Start(self.progress.start_plan())
        }
    }

    /// Takes the outcome of creating the next component. On success it is
    /// recorded and the deployment goes on (`None`); on failure the
    /// deployment ends: the result holds what to delete (the components
    /// created before, reactions first, then queries, then sources) and the
    /// response naming the component that failed.
    pub fn record_creation(&mut self, outcome: Result<(), String>) -> (r: Option<
        (Vec<(ComponentKind, String)>, SolutionDeployResponse),
    >)
        requires
            old(self).wf(),
            old(self).created < old(self).components@.len(),
        ensures
            final(self).wf(),
            final(self).components == old(self).components,
            final(self).progress.components_started == old(self).progress.components_started,
            final(self).progress.start_errors == old(self).progress.start_errors,
            match outcome {
                Ok(_) => r is None && final(self).created == old(self).created + 1,
                Err(m) => {
                    let c = old(self).components@[old(self).created as int];
                    &&& r matches Some((plan, resp))
                    &&& plan_view(plan@) == old(self).progress.rollback_view()
                    &&& is_creation_failure(resp, c.0, c.1@, m@)
                    &&& *final(self) == *old(self)
                },
            },
    {
        let i = self.created;
        let kind = self.components[i].0;
        let id = self.components[i].1.clone();
        let should_start = self.components[i].2;
        let n = self.components.len();
        assert(i < n);
        let next = i + 1;
        match outcome {
            Ok(_) => {
                let ghost before = self.components@.subrange(0, i as int);
                let ghost after = self.components@.subrange(0, i + 1);
                assert(after.drop_last() =~= before);
                assert(after.last() == self.components@[i as int]);
                self.progress.record_created(kind, id, should_start);
                self.created = next;
                assert forall|k: ComponentKind| #[trigger] ids_view(self.progress.created(k))
                    == ids_of_kind(after, k) by {
                    if k == kind {
                        assert(ids_view(self.progress.created(k)) =~= ids_view(
                            old(self).progress.created(k),
                        ).push(id@));
                    }
                }
                assert forall|k: ComponentKind| #[trigger] ids_view(self.progress.to_start(k))
                    == start_ids_of_kind(after, k) by {
                    if k == kind && should_start {
                        assert(ids_view(self.progress.to_start(k)) =~= ids_view(
                            old(self).progress.to_start(k),
                        ).push(id@));
                    }
                }
                None
            },
            Err(m) => {
                let plan = self.progress.rollback_plan();
                let resp = creation_failed(kind, id.as_str(), m.as_str());
                Some((plan, resp))
            },
        }
    }
}

/// A component of `kind` with `id` is among those of that kind in `cs` if
/// and only if some position of `cs` holds it.
pub proof fn lemma_ids_of_kind_contains(
    cs: Seq<(ComponentKind, String, bool)>,
    kind: ComponentKind,
    id: Seq<char>,
)
    ensures
        ids_of_kind(cs, kind).contains(id) <==> exists|i: int|
            0 <= i < cs.len() && #[trigger] cs[i].0 == kind && cs[i].1@ == id,
    decreases cs.len(),
{
    if cs.len() > 0 {
        let init = cs.drop_last();
        lemma_ids_of_kind_contains(init, kind, id);
        let rest = ids_of_kind(init, kind);
        if exists|i: int| 0 <= i < cs.len() && #[trigger] cs[i].0 == kind && cs[i].1@ == id {
            let i = choose|i: int| 0 <= i < cs.len() && #[trigger] cs[i].0 == kind && cs[i].1@ == id;
            if i < cs.len() - 1 {
                assert(init[i] == cs[i]);
                assert(rest.contains(id));
                if cs.last().0 == kind {
                    let j = choose|j: int| 0 <= j < rest.len() && rest[j] == id;
                    assert(rest.push(cs.last().1@)[j] == id);
                }
            } else {
                assert(rest.push(cs.last().1@)[rest.len() as int] == id);
            }
        }
        if ids_of_kind(cs, kind).contains(id) {
            if cs.last().0 == kind && cs.last().1@ == id {
                assert(cs[cs.len() - 1].0 == kind);
            } else {
                let s = ids_of_kind(cs, kind);
                let j = choose|j: int| 0 <= j < s.len() && s[j] == id;
                if cs.last().0 == kind {
                    assert(j < rest.len());
                    assert(rest[j] == id);
                }
                assert(rest.contains(id));
                let i = choose|i: int| 0 <= i < init.len() && #[trigger] init[i].0 == kind && init[i].1@ == id;
                assert(cs[i] == init[i]);
            }
        }
    }
}

/// After a failed creation, what the deployment deletes is exactly what it
/// created before the failure: a component is in the rollback plan if and
/// only if it stands before the failed one.
pub proof fn lemma_rollback_is_what_was_created(d: Deployment, kind: ComponentKind, id: Seq<char>)
    requires
        d.wf(),
    ensures
        d.progress.rollback_view().contains((kind, id)) <==> exists|i: int|
            0 <= i < d.created && #[trigger] d.components@[i].0 == kind && d.components@[i].1@ == id,
{
    let prefix = d.components@.subrange(0, d.created as int);
    lemma_rollback_undoes_creation(d.progress, kind, id);
    lemma_ids_of_kind_contains(prefix, kind, id);
    assert(ids_view(d.progress.created(kind)) == ids_of_kind(prefix, kind));
    if exists|i: int| 0 <= i < d.created && #[trigger] d.components@[i].0 == kind && d.components@[i].1@ == id {
        let i = choose|i: int| 0 <= i < d.created && #[trigger] d.components@[i].0 == kind && d.components@[i].1@ == id;
        assert(prefix[i] == d.components@[i]);
    }
    if exists|i: int| 0 <= i < prefix.len() && #[trigger] prefix[i].0 == kind && prefix[i].1@ == id {
        let i = choose|i: int| 0 <= i < prefix.len() && #[trigger] prefix[i].0 == kind && prefix[i].1@ == id;
        assert(d.components@[i] == prefix[i]);
    }
}

} // verus!
