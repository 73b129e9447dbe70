//! The decisions of the component handlers of the management API: links,
//! views, observability limits, read-only refusals, upserts and the
//! temporary reactions that stream a query's results.
use vstd::prelude::*;

use crate::clone_plan::is_internal;
use crate::deploy::ComponentKind;
use crate::text::{append, chars_equal, chars_of};

verus! {

/// The prefix under which the API is served.
#[derive(Debug, Clone)]
pub struct ApiPrefix(pub String);

/// The path of an instance.
#[derive(Debug)]
pub struct InstancePath {
    pub instance_id: String,
}

/// The path of a component of an instance.
#[derive(Debug)]
pub struct ResourcePath {
    pub instance_id: String,
    pub id: String,
}

/// The links of a component: to itself, and to its full view.
#[derive(Debug, Clone)]
pub struct ComponentLinks {
    pub self_link: String,
    pub full: String,
}

/// `<prefix>/instances/<instance>/<kind>/<id>`.
pub open spec fn self_link(prefix: Seq<char>, instance_id: Seq<char>, kind: Seq<char>, id: Seq<char>) -> Seq<
    char,
> {
    prefix + "/instances/"@ + instance_id + "/"@ + kind + "/"@ + id
}

/// The links of a component: its own path, and the same with `?view=full`.
pub fn component_links(api_prefix: &str, instance_id: &str, kind: &str, id: &str) -> (r:
    ComponentLinks)
    ensures
        r.self_link@ == self_link(api_prefix@, instance_id@, kind@, id@),
        r.full@ == self_link(api_prefix@, instance_id@, kind@, id@) + "?view=full"@,
{
    let mut link = String::new();
    append(&mut link, api_prefix);
    append(&mut link, "/instances/");
    append(&mut link, instance_id);
    append(&mut link, "/");
    append(&mut link, kind);
    append(&mut link, "/");
    append(&mut link, id);
    let mut full = String::new();
    append(&mut full, link.as_str());
    append(&mut full, "?view=full");
    ComponentLinks { self_link: link, full }
}

/// Which view of a component a request asks for.
#[derive(Debug)]
pub struct ComponentViewQuery {
    pub view: Option<String>,
}

impl ComponentViewQuery {
    pub fn new(view: Option<String>) -> (q: Self)
        ensures
            q.view == view,
    {
        ComponentViewQuery { view }
    }

    /// Whether the configuration is shown: only for `view=full`.
    pub fn include_config(&self) -> (r: bool)
        ensures
            r == (self.view matches Some(v) && v@ == "full"@),
    {
        match &self.view {
            Some(v) => chars_equal(&chars_of(v.as_str()), &chars_of("full")),
            None => false,
        }
    }
}

/// How many recent events or log lines a request asks for.
#[derive(Debug)]
pub struct ObservabilityQuery {
    pub limit: Option<usize>,
}

/// The number of recent items shown when a request names no limit.
pub const DEFAULT_OBSERVABILITY_LIMIT: usize = 100;

/// The limit in force: the one asked for, else the default.
pub open spec fn effective_limit(limit: Option<usize>) -> nat {
    match limit {
        Some(l) => l as nat,
        None => DEFAULT_OBSERVABILITY_LIMIT as nat,
    }
}

/// The last `limit` items (the default number when none is given; none for 0).
pub fn apply_limit<T>(items: Vec<T>, limit: Option<usize>) -> (r: Vec<T>)
    ensures
        r@ == if items@.len() > effective_limit(limit) {
            items@.subrange(items@.len() - effective_limit(limit), items@.len() as int)
        } else {
            items@
        },
{
    let mut items = items;
    let limit = match limit {
        Some(l) => l,
        None => DEFAULT_OBSERVABILITY_LIMIT,
    };
    if limit == 0 {
        let n = items.len();
        let rest = items.split_off(n);
        assert(rest@ =~= items@.subrange(n as int, n as int));
        return rest;
    }
    if items.len() > limit {
        let start = items.len() - limit;
        items = items.split_off(start);
    }
    items
}

/// `Server is in read-only mode. Cannot <action>.`
pub open spec fn read_only_message(action: Seq<char>) -> Seq<char> {
    "Server is in read-only mode. Cannot "@ + action + "."@
}

/// The refusal of a change while the server is read-only.
pub fn read_only_refusal(action: &str) -> (r: String)
    ensures
        r@ == read_only_message(action@),
{
    let mut m = String::new();
    append(&mut m, "Server is in read-only mode. Cannot ");
    append(&mut m, action);
    append(&mut m, ".");
    m
}

/// `Path id '<path>' does not match body id '<body>'`.
pub open spec fn id_mismatch_message(path_id: Seq<char>, body_id: Seq<char>) -> Seq<char> {
    "Path id '"@ + path_id + "' does not match body id '"@ + body_id + "'"@
}

/// An upsert names its component twice, in the path and in the body: both
/// must be the same.
pub fn check_upsert_id(path_id: &str, body_id: &str) -> (r: Result<(), String>)
    ensures
        r is Ok <==> path_id@ == body_id@,
        r matches Err(m) ==> m@ == id_mismatch_message(path_id@, body_id@),
{
    if chars_equal(&chars_of(path_id), &chars_of(body_id)) {
        Ok(())
    } else {
        let mut m = String::new();
        append(&mut m, "Path id '");
        append(&mut m, path_id);
        append(&mut m, "' does not match body id '");
        append(&mut m, body_id);
        append(&mut m, "'");
        Err(m)
    }
}

/// What an upsert does.
#[derive(Debug, Clone, Copy, PartialEq, Eq, Structural)]
pub enum UpsertAction {
    /// The component exists: it is replaced in place
    Update,
    /// The component does not exist: it is created
    Create,
}

/// An upsert updates an existing component and creates a missing one.
pub fn upsert_action(exists: bool) -> (r: UpsertAction)
    ensures
        r == (if exists {
            UpsertAction::Update
        } else {
            UpsertAction::Create
        }),
{
    if exists {
        UpsertAction::Update
    } else {
        UpsertAction::Create
    }
}

/// `<Kind> '<id>' created successfully` or `... updated successfully`.
pub open spec fn upsert_message(kind_title: Seq<char>, id: Seq<char>, action: UpsertAction) -> Seq<char> {
    kind_title + " '"@ + id + "' "@ + match action {
        UpsertAction::Update => "updated successfully"@,
        UpsertAction::Create => "created successfully"@,
    }
}

/// The message of a successful upsert.
pub fn upsert_success_message(kind_title: &str, id: &str, action: UpsertAction) -> (r: String)
    ensures
        r@ == upsert_message(kind_title@, id@, action),
{
    let mut m = String::new();
    append(&mut m, kind_title);
    append(&mut m, " '");
    append(&mut m, id);
    append(&mut m, "' ");
    match action {
        UpsertAction::Update => append(&mut m, "updated successfully"),
        UpsertAction::Create => append(&mut m, "created successfully"),
    }
    m
}

/// Whether `pat` occurs in `s`.
pub open spec fn contains_text(s: Seq<char>, pat: Seq<char>) -> bool {
    exists|i: int| 0 <= i && i + pat.len() <= s.len() && #[trigger] s.subrange(i, i + pat.len()) == pat
}

/// Whether `pat` occurs in `s` (`str::contains`).
pub fn text_contains(s: &str, pat: &str) -> (r: bool)
    ensures
        r == contains_text(s@, pat@),
{
    let sc = chars_of(s);
    let pc = chars_of(pat);
    if pc.len() > sc.len() {
        return false;
    }
    let last = sc.len() - pc.len();
    let mut i: usize = 0;
    while i <= last
        invariant
            sc@ == s@,
            pc@ == pat@,
            pc@.len() <= sc@.len(),
            last == sc@.len() - pc@.len(),
            i <= last,
            forall|k: int| 0 <= k < i ==> #[trigger] sc@.subrange(k, k + pc@.len()) != pc@,
        decreases last + 1 - i,
    {
        if crate::yaml_lines::starts_with_at(&sc, i, &pc) {
            return true;
        }
        if i == last {
            proof {
                assert forall|k: int| 0 <= k && k + pc@.len() <= sc@.len() implies #[trigger] sc@.subrange(
                    k,
                    k + pc@.len(),
                ) != pc@ by {
                    assert(k <= last);
                }
            }
            return false;
        }
        i = i + 1;
    }
    false
}

/// Whether an error adding a component says that it exists already.
pub fn is_duplicate_error(message: &str) -> (r: bool)
    ensures
        r == contains_text(message@, "already exists"@),
{
    text_contains(message, "already exists")
}

/// Whether an error adding a query says that it exists already.
pub fn is_duplicate_query_error(message: &str) -> (r: bool)
    ensures
        r == (contains_text(message@, "already exists"@) || contains_text(message@, "duplicate"@)),
{
    text_contains(message, "already exists") || text_contains(message, "duplicate")
}

// ----------------------------------------------------------------------------
// Streaming a query's results
// ----------------------------------------------------------------------------

/// `__attach_<query>_<token>`: the temporary reaction that streams a query.
pub open spec fn attach_id(query_id: Seq<char>, token: Seq<char>) -> Seq<char> {
    "__attach_"@ + query_id + "_"@ + token
}

/// The id of the temporary reaction that streams a query's results; `token`
/// makes it unique.
pub fn attach_reaction_id(query_id: &str, token: &str) -> (r: String)
    ensures
        r@ == attach_id(query_id@, token@),
{
    let mut m = String::new();
    append(&mut m, "__attach_");
    append(&mut m, query_id);
    append(&mut m, "_");
    append(&mut m, token);
    m
}

/// A failure to start the streaming reaction ends the request, unless the
/// reaction is already running.
pub fn attach_start_failure_is_fatal(message: &str) -> (r: bool)
    ensures
        r == !contains_text(message@, "already running"@),
{
    !text_contains(message, "already running")
}

/// The temporary reactions that stream a query belong to the server: a
/// clone of the instance does not copy them.
pub proof fn lemma_attach_reactions_are_internal(query_id: Seq<char>, token: Seq<char>)
    ensures
        is_internal(attach_id(query_id, token)),
{
    reveal_strlit("__attach_");
    let s = attach_id(query_id, token);
    assert(s[0] == "__attach_"@[0]);
    assert(s[1] == "__attach_"@[1]);
}

// ----------------------------------------------------------------------------
// Instance links and the source push proxy
// ----------------------------------------------------------------------------

/// The links of an instance: to itself and to its components.
#[derive(Debug, Clone)]
pub struct InstanceLinks {
    pub self_link: String,
    pub sources: String,
    pub queries: String,
    pub reactions: String,
}

/// The links of an instance, under `<prefix>/instances/<id>`.
pub fn instance_links(api_prefix: &str, instance_id: &str) -> (r: InstanceLinks)
    ensures
        r.self_link@ == api_prefix@ + "/instances/"@ + instance_id@,
        r.sources@ == api_prefix@ + "/instances/"@ + instance_id@ + "/sources"@,
        r.queries@ == api_prefix@ + "/instances/"@ + instance_id@ + "/queries"@,
        r.reactions@ == api_prefix@ + "/instances/"@ + instance_id@ + "/reactions"@,
{
    let mut base = String::new();
    append(&mut base, api_prefix);
    append(&mut base, "/instances/");
    append(&mut base, instance_id);
    let mut sources = String::new();
    append(&mut sources, base.as_str());
    append(&mut sources, "/sources");
    let mut queries = String::new();
    append(&mut queries, base.as_str());
    append(&mut queries, "/queries");
    let mut reactions = String::new();
    append(&mut reactions, base.as_str());
    append(&mut reactions, "/reactions");
    InstanceLinks { self_link: base, sources, queries, reactions }
}

/// The decimal digits of `n`.
pub open spec fn decimal(n: nat) -> Seq<char>
    decreases n,
{
    if n < 10 {
        seq![digit_char(n)]
    } else {
        decimal(n / 10).push(digit_char(n % 10))
    }
}

pub open spec fn digit_char(d: nat) -> char {
    if d == 0 { '0' } else if d == 1 { '1' } else if d == 2 { '2' } else if d == 3 { '3' } else if d == 4 {
        '4'
    } else if d == 5 { '5' } else if d == 6 { '6' } else if d == 7 { '7' } else if d == 8 { '8' } else { '9' }
}

fn digit(d: u64) -> (c: char)
    requires
        d < 10,
    ensures
        c == digit_char(d as nat),
{
    if d == 0 { '0' } else if d == 1 { '1' } else if d == 2 { '2' } else if d == 3 { '3' } else if d == 4 {
        '4'
    } else if d == 5 { '5' } else if d == 6 { '6' } else if d == 7 { '7' } else if d == 8 { '8' } else { '9' }
}

/// Appends the decimal digits of `n` to `out`.
fn push_decimal(out: &mut Vec<char>, n: u64)
    ensures
        final(out)@ == old(out)@ + decimal(n as nat),
    decreases n,
{
    if n < 10 {
        out.push(digit(n));
        assert(decimal(n as nat) =~= seq![digit_char(n as nat)]);
    } else {
        push_decimal(out, n / 10);
        out.push(digit(n % 10));
    }
}

/// `text` without leading `/`.
pub open spec fn without_leading_slashes(text: Seq<char>) -> Seq<char>
    decreases text.len(),
{
    if text.len() > 0 && text[0] == '/' {
        without_leading_slashes(text.drop_first())
    } else {
        text
    }
}

/// The host that forwarded data is sent to.
pub open spec fn effective_host(host: Option<Seq<char>>) -> Seq<char> {
    match host {
        Some(h) => if h == "0.0.0.0"@ { "127.0.0.1"@ } else { h },
        None => "127.0.0.1"@,
    }
}

/// The path below which a source's endpoint lies.
pub open spec fn endpoint_base(endpoint: Option<Seq<char>>) -> Seq<char> {
    match endpoint {
        Some(e) => if e.len() == 0 { Seq::<char>::empty() } else { seq!['/'] + without_leading_slashes(e) },
        None => Seq::<char>::empty(),
    }
}

fn host_text(host: Option<&str>) -> (r: String)
    ensures
        r@ == effective_host(match host { Some(h) => Some(h@), None => None }),
{
    match host {
        Some(h) => if chars_equal(&chars_of(h), &chars_of("0.0.0.0")) {
            "127.0.0.1".to_string()
        } else {
            h.to_string()
        },
        None => "127.0.0.1".to_string(),
    }
}

fn base_text(endpoint: Option<&str>) -> (r: String)
    ensures
        r@ == endpoint_base(match endpoint { Some(e) => Some(e@), None => None }),
{
    let e = match endpoint {
        Some(e) => chars_of(e),
        None => {
            return String::new();
        },
    };
    if e.len() == 0 {
        return String::new();
    }
    let mut i: usize = 0;
    assert(e@.subrange(0, e@.len() as int) =~= e@);
    while i < e.len() && e[i] == '/'
        invariant
            i <= e@.len(),
            without_leading_slashes(e@) == without_leading_slashes(e@.subrange(i as int, e@.len() as int)),
        decreases e@.len() - i,
    {
        let ghost rest = e@.subrange(i as int, e@.len() as int);
        assert(rest.drop_first() =~= e@.subrange(i + 1, e@.len() as int));
        i = i + 1;
    }
    proof {
        let rest = e@.subrange(i as int, e@.len() as int);
        assert(!(rest.len() > 0 && rest[0] == '/'));
    }
    let mut out: Vec<char> = Vec::new();
    out.push('/');
    crate::text::extend_from_range(&mut out, &e, i, e.len());
    assert(out@ =~= seq!['/'] + without_leading_slashes(e@));
    crate::text::string_from_chars(&out)
}

fn decimal_text(n: u64) -> (r: String)
    ensures
        r@ == decimal(n as nat),
{
    let mut out: Vec<char> = Vec::new();
    push_decimal(&mut out, n);
    assert(out@ =~= decimal(n as nat));
    crate::text::string_from_chars(&out)
}

/// `http://<host>:<port><base>/sources/<id>/events`: where data pushed to a
/// source is forwarded, the source's own HTTP endpoint on this host (the
/// host `127.0.0.1` when absent or `0.0.0.0`, the port 8081 when absent).
pub open spec fn events_url(host: Option<Seq<char>>, port: Option<u64>, endpoint: Option<Seq<char>>, id: Seq<char>) -> Seq<char> {
    let p = match port {
        Some(p) => p,
        None => 8081u64,
    };
    "http://"@ + effective_host(host) + ":"@ + decimal(p as nat) + endpoint_base(endpoint) + "/sources/"@ + id + "/events"@
}

/// Where data pushed to a source is forwarded.
pub fn source_events_url(host: Option<&str>, port: Option<u64>, endpoint: Option<&str>, id: &str) -> (r: String)
    ensures
        r@ == events_url(
            match host { Some(h) => Some(h@), None => None },
            port,
            match endpoint { Some(e) => Some(e@), None => None },
            id@,
        ),
{
    let p = match port {
        Some(p) => p,
        None => 8081,
    };
    let h = host_text(host);
    let d = decimal_text(p);
    let b = base_text(endpoint);
    let mut out = String::new();
    append(&mut out, "http://");
    append(&mut out, h.as_str());
    append(&mut out, ":");
    append(&mut out, d.as_str());
    append(&mut out, b.as_str());
    append(&mut out, "/sources/");
    append(&mut out, id);
    append(&mut out, "/events");
    out
}

/// The message of a component created through the API: `Source '<id>'
/// created successfully` and likewise for a reaction; a query's is `Query
/// created successfully`.
pub open spec fn created_message(kind: ComponentKind, id: Seq<char>) -> Seq<char> {
    match kind {
        ComponentKind::Source => upsert_message("Source"@, id, UpsertAction::Create),
        ComponentKind::Reaction => upsert_message("Reaction"@, id, UpsertAction::Create),
        ComponentKind::Query => "Query created successfully"@,
    }
}

/// The message of a component created through the API.
pub fn create_success_message(kind: ComponentKind, id: &str) -> (r: String)
    ensures
        r@ == created_message(kind, id@),
{
    match kind {
        ComponentKind::Source => upsert_success_message("Source", id, UpsertAction::Create),
        ComponentKind::Reaction => upsert_success_message("Reaction", id, UpsertAction::Create),
        ComponentKind::Query => "Query created successfully".to_string(),
    }
}

} // verus!
