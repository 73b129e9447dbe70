//! Creating a solution template from the components of an instance: which
//! components it takes, and which plugins it declares as required.
use vstd::prelude::*;

use crate::solution::CreateSolutionTemplateRequest;
use crate::text::{append, chars_equal, chars_of};

verus! {

/// A source of an instance as a template records it.
#[derive(Debug, Clone)]
pub struct SourceSummary {
    pub id: String,
    /// The source's plugin kind
    pub kind: String,
    /// The kind of its bootstrap provider, if it has one
    pub bootstrap_kind: Option<String>,
}

/// A reaction of an instance as a template records it.
#[derive(Debug, Clone)]
pub struct ReactionSummary {
    pub id: String,
    /// The reaction's plugin kind
    pub kind: String,
}

/// Whether two strings hold the same characters.
pub fn same_text(a: &str, b: &str) -> (r: bool)
    ensures
        r == (a@ == b@),
{
    chars_equal(&chars_of(a), &chars_of(b))
}

/// The first position of `id` in `ids`, if it is there.
pub open spec fn first_position(ids: Seq<Seq<char>>, id: Seq<char>, from: int) -> Option<int>
    decreases ids.len() - from,
{
    if from < 0 || from >= ids.len() {
        None
    } else if ids[from] == id {
        Some(from)
    } else {
        first_position(ids, id, from + 1)
    }
}

pub open spec fn strings_view(v: Seq<String>) -> Seq<Seq<char>> {
    v.map_values(|s: String| s@)
}

/// The position of the first of `ids` that is `id`.
pub fn find_id(ids: &Vec<String>, id: &str) -> (r: Option<usize>)
    ensures
        match r {
            Some(i) => first_position(strings_view(ids@), id@, 0) == Some(i as int),
            None => first_position(strings_view(ids@), id@, 0) is None,
        },
{
    let ghost v = strings_view(ids@);
    let mut i: usize = 0;
    while i < ids.len()
        invariant
            i <= ids@.len(),
            v == strings_view(ids@),
            first_position(v, id@, 0) == first_position(v, id@, i as int),
        decreases ids@.len() - i,
    {
        if same_text(ids[i].as_str(), id) {
            return Some(i);
        }
        i = i + 1;
    }
    None
}

/// The positions in `available` of the `requested` ids, or the position in
/// `requested` of the first id that `available` lacks.
pub open spec fn selection(requested: Seq<Seq<char>>, available: Seq<Seq<char>>) -> Result<
    Seq<int>,
    int,
>
    decreases requested.len(),
{
    if requested.len() == 0 {
        Ok(seq![])
    } else {
        match selection(requested.drop_last(), available) {
            Err(j) => Err(j),
            Ok(found) => match first_position(available, requested.last(), 0) {
                Some(p) => Ok(found.push(p)),
                None => Err(requested.len() - 1),
            },
        }
    }
}

/// Finds each requested id among the available ones: their positions, in
/// the order requested, or the position of the first requested id that is
/// not available.
pub fn select_components(requested: &Vec<String>, available: &Vec<String>) -> (r: Result<
    Vec<usize>,
    usize,
>)
    ensures
        match r {
            Ok(found) => selection(strings_view(requested@), strings_view(available@)) == Ok::<
                Seq<int>,
                int,
            >(found@.map_values(|i: usize| i as int)),
            Err(j) => selection(strings_view(requested@), strings_view(available@)) == Err::<
                Seq<int>,
                int,
            >(j as int),
        },
{
    let ghost rv = strings_view(requested@);
    let ghost av = strings_view(available@);
    let mut found: Vec<usize> = Vec::new();
    let mut i: usize = 0;
    assert(rv.subrange(0, 0) =~= Seq::<Seq<char>>::empty());
    assert(found@.map_values(|k: usize| k as int) =~= Seq::<int>::empty());
    while i < requested.len()
        invariant
            i <= requested@.len(),
            rv == strings_view(requested@),
            av == strings_view(available@),
            selection(rv.subrange(0, i as int), av) == Ok::<Seq<int>, int>(
                found@.map_values(|k: usize| k as int),
            ),
        decreases requested@.len() - i,
    {
        let ghost prefix = rv.subrange(0, i + 1);
        assert(prefix.drop_last() =~= rv.subrange(0, i as int));
        assert(prefix.last() == requested@[i as int]@);
        match find_id(available, requested[i].as_str()) {
            Some(p) => {
                let ghost before = found@;
                found.push(p);
                assert(found@.map_values(|k: usize| k as int) =~= before.map_values(
                    |k: usize| k as int,
                ).push(p as int));
            },
            None => {
                proof {
                    lemma_selection_keeps_error(rv, av, i + 1);
                }
                return Err(i);
            },
        }
        i = i + 1;
    }
    assert(rv.subrange(0, requested@.len() as int) =~= rv);
    Ok(found)
}

/// Once the selection of a prefix fails, the selection of the whole fails
/// at the same position.
proof fn lemma_selection_keeps_error(requested: Seq<Seq<char>>, available: Seq<Seq<char>>, n: int)
    requires
        0 < n <= requested.len(),
        selection(requested.subrange(0, n), available) is Err,
    ensures
        selection(requested, available) == selection(requested.subrange(0, n), available),
    decreases requested.len() - n,
{
    if n < requested.len() {
        let next = requested.subrange(0, n + 1);
        assert(next.drop_last() =~= requested.subrange(0, n));
        lemma_selection_keeps_error(requested, available, n + 1);
    } else {
        assert(requested.subrange(0, n) =~= requested);
    }
}

// ----------------------------------------------------------------------------
// Required plugins
// ----------------------------------------------------------------------------

/// `acc` with `x` added unless it is already there.
pub open spec fn push_unique(acc: Seq<Seq<char>>, x: Seq<char>) -> Seq<Seq<char>> {
    if acc.contains(x) {
        acc
    } else {
        acc.push(x)
    }
}

/// The distinct elements of `s`, in the order of their first occurrence.
pub open spec fn dedup(s: Seq<Seq<char>>) -> Seq<Seq<char>>
    decreases s.len(),
{
    if s.len() == 0 {
        seq![]
    } else {
        push_unique(dedup(s.drop_last()), s.last())
    }
}

/// The plugin references of sources: `source/<kind>` for each, followed by
/// `bootstrap/<kind>` when it has a bootstrap provider.
pub open spec fn source_refs(sources: Seq<SourceSummary>) -> Seq<Seq<char>>
    decreases sources.len(),
{
    if sources.len() == 0 {
        seq![]
    } else {
        let s = sources.last();
        let own = source_refs(sources.drop_last()).push("source/"@ + s.kind@);
        match s.bootstrap_kind {
            Some(b) => own.push("bootstrap/"@ + b@),
            None => own,
        }
    }
}

/// The plugin references of reactions: `reaction/<kind>` for each.
pub open spec fn reaction_refs(reactions: Seq<ReactionSummary>) -> Seq<Seq<char>> {
    reactions.map_values(|r: ReactionSummary| "reaction/"@ + r.kind@)
}

/// The plugins that a template of these components declares as required:
/// each reference once, in the order of first mention.
pub open spec fn required_refs(sources: Seq<SourceSummary>, reactions: Seq<ReactionSummary>) -> Seq<
    Seq<char>,
> {
    dedup(source_refs(sources) + reaction_refs(reactions))
}

fn contains_string(v: &Vec<String>, x: &String) -> (r: bool)
    ensures
        r == strings_view(v@).contains(x@),
{
    let ghost view = strings_view(v@);
    let mut i: usize = 0;
    while i < v.len()
        invariant
            i <= v@.len(),
            view == strings_view(v@),
            forall|j: int| 0 <= j < i ==> view[j] != x@,
        decreases v@.len() - i,
    {
        if same_text(v[i].as_str(), x.as_str()) {
            assert(view[i as int] == x@);
            return true;
        }
        i = i + 1;
    }
    false
}

fn push_unique_string(v: &mut Vec<String>, x: String)
    ensures
        strings_view(final(v)@) == push_unique(strings_view(old(v)@), x@),
{
    if !contains_string(v, &x) {
        let ghost before = v@;
        v.push(x);
        assert(strings_view(v@) =~= strings_view(before).push(x@));
    }
}

fn prefixed(prefix: &str, s: &str) -> (r: String)
    ensures
        r@ == prefix@ + s@,
{
    let mut out = String::new();
    append(&mut out, prefix);
    append(&mut out, s);
    out
}

/// The plugins that a template of these components declares as required.
pub fn required_plugin_refs(sources: &Vec<SourceSummary>, reactions: &Vec<ReactionSummary>) -> (r:
    Vec<String>)
    ensures
        strings_view(r@) == required_refs(sources@, reactions@),
{
    let mut out: Vec<String> = Vec::new();
    let ghost mut cands: Seq<Seq<char>> = seq![];
    let mut i: usize = 0;
    assert(sources@.subrange(0, 0) =~= Seq::<SourceSummary>::empty());
    assert(strings_view(out@) =~= Seq::<Seq<char>>::empty());
    while i < sources.len()
        invariant
            i <= sources@.len(),
            cands == source_refs(sources@.subrange(0, i as int)),
            strings_view(out@) == dedup(cands),
        decreases sources@.len() - i,
    {
        let s = &sources[i];
        let ghost prefix = sources@.subrange(0, i + 1);
        assert(prefix.drop_last() =~= sources@.subrange(0, i as int));
        assert(prefix.last() == sources@[i as int]);
        let r = prefixed("source/", s.kind.as_str());
        push_unique_string(&mut out, r);
        proof {
            let c1 = cands.push("source/"@ + s.kind@);
            assert(c1.drop_last() =~= cands);
            assert(c1.last() == "source/"@ + s.kind@);
            assert(dedup(c1) == push_unique(dedup(cands), "source/"@ + s.kind@));
            cands = c1;
        }
        assert(strings_view(out@) == dedup(cands));
        match &s.bootstrap_kind {
            Some(b) => {
                let br = prefixed("bootstrap/", b.as_str());
                push_unique_string(&mut out, br);
                proof {
                    let c2 = cands.push("bootstrap/"@ + b@);
                    assert(c2.drop_last() =~= cands);
                    assert(c2.last() == "bootstrap/"@ + b@);
                    assert(dedup(c2) == push_unique(dedup(cands), "bootstrap/"@ + b@));
                    cands = c2;
                }
            },
            None => {},
        }
        assert(cands == source_refs(prefix));
        i = i + 1;
    }
    assert(sources@.subrange(0, sources@.len() as int) =~= sources@);
    let ghost head = cands;
    let mut j: usize = 0;
    while j < reactions.len()
        invariant
            j <= reactions@.len(),
            head == source_refs(sources@),
            cands == head + reaction_refs(reactions@.subrange(0, j as int)),
            strings_view(out@) == dedup(cands),
        decreases reactions@.len() - j,
    {
        let r = prefixed("reaction/", reactions[j].kind.as_str());
        push_unique_string(&mut out, r);
        proof {
            let c1 = cands.push("reaction/"@ + reactions@[j as int].kind@);
            assert(c1.drop_last() =~= cands);
            assert(c1 =~= head + reaction_refs(reactions@.subrange(0, j + 1)));
            cands = c1;
        }
        j = j + 1;
    }
    assert(reactions@.subrange(0, reactions@.len() as int) =~= reactions@);
    out
}

/// A template's list of required plugins names no plugin twice, and names
/// every plugin that one of its components uses.
pub proof fn lemma_required_refs_distinct(s: Seq<Seq<char>>)
    ensures
        forall|i: int, j: int| 0 <= i < j < dedup(s).len() ==> dedup(s)[i] != dedup(s)[j],
        forall|x: Seq<char>| #[trigger] dedup(s).contains(x) <==> s.contains(x),
    decreases s.len(),
{
    if s.len() > 0 {
        lemma_required_refs_distinct(s.drop_last());
        let d = dedup(s.drop_last());
        assert forall|x: Seq<char>| #[trigger] dedup(s).contains(x) <==> s.contains(x) by {
            if s.contains(x) && x != s.last() {
                let k = choose|k: int| 0 <= k < s.len() && s[k] == x;
                assert(s.drop_last()[k] == x);
            }
            if s.drop_last().contains(x) {
                let k = choose|k: int| 0 <= k < s.drop_last().len() && s.drop_last()[k] == x;
                assert(s[k] == x);
            }
            if !d.contains(s.last()) {
                assert(d.push(s.last())[d.len() as int] == s.last());
                if d.push(s.last()).contains(x) && x != s.last() {
                    let k = choose|k: int| 0 <= k < d.len() + 1 && d.push(s.last())[k] == x;
                    assert(d[k] == x);
                }
                if d.contains(x) {
                    let k = choose|k: int| 0 <= k < d.len() && d[k] == x;
                    assert(d.push(s.last())[k] == x);
                }
            }
            assert(s.last() == s[s.len() - 1]);
        }
    }
}

/// `<Kind> '<id>' not found`: the refusal of a template that names a
/// component the instance does not have.
pub fn component_not_found_message(kind: crate::deploy::ComponentKind, id: &str) -> (r: String)
    ensures
        r@ == crate::clone_plan::kind_title(kind) + " '"@ + id@ + "' not found"@,
{
    let mut m = String::new();
    match kind {
        crate::deploy::ComponentKind::Source => append(&mut m, "Source"),
        crate::deploy::ComponentKind::Query => append(&mut m, "Query"),
        crate::deploy::ComponentKind::Reaction => append(&mut m, "Reaction"),
    }
    append(&mut m, " '");
    append(&mut m, id);
    append(&mut m, "' not found");
    m
}

/// `<id>.yaml`: the file a new template is written to.
pub fn new_template_file_name(template_id: &str) -> (r: String)
    ensures
        r@ == template_id@ + ".yaml"@,
{
    prefixed(template_id, ".yaml")
}

/// `Template '<id>' already exists`.
pub fn template_exists_message(template_id: &str) -> (r: String)
    ensures
        r@ == "Template '"@ + template_id@ + "' already exists"@,
{
    let mut m = String::new();
    append(&mut m, "Template '");
    append(&mut m, template_id);
    append(&mut m, "' already exists");
    m
}

/// A key of a written solution template.
#[derive(Debug, Clone, Copy, PartialEq, Eq, Structural)]
pub enum TemplateKey {
    Name,
    Description,
    Version,
    Author,
    License,
    Plugins,
    Sources,
    Queries,
    Reactions,
}

/// `key` when `present`, else nothing.
pub open spec fn key_if(present: bool, key: TemplateKey) -> Seq<TemplateKey> {
    if present {
        seq![key]
    } else {
        Seq::empty()
    }
}

/// The keys a written template has, in order: its name; its description,
/// version, author and license when the request gives them; its plugins,
/// sources, queries and reactions when there are any.
pub open spec fn template_keys(
    request: CreateSolutionTemplateRequest,
    plugins: nat,
    sources: nat,
    queries: nat,
    reactions: nat,
) -> Seq<TemplateKey> {
    seq![TemplateKey::Name] + key_if(request.description is Some, TemplateKey::Description) + key_if(
        request.version is Some,
        TemplateKey::Version,
    ) + key_if(request.author is Some, TemplateKey::Author) + key_if(
        request.license is Some,
        TemplateKey::License,
    ) + key_if(plugins > 0, TemplateKey::Plugins) + key_if(sources > 0, TemplateKey::Sources)
        + key_if(queries > 0, TemplateKey::Queries) + key_if(reactions > 0, TemplateKey::Reactions)
}

fn push_if(out: &mut Vec<TemplateKey>, present: bool, key: TemplateKey)
    ensures
        final(out)@ == old(out)@ + key_if(present, key),
{
    let ghost before = out@;
    if present {
        out.push(key);
    }
    assert(out@ =~= before + key_if(present, key));
}

/// The keys of the template written for `request` with these numbers of
/// required plugins and of selected sources, queries and reactions.
pub fn template_layout(
    request: &CreateSolutionTemplateRequest,
    plugins: usize,
    sources: usize,
    queries: usize,
    reactions: usize,
) -> (r: Vec<TemplateKey>)
    ensures
        r@ == template_keys(*request, plugins as nat, sources as nat, queries as nat, reactions as nat),
{
    let mut out: Vec<TemplateKey> = Vec::new();
    out.push(TemplateKey::Name);
    push_if(&mut out, request.description.is_some(), TemplateKey::Description);
    push_if(&mut out, request.version.is_some(), TemplateKey::Version);
    push_if(&mut out, request.author.is_some(), TemplateKey::Author);
    push_if(&mut out, request.license.is_some(), TemplateKey::License);
    push_if(&mut out, plugins > 0, TemplateKey::Plugins);
    push_if(&mut out, sources > 0, TemplateKey::Sources);
    push_if(&mut out, queries > 0, TemplateKey::Queries);
    push_if(&mut out, reactions > 0, TemplateKey::Reactions);
    assert(out@ =~= template_keys(
        *request,
        plugins as nat,
        sources as nat,
        queries as nat,
        reactions as nat,
    ));
    out
}

} // verus!
