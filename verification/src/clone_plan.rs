//! Cloning the configuration of one instance into another: which components
//! are copied, and how the outcome of each copy is reported.
use vstd::prelude::*;

use crate::deploy::{component_kind_name, kind_name, ComponentKind};
use crate::text::{append, chars_of};

verus! {

/// Request body for cloning an instance's configuration into another instance.
#[derive(Debug)]
pub struct CloneInstanceRequest {
    /// ID of the instance whose configuration will be copied
    pub source_instance_id: String,
}

/// Response body for a clone operation.
#[derive(Debug)]
pub struct CloneInstanceResponse {
    /// Whether the clone completed without errors
    pub success: bool,
    /// IDs of sources created in the target instance
    pub sources_created: Vec<String>,
    /// IDs of queries created in the target instance
    pub queries_created: Vec<String>,
    /// IDs of reactions created in the target instance
    pub reactions_created: Vec<String>,
    /// Any errors encountered during the clone
    pub errors: Vec<String>,
}

/// Components whose id starts with `__` belong to the server and are not cloned.
pub open spec fn is_internal(id: Seq<char>) -> bool {
    id.len() >= 2 && id[0] == '_' && id[1] == '_'
}

/// Whether a component belongs to the server (its id starts with `__`).
pub fn is_internal_component(id: &str) -> (r: bool)
    ensures
        r == is_internal(id@),
{
    let c = chars_of(id);
    c.len() >= 2 && c[0] == '_' && c[1] == '_'
}

/// The capitalised name of a component kind, as messages begin with it.
pub open spec fn kind_title(kind: ComponentKind) -> Seq<char> {
    match kind {
        ComponentKind::Source => "Source"@,
        ComponentKind::Query => "Query"@,
        ComponentKind::Reaction => "Reaction"@,
    }
}

fn component_kind_title(kind: ComponentKind) -> (r: &'static str)
    ensures
        r@ == kind_title(kind),
{
    match kind {
        ComponentKind::Source => "Source",
        ComponentKind::Query => "Query",
        ComponentKind::Reaction => "Reaction",
    }
}

/// `Failed to <step> <kind> '<id>': <detail>`.
pub open spec fn step_failure(step: Seq<char>, kind: ComponentKind, id: Seq<char>, detail: Seq<
    char,
>) -> Seq<char> {
    "Failed to "@ + step + " "@ + kind_name(kind) + " '"@ + id + "': "@ + detail
}

/// `<Kind> '<id>' was added but creation failed: <detail>`.
pub open spec fn late_failure(kind: ComponentKind, id: Seq<char>, detail: Seq<char>) -> Seq<char> {
    kind_title(kind) + " '"@ + id + "' was added but creation failed: "@ + detail
}

pub open spec fn strings_view(v: Seq<String>) -> Seq<Seq<char>> {
    v.map_values(|s: String| s@)
}

/// The outcome of a clone so far.
pub struct CloneTally {
    pub sources_created: Vec<String>,
    pub queries_created: Vec<String>,
    pub reactions_created: Vec<String>,
    pub errors: Vec<String>,
}

impl CloneTally {
    /// The ids created of one kind.
    pub open spec fn created(&self, kind: ComponentKind) -> Seq<String> {
        match kind {
            ComponentKind::Source => self.sources_created@,
            ComponentKind::Query => self.queries_created@,
            ComponentKind::Reaction => self.reactions_created@,
        }
    }

    /// A clone that has done nothing yet.
    pub fn new() -> (t: Self)
        ensures
            t.sources_created@.len() == 0,
            t.queries_created@.len() == 0,
            t.reactions_created@.len() == 0,
            t.errors@.len() == 0,
    {
        CloneTally {
            sources_created: Vec::new(),
            queries_created: Vec::new(),
            reactions_created: Vec::new(),
            errors: Vec::new(),
        }
    }

    fn push_error(&mut self, message: String)
        ensures
            strings_view(final(self).errors@) == strings_view(old(self).errors@).push(message@),
            final(self).sources_created == old(self).sources_created,
            final(self).queries_created == old(self).queries_created,
            final(self).reactions_created == old(self).reactions_created,
    {
        let ghost before = self.errors@;
        self.errors.push(message);
        assert(strings_view(self.errors@) =~= strings_view(before).push(message@));
    }

    /// Records a component that could not be built (`step` is `create`) or
    /// not be added to the target (`step` is `add`); it is not created.
    pub fn record_failure(&mut self, step: &str, kind: ComponentKind, id: &str, detail: &str)
        ensures
            strings_view(final(self).errors@) == strings_view(old(self).errors@).push(
                step_failure(step@, kind, id@, detail@),
            ),
            forall|k: ComponentKind| #[trigger] final(self).created(k) == old(self).created(k),
    {
        let mut m = String::new();
        append(&mut m, "Failed to ");
        append(&mut m, step);
        append(&mut m, " ");
        append(&mut m, component_kind_name(kind));
        append(&mut m, " '");
        append(&mut m, id);
        append(&mut m, "': ");
        append(&mut m, detail);
        self.push_error(m);
    }

    /// Records a component added to the target.
    pub fn record_added(&mut self, kind: ComponentKind, id: String)
        ensures
            forall|k: ComponentKind|
                #[trigger] final(self).created(k) == if k == kind {
                    old(self).created(k).push(id)
                } else {
                    old(self).created(k)
                },
            final(self).errors == old(self).errors,
    {
        match kind {
            ComponentKind::Source => self.sources_created.push(id),
            ComponentKind::Query => self.queries_created.push(id),
            ComponentKind::Reaction => self.reactions_created.push(id),
        }
    }

    /// Records a component that was added but whose construction then failed;
    /// it stays among the created ones.
    pub fn record_late_failure(&mut self, kind: ComponentKind, id: &str, detail: &str)
        ensures
            strings_view(final(self).errors@) == strings_view(old(self).errors@).push(
                late_failure(kind, id@, detail@),
            ),
            forall|k: ComponentKind| #[trigger] final(self).created(k) == old(self).created(k),
    {
        let mut m = String::new();
        append(&mut m, component_kind_title(kind));
        append(&mut m, " '");
        append(&mut m, id);
        append(&mut m, "' was added but creation failed: ");
        append(&mut m, detail);
        self.push_error(m);
    }

    /// The response of the clone: it succeeded exactly when nothing failed.
    pub fn finish(self) -> (r: CloneInstanceResponse)
        ensures
            r.success == (self.errors@.len() == 0),
            r.sources_created == self.sources_created,
            r.queries_created == self.queries_created,
            r.reactions_created == self.reactions_created,
            r.errors == self.errors,
    {
        let success = self.errors.len() == 0;
        CloneInstanceResponse {
            success,
            sources_created: self.sources_created,
            queries_created: self.queries_created,
            reactions_created: self.reactions_created,
            errors: self.errors,
        }
    }
}

/// The positions of the components of `ids` that are copied (those that do
/// not belong to the server), tagged with `kind`, in order.
pub open spec fn copied(kind: ComponentKind, ids: Seq<String>) -> Seq<(ComponentKind, int)>
    decreases ids.len(),
{
    if ids.len() == 0 {
        Seq::empty()
    } else {
        let rest = copied(kind, ids.drop_last());
        if is_internal(ids.last()@) {
            rest
        } else {
            rest.push((kind, ids.len() - 1))
        }
    }
}

pub open spec fn order_view(v: Seq<(ComponentKind, usize)>) -> Seq<(ComponentKind, int)> {
    v.map_values(|p: (ComponentKind, usize)| (p.0, p.1 as int))
}

/// Appends the copied components of `ids` to `out`.
fn append_copied(out: &mut Vec<(ComponentKind, usize)>, kind: ComponentKind, ids: &Vec<String>)
    ensures
        order_view(final(out)@) == order_view(old(out)@) + copied(kind, ids@),
{
    let ghost start = order_view(out@);
    let mut i: usize = 0;
    while i < ids.len()
        invariant
            i <= ids@.len(),
            order_view(out@) == start + copied(kind, ids@.subrange(0, i as int)),
        decreases ids@.len() - i,
    {
        let ghost before = out@;
        let ghost pre = ids@.subrange(0, i + 1);
        assert(pre.drop_last() =~= ids@.subrange(0, i as int));
        assert(pre.last() == ids@[i as int]);
        if !is_internal_component(ids[i].as_str()) {
            out.push((kind, i));
            assert(order_view(out@) =~= order_view(before).push((kind, i as int)));
        }
        i = i + 1;
    }
    assert(ids@.subrange(0, ids@.len() as int) =~= ids@);
}

/// What a clone copies, in order: the sources, then the queries, then the
/// reactions, each in the snapshot's order, leaving out those that belong to
/// the server; each as its kind and its position in the snapshot's list.
pub fn clone_order(sources: &Vec<String>, queries: &Vec<String>, reactions: &Vec<String>) -> (r: Vec<
    (ComponentKind, usize),
>)
    ensures
        order_view(r@) == copied(ComponentKind::Source, sources@) + copied(
            ComponentKind::Query,
            queries@,
        ) + copied(ComponentKind::Reaction, reactions@),
{
    let mut out: Vec<(ComponentKind, usize)> = Vec::new();
    assert(order_view(out@) =~= Seq::<(ComponentKind, int)>::empty());
    append_copied(&mut out, ComponentKind::Source, sources);
    append_copied(&mut out, ComponentKind::Query, queries);
    append_copied(&mut out, ComponentKind::Reaction, reactions);
    assert(Seq::<(ComponentKind, int)>::empty() + copied(ComponentKind::Source, sources@) =~= copied(
        ComponentKind::Source,
        sources@,
    ));
    out
}

/// A component is copied exactly when it does not belong to the server.
pub proof fn lemma_copied(kind: ComponentKind, ids: Seq<String>, i: int)
    requires
        0 <= i < ids.len(),
    ensures
        copied(kind, ids).contains((kind, i)) <==> !is_internal(ids[i]@),
    decreases ids.len(),
{
    let rest = copied(kind, ids.drop_last());
    lemma_copied_bounds(kind, ids.drop_last());
    if i < ids.len() - 1 {
        lemma_copied(kind, ids.drop_last(), i);
        if !is_internal(ids.last()@) {
            if rest.contains((kind, i)) {
                let j = choose|j: int| 0 <= j < rest.len() && rest[j] == (kind, i);
                assert(rest.push((kind, ids.len() - 1))[j] == (kind, i));
            }
            if copied(kind, ids).contains((kind, i)) {
                let j = choose|j: int| 0 <= j < copied(kind, ids).len() && copied(kind, ids)[j] == (kind, i);
                if j < rest.len() {
                    assert(rest[j] == (kind, i));
                }
            }
        }
    } else {
        if !is_internal(ids.last()@) {
            assert(copied(kind, ids)[rest.len() as int] == (kind, i));
        } else if rest.contains((kind, i)) {
            let j = choose|j: int| 0 <= j < rest.len() && rest[j] == (kind, i);
            assert(rest[j].1 < ids.len() - 1);
        }
    }
}

proof fn lemma_copied_bounds(kind: ComponentKind, ids: Seq<String>)
    ensures
        forall|j: int| 0 <= j < copied(kind, ids).len() ==> 0 <= #[trigger] copied(kind, ids)[j].1 < ids.len(),
    decreases ids.len(),
{
    if ids.len() > 0 {
        let rest = copied(kind, ids.drop_last());
        lemma_copied_bounds(kind, ids.drop_last());
        assert forall|j: int| 0 <= j < copied(kind, ids).len() implies 0 <= #[trigger] copied(
            kind,
            ids,
        )[j].1 < ids.len() by {
            if j < rest.len() {
                assert(copied(kind, ids)[j] == rest[j]);
            }
        }
    }
}

} // verus!
