//! The variables that a solution template declares: every `${NAME}` and
//! `${NAME:-default}` of its YAML, with the default of its first occurrence,
//! the first comment found beside it and the components that use it.
use vstd::prelude::*;

use crate::order::{
    chars_lt, lemma_seq_lt_irreflexive, lemma_seq_lt_total,
    lemma_seq_lt_transitive, seq_lt,
};
use crate::solution::SolutionVariable;
use crate::text::{chars_equal, string_from_chars, trim};
use crate::variables::{lemma_var_ref_at_bounds, scan_var_ref, var_ref_at, var_refs, var_refs_from, VarRefSpec};
use crate::yaml_lines::{
    component_id, component_id_chars, copy_range, line_comment, line_comment_chars, line_end,
    line_text, lemma_line_end_bounds, next_line, starts_with, starts_with_at,
};

verus! {

/// What the template says of one variable.
pub struct VarInfo {
    pub default: Option<Seq<char>>,
    pub description: Option<Seq<char>>,
    pub used_by: Seq<Seq<char>>,
}

/// Where the scan of a template stands: inside a `sources:`, `queries:` or
/// `reactions:` section or not, and the id of the component being read.
pub struct ScanState {
    pub in_section: bool,
    pub component: Option<Seq<char>>,
}

pub open spec fn sources_key() -> Seq<char> {
    seq!['s', 'o', 'u', 'r', 'c', 'e', 's', ':']
}

pub open spec fn queries_key() -> Seq<char> {
    seq!['q', 'u', 'e', 'r', 'i', 'e', 's', ':']
}

pub open spec fn reactions_key() -> Seq<char> {
    seq!['r', 'e', 'a', 'c', 't', 'i', 'o', 'n', 's', ':']
}

/// Whether a trimmed line opens a component section.
pub open spec fn is_section_header(t: Seq<char>) -> bool {
    starts_with(t, sources_key()) || starts_with(t, queries_key()) || starts_with(t, reactions_key())
}

/// The state after reading `line`: a section header opens a section and
/// forgets the component; inside a section an `id:` line names the
/// component; any other line changes nothing.
pub open spec fn next_state(st: ScanState, line: Seq<char>) -> ScanState {
    let t = trim(line);
    if is_section_header(t) {
        ScanState { in_section: true, component: None }
    } else if st.in_section {
        match component_id(t) {
            Some(id) => ScanState { in_section: true, component: Some(id) },
            None => st,
        }
    } else {
        st
    }
}

/// The table after one more occurrence of `name`: a new name takes the
/// occurrence's default and description; a known name keeps its default and
/// takes the description only when it has none; the current component joins
/// the name's users once.
pub open spec fn absorb(
    m: Map<Seq<char>, VarInfo>,
    name: Seq<char>,
    default: Option<Seq<char>>,
    desc: Option<Seq<char>>,
    comp: Option<Seq<char>>,
) -> Map<Seq<char>, VarInfo> {
    let e0 = if m.contains_key(name) {
        m[name]
    } else {
        VarInfo { default, description: desc, used_by: seq![] }
    };
    let e1 = if e0.description is None {
        VarInfo { default: e0.default, description: desc, used_by: e0.used_by }
    } else {
        e0
    };
    let e2 = match comp {
        Some(c) => if e1.used_by.contains(c) {
            e1
        } else {
            VarInfo { default: e1.default, description: e1.description, used_by: e1.used_by.push(c) }
        },
        None => e1,
    };
    m.insert(name, e2)
}

/// The table after the occurrences `refs` of one line, in order.
pub open spec fn absorb_refs(
    m: Map<Seq<char>, VarInfo>,
    refs: Seq<VarRefSpec>,
    desc: Option<Seq<char>>,
    comp: Option<Seq<char>>,
) -> Map<Seq<char>, VarInfo>
    decreases refs.len(),
{
    if refs.len() == 0 {
        m
    } else {
        absorb_refs(absorb(m, refs[0].name, refs[0].default, desc, comp), refs.drop_first(), desc, comp)
    }
}

/// The table after the lines of `s` from position `p` on.
pub open spec fn table_from(s: Seq<char>, p: int, st: ScanState, m: Map<Seq<char>, VarInfo>) -> Map<
    Seq<char>,
    VarInfo,
>
    decreases s.len() + 1 - p,
{
    if p < 0 || p >= s.len() {
        m
    } else {
        proof {
            lemma_line_end_bounds(s, p);
        }
        let line = line_text(s, p);
        let st2 = next_state(st, line);
        table_from(
            s,
            line_end(s, p) + 1,
            st2,
            absorb_refs(m, var_refs(line), line_comment(line), st2.component),
        )
    }
}

/// The variables of a template, by name.
pub open spec fn variable_table(yaml: Seq<char>) -> Map<Seq<char>, VarInfo> {
    table_from(yaml, 0, ScanState { in_section: false, component: None }, Map::empty())
}

/// The characters of each string.
pub open spec fn strings_view(v: Seq<String>) -> Seq<Seq<char>> {
    v.map_values(|c: String| c@)
}

/// The characters of each character vector.
pub open spec fn chars_list_view(v: Seq<Vec<char>>) -> Seq<Seq<char>> {
    v.map_values(|c: Vec<char>| c@)
}

pub open spec fn opt_view(o: Option<String>) -> Option<Seq<char>> {
    match o {
        Some(s) => Some(s@),
        None => None,
    }
}

/// What a listed variable says, as a table entry.
pub open spec fn variable_info(v: SolutionVariable) -> VarInfo {
    VarInfo {
        default: opt_view(v.default),
        description: opt_view(v.description),
        used_by: strings_view(v.used_by@),
    }
}

/// `vars` lists the table `t`: by strictly increasing name, each entry as the
/// table has it, required exactly when it has no default, and every name of
/// the table once.
pub open spec fn lists_table(vars: Seq<SolutionVariable>, t: Map<Seq<char>, VarInfo>) -> bool {
    &&& forall|i: int, j: int|
        0 <= i < j < vars.len() ==> seq_lt(#[trigger] vars[i].name@, #[trigger] vars[j].name@)
    &&& forall|i: int|
        0 <= i < vars.len() ==> {
            &&& t.contains_key(#[trigger] vars[i].name@)
            &&& t[vars[i].name@] == variable_info(vars[i])
            &&& vars[i].required == (vars[i].default is None)
        }
    &&& forall|k: Seq<char>|
        #[trigger] t.contains_key(k) ==> exists|i: int| 0 <= i < vars.len() && vars[i].name@ == k
}

// ----------------------------------------------------------------------------
// The table while it is built
// ----------------------------------------------------------------------------

struct VarEntry {
    name: Vec<char>,
    default: Option<Vec<char>>,
    description: Option<Vec<char>>,
    used_by: Vec<Vec<char>>,
}

spec fn chars_opt_view(o: Option<Vec<char>>) -> Option<Seq<char>> {
    match o {
        Some(v) => Some(v@),
        None => None,
    }
}

impl VarEntry {
    spec fn info(self) -> VarInfo {
        VarInfo {
            default: chars_opt_view(self.default),
            description: chars_opt_view(self.description),
            used_by: chars_list_view(self.used_by@),
        }
    }
}

/// `v` holds the entries of `m`, by strictly increasing name.
spec fn represents(v: Seq<VarEntry>, m: Map<Seq<char>, VarInfo>) -> bool {
    &&& forall|i: int, j: int|
        0 <= i < j < v.len() ==> seq_lt(#[trigger] v[i].name@, #[trigger] v[j].name@)
    &&& forall|i: int|
        0 <= i < v.len() ==> m.contains_key(#[trigger] v[i].name@) && m[v[i].name@] == v[i].info()
    &&& forall|k: Seq<char>|
        #[trigger] m.contains_key(k) ==> exists|i: int| 0 <= i < v.len() && v[i].name@ == k
}

fn copy_opt(o: &Option<Vec<char>>) -> (r: Option<Vec<char>>)
    ensures
        chars_opt_view(r) == chars_opt_view(*o),
{
    match o {
        Some(v) => Some(copy_range(v, 0, v.len())),
        None => None,
    }
}

/// Where `name` stands among the sorted entries: the first entry not before
/// it, and whether that entry is `name` itself.
fn find_slot(v: &Vec<VarEntry>, name: &Vec<char>) -> (r: (usize, bool))
    requires
        forall|i: int, j: int|
            0 <= i < j < v@.len() ==> seq_lt(#[trigger] v@[i].name@, #[trigger] v@[j].name@),
    ensures
        r.0 <= v@.len(),
        forall|j: int| 0 <= j < r.0 ==> seq_lt(#[trigger] v@[j].name@, name@),
        r.1 <==> (r.0 < v@.len() && v@[r.0 as int].name@ == name@),
        !r.1 ==> forall|j: int| r.0 <= j < v@.len() ==> seq_lt(name@, #[trigger] v@[j].name@),
{
    let mut i: usize = 0;
    while i < v.len() && chars_lt(&v[i].name, name)
        invariant
            i <= v@.len(),
            forall|j: int| 0 <= j < i ==> seq_lt(#[trigger] v@[j].name@, name@),
        decreases v@.len() - i,
    {
        i = i + 1;
    }
    if i < v.len() && chars_equal(&v[i].name, name) {
        return (i, true);
    }
    if i < v.len() {
        proof {
            lemma_seq_lt_total(v@[i as int].name@, name@);
            assert forall|j: int| i <= j < v@.len() implies seq_lt(name@, #[trigger] v@[j].name@) by {
                if j > i {
                    lemma_seq_lt_transitive(name@, v@[i as int].name@, v@[j].name@);
                }
            }
        }
    }
    (i, false)
}

/// Whether `c` is among `users`.
fn contains_chars(users: &Vec<Vec<char>>, c: &Vec<char>) -> (r: bool)
    ensures
        r == chars_list_view(users@).contains(c@),
{
    let ghost view = chars_list_view(users@);
    let mut i: usize = 0;
    while i < users.len()
        invariant
            i <= users@.len(),
            view == chars_list_view(users@),
            forall|j: int| 0 <= j < i ==> view[j] != c@,
        decreases users@.len() - i,
    {
        if chars_equal(&users[i], c) {
            assert(view[i as int] == c@);
            return true;
        }
        i = i + 1;
    }
    false
}

/// Records one occurrence of `name` in the sorted entries.
fn absorb_entry(
    v: &mut Vec<VarEntry>,
    Ghost(m): Ghost<Map<Seq<char>, VarInfo>>,
    name: &Vec<char>,
    default: &Option<Vec<char>>,
    desc: &Option<Vec<char>>,
    comp: &Option<Vec<char>>,
)
    requires
        represents(old(v)@, m),
    ensures
        represents(
            final(v)@,
            absorb(m, name@, chars_opt_view(*default), chars_opt_view(*desc), chars_opt_view(*comp)),
        ),
{
    let ghost target = absorb(
        m,
        name@,
        chars_opt_view(*default),
        chars_opt_view(*desc),
        chars_opt_view(*comp),
    );
    let ghost old_v = v@;
    let (i, found) = find_slot(v, name);
    let mut e = if found {
        v.remove(i)
    } else {
        VarEntry {
            name: copy_range(name, 0, name.len()),
            default: copy_opt(default),
            description: copy_opt(desc),
            used_by: Vec::new(),
        }
    };
    proof {
        assert(name@.subrange(0, name@.len() as int) =~= name@);
        if found {
            assert(e.info() == m[name@]);
        } else {
            assert(e.info().used_by =~= Seq::<Seq<char>>::empty());
            assert(!m.contains_key(name@)) by {
                if m.contains_key(name@) {
                    let k = choose|k: int| 0 <= k < old_v.len() && old_v[k].name@ == name@;
                    lemma_seq_lt_irreflexive(name@);
                }
            }
        }
    }
    if e.description.is_none() {
        e.description = copy_opt(desc);
    }
    match comp {
        Some(c) => {
            if !contains_chars(&e.used_by, c) {
                let ghost before = e.used_by@;
                e.used_by.push(copy_range(c, 0, c.len()));
                proof {
                    assert(c@.subrange(0, c@.len() as int) =~= c@);
                    assert(chars_list_view(e.used_by@) =~= chars_list_view(before).push(c@));
                }
            }
        },
        None => {},
    }
    assert(e.info() == target[name@]);
    assert(e.name@ == name@);
    v.insert(i, e);
    proof {
        let nv = v@;
        if found {
            assert forall|a: int, b: int| 0 <= a < b < nv.len() implies seq_lt(
                #[trigger] nv[a].name@,
                #[trigger] nv[b].name@,
            ) by {
                assert(nv[a].name@ == old_v[a].name@);
                assert(nv[b].name@ == old_v[b].name@);
            }
            assert forall|a: int| 0 <= a < nv.len() implies target.contains_key(
                #[trigger] nv[a].name@,
            ) && target[nv[a].name@] == nv[a].info() by {
                if a != i {
                    assert(nv[a] == old_v[a]);
                    assert(old_v[a].name@ != name@) by {
                        lemma_seq_lt_irreflexive(name@);
                    }
                }
            }
            assert forall|k: Seq<char>| #[trigger] target.contains_key(k) implies exists|a: int|
                0 <= a < nv.len() && nv[a].name@ == k by {
                if k == name@ {
                    assert(nv[i as int].name@ == k);
                } else {
                    let a = choose|a: int| 0 <= a < old_v.len() && old_v[a].name@ == k;
                    assert(nv[a].name@ == k);
                }
            }
        } else {
            assert forall|a: int, b: int| 0 <= a < b < nv.len() implies seq_lt(
                #[trigger] nv[a].name@,
                #[trigger] nv[b].name@,
            ) by {
                if b < i {
                    assert(nv[a] == old_v[a] && nv[b] == old_v[b]);
                } else if b == i {
                    assert(nv[a] == old_v[a]);
                } else if a < i {
                    assert(nv[a] == old_v[a] && nv[b] == old_v[b - 1]);
                    lemma_seq_lt_transitive(old_v[a].name@, name@, old_v[b - 1].name@);
                } else if a == i {
                    assert(nv[b] == old_v[b - 1]);
                } else {
                    assert(nv[a] == old_v[a - 1] && nv[b] == old_v[b - 1]);
                }
            }
            assert forall|a: int| 0 <= a < nv.len() implies target.contains_key(
                #[trigger] nv[a].name@,
            ) && target[nv[a].name@] == nv[a].info() by {
                if a < i {
                    assert(nv[a] == old_v[a]);
                    assert(old_v[a].name@ != name@) by {
                        lemma_seq_lt_irreflexive(name@);
                    }
                } else if a > i {
                    assert(nv[a] == old_v[a - 1]);
                    assert(old_v[a - 1].name@ != name@) by {
                        lemma_seq_lt_irreflexive(name@);
                    }
                }
            }
            assert forall|k: Seq<char>| #[trigger] target.contains_key(k) implies exists|a: int|
                0 <= a < nv.len() && nv[a].name@ == k by {
                if k == name@ {
                    assert(nv[i as int].name@ == k);
                } else {
                    let a = choose|a: int| 0 <= a < old_v.len() && old_v[a].name@ == k;
                    if a < i {
                        assert(nv[a].name@ == k);
                    } else {
                        assert(nv[a + 1].name@ == k);
                    }
                }
            }
        }
    }
}

/// Records the occurrences of the variables of one line.
fn absorb_line(
    v: &mut Vec<VarEntry>,
    Ghost(m): Ghost<Map<Seq<char>, VarInfo>>,
    line: &Vec<char>,
    desc: &Option<Vec<char>>,
    comp: &Option<Vec<char>>,
)
    requires
        represents(old(v)@, m),
    ensures
        represents(
            final(v)@,
            absorb_refs(m, var_refs(line@), chars_opt_view(*desc), chars_opt_view(*comp)),
        ),
{
    let ghost d = chars_opt_view(*desc);
    let ghost c = chars_opt_view(*comp);
    let ghost target = absorb_refs(m, var_refs(line@), d, c);
    let ghost mut cur = m;
    let mut p: usize = 0;
    while p < line.len()
        invariant
            p <= line@.len(),
            d == chars_opt_view(*desc),
            c == chars_opt_view(*comp),
            represents(v@, cur),
            absorb_refs(cur, var_refs_from(line@, p as int), d, c) == target,
        decreases line@.len() - p,
    {
        match scan_var_ref(line, p) {
            Some(span) => {
                let ghost r = var_ref_at(line@, p as int)->0;
                proof {
                    lemma_var_ref_at_bounds(line@, p as int);
                }
                let name = copy_range(line, span.name_start, span.name_end);
                let default = match span.default {
                    Some((a, b)) => Some(copy_range(line, a, b)),
                    None => None,
                };
                assert(chars_opt_view(default) == r.default);
                absorb_entry(v, Ghost(cur), &name, &default, desc, comp);
                proof {
                    let rest = var_refs_from(line@, r.end);
                    assert((seq![r] + rest).drop_first() =~= rest);
                    assert((seq![r] + rest)[0] == r);
                    cur = absorb(cur, r.name, r.default, d, c);
                }
                p = span.end;
            },
            None => {
                p = p + 1;
            },
        }
    }
}

/// The state after one line, computed.
fn next_scan_state(in_section: bool, comp: Option<Vec<char>>, line: &Vec<char>) -> (r: (
    bool,
    Option<Vec<char>>,
))
    ensures
        next_state(ScanState { in_section, component: chars_opt_view(comp) }, line@) == (ScanState {
            in_section: r.0,
            component: chars_opt_view(r.1),
        }),
{
    let t = crate::text::trim_chars(line);
    let sources: Vec<char> = vec!['s', 'o', 'u', 'r', 'c', 'e', 's', ':'];
    let queries: Vec<char> = vec!['q', 'u', 'e', 'r', 'i', 'e', 's', ':'];
    let reactions: Vec<char> = vec!['r', 'e', 'a', 'c', 't', 'i', 'o', 'n', 's', ':'];
    assert(sources@ =~= sources_key());
    assert(queries@ =~= queries_key());
    assert(reactions@ =~= reactions_key());
    assert(t@.take(8) =~= t@.subrange(0, 8));
    assert(t@.take(10) =~= t@.subrange(0, 10));
    let header = starts_with_at(&t, 0, &sources) || starts_with_at(&t, 0, &queries)
        || starts_with_at(&t, 0, &reactions);
    assert(header == is_section_header(t@));
    if header {
        (true, None)
    } else if in_section {
        match component_id_chars(&t) {
            Some(id) => (true, Some(id)),
            None => (in_section, comp),
        }
    } else {
        (in_section, comp)
    }
}

/// A listed variable made of a table entry.
fn to_variable(e: &VarEntry) -> (sv: SolutionVariable)
    ensures
        sv.name@ == e.name@,
        variable_info(sv) == e.info(),
        sv.required == (sv.default is None),
{
    let default = match &e.default {
        Some(d) => Some(string_from_chars(d)),
        None => None,
    };
    let description = match &e.description {
        Some(d) => Some(string_from_chars(d)),
        None => None,
    };
    let mut used_by: Vec<String> = Vec::new();
    let mut i: usize = 0;
    while i < e.used_by.len()
        invariant
            i <= e.used_by@.len(),
            used_by@.len() == i,
            strings_view(used_by@) =~= chars_list_view(e.used_by@.subrange(0, i as int)),
        decreases e.used_by@.len() - i,
    {
        let u = string_from_chars(&e.used_by[i]);
        let ghost before = used_by@;
        used_by.push(u);
        proof {
            assert(used_by@ == before.push(u));
            assert forall|j: int| 0 <= j <= i implies #[trigger] strings_view(used_by@)[j]
                == chars_list_view(e.used_by@.subrange(0, i + 1))[j] by {
                if j < i {
                    assert(used_by@[j] == before[j]);
                    assert(strings_view(before)[j] == chars_list_view(
                        e.used_by@.subrange(0, i as int),
                    )[j]);
                }
            }
        }
        i = i + 1;
        assert(strings_view(used_by@) =~= chars_list_view(e.used_by@.subrange(0, i as int)));
    }
    assert(e.used_by@.subrange(0, e.used_by@.len() as int) =~= e.used_by@);
    let required = default.is_none();
    SolutionVariable { name: string_from_chars(&e.name), default, required, description, used_by }
}

/// The listing of the sorted entries.
fn to_variables(v: &Vec<VarEntry>, Ghost(m): Ghost<Map<Seq<char>, VarInfo>>) -> (r: Vec<
    SolutionVariable,
>)
    requires
        represents(v@, m),
    ensures
        lists_table(r@, m),
{
    let mut out: Vec<SolutionVariable> = Vec::new();
    let mut i: usize = 0;
    while i < v.len()
        invariant
            i <= v@.len(),
            out@.len() == i,
            represents(v@, m),
            forall|j: int|
                0 <= j < i ==> {
                    &&& (#[trigger] out@[j]).name@ == v@[j].name@
                    &&& variable_info(out@[j]) == v@[j].info()
                    &&& out@[j].required == (out@[j].default is None)
                },
        decreases v@.len() - i,
    {
        let sv = to_variable(&v[i]);
        out.push(sv);
        i = i + 1;
    }
    proof {
        assert forall|i: int, j: int| 0 <= i < j < out@.len() implies seq_lt(
            #[trigger] out@[i].name@,
            #[trigger] out@[j].name@,
        ) by {
            assert(out@[i].name@ == v@[i].name@);
            assert(out@[j].name@ == v@[j].name@);
        }
        assert forall|k: Seq<char>| #[trigger] m.contains_key(k) implies exists|i: int|
            0 <= i < out@.len() && out@[i].name@ == k by {
            let i = choose|i: int| 0 <= i < v@.len() && v@[i].name@ == k;
            assert(out@[i].name@ == k);
        }
        assert forall|i: int| 0 <= i < out@.len() implies {
            &&& m.contains_key(#[trigger] out@[i].name@)
            &&& m[out@[i].name@] == variable_info(out@[i])
            &&& out@[i].required == (out@[i].default is None)
        } by {
            assert(out@[i].name@ == v@[i].name@);
        }
    }
    out
}

/// Extracts the variables of a solution template: every `${NAME}` and
/// `${NAME:-default}`, once per name and sorted by name, with the default of
/// its first occurrence (required when there is none), the first comment
/// found on a line where it occurs, and the ids of the components (within
/// `sources:`, `queries:` and `reactions:`) whose lines use it.
pub fn extract_variables(yaml: &str) -> (r: Vec<SolutionVariable>)
    ensures
        lists_table(r@, variable_table(yaml@)),
        forall|i: int|
            0 <= i < r@.len() ==> first_default(occurrences(yaml@), (#[trigger] r@[i]).name@) == Some(
                opt_view(r@[i].default),
            ),
        forall|i: int| 0 <= i < r@.len() ==> strings_view((#[trigger] r@[i]).used_by@).no_duplicates(),
        forall|n: Seq<char>|
            #[trigger] first_default(occurrences(yaml@), n) is Some ==> exists|i: int|
                0 <= i < r@.len() && r@[i].name@ == n,
{
    let s = crate::text::chars_of(yaml);
    let mut v: Vec<VarEntry> = Vec::new();
    let ghost mut m: Map<Seq<char>, VarInfo> = Map::empty();
    let mut in_section = false;
    let mut comp: Option<Vec<char>> = None;
    let mut p: usize = 0;
    while p < s.len()
        invariant
            p <= s@.len(),
            s@ == yaml@,
            represents(v@, m),
            table_from(s@, p as int, ScanState { in_section, component: chars_opt_view(comp) }, m)
                == variable_table(yaml@),
        decreases s@.len() - p,
    {
        let (line, e) = next_line(&s, p);
        let ghost st = ScanState { in_section, component: chars_opt_view(comp) };
        let (ns, nc) = next_scan_state(in_section, comp, &line);
        let desc = line_comment_chars(&line);
        assert(chars_opt_view(desc) == line_comment(line@));
        absorb_line(&mut v, Ghost(m), &line, &desc, &nc);
        let ghost m_old = m;
        proof {
            lemma_line_end_bounds(s@, p as int);
            m = absorb_refs(m, var_refs(line@), line_comment(line@), chars_opt_view(nc));
            let st2 = next_state(st, line@);
            assert(st2 == ScanState { in_section: ns, component: chars_opt_view(nc) });
            assert(table_from(s@, p as int, st, m_old) == table_from(s@, e + 1, st2, m));
        }
        in_section = ns;
        comp = nc;
        if e >= s.len() {
            p = s.len();
        } else {
            p = e + 1;
        }
    }
    let r = to_variables(&v, Ghost(m));
    proof {
        lemma_variable_table(yaml@);
        let t = variable_table(yaml@);
        assert forall|i: int| 0 <= i < r@.len() implies first_default(occurrences(yaml@), (#[trigger] r@[i]).name@)
            == Some(opt_view(r@[i].default)) by {
            assert(t.contains_key(r@[i].name@));
            assert(t[r@[i].name@] == variable_info(r@[i]));
        }
        assert forall|i: int| 0 <= i < r@.len() implies strings_view((#[trigger] r@[i]).used_by@).no_duplicates() by {
            assert(t.contains_key(r@[i].name@));
            assert(t[r@[i].name@] == variable_info(r@[i]));
        }
        assert forall|n: Seq<char>| #[trigger] first_default(occurrences(yaml@), n) is Some implies exists|i: int|
            0 <= i < r@.len() && r@[i].name@ == n by {
            assert(t.contains_key(n));
        }
    }
    r
}

// ----------------------------------------------------------------------------
// Laws
// ----------------------------------------------------------------------------

proof fn lemma_absorb_refs_keeps_default(
    m: Map<Seq<char>, VarInfo>,
    refs: Seq<VarRefSpec>,
    desc: Option<Seq<char>>,
    comp: Option<Seq<char>>,
    n: Seq<char>,
)
    requires
        m.contains_key(n),
    ensures
        absorb_refs(m, refs, desc, comp).contains_key(n),
        absorb_refs(m, refs, desc, comp)[n].default == m[n].default,
    decreases refs.len(),
{
    if refs.len() > 0 {
        let m2 = absorb(m, refs[0].name, refs[0].default, desc, comp);
        assert(m2.contains_key(n) && m2[n].default == m[n].default);
        lemma_absorb_refs_keeps_default(m2, refs.drop_first(), desc, comp, n);
    }
}

proof fn lemma_table_keeps_default(s: Seq<char>, p: int, st: ScanState, m: Map<Seq<char>, VarInfo>, n: Seq<char>)
    requires
        m.contains_key(n),
    ensures
        table_from(s, p, st, m).contains_key(n),
        table_from(s, p, st, m)[n].default == m[n].default,
    decreases s.len() + 1 - p,
{
    if 0 <= p < s.len() {
        lemma_line_end_bounds(s, p);
        let line = line_text(s, p);
        let st2 = next_state(st, line);
        let m2 = absorb_refs(m, var_refs(line), line_comment(line), st2.component);
        lemma_absorb_refs_keeps_default(m, var_refs(line), line_comment(line), st2.component, n);
        lemma_table_keeps_default(s, line_end(s, p) + 1, st2, m2, n);
    }
}

/// The first occurrence of a variable fixes its default: once the scan has
/// met a name, the rest of the template never changes its default (nor
/// drops it).
pub proof fn lemma_first_default_wins(
    yaml: Seq<char>,
    p: int,
    st: ScanState,
    m: Map<Seq<char>, VarInfo>,
    name: Seq<char>,
)
    requires
        m.contains_key(name),
    ensures
        table_from(yaml, p, st, m).contains_key(name),
        table_from(yaml, p, st, m)[name].default == m[name].default,
{
    lemma_table_keeps_default(yaml, p, st, m, name);
}

/// A variable met for the first time takes the default of that occurrence.
pub proof fn lemma_new_variable_takes_occurrence_default(
    m: Map<Seq<char>, VarInfo>,
    name: Seq<char>,
    default: Option<Seq<char>>,
    desc: Option<Seq<char>>,
    comp: Option<Seq<char>>,
)
    requires
        !m.contains_key(name),
    ensures
        absorb(m, name, default, desc, comp)[name].default == default,
        absorb(m, name, default, desc, comp)[name].description == desc,
{
}

/// A component uses a variable at most once in its list of users, however
/// often its lines mention the variable.
pub proof fn lemma_users_stay_distinct(
    m: Map<Seq<char>, VarInfo>,
    name: Seq<char>,
    default: Option<Seq<char>>,
    desc: Option<Seq<char>>,
    comp: Option<Seq<char>>,
)
    requires
        m.contains_key(name) ==> m[name].used_by.no_duplicates(),
    ensures
        absorb(m, name, default, desc, comp)[name].used_by.no_duplicates(),
{
    let e0 = if m.contains_key(name) {
        m[name]
    } else {
        VarInfo { default, description: desc, used_by: seq![] }
    };
    assert(e0.used_by.no_duplicates());
    match comp {
        Some(c) => {
            if !e0.used_by.contains(c) {
                let u = e0.used_by.push(c);
                assert forall|i: int, j: int| 0 <= i < u.len() && 0 <= j < u.len() && i != j implies u[i] != u[j] by {
                    if i == u.len() - 1 {
                        assert(e0.used_by[j] == u[j]);
                    } else if j == u.len() - 1 {
                        assert(e0.used_by[i] == u[i]);
                    }
                }
            }
        },
        None => {},
    }
}

/// A listing of the variables names each variable once.
pub proof fn lemma_listed_names_distinct(vars: Seq<SolutionVariable>, t: Map<Seq<char>, VarInfo>)
    requires
        lists_table(vars, t),
    ensures
        forall|i: int, j: int| 0 <= i < vars.len() && 0 <= j < vars.len() && i != j ==> vars[i].name@ != vars[j].name@,
{
    assert forall|i: int, j: int| 0 <= i < vars.len() && 0 <= j < vars.len() && i != j implies vars[i].name@ != vars[j].name@ by {
        if i < j {
            assert(seq_lt(vars[i].name@, vars[j].name@));
            lemma_seq_lt_irreflexive(vars[i].name@);
        } else {
            assert(seq_lt(vars[j].name@, vars[i].name@));
            lemma_seq_lt_irreflexive(vars[j].name@);
        }
    }
}

/// The names of a list of references.
pub open spec fn ref_names(refs: Seq<VarRefSpec>) -> Set<Seq<char>>
    decreases refs.len(),
{
    if refs.len() == 0 {
        Set::empty()
    } else {
        ref_names(refs.drop_first()).insert(refs[0].name)
    }
}

/// The names referenced on the lines of `s` from position `p` on.
pub open spec fn referenced_names_from(s: Seq<char>, p: int) -> Set<Seq<char>>
    decreases s.len() + 1 - p,
{
    if p < 0 || p >= s.len() {
        Set::empty()
    } else {
        proof {
            lemma_line_end_bounds(s, p);
        }
        ref_names(var_refs(line_text(s, p))).union(referenced_names_from(s, line_end(s, p) + 1))
    }
}

proof fn lemma_absorb_refs_names(
    m: Map<Seq<char>, VarInfo>,
    refs: Seq<VarRefSpec>,
    desc: Option<Seq<char>>,
    comp: Option<Seq<char>>,
)
    ensures
        absorb_refs(m, refs, desc, comp).dom() == m.dom().union(ref_names(refs)),
    decreases refs.len(),
{
    if refs.len() == 0 {
        assert(m.dom().union(Set::empty()) =~= m.dom());
    } else {
        let m2 = absorb(m, refs[0].name, refs[0].default, desc, comp);
        lemma_absorb_refs_names(m2, refs.drop_first(), desc, comp);
        assert(m2.dom() =~= m.dom().insert(refs[0].name));
        assert(m.dom().insert(refs[0].name).union(ref_names(refs.drop_first())) =~= m.dom().union(
            ref_names(refs),
        ));
    }
}

proof fn lemma_table_names(s: Seq<char>, p: int, st: ScanState, m: Map<Seq<char>, VarInfo>)
    ensures
        table_from(s, p, st, m).dom() == m.dom().union(referenced_names_from(s, p)),
    decreases s.len() + 1 - p,
{
    if 0 <= p < s.len() {
        lemma_line_end_bounds(s, p);
        let line = line_text(s, p);
        let st2 = next_state(st, line);
        let m2 = absorb_refs(m, var_refs(line), line_comment(line), st2.component);
        lemma_absorb_refs_names(m, var_refs(line), line_comment(line), st2.component);
        lemma_table_names(s, line_end(s, p) + 1, st2, m2);
        assert(m.dom().union(ref_names(var_refs(line))).union(referenced_names_from(s, line_end(s, p) + 1))
            =~= m.dom().union(referenced_names_from(s, p)));
    } else {
        assert(m.dom().union(Set::empty()) =~= m.dom());
    }
}

/// The variables of a template are exactly the names that its `${...}`
/// references use: none is missed and none is made up.
pub proof fn lemma_table_names_are_references(yaml: Seq<char>)
    ensures
        variable_table(yaml).dom() == referenced_names_from(yaml, 0),
{
    let st = ScanState { in_section: false, component: None };
    lemma_table_names(yaml, 0, st, Map::empty());
    assert(Map::<Seq<char>, VarInfo>::empty().dom().union(referenced_names_from(yaml, 0)) =~= referenced_names_from(yaml, 0));
}

// ----------------------------------------------------------------------------
// Laws over the whole template
// ----------------------------------------------------------------------------

/// The variable references on the lines of `s` from position `p` on, in the
/// order in which the lines and the references on them come.
pub open spec fn occurrences_from(s: Seq<char>, p: int) -> Seq<VarRefSpec>
    decreases s.len() + 1 - p,
{
    if p < 0 || p >= s.len() {
        seq![]
    } else {
        proof {
            lemma_line_end_bounds(s, p);
        }
        var_refs(line_text(s, p)) + occurrences_from(s, line_end(s, p) + 1)
    }
}

/// The variable references of a template, in order.
pub open spec fn occurrences(yaml: Seq<char>) -> Seq<VarRefSpec> {
    occurrences_from(yaml, 0)
}

/// The default of the first occurrence of `name`, if it occurs.
pub open spec fn first_default(refs: Seq<VarRefSpec>, name: Seq<char>) -> Option<Option<Seq<char>>>
    decreases refs.len(),
{
    if refs.len() == 0 {
        None
    } else if refs[0].name == name {
        Some(refs[0].default)
    } else {
        first_default(refs.drop_first(), name)
    }
}

proof fn lemma_first_default_concat(a: Seq<VarRefSpec>, b: Seq<VarRefSpec>, name: Seq<char>)
    ensures
        first_default(a + b, name) == if first_default(a, name) is Some {
            first_default(a, name)
        } else {
            first_default(b, name)
        },
    decreases a.len(),
{
    if a.len() > 0 {
        assert((a + b).drop_first() =~= a.drop_first() + b);
        assert((a + b)[0] == a[0]);
        lemma_first_default_concat(a.drop_first(), b, name);
    } else {
        assert(a + b =~= b);
    }
}

proof fn lemma_absorb_refs_first_default(
    m: Map<Seq<char>, VarInfo>,
    refs: Seq<VarRefSpec>,
    desc: Option<Seq<char>>,
    comp: Option<Seq<char>>,
    name: Seq<char>,
)
    ensures
        absorb_refs(m, refs, desc, comp).contains_key(name) <==> (m.contains_key(name)
            || first_default(refs, name) is Some),
        absorb_refs(m, refs, desc, comp).contains_key(name) ==> absorb_refs(m, refs, desc, comp)[name].default
            == if m.contains_key(name) {
            m[name].default
        } else {
            first_default(refs, name)->0
        },
    decreases refs.len(),
{
    if refs.len() > 0 {
        let m2 = absorb(m, refs[0].name, refs[0].default, desc, comp);
        lemma_absorb_refs_first_default(m2, refs.drop_first(), desc, comp, name);
    }
}

proof fn lemma_table_first_default(
    s: Seq<char>,
    p: int,
    st: ScanState,
    m: Map<Seq<char>, VarInfo>,
    name: Seq<char>,
)
    ensures
        table_from(s, p, st, m).contains_key(name) <==> (m.contains_key(name) || first_default(
            occurrences_from(s, p),
            name,
        ) is Some),
        table_from(s, p, st, m).contains_key(name) ==> table_from(s, p, st, m)[name].default
            == if m.contains_key(name) {
            m[name].default
        } else {
            first_default(occurrences_from(s, p), name)->0
        },
    decreases s.len() + 1 - p,
{
    if 0 <= p < s.len() {
        lemma_line_end_bounds(s, p);
        let line = line_text(s, p);
        let st2 = next_state(st, line);
        let next = line_end(s, p) + 1;
        let m2 = absorb_refs(m, var_refs(line), line_comment(line), st2.component);
        lemma_absorb_refs_first_default(m, var_refs(line), line_comment(line), st2.component, name);
        lemma_table_first_default(s, next, st2, m2, name);
        lemma_first_default_concat(var_refs(line), occurrences_from(s, next), name);
    }
}

/// Every variable's users are listed without repeats.
pub open spec fn users_distinct(m: Map<Seq<char>, VarInfo>) -> bool {
    forall|k: Seq<char>| #[trigger] m.contains_key(k) ==> m[k].used_by.no_duplicates()
}

proof fn lemma_absorb_refs_users_distinct(
    m: Map<Seq<char>, VarInfo>,
    refs: Seq<VarRefSpec>,
    desc: Option<Seq<char>>,
    comp: Option<Seq<char>>,
)
    requires
        users_distinct(m),
    ensures
        users_distinct(absorb_refs(m, refs, desc, comp)),
    decreases refs.len(),
{
    if refs.len() > 0 {
        let m2 = absorb(m, refs[0].name, refs[0].default, desc, comp);
        lemma_users_stay_distinct(m, refs[0].name, refs[0].default, desc, comp);
        assert forall|k: Seq<char>| #[trigger] m2.contains_key(k) implies m2[k].used_by.no_duplicates() by {
            if k != refs[0].name {
                assert(m.contains_key(k));
            }
        }
        lemma_absorb_refs_users_distinct(m2, refs.drop_first(), desc, comp);
    }
}

proof fn lemma_table_users_distinct(s: Seq<char>, p: int, st: ScanState, m: Map<Seq<char>, VarInfo>)
    requires
        users_distinct(m),
    ensures
        users_distinct(table_from(s, p, st, m)),
    decreases s.len() + 1 - p,
{
    if 0 <= p < s.len() {
        lemma_line_end_bounds(s, p);
        let line = line_text(s, p);
        let st2 = next_state(st, line);
        let m2 = absorb_refs(m, var_refs(line), line_comment(line), st2.component);
        lemma_absorb_refs_users_distinct(m, var_refs(line), line_comment(line), st2.component);
        lemma_table_users_distinct(s, line_end(s, p) + 1, st2, m2);
    }
}

/// Over a whole template: a name is a variable exactly when some reference
/// uses it; its default is the one of its first reference (none for
/// `${NAME}`, the text after `:-` for `${NAME:-default}`); and its users are
/// listed without repeats.
pub proof fn lemma_variable_table(yaml: Seq<char>)
    ensures
        forall|n: Seq<char>|
            #![trigger variable_table(yaml).contains_key(n)]
            #![trigger first_default(occurrences(yaml), n)]
            variable_table(yaml).contains_key(n) <==> first_default(occurrences(yaml), n) is Some,
        forall|n: Seq<char>|
            #[trigger] variable_table(yaml).contains_key(n) ==> variable_table(yaml)[n].default
                == first_default(occurrences(yaml), n)->0,
        users_distinct(variable_table(yaml)),
{
    let st = ScanState { in_section: false, component: None };
    let m = Map::<Seq<char>, VarInfo>::empty();
    assert forall|n: Seq<char>|
        #![trigger variable_table(yaml).contains_key(n)]
        #![trigger first_default(occurrences(yaml), n)]
        variable_table(yaml).contains_key(n) <==> first_default(occurrences(yaml), n) is Some by {
        lemma_table_first_default(yaml, 0, st, m, n);
    }
    assert forall|n: Seq<char>| #[trigger] variable_table(yaml).contains_key(n) implies variable_table(yaml)[n].default
        == first_default(occurrences(yaml), n)->0 by {
        lemma_table_first_default(yaml, 0, st, m, n);
    }
    lemma_table_users_distinct(yaml, 0, st, m);
}

} // verus!
