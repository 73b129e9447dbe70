//! Template variables: `${NAME}` and `${NAME:-default}` references in
//! solution templates, how they are found and how they are substituted.
use vstd::prelude::*;

use crate::text::{extend_from_range, first_index_from, string_from_chars, string_from_range};

verus! {

/// Characters that may start a variable name.
pub open spec fn is_name_start(c: char) -> bool {
    ('A' <= c && c <= 'Z') || ('a' <= c && c <= 'z') || c == '_'
}

/// Characters that may continue a variable name.
pub open spec fn is_name_char(c: char) -> bool {
    is_name_start(c) || ('0' <= c && c <= '9')
}

/// The end of the run of name characters in `s` that starts at `i`.
pub open spec fn name_end(s: Seq<char>, i: int) -> int
    decreases s.len() - i,
{
    if i >= s.len() {
        s.len() as int
    } else if is_name_char(s[i]) {
        name_end(s, i + 1)
    } else {
        i
    }
}

pub proof fn lemma_name_end_bounds(s: Seq<char>, i: int)
    requires
        0 <= i <= s.len(),
    ensures
        i <= name_end(s, i) <= s.len(),
        forall|j: int| i <= j < name_end(s, i) ==> is_name_char(s[j]),
        name_end(s, i) < s.len() ==> !is_name_char(s[name_end(s, i)]),
    decreases s.len() - i,
{
    if i < s.len() && is_name_char(s[i]) {
        lemma_name_end_bounds(s, i + 1);
    }
}

pub proof fn lemma_first_index_bounds(s: Seq<char>, c: char, i: int)
    requires
        0 <= i <= s.len(),
    ensures
        i <= first_index_from(s, c, i) <= s.len(),
        first_index_from(s, c, i) < s.len() ==> s[first_index_from(s, c, i)] == c,
        forall|j: int| i <= j < first_index_from(s, c, i) ==> s[j] != c,
    decreases s.len() - i,
{
    if i < s.len() && s[i] != c {
        lemma_first_index_bounds(s, c, i + 1);
    }
}

/// A variable reference found in a text: it spans `text[start..end]`.
pub struct VarRefSpec {
    pub start: int,
    pub end: int,
    pub name: Seq<char>,
    pub default: Option<Seq<char>>,
}

/// The variable reference that begins at position `p` of `s`, if any:
/// `${` and a name (a letter or `_`, then letters, digits and `_`), then
/// either `}` or `:-`, a default value without `}`, and `}`.
pub open spec fn var_ref_at(s: Seq<char>, p: int) -> Option<VarRefSpec> {
    if 0 <= p && p + 2 < s.len() && s[p] == '$' && s[p + 1] == '{' && is_name_start(s[p + 2]) {
        let e = name_end(s, p + 3);
        let name = s.subrange(p + 2, e);
        if e < s.len() && s[e] == '}' {
            Some(VarRefSpec { start: p, end: e + 1, name, default: None })
        } else if e + 1 < s.len() && s[e] == ':' && s[e + 1] == '-' {
            let c = first_index_from(s, '}', e + 2);
            if c < s.len() {
                Some(VarRefSpec { start: p, end: c + 1, name, default: Some(s.subrange(e + 2, c)) })
            } else {
                None
            }
        } else {
            None
        }
    } else {
        None
    }
}

pub proof fn lemma_var_ref_at_bounds(s: Seq<char>, p: int)
    requires
        var_ref_at(s, p) is Some,
    ensures
        p + 4 <= var_ref_at(s, p)->0.end <= s.len(),
        var_ref_at(s, p)->0.start == p,
{
    lemma_name_end_bounds(s, p + 3);
    let e = name_end(s, p + 3);
    if e + 1 < s.len() && s[e] == ':' && s[e + 1] == '-' {
        lemma_first_index_bounds(s, '}', e + 2);
    }
}

/// The variable references of `s` at or after `p`, leftmost first and not
/// overlapping, as a regular-expression search finds them.
pub open spec fn var_refs_from(s: Seq<char>, p: int) -> Seq<VarRefSpec>
    decreases s.len() - p,
{
    if p < 0 || p >= s.len() {
        seq![]
    } else {
        match var_ref_at(s, p) {
            Some(r) => {
                proof {
                    lemma_var_ref_at_bounds(s, p);
                }
                seq![r] + var_refs_from(s, r.end)
            },
            None => var_refs_from(s, p + 1),
        }
    }
}

/// The variable references of `s`.
pub open spec fn var_refs(s: Seq<char>) -> Seq<VarRefSpec> {
    var_refs_from(s, 0)
}

/// Where a variable reference lies in a character vector.
pub struct RefSpan {
    pub name_start: usize,
    pub name_end: usize,
    pub default: Option<(usize, usize)>,
    pub end: usize,
}

impl RefSpan {
    pub open spec fn matches(self, s: Seq<char>, r: VarRefSpec) -> bool {
        &&& self.name_start <= self.name_end <= self.end <= s.len()
        &&& r.end == self.end
        &&& r.name == s.subrange(self.name_start as int, self.name_end as int)
        &&& match self.default {
            None => r.default is None,
            Some((a, b)) => a <= b <= s.len() && r.default == Some(s.subrange(a as int, b as int)),
        }
    }
}

/// Finds the variable reference that begins at position `p`, if any.
pub fn scan_var_ref(s: &Vec<char>, p: usize) -> (r: Option<RefSpan>)
    requires
        p <= s@.len(),
    ensures
        r is Some <==> var_ref_at(s@, p as int) is Some,
        r matches Some(span) ==> span.matches(s@, var_ref_at(s@, p as int)->0),
{
    let n = s.len();
    if !(n - p > 2 && s[p] == '$' && s[p + 1] == '{') {
        return None;
    }
    let c0 = s[p + 2];
    if !(('A' <= c0 && c0 <= 'Z') || ('a' <= c0 && c0 <= 'z') || c0 == '_') {
        return None;
    }
    let mut e = p + 3;
    while e < n && is_name_character(s[e])
        invariant
            p + 3 <= e <= n,
            n == s@.len(),
            name_end(s@, p + 3) == name_end(s@, e as int),
        decreases n - e,
    {
        e = e + 1;
    }
    if e < n && s[e] == '}' {
        return Some(RefSpan { name_start: p + 2, name_end: e, default: None, end: e + 1 });
    }
    if e < n && n - e > 1 && s[e] == ':' && s[e + 1] == '-' {
        let mut c = e + 2;
        while c < n && s[c] != '}'
            invariant
                e + 2 <= c <= n,
                n == s@.len(),
                first_index_from(s@, '}', e + 2) == first_index_from(s@, '}', c as int),
            decreases n - c,
        {
            c = c + 1;
        }
        if c < n {
            return Some(
                RefSpan { name_start: p + 2, name_end: e, default: Some((e + 2, c)), end: c + 1 },
            );
        }
    }
    None
}

fn is_name_character(c: char) -> (r: bool)
    ensures
        r == is_name_char(c),
        r <==> ('A' <= c && c <= 'Z') || ('a' <= c && c <= 'z') || c == '_' || ('0' <= c && c <= '9'),
{
    ('A' <= c && c <= 'Z') || ('a' <= c && c <= 'z') || c == '_' || ('0' <= c && c <= '9')
}

/// Whether `s` holds at least one variable reference.
pub open spec fn has_var_ref(s: Seq<char>) -> bool {
    var_refs(s).len() > 0
}

proof fn lemma_refs_nonempty_iff(s: Seq<char>, p: int)
    requires
        0 <= p <= s.len(),
    ensures
        var_refs_from(s, p).len() > 0 <==> exists|q: int| p <= q < s.len() && #[trigger] var_ref_at(s, q) is Some,
    decreases s.len() - p,
{
    if p < s.len() {
        match var_ref_at(s, p) {
            Some(r) => {},
            None => {
                lemma_refs_nonempty_iff(s, p + 1);
                if exists|q: int| p <= q < s.len() && #[trigger] var_ref_at(s, q) is Some {
                    let q = choose|q: int| p <= q < s.len() && #[trigger] var_ref_at(s, q) is Some;
                    assert(q != p);
                }
            },
        }
    }
}

/// Whether `text` holds a variable reference (`${NAME}` or `${NAME:-default}`).
pub fn contains_variable_reference(text: &str) -> (r: bool)
    ensures
        r == has_var_ref(text@),
{
    let s = crate::text::chars_of(text);
    let mut p: usize = 0;
    while p < s.len()
        invariant
            p <= s@.len(),
            s@ == text@,
            forall|q: int| 0 <= q < p ==> #[trigger] var_ref_at(s@, q) is None,
        decreases s@.len() - p,
    {
        if scan_var_ref(&s, p).is_some() {
            proof {
                lemma_refs_nonempty_iff(s@, 0);
            }
            return true;
        }
        p = p + 1;
    }
    proof {
        lemma_refs_nonempty_iff(s@, 0);
    }
    false
}

/// The first value bound to `name` in a list of `(name, value)` pairs.
pub open spec fn lookup(pairs: Seq<(Seq<char>, Seq<char>)>, name: Seq<char>) -> Option<Seq<char>>
    decreases pairs.len(),
{
    if pairs.len() == 0 {
        None
    } else if pairs[0].0 == name {
        Some(pairs[0].1)
    } else {
        lookup(pairs.drop_first(), name)
    }
}

/// The view of a list of string pairs.
pub open spec fn pairs_view(pairs: Seq<(String, String)>) -> Seq<(Seq<char>, Seq<char>)> {
    pairs.map_values(|p: (String, String)| (p.0@, p.1@))
}

/// The value a reference resolves to: the caller's override, else the
/// environment's value, else the reference's default, else nothing.
pub open spec fn resolved_value(
    r: VarRefSpec,
    overrides: Seq<(Seq<char>, Seq<char>)>,
    environment: Seq<(Seq<char>, Seq<char>)>,
) -> Seq<char> {
    match lookup(overrides, r.name) {
        Some(v) => v,
        None => match lookup(environment, r.name) {
            Some(v) => v,
            None => match r.default {
                Some(d) => d,
                None => seq![],
            },
        },
    }
}

/// `s[p..]` with every variable reference replaced by its value.
pub open spec fn resolve_from(
    s: Seq<char>,
    p: int,
    overrides: Seq<(Seq<char>, Seq<char>)>,
    environment: Seq<(Seq<char>, Seq<char>)>,
) -> Seq<char>
    decreases s.len() - p,
{
    if p < 0 || p >= s.len() {
        seq![]
    } else {
        match var_ref_at(s, p) {
            Some(r) => {
                proof {
                    lemma_var_ref_at_bounds(s, p);
                }
                resolved_value(r, overrides, environment) + resolve_from(s, r.end, overrides, environment)
            },
            None => seq![s[p]] + resolve_from(s, p + 1, overrides, environment),
        }
    }
}

/// Finds the value bound to the name `s[from..to]`.
fn find_binding(pairs: &Vec<(String, String)>, s: &Vec<char>, from: usize, to: usize) -> (r: Option<usize>)
    requires
        from <= to <= s@.len(),
    ensures
        match r {
            Some(i) => i < pairs@.len() && lookup(pairs_view(pairs@), s@.subrange(from as int, to as int)) == Some(pairs@[i as int].1@),
            None => lookup(pairs_view(pairs@), s@.subrange(from as int, to as int)) is None,
        },
{
    let name = string_from_range(s, from, to);
    let ghost v = pairs_view(pairs@);
    assert(v.subrange(0, v.len() as int) =~= v);
    let mut i: usize = 0;
    while i < pairs.len()
        invariant
            i <= pairs@.len(),
            v.len() == pairs@.len(),
            name@ == s@.subrange(from as int, to as int),
            v == pairs_view(pairs@),
            lookup(v, name@) == lookup(v.subrange(i as int, v.len() as int), name@),
        decreases pairs@.len() - i,
    {
        let ghost rest = v.subrange(i as int, v.len() as int);
        assert(rest.drop_first() =~= v.subrange(i + 1, v.len() as int));
        assert(rest[0] == v[i as int]);
        if pairs[i].0 == name {
            return Some(i);
        }
        i = i + 1;
    }
    None
}

/// Replaces every `${NAME}` and `${NAME:-default}` in `yaml` by the value of
/// `NAME`: the caller's override first, then the environment's value, then
/// the default (empty when there is none). Both lists bind a name to the
/// first value listed for it.
pub fn resolve_yaml_variables(
    yaml: &str,
    overrides: &Vec<(String, String)>,
    environment: &Vec<(String, String)>,
) -> (r: String)
    ensures
        r@ == resolve_from(yaml@, 0, pairs_view(overrides@), pairs_view(environment@)),
{
    let s = crate::text::chars_of(yaml);
    let ghost ov = pairs_view(overrides@);
    let ghost env = pairs_view(environment@);
    let mut out: Vec<char> = Vec::new();
    let mut p: usize = 0;
    while p < s.len()
        invariant
            p <= s@.len(),
            s@ == yaml@,
            ov == pairs_view(overrides@),
            env == pairs_view(environment@),
            out@ + resolve_from(s@, p as int, ov, env) == resolve_from(s@, 0, ov, env),
        decreases s@.len() - p,
    {
        match scan_var_ref(&s, p) {
            Some(span) => {
                let ghost r = var_ref_at(s@, p as int)->0;
                proof {
                    lemma_var_ref_at_bounds(s@, p as int);
                }
                let ghost before = out@;
                match find_binding(overrides, &s, span.name_start, span.name_end) {
                    Some(i) => {
                        let v = crate::text::chars_of(overrides[i].1.as_str());
                        extend_from_range(&mut out, &v, 0, v.len());
                        assert(v@.subrange(0, v@.len() as int) =~= v@);
                    },
                    None => match find_binding(environment, &s, span.name_start, span.name_end) {
                        Some(i) => {
                            let v = crate::text::chars_of(environment[i].1.as_str());
                            extend_from_range(&mut out, &v, 0, v.len());
                            assert(v@.subrange(0, v@.len() as int) =~= v@);
                        },
                        None => match span.default {
                            Some((a, b)) => {
                                extend_from_range(&mut out, &s, a, b);
                            },
                            None => {},
                        },
                    },
                }
                assert(out@ == before + resolved_value(r, ov, env));
                assert(out@ + resolve_from(s@, span.end as int, ov, env) =~= before + resolve_from(s@, p as int, ov, env));
                p = span.end;
            },
            None => {
                let ghost before = out@;
                out.push(s[p]);
                assert(out@ + resolve_from(s@, p + 1, ov, env) =~= before + resolve_from(s@, p as int, ov, env));
                p = p + 1;
            },
        }
    }
    assert(out@ =~= resolve_from(s@, 0, ov, env));
    string_from_chars(&out)
}

proof fn lemma_resolve_plain_suffix(
    s: Seq<char>,
    p: int,
    overrides: Seq<(Seq<char>, Seq<char>)>,
    environment: Seq<(Seq<char>, Seq<char>)>,
)
    requires
        0 <= p <= s.len(),
        var_refs_from(s, p).len() == 0,
    ensures
        resolve_from(s, p, overrides, environment) == s.subrange(p, s.len() as int),
    decreases s.len() - p,
{
    if p < s.len() {
        match var_ref_at(s, p) {
            Some(r) => {
                lemma_var_ref_at_bounds(s, p);
                assert(var_refs_from(s, p).len() > 0);
            },
            None => {
                lemma_resolve_plain_suffix(s, p + 1, overrides, environment);
                assert(seq![s[p]] + s.subrange(p + 1, s.len() as int) =~= s.subrange(p, s.len() as int));
            },
        }
    } else {
        assert(s.subrange(p, s.len() as int) =~= Seq::<char>::empty());
    }
}

/// A text without variable references resolves to itself, whatever the
/// overrides and the environment hold.
pub proof fn lemma_resolve_without_references(
    s: Seq<char>,
    overrides: Seq<(Seq<char>, Seq<char>)>,
    environment: Seq<(Seq<char>, Seq<char>)>,
)
    requires
        !has_var_ref(s),
    ensures
        resolve_from(s, 0, overrides, environment) == s,
{
    lemma_resolve_plain_suffix(s, 0, overrides, environment);
    assert(s.subrange(0, s.len() as int) =~= s);
}

proof fn lemma_overrides_shadow_from(
    s: Seq<char>,
    p: int,
    overrides: Seq<(Seq<char>, Seq<char>)>,
    env1: Seq<(Seq<char>, Seq<char>)>,
    env2: Seq<(Seq<char>, Seq<char>)>,
)
    requires
        0 <= p,
        forall|i: int|
            0 <= i < var_refs_from(s, p).len() ==> lookup(overrides, (#[trigger] var_refs_from(s, p)[i]).name) is Some,
    ensures
        resolve_from(s, p, overrides, env1) == resolve_from(s, p, overrides, env2),
    decreases s.len() - p,
{
    if p < s.len() {
        match var_ref_at(s, p) {
            Some(r) => {
                lemma_var_ref_at_bounds(s, p);
                let rest = var_refs_from(s, r.end);
                assert(var_refs_from(s, p) == seq![r] + rest);
                assert(var_refs_from(s, p)[0] == r);
                assert forall|i: int| 0 <= i < rest.len() implies lookup(overrides, (#[trigger] rest[i]).name) is Some by {
                    assert(var_refs_from(s, p)[i + 1] == rest[i]);
                }
                lemma_overrides_shadow_from(s, r.end, overrides, env1, env2);
            },
            None => {
                lemma_overrides_shadow_from(s, p + 1, overrides, env1, env2);
            },
        }
    }
}

/// The caller's values come first: when the caller gives a value for every
/// variable a text references, the environment makes no difference.
pub proof fn lemma_overrides_shadow_environment(
    s: Seq<char>,
    overrides: Seq<(Seq<char>, Seq<char>)>,
    env1: Seq<(Seq<char>, Seq<char>)>,
    env2: Seq<(Seq<char>, Seq<char>)>,
)
    requires
        forall|i: int| 0 <= i < var_refs(s).len() ==> lookup(overrides, (#[trigger] var_refs(s)[i]).name) is Some,
    ensures
        resolve_from(s, 0, overrides, env1) == resolve_from(s, 0, overrides, env2),
{
    assert(var_refs(s) == var_refs_from(s, 0));
    assert forall|i: int| 0 <= i < var_refs_from(s, 0).len() implies lookup(
        overrides,
        (#[trigger] var_refs_from(s, 0)[i]).name,
    ) is Some by {
        assert(var_refs(s)[i] == var_refs_from(s, 0)[i]);
    }
    lemma_overrides_shadow_from(s, 0, overrides, env1, env2);
}

/// A name continues with letters, digits and `_`, and nothing else.
pub proof fn lemma_name_characters(c: char)
    ensures
        is_name_char(c) <==> ('A' <= c && c <= 'Z') || ('a' <= c && c <= 'z') || c == '_' || ('0' <= c
            && c <= '9'),
        is_name_start(c) <==> ('A' <= c && c <= 'Z') || ('a' <= c && c <= 'z') || c == '_',
{
}

/// A run of name characters from `i` up to `e`, ended by the text or by
/// another character, is where the name ends.
proof fn lemma_name_end_at(s: Seq<char>, i: int, e: int)
    requires
        0 <= i <= e <= s.len(),
        forall|j: int| i <= j < e ==> is_name_char(#[trigger] s[j]),
        e < s.len() ==> !is_name_char(s[e]),
    ensures
        name_end(s, i) == e,
    decreases e - i,
{
    if i < e {
        lemma_name_end_at(s, i + 1, e);
    }
}

/// For any name made of a letter or `_` followed by letters, digits and
/// `_`, the text `${name}` is a single variable reference that covers it
/// whole and names that whole name, so it resolves to the name's value: the
/// caller's override, else the environment's, else the empty text.
pub proof fn lemma_whole_name_is_a_reference(
    name: Seq<char>,
    overrides: Seq<(Seq<char>, Seq<char>)>,
    environment: Seq<(Seq<char>, Seq<char>)>,
)
    requires
        name.len() > 0,
        ('A' <= name[0] && name[0] <= 'Z') || ('a' <= name[0] && name[0] <= 'z') || name[0] == '_',
        forall|k: int|
            0 < k < name.len() ==> ('A' <= #[trigger] name[k] && name[k] <= 'Z') || ('a' <= name[k]
                && name[k] <= 'z') || name[k] == '_' || ('0' <= name[k] && name[k] <= '9'),
    ensures
        ({
            let s = seq!['$', '{'] + name + seq!['}'];
            let r = VarRefSpec { start: 0, end: s.len() as int, name, default: None };
            &&& var_refs(s) == seq![r]
            &&& resolve_from(s, 0, overrides, environment) == match lookup(overrides, name) {
                Some(v) => v,
                None => match lookup(environment, name) {
                    Some(v) => v,
                    None => Seq::<char>::empty(),
                },
            }
        }),
{
    let s = seq!['$', '{'] + name + seq!['}'];
    let n = s.len() as int;
    assert(s[0] == '$' && s[1] == '{' && s[2] == name[0]);
    assert(s[n - 1] == '}');
    assert forall|j: int| 3 <= j < n - 1 implies is_name_char(#[trigger] s[j]) by {
        assert(s[j] == name[j - 2]);
    }
    lemma_name_end_at(s, 3, n - 1);
    assert(s.subrange(2, n - 1) =~= name);
    let r = VarRefSpec { start: 0, end: n, name, default: None };
    assert(var_ref_at(s, 0) == Some(r));
    assert(var_refs_from(s, n) == Seq::<VarRefSpec>::empty());
    assert(var_refs(s) =~= seq![r]);
    assert(resolve_from(s, n, overrides, environment) == Seq::<char>::empty());
    assert(resolve_from(s, 0, overrides, environment) =~= resolved_value(r, overrides, environment));
}

/// For any such name and any default without `}`, the text
/// `${name:-default}` is a single reference to the whole name with that
/// default, so it resolves to the caller's override, else the
/// environment's value, else the default.
pub proof fn lemma_whole_name_with_default(
    name: Seq<char>,
    default: Seq<char>,
    overrides: Seq<(Seq<char>, Seq<char>)>,
    environment: Seq<(Seq<char>, Seq<char>)>,
)
    requires
        name.len() > 0,
        ('A' <= name[0] && name[0] <= 'Z') || ('a' <= name[0] && name[0] <= 'z') || name[0] == '_',
        forall|k: int|
            0 < k < name.len() ==> ('A' <= #[trigger] name[k] && name[k] <= 'Z') || ('a' <= name[k]
                && name[k] <= 'z') || name[k] == '_' || ('0' <= name[k] && name[k] <= '9'),
        forall|k: int| 0 <= k < default.len() ==> #[trigger] default[k] != '}',
    ensures
        ({
            let s = seq!['$', '{'] + name + seq![':', '-'] + default + seq!['}'];
            let r = VarRefSpec { start: 0, end: s.len() as int, name, default: Some(default) };
            &&& var_refs(s) == seq![r]
            &&& resolve_from(s, 0, overrides, environment) == match lookup(overrides, name) {
                Some(v) => v,
                None => match lookup(environment, name) {
                    Some(v) => v,
                    None => default,
                },
            }
        }),
{
    let s = seq!['$', '{'] + name + seq![':', '-'] + default + seq!['}'];
    let n = s.len() as int;
    let e = (name.len() + 2) as int;
    assert(s[0] == '$' && s[1] == '{' && s[2] == name[0]);
    assert(s[e] == ':' && s[e + 1] == '-' && s[n - 1] == '}');
    assert forall|j: int| 3 <= j < e implies is_name_char(#[trigger] s[j]) by {
        assert(s[j] == name[j - 2]);
    }
    lemma_name_end_at(s, 3, e);
    assert(s.subrange(2, e) =~= name);
    assert forall|j: int| e + 2 <= j < n - 1 implies #[trigger] s[j] != '}' by {
        assert(s[j] == default[j - e - 2]);
    }
    lemma_first_index_at(s, '}', e + 2, n - 1);
    assert(s.subrange(e + 2, n - 1) =~= default);
    let r = VarRefSpec { start: 0, end: n, name, default: Some(default) };
    assert(var_ref_at(s, 0) == Some(r));
    assert(var_refs_from(s, n) == Seq::<VarRefSpec>::empty());
    assert(var_refs(s) =~= seq![r]);
    assert(resolve_from(s, n, overrides, environment) == Seq::<char>::empty());
    assert(resolve_from(s, 0, overrides, environment) =~= resolved_value(r, overrides, environment));
}

proof fn lemma_first_index_at(s: Seq<char>, c: char, i: int, e: int)
    requires
        0 <= i <= e < s.len(),
        s[e] == c,
        forall|j: int| i <= j < e ==> #[trigger] s[j] != c,
    ensures
        first_index_from(s, c, i) == e,
    decreases e - i,
{
    if i < e {
        lemma_first_index_at(s, c, i + 1, e);
    }
}

} // verus!
