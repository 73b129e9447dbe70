//! Line-oriented reading of YAML templates: lines, trailing comments and
//! component ids, as the variable extraction of solution templates sees them.
use vstd::prelude::*;

use crate::text::{first_index_from, is_unicode_whitespace, string_from_chars, trim, trim_end_index, trim_start_index};

verus! {

// ----------------------------------------------------------------------------
// Lines
// ----------------------------------------------------------------------------

/// The end (exclusive) of the line that starts at `p`: its `\n` or the end of text.
pub open spec fn line_end(s: Seq<char>, p: int) -> int {
    first_index_from(s, '\n', p)
}

/// The line that starts at `p`, without its line ending (`\n` or `\r\n`), as
/// `str::lines` yields it.
pub open spec fn line_text(s: Seq<char>, p: int) -> Seq<char> {
    let e = line_end(s, p);
    let raw = s.subrange(p, e);
    if e < s.len() && raw.len() > 0 && raw.last() == '\r' {
        raw.drop_last()
    } else {
        raw
    }
}

pub proof fn lemma_line_end_bounds(s: Seq<char>, p: int)
    requires
        0 <= p <= s.len(),
    ensures
        p <= line_end(s, p) <= s.len(),
        line_end(s, p) < s.len() ==> s[line_end(s, p)] == '\n',
    decreases s.len() - p,
{
    if p < s.len() && s[p] != '\n' {
        lemma_line_end_bounds(s, p + 1);
    }
}

/// The lines of `s[p..]`, as `str::lines` yields them.
pub open spec fn lines_from(s: Seq<char>, p: int) -> Seq<Seq<char>>
    decreases s.len() + 1 - p,
{
    if p < 0 || p >= s.len() {
        seq![]
    } else {
        proof {
            lemma_line_end_bounds(s, p);
        }
        seq![line_text(s, p)] + lines_from(s, line_end(s, p) + 1)
    }
}

/// Copies `v[from..to]`.
pub fn copy_range(v: &Vec<char>, from: usize, to: usize) -> (r: Vec<char>)
    requires
        from <= to <= v@.len(),
    ensures
        r@ == v@.subrange(from as int, to as int),
{
    let mut r: Vec<char> = Vec::new();
    let mut i = from;
    while i < to
        invariant
            from <= i <= to <= v@.len(),
            r@ == v@.subrange(from as int, i as int),
        decreases to - i,
    {
        r.push(v[i]);
        i = i + 1;
        assert(r@ =~= v@.subrange(from as int, i as int));
    }
    r
}

/// The line that starts at `p` and the position of its end (its `\n`, or
/// the end of the text).
pub fn next_line(s: &Vec<char>, p: usize) -> (r: (Vec<char>, usize))
    requires
        p < s@.len(),
    ensures
        r.0@ == line_text(s@, p as int),
        r.1 == line_end(s@, p as int),
        p <= r.1 <= s@.len(),
{
    let n = s.len();
    let mut e = p;
    while e < n && s[e] != '\n'
        invariant
            p <= e <= n,
            n == s@.len(),
            line_end(s@, p as int) == first_index_from(s@, '\n', e as int),
        decreases n - e,
    {
        e = e + 1;
    }
    if e < n && e > p && s[e - 1] == '\r' {
        let line = copy_range(s, p, e - 1);
        assert(s@.subrange(p as int, e as int).drop_last() =~= s@.subrange(p as int, e - 1));
        (line, e)
    } else {
        (copy_range(s, p, e), e)
    }
}

// ----------------------------------------------------------------------------
// Trailing comments
// ----------------------------------------------------------------------------

/// The index of the last `c` in `s[..j]`, or -1.
pub open spec fn last_index_before(s: Seq<char>, c: char, j: int) -> int
    decreases j,
{
    if j <= 0 {
        -1
    } else if s[j - 1] == c {
        j - 1
    } else {
        last_index_before(s, c, j - 1)
    }
}

/// The number of `c` in `s[..j]`.
pub open spec fn count_before(s: Seq<char>, c: char, j: int) -> nat
    decreases j,
{
    if j <= 0 {
        0
    } else if s[j - 1] == c {
        count_before(s, c, j - 1) + 1
    } else {
        count_before(s, c, j - 1)
    }
}

/// The comment at the end of a YAML line: the text after its last `#`,
/// trimmed, provided the quotes before that `#` are balanced and the text is
/// not empty.
pub open spec fn line_comment(line: Seq<char>) -> Option<Seq<char>> {
    let h = last_index_before(line, '#', line.len() as int);
    if h < 0 {
        None
    } else if count_before(line, '"', h) % 2 == 0 && count_before(line, '\'', h) % 2 == 0 {
        let comment = trim(line.subrange(h + 1, line.len() as int));
        if comment.len() > 0 {
            Some(comment)
        } else {
            None
        }
    } else {
        None
    }
}

proof fn lemma_last_index_bounds(s: Seq<char>, c: char, j: int)
    requires
        0 <= j <= s.len(),
    ensures
        -1 <= last_index_before(s, c, j) < j,
        last_index_before(s, c, j) >= 0 ==> s[last_index_before(s, c, j)] == c,
    decreases j,
{
    if j > 0 && s[j - 1] != c {
        lemma_last_index_bounds(s, c, j - 1);
    }
}

/// The trimmed characters of `s[from..to]`.
pub fn trim_range(s: &Vec<char>, from: usize, to: usize) -> (r: Vec<char>)
    requires
        from <= to <= s@.len(),
    ensures
        r@ == trim(s@.subrange(from as int, to as int)),
{
    let part = copy_range(s, from, to);
    crate::text::trim_chars(&part)
}

/// The comment of a YAML line, as characters.
pub fn line_comment_chars(line: &Vec<char>) -> (r: Option<Vec<char>>)
    ensures
        match r {
            Some(c) => line_comment(line@) == Some(c@),
            None => line_comment(line@) is None,
        },
{
    let n = line.len();
    let mut j = n;
    while j > 0 && line[j - 1] != '#'
        invariant
            j <= n,
            n == line@.len(),
            last_index_before(line@, '#', n as int) == last_index_before(line@, '#', j as int),
        decreases j,
    {
        j = j - 1;
    }
    if j == 0 {
        return None;
    }
    let h = j - 1;
    let mut doubles: usize = 0;
    let mut singles: usize = 0;
    let mut k: usize = 0;
    while k < h
        invariant
            k <= h < n,
            n == line@.len(),
            doubles == count_before(line@, '"', k as int),
            singles == count_before(line@, '\'', k as int),
            doubles <= k,
            singles <= k,
        decreases h - k,
    {
        if line[k] == '"' {
            doubles = doubles + 1;
        } else if line[k] == '\'' {
            singles = singles + 1;
        }
        k = k + 1;
    }
    if doubles % 2 == 0 && singles % 2 == 0 {
        let comment = trim_range(line, h + 1, n);
        if comment.len() > 0 {
            return Some(comment);
        }
    }
    None
}

/// Extracts the comment from the end of a YAML line: the text after the last
/// `#`, when the quotes before it are balanced (so that `#` is not inside a
/// string) and the comment is not empty.
pub fn extract_line_comment(line: &str) -> (r: Option<String>)
    ensures
        match r {
            Some(c) => line_comment(line@) == Some(c@),
            None => line_comment(line@) is None,
        },
{
    let chars = crate::text::chars_of(line);
    match line_comment_chars(&chars) {
        Some(c) => Some(string_from_chars(&c)),
        None => None,
    }
}

// ----------------------------------------------------------------------------
// Component ids
// ----------------------------------------------------------------------------

/// The end of the run of `c` that starts at `i`.
pub open spec fn leading_run_end(s: Seq<char>, c: char, i: int) -> int
    decreases s.len() - i,
{
    if i < s.len() && s[i] == c {
        leading_run_end(s, c, i + 1)
    } else {
        i
    }
}

/// The start of the run of `c` that ends at `j`.
pub open spec fn trailing_run_start(s: Seq<char>, c: char, lo: int, j: int) -> int
    decreases j - lo,
{
    if j > lo && s[j - 1] == c {
        trailing_run_start(s, c, lo, j - 1)
    } else {
        j
    }
}

/// `s` without leading `c` (`str::trim_start_matches` with a character).
pub open spec fn strip_leading(s: Seq<char>, c: char) -> Seq<char> {
    s.subrange(leading_run_end(s, c, 0), s.len() as int)
}

/// `s` without leading and trailing `c` (`str::trim_matches` with a character).
pub open spec fn strip_both(s: Seq<char>, c: char) -> Seq<char> {
    let a = leading_run_end(s, c, 0);
    s.subrange(a, trailing_run_start(s, c, a, s.len() as int))
}

/// The end of the run of copies of `pat` that starts at `i`.
pub open spec fn prefix_run_end(s: Seq<char>, pat: Seq<char>, i: int) -> int
    decreases s.len() - i,
{
    if pat.len() > 0 && 0 <= i && i + pat.len() <= s.len() && s.subrange(i, i + pat.len()) == pat {
        prefix_run_end(s, pat, i + pat.len())
    } else {
        i
    }
}

/// `s` without leading copies of `pat` (`str::trim_start_matches` with a string).
pub open spec fn strip_leading_pattern(s: Seq<char>, pat: Seq<char>) -> Seq<char> {
    s.subrange(prefix_run_end(s, pat, 0), s.len() as int)
}

pub open spec fn starts_with(s: Seq<char>, pat: Seq<char>) -> bool {
    pat.len() <= s.len() && s.take(pat.len() as int) == pat
}

/// Whether `s` holds `${`.
pub open spec fn contains_dollar_brace(s: Seq<char>) -> bool {
    exists|i: int| #![trigger s[i]] 0 <= i && i + 1 < s.len() && s[i] == '$' && s[i + 1] == '{'
}

pub open spec fn id_key() -> Seq<char> {
    seq!['i', 'd', ':']
}

/// The component id that a YAML line declares (`id: value` or `- id: value`):
/// the value without surrounding white space and quotes, when it is not
/// empty and holds no variable reference.
pub open spec fn component_id(line: Seq<char>) -> Option<Seq<char>> {
    let t = trim(strip_leading(trim(line), '-'));
    if starts_with(t, id_key()) {
        let v = strip_both(strip_both(trim(strip_leading_pattern(t, id_key())), '"'), '\'');
        if v.len() > 0 && !contains_dollar_brace(v) {
            Some(v)
        } else {
            None
        }
    } else {
        None
    }
}

proof fn lemma_leading_run_bounds(s: Seq<char>, c: char, i: int)
    requires
        0 <= i <= s.len(),
    ensures
        i <= leading_run_end(s, c, i) <= s.len(),
    decreases s.len() - i,
{
    if i < s.len() && s[i] == c {
        lemma_leading_run_bounds(s, c, i + 1);
    }
}

proof fn lemma_trailing_run_bounds(s: Seq<char>, c: char, lo: int, j: int)
    requires
        lo <= j,
    ensures
        lo <= trailing_run_start(s, c, lo, j) <= j,
    decreases j - lo,
{
    if j > lo && s[j - 1] == c {
        lemma_trailing_run_bounds(s, c, lo, j - 1);
    }
}

proof fn lemma_prefix_run_bounds(s: Seq<char>, pat: Seq<char>, i: int)
    requires
        0 <= i <= s.len(),
    ensures
        i <= prefix_run_end(s, pat, i) <= s.len(),
    decreases s.len() - i,
{
    if pat.len() > 0 && i + pat.len() <= s.len() && s.subrange(i, i + pat.len()) == pat {
        lemma_prefix_run_bounds(s, pat, i + pat.len());
    }
}

/// `s` without leading `c`.
pub fn strip_leading_chars(s: &Vec<char>, c: char) -> (r: Vec<char>)
    ensures
        r@ == strip_leading(s@, c),
{
    let n = s.len();
    let mut i: usize = 0;
    while i < n && s[i] == c
        invariant
            i <= n,
            n == s@.len(),
            leading_run_end(s@, c, 0) == leading_run_end(s@, c, i as int),
        decreases n - i,
    {
        i = i + 1;
    }
    copy_range(s, i, n)
}

/// `s` without leading and trailing `c`.
pub fn strip_both_chars(s: &Vec<char>, c: char) -> (r: Vec<char>)
    ensures
        r@ == strip_both(s@, c),
{
    let n = s.len();
    let mut i: usize = 0;
    while i < n && s[i] == c
        invariant
            i <= n,
            n == s@.len(),
            leading_run_end(s@, c, 0) == leading_run_end(s@, c, i as int),
        decreases n - i,
    {
        i = i + 1;
    }
    let mut j: usize = n;
    while j > i && s[j - 1] == c
        invariant
            i <= j <= n,
            n == s@.len(),
            leading_run_end(s@, c, 0) == i,
            trailing_run_start(s@, c, i as int, n as int) == trailing_run_start(s@, c, i as int, j as int),
        decreases j - i,
    {
        j = j - 1;
    }
    copy_range(s, i, j)
}

/// Whether `s[i..]` starts with `pat`.
pub fn starts_with_at(s: &Vec<char>, i: usize, pat: &Vec<char>) -> (r: bool)
    requires
        i <= s@.len(),
    ensures
        r == (i + pat@.len() <= s@.len() && s@.subrange(i as int, i + pat@.len()) == pat@),
{
    if pat.len() > s.len() - i {
        return false;
    }
    let mut k: usize = 0;
    while k < pat.len()
        invariant
            k <= pat@.len(),
            i + pat@.len() <= s@.len(),
            s@.len() == s.len(),
            forall|m: int| 0 <= m < k ==> s@[i + m] == pat@[m],
        decreases pat@.len() - k,
    {
        if s[i + k] != pat[k] {
            assert(s@.subrange(i as int, i + pat@.len())[k as int] != pat@[k as int]);
            return false;
        }
        k = k + 1;
    }
    assert(s@.subrange(i as int, i + pat@.len()) =~= pat@);
    true
}

/// `s` without leading copies of `pat`.
pub fn strip_leading_pattern_chars(s: &Vec<char>, pat: &Vec<char>) -> (r: Vec<char>)
    ensures
        r@ == strip_leading_pattern(s@, pat@),
{
    let n = s.len();
    if pat.len() == 0 {
        assert(prefix_run_end(s@, pat@, 0) == 0);
        return copy_range(s, 0, n);
    }
    let mut i: usize = 0;
    while starts_with_at(s, i, pat)
        invariant
            i <= n,
            n == s@.len(),
            pat@.len() > 0,
            prefix_run_end(s@, pat@, 0) == prefix_run_end(s@, pat@, i as int),
        decreases n - i,
    {
        i = i + pat.len();
    }
    copy_range(s, i, n)
}

/// Whether `s` holds `${`.
pub fn has_dollar_brace(s: &Vec<char>) -> (r: bool)
    ensures
        r == contains_dollar_brace(s@),
{
    let n = s.len();
    if n < 2 {
        return false;
    }
    let mut i: usize = 0;
    while i < n - 1
        invariant
            n == s@.len(),
            n >= 2,
            forall|j: int| #![trigger s@[j]] 0 <= j < i && j + 1 < n ==> !(s@[j] == '$' && s@[j + 1] == '{'),
        decreases n - i,
    {
        if s[i] == '$' && s[i + 1] == '{' {
            return true;
        }
        i = i + 1;
    }
    false
}

/// The component id declared by a YAML line, as characters.
pub fn component_id_chars(line: &Vec<char>) -> (r: Option<Vec<char>>)
    ensures
        match r {
            Some(v) => component_id(line@) == Some(v@),
            None => component_id(line@) is None,
        },
{
    let t0 = crate::text::trim_chars(line);
    let t1 = strip_leading_chars(&t0, '-');
    let t = crate::text::trim_chars(&t1);
    let key: Vec<char> = vec!['i', 'd', ':'];
    assert(key@ =~= id_key());
    if !starts_with_at(&t, 0, &key) {
        assert(!starts_with(t@, id_key())) by {
            assert(t@.subrange(0, 3) =~= t@.take(3));
        }
        return None;
    }
    assert(t@.take(3) =~= t@.subrange(0, 3));
    let v0 = strip_leading_pattern_chars(&t, &key);
    let v1 = crate::text::trim_chars(&v0);
    let v2 = strip_both_chars(&v1, '"');
    let v3 = strip_both_chars(&v2, '\'');
    if v3.len() > 0 && !has_dollar_brace(&v3) {
        Some(v3)
    } else {
        None
    }
}

/// Extracts the component id from a YAML line (`id: value` or `- id: value`).
pub fn extract_component_id(line: &str) -> (r: Option<String>)
    ensures
        match r {
            Some(c) => component_id(line@) == Some(c@),
            None => component_id(line@) is None,
        },
{
    let chars = crate::text::chars_of(line);
    match component_id_chars(&chars) {
        Some(c) => Some(string_from_chars(&c)),
        None => None,
    }
}

/// A text that neither starts nor ends with white space is its own trim.
proof fn lemma_trim_unchanged(s: Seq<char>)
    requires
        s.len() > 0,
        !is_unicode_whitespace(s[0]),
        !is_unicode_whitespace(s[s.len() - 1]),
    ensures
        trim(s) == s,
{
    assert(trim_start_index(s, 0) == 0);
    assert(trim_end_index(s, 0, s.len() as int) == s.len());
    assert(s.subrange(0, s.len() as int) =~= s);
}

/// Trimming a space in front of such a text gives the text.
proof fn lemma_trim_leading_space(b: Seq<char>)
    requires
        b.len() > 0,
        !is_unicode_whitespace(b[0]),
        !is_unicode_whitespace(b[b.len() - 1]),
    ensures
        trim(seq![' '] + b) == b,
{
    let w = seq![' '] + b;
    assert(w[0] == ' ' && w[1] == b[0]);
    assert(trim_start_index(w, 1) == 1);
    assert(trim_start_index(w, 0) == 1);
    assert(w[w.len() - 1] == b[b.len() - 1]);
    assert(trim_end_index(w, 1, w.len() as int) == w.len());
    assert(w.subrange(1, w.len() as int) =~= b);
}

/// A text that neither starts nor ends with `c` keeps its characters.
proof fn lemma_strip_both_unchanged(s: Seq<char>, c: char)
    requires
        s.len() > 0,
        s[0] != c,
        s[s.len() - 1] != c,
    ensures
        strip_both(s, c) == s,
{
    assert(leading_run_end(s, c, 0) == 0);
    assert(trailing_run_start(s, c, 0, s.len() as int) == s.len());
    assert(s.subrange(0, s.len() as int) =~= s);
}

/// A text between two `c`, that neither starts nor ends with `c`, loses
/// just those two.
proof fn lemma_strip_both_wrapped(x: Seq<char>, c: char)
    requires
        x.len() > 0,
        x[0] != c,
        x[x.len() - 1] != c,
    ensures
        strip_both(seq![c] + x + seq![c], c) == x,
{
    let s = seq![c] + x + seq![c];
    let n = s.len() as int;
    assert(s[0] == c && s[1] == x[0]);
    assert(leading_run_end(s, c, 1) == 1);
    assert(leading_run_end(s, c, 0) == 1);
    assert(s[n - 1] == c && s[n - 2] == x[x.len() - 1]);
    assert(trailing_run_start(s, c, 1, n - 1) == n - 1);
    assert(trailing_run_start(s, c, 1, n) == n - 1);
    assert(s.subrange(1, n - 1) =~= x);
}

/// The value of the line `id: ` followed by `body`, once white space is
/// trimmed and the `id:` key removed, is `body`.
proof fn lemma_id_line_value(body: Seq<char>)
    requires
        body.len() > 0,
        !is_unicode_whitespace(body[0]),
        !is_unicode_whitespace(body[body.len() - 1]),
    ensures
        ({
            let line = seq!['i', 'd', ':', ' '] + body;
            let t = trim(strip_leading(trim(line), '-'));
            &&& starts_with(t, id_key())
            &&& trim(strip_leading_pattern(t, id_key())) == body
        }),
{
    let line = seq!['i', 'd', ':', ' '] + body;
    let n = line.len() as int;
    assert(line[0] == 'i' && line[n - 1] == body[body.len() - 1]);
    lemma_trim_unchanged(line);
    assert(leading_run_end(line, '-', 0) == 0);
    assert(line.subrange(0, n) =~= line);
    assert(strip_leading(line, '-') == line);
    assert(line.take(3) =~= id_key());
    assert(line.subrange(0, 3) =~= id_key());
    assert(line[3] == ' ');
    if 6 <= n {
        assert(line.subrange(3, 6)[0] == ' ');
        assert(line.subrange(3, 6) != id_key());
    }
    assert(prefix_run_end(line, id_key(), 3) == 3);
    assert(prefix_run_end(line, id_key(), 0) == 3);
    assert(line.subrange(3, n) =~= seq![' '] + body);
    lemma_trim_leading_space(body);
}

/// Quotes around a component id are not part of it: for a value without
/// quotes that neither starts nor ends with white space, the lines
/// `id: X`, `id: 'X'` and `id: "X"` declare the same id, which is `X`
/// itself unless it holds a variable reference.
pub proof fn lemma_quoted_id_is_the_id(x: Seq<char>)
    requires
        x.len() > 0,
        forall|k: int| 0 <= k < x.len() ==> #[trigger] x[k] != '"' && x[k] != '\'',
        !is_unicode_whitespace(x[0]),
        !is_unicode_whitespace(x[x.len() - 1]),
    ensures
        component_id(seq!['i', 'd', ':', ' '] + x) == (if contains_dollar_brace(x) {
            None
        } else {
            Some(x)
        }),
        component_id(seq!['i', 'd', ':', ' ', '\''] + x + seq!['\'']) == component_id(
            seq!['i', 'd', ':', ' '] + x,
        ),
        component_id(seq!['i', 'd', ':', ' ', '"'] + x + seq!['"']) == component_id(
            seq!['i', 'd', ':', ' '] + x,
        ),
{
    let last = x.len() - 1;
    assert(x[0] != '"' && x[0] != '\'' && x[last] != '"' && x[last] != '\'');
    // id: X
    lemma_id_line_value(x);
    lemma_strip_both_unchanged(x, '"');
    lemma_strip_both_unchanged(x, '\'');
    // id: 'X'
    let sq = seq!['\''] + x + seq!['\''];
    assert(sq[0] == '\'' && sq[sq.len() - 1] == '\'');
    lemma_id_line_value(sq);
    lemma_strip_both_unchanged(sq, '"');
    lemma_strip_both_wrapped(x, '\'');
    assert(seq!['i', 'd', ':', ' ', '\''] + x + seq!['\''] =~= seq!['i', 'd', ':', ' '] + sq);
    // id: "X"
    let dq = seq!['"'] + x + seq!['"'];
    assert(dq[0] == '"' && dq[dq.len() - 1] == '"');
    lemma_id_line_value(dq);
    lemma_strip_both_wrapped(x, '"');
    lemma_strip_both_unchanged(x, '\'');
    assert(seq!['i', 'd', ':', ' ', '"'] + x + seq!['"'] =~= seq!['i', 'd', ':', ' '] + dq);
}

/// White space from `i` up to `k`, then another character: trimming starts
/// at `k`.
proof fn lemma_trim_start_at(s: Seq<char>, i: int, k: int)
    requires
        0 <= i <= k < s.len(),
        forall|j: int| i <= j < k ==> is_unicode_whitespace(#[trigger] s[j]),
        !is_unicode_whitespace(s[k]),
    ensures
        trim_start_index(s, i) == k,
    decreases k - i,
{
    if i < k {
        lemma_trim_start_at(s, i + 1, k);
    }
}

/// An id in a list item, `- id: ` indented by any spaces, is read as the
/// same line without the indentation and the dash: for a value without
/// quotes that neither starts nor ends with white space, `  - id: 'X'` and
/// `  - id: "X"` declare the id of `id: X`.
pub proof fn lemma_list_item_id(indent: nat, x: Seq<char>)
    requires
        x.len() > 0,
        forall|k: int| 0 <= k < x.len() ==> #[trigger] x[k] != '"' && x[k] != '\'',
        !is_unicode_whitespace(x[0]),
        !is_unicode_whitespace(x[x.len() - 1]),
    ensures
        ({
            let lead = Seq::new(indent, |i: int| ' ') + seq!['-', ' ', 'i', 'd', ':', ' '];
            &&& component_id(lead + x) == component_id(seq!['i', 'd', ':', ' '] + x)
            &&& component_id(lead + (seq!['\''] + x + seq!['\''])) == component_id(
                seq!['i', 'd', ':', ' '] + x,
            )
            &&& component_id(lead + (seq!['"'] + x + seq!['"'])) == component_id(
                seq!['i', 'd', ':', ' '] + x,
            )
        }),
{
    let lead = Seq::new(indent, |i: int| ' ') + seq!['-', ' ', 'i', 'd', ':', ' '];
    lemma_quoted_id_is_the_id(x);
    let last = x.len() - 1;
    assert(x[0] != '"' && x[0] != '\'' && x[last] != '"' && x[last] != '\'');
    let sq = seq!['\''] + x + seq!['\''];
    let dq = seq!['"'] + x + seq!['"'];
    assert(sq[0] == '\'' && sq[sq.len() - 1] == '\'');
    assert(dq[0] == '"' && dq[dq.len() - 1] == '"');
    lemma_list_item_same(indent, x);
    lemma_list_item_same(indent, sq);
    lemma_list_item_same(indent, dq);
    assert(seq!['i', 'd', ':', ' ', '\''] + x + seq!['\''] =~= seq!['i', 'd', ':', ' '] + sq);
    assert(seq!['i', 'd', ':', ' ', '"'] + x + seq!['"'] =~= seq!['i', 'd', ':', ' '] + dq);
}

/// The indented list item `- id: body` reads like the line `id: body`.
proof fn lemma_list_item_same(indent: nat, body: Seq<char>)
    requires
        body.len() > 0,
        !is_unicode_whitespace(body[0]),
        !is_unicode_whitespace(body[body.len() - 1]),
    ensures
        component_id(Seq::new(indent, |i: int| ' ') + seq!['-', ' ', 'i', 'd', ':', ' '] + body)
            == component_id(seq!['i', 'd', ':', ' '] + body),
{
    let line = Seq::new(indent, |i: int| ' ') + seq!['-', ' ', 'i', 'd', ':', ' '] + body;
    let plain = seq!['i', 'd', ':', ' '] + body;
    let n = line.len() as int;
    let d = indent as int;
    assert forall|j: int| 0 <= j < d implies is_unicode_whitespace(#[trigger] line[j]) by {
        assert(line[j] == ' ');
    }
    assert(line[d] == '-');
    lemma_trim_start_at(line, 0, d);
    assert(line[n - 1] == body[body.len() - 1]);
    assert(trim_end_index(line, d, n) == n);
    let t1 = line.subrange(d, n);
    assert(trim(line) == t1);
    assert(t1 =~= seq!['-'] + (seq![' '] + plain));
    assert(t1[0] == '-' && t1[1] == ' ');
    assert(leading_run_end(t1, '-', 1) == 1);
    assert(leading_run_end(t1, '-', 0) == 1);
    assert(strip_leading(t1, '-') =~= seq![' '] + plain);
    assert(plain[0] == 'i' && plain[plain.len() - 1] == body[body.len() - 1]);
    lemma_trim_leading_space(plain);
    lemma_trim_unchanged(plain);
    assert(leading_run_end(plain, '-', 0) == 0);
    assert(plain.subrange(0, plain.len() as int) =~= plain);
    assert(trim(strip_leading(trim(plain), '-')) == plain);
    assert(trim(strip_leading(trim(line), '-')) == plain);
}

} // verus!
