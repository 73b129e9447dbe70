//! Content negotiation for request bodies: recognising YAML media types and
//! rejecting YAML documents that use anchors or aliases.
use vstd::prelude::*;
use vstd::string::*;

use crate::text::{ascii_lowercase, ascii_lowercase_chars, before_first, chars_equal, chars_of, prefix_before, trim, trim_chars};

verus! {

// ----------------------------------------------------------------------------
// Media types
// ----------------------------------------------------------------------------

/// The media types that select YAML parsing of a request body.
pub open spec fn yaml_media_types() -> Seq<Seq<char>> {
    seq![
        seq!['a', 'p', 'p', 'l', 'i', 'c', 'a', 't', 'i', 'o', 'n', '/', 'y', 'a', 'm', 'l'],
        seq!['a', 'p', 'p', 'l', 'i', 'c', 'a', 't', 'i', 'o', 'n', '/', 'x', '-', 'y', 'a', 'm', 'l'],
        seq!['t', 'e', 'x', 't', '/', 'y', 'a', 'm', 'l'],
        seq!['t', 'e', 'x', 't', '/', 'x', '-', 'y', 'a', 'm', 'l'],
        seq!['t', 'e', 'x', 't', '/', 'v', 'n', 'd', '.', 'y', 'a', 'm', 'l'],
    ]
}

/// The media type of a `Content-Type` value: the text before the first `;`,
/// without surrounding whitespace, in ASCII lower case.
pub open spec fn media_type_essence(content_type: Seq<char>) -> Seq<char> {
    ascii_lowercase(trim(before_first(content_type, ';')))
}

/// Whether a `Content-Type` value denotes YAML.
pub open spec fn spec_is_yaml_content_type(content_type: Seq<char>) -> bool {
    yaml_media_types().contains(media_type_essence(content_type))
}

/// Returns `true` when the supplied `Content-Type` value denotes a YAML media
/// type; parameters such as `; charset=utf-8`, surrounding whitespace and
/// letter case are ignored.
pub fn is_yaml_content_type(content_type: &str) -> (r: bool)
    ensures
        r == spec_is_yaml_content_type(content_type@),
{
    let chars = chars_of(content_type);
    let head = prefix_before(&chars, ';');
    let trimmed = trim_chars(&head);
    let essence = ascii_lowercase_chars(&trimmed);
    let ghost types = yaml_media_types();
    let candidates: Vec<Vec<char>> = vec![
        vec!['a', 'p', 'p', 'l', 'i', 'c', 'a', 't', 'i', 'o', 'n', '/', 'y', 'a', 'm', 'l'],
        vec!['a', 'p', 'p', 'l', 'i', 'c', 'a', 't', 'i', 'o', 'n', '/', 'x', '-', 'y', 'a', 'm', 'l'],
        vec!['t', 'e', 'x', 't', '/', 'y', 'a', 'm', 'l'],
        vec!['t', 'e', 'x', 't', '/', 'x', '-', 'y', 'a', 'm', 'l'],
        vec!['t', 'e', 'x', 't', '/', 'v', 'n', 'd', '.', 'y', 'a', 'm', 'l'],
    ];
    assert(candidates@.len() == 5);
    assert forall|k: int| 0 <= k < 5 implies #[trigger] candidates@[k]@ == types[k] by {
        assert(candidates@[0]@ =~= types[0]);
        assert(candidates@[1]@ =~= types[1]);
        assert(candidates@[2]@ =~= types[2]);
        assert(candidates@[3]@ =~= types[3]);
        assert(candidates@[4]@ =~= types[4]);
    }
    let mut k: usize = 0;
    while k < candidates.len()
        invariant
            k <= candidates@.len() == 5,
            types == yaml_media_types(),
            essence@ == media_type_essence(content_type@),
            forall|j: int| 0 <= j < 5 ==> #[trigger] candidates@[j]@ == types[j],
            forall|j: int| 0 <= j < k ==> types[j] != essence@,
        decreases candidates@.len() - k,
    {
        if chars_equal(&candidates[k], &essence) {
            assert(types.contains(essence@)) by {
                assert(types[k as int] == essence@);
            }
            return true;
        }
        k = k + 1;
    }
    assert(!types.contains(essence@));
    false
}

// ----------------------------------------------------------------------------
// YAML anchors and aliases
// ----------------------------------------------------------------------------

/// Where a scan of a YAML document stands after a prefix of its bytes.
pub enum LexState {
    /// Outside quotes and comments; `boundary` says whether the last byte was a
    /// structural boundary (or nothing has been read yet), after which a node
    /// (and thus an anchor or alias) may begin.
    Plain { boundary: bool },
    /// Inside a `#` comment, which runs to the end of the line.
    Comment,
    /// Inside a single-quoted scalar.
    SingleQuoted,
    /// Inside a single-quoted scalar, just after a `'`: either the scalar ends
    /// here or the next `'` makes the pair an escaped quote.
    SingleQuoteSeen,
    /// Inside a double-quoted scalar.
    DoubleQuoted,
    /// Inside a double-quoted scalar, just after a `\`.
    DoubleEscape,
}

/// Bytes after which a node may begin.
pub open spec fn is_structural_boundary(b: u8) -> bool {
    b == 0x20u8 || b == 0x09u8 || b == 0x0du8 || b == 0x0au8 || b == 0x2du8 || b == 0x3au8
        || b == 0x2cu8 || b == 0x5bu8 || b == 0x7bu8
}

/// `&` (anchor) or `*` (alias).
pub open spec fn is_node_tag(b: u8) -> bool {
    b == 0x26u8 || b == 0x2au8
}

/// Bytes that may start an anchor name: ASCII letters and digits, `_` and `-`.
pub open spec fn is_anchor_name_byte(b: u8) -> bool {
    (0x30u8 <= b <= 0x39u8) || (0x41u8 <= b <= 0x5au8) || (0x61u8 <= b <= 0x7au8) || b == 0x5fu8
        || b == 0x2du8
}

/// The state of a scan in `Plain` state after reading byte `b`.
pub open spec fn plain_step(b: u8) -> LexState {
    if b == 0x23u8 {
        LexState::Comment
    } else if b == 0x27u8 {
        LexState::SingleQuoted
    } else if b == 0x22u8 {
        LexState::DoubleQuoted
    } else {
        LexState::Plain { boundary: is_structural_boundary(b) }
    }
}

/// One step of the scan.
pub open spec fn lex_step(s: LexState, b: u8) -> LexState {
    match s {
        LexState::Plain { .. } => plain_step(b),
        LexState::Comment => if b == 0x0au8 {
            LexState::Plain { boundary: true }
        } else {
            LexState::Comment
        },
        LexState::SingleQuoted => if b == 0x27u8 {
            LexState::SingleQuoteSeen
        } else {
            LexState::SingleQuoted
        },
        LexState::SingleQuoteSeen => if b == 0x27u8 {
            LexState::SingleQuoted
        } else {
            plain_step(b)
        },
        LexState::DoubleQuoted => if b == 0x5cu8 {
            LexState::DoubleEscape
        } else if b == 0x22u8 {
            LexState::Plain { boundary: false }
        } else {
            LexState::DoubleQuoted
        },
        LexState::DoubleEscape => LexState::DoubleQuoted,
    }
}

/// The state of the scan before byte `i` of `text`.
pub open spec fn lex_state_at(text: Seq<u8>, i: nat) -> LexState
    decreases i,
{
    if i == 0 {
        LexState::Plain { boundary: true }
    } else {
        lex_step(lex_state_at(text, (i - 1) as nat), text[i - 1])
    }
}

/// An anchor or alias begins at byte `i`: a `&` or `*` at the start of a node,
/// outside quotes and comments, followed at once by an anchor-name byte.
pub open spec fn node_tag_at(text: Seq<u8>, i: int) -> bool {
    &&& 0 <= i
    &&& i + 1 < text.len()
    &&& lex_state_at(text, i as nat) == (LexState::Plain { boundary: true })
    &&& is_node_tag(text[i])
    &&& is_anchor_name_byte(text[i + 1])
}

/// Whether a YAML document uses an anchor (`&name`) or alias (`*name`).
pub open spec fn spec_contains_yaml_anchor_or_alias(text: Seq<u8>) -> bool {
    exists|i: int| node_tag_at(text, i)
}

/// Detects YAML anchor (`&name`) or alias (`*name`) tokens, skipping quoted
/// scalars and comments, so that values such as `Tom & Jerry`, `AT&T` or
/// `"a * b"` are not flagged.
pub fn contains_yaml_anchor_or_alias(text: &str) -> (r: bool)
    ensures
        r == spec_contains_yaml_anchor_or_alias(text.spec_bytes()),
{
    let bytes = text.as_bytes();
    let ghost b = bytes@;
    let n = bytes.len();
    let mut state = LexState::Plain { boundary: true };
    let mut i: usize = 0;
    while i < n
        invariant
            n == b.len(),
            bytes@ == b,
            b == text.spec_bytes(),
            i <= n,
            state == lex_state_at(b, i as nat),
            forall|j: int| 0 <= j < i ==> !#[trigger] node_tag_at(b, j),
        decreases n - i,
    {
        let c = bytes[i];
        if i + 1 < n {
            if let LexState::Plain { boundary: true } = state {
                if (c == 0x26u8 || c == 0x2au8) && is_anchor_name(bytes[i + 1]) {
                    assert(node_tag_at(b, i as int));
                    return true;
                }
            }
        }
        state = next_lex_state(state, c);
        i = i + 1;
    }
    assert forall|j: int| !#[trigger] node_tag_at(b, j) by {
        if 0 <= j < i {
        }
    }
    false
}

fn is_anchor_name(c: u8) -> (r: bool)
    ensures
        r == is_anchor_name_byte(c),
{
    (0x30u8 <= c && c <= 0x39u8) || (0x41u8 <= c && c <= 0x5au8) || (0x61u8 <= c && c <= 0x7au8)
        || c == 0x5fu8 || c == 0x2du8
}

fn next_plain_state(c: u8) -> (s: LexState)
    ensures
        s == plain_step(c),
{
    if c == 0x23u8 {
        LexState::Comment
    } else if c == 0x27u8 {
        LexState::SingleQuoted
    } else if c == 0x22u8 {
        LexState::DoubleQuoted
    } else {
        LexState::Plain {
            boundary: c == 0x20u8 || c == 0x09u8 || c == 0x0du8 || c == 0x0au8 || c == 0x2du8
                || c == 0x3au8 || c == 0x2cu8 || c == 0x5bu8 || c == 0x7bu8,
        }
    }
}

fn next_lex_state(s: LexState, c: u8) -> (t: LexState)
    ensures
        t == lex_step(s, c),
{
    match s {
        LexState::Plain { .. } => next_plain_state(c),
        LexState::Comment => if c == 0x0au8 {
            LexState::Plain { boundary: true }
        } else {
            LexState::Comment
        },
        LexState::SingleQuoted => if c == 0x27u8 {
            LexState::SingleQuoteSeen
        } else {
            LexState::SingleQuoted
        },
        LexState::SingleQuoteSeen => if c == 0x27u8 {
            LexState::SingleQuoted
        } else {
            next_plain_state(c)
        },
        LexState::DoubleQuoted => if c == 0x5cu8 {
            LexState::DoubleEscape
        } else if c == 0x22u8 {
            LexState::Plain { boundary: false }
        } else {
            LexState::DoubleQuoted
        },
        LexState::DoubleEscape => LexState::DoubleQuoted,
    }
}

} // verus!
