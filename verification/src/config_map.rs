//! Reading the configuration map of a source or a reaction: its envelope
//! fields, each allowed once and with a value of the right type, the
//! snake_case spellings that are refused, and the rest, which is the
//! plugin's own configuration.
//!
//! A source's envelope is `kind`, `id` (both required), `autoStart`,
//! `bootstrapProvider` and `identityProvider`; a reaction's is `kind`, `id`,
//! `queries` (all required) and `autoStart`. The map is read in order, and
//! the first key that is wrong decides the error; after the last key, the
//! required fields must have occurred, the first missing one being the error.
use vstd::prelude::*;

use crate::envelope::{envelope_message, EnvelopeError};
use crate::text::{append, chars_equal, chars_of};

verus! {

/// Which kind of component a map configures.
#[derive(Debug, Clone, Copy, PartialEq, Eq, Structural)]
pub enum MapShape {
    Source,
    Reaction,
}

/// What reading a configuration map needs to know of a value.
#[derive(Debug, Clone)]
pub enum EntryValue {
    /// A string
    Text(String),
    /// A boolean
    Flag(bool),
    /// A list of strings
    TextList(Vec<String>),
    /// Any other value: a number, another list, a map, or null
    Other,
}

/// Why a configuration map is refused.
#[derive(Debug, Clone)]
pub enum ConfigMapError {
    /// A duplicate or misspelled field, or a missing required one
    Envelope(EnvelopeError),
    /// The value of an envelope field is not of the type the field takes
    WrongType { field: &'static str, expected: &'static str },
}

/// The type of value an envelope field takes.
#[derive(Debug, Clone, Copy, PartialEq, Eq, Structural)]
pub enum FieldType {
    Text,
    Flag,
    TextList,
    Any,
}

/// The envelope field a key names, by position: for a source `kind` 0,
/// `id` 1, `autoStart` 2, `bootstrapProvider` 3, `identityProvider` 4; for a
/// reaction `kind` 0, `id` 1, `queries` 2, `autoStart` 3.
pub open spec fn envelope_field(shape: MapShape, key: Seq<char>) -> Option<int> {
    if key == "kind"@ {
        Some(0)
    } else if key == "id"@ {
        Some(1)
    } else {
        match shape {
            MapShape::Source => if key == "autoStart"@ {
                Some(2)
            } else if key == "bootstrapProvider"@ {
                Some(3)
            } else if key == "identityProvider"@ {
                Some(4)
            } else {
                None
            },
            MapShape::Reaction => if key == "queries"@ {
                Some(2)
            } else if key == "autoStart"@ {
                Some(3)
            } else {
                None
            },
        }
    }
}

/// The name of an envelope field.
pub open spec fn envelope_field_name(shape: MapShape, f: int) -> Seq<char> {
    if f == 0 {
        "kind"@
    } else if f == 1 {
        "id"@
    } else {
        match shape {
            MapShape::Source => if f == 2 {
                "autoStart"@
            } else if f == 3 {
                "bootstrapProvider"@
            } else {
                "identityProvider"@
            },
            MapShape::Reaction => if f == 2 {
                "queries"@
            } else {
                "autoStart"@
            },
        }
    }
}

/// How many envelope fields a map has.
pub open spec fn field_count(shape: MapShape) -> int {
    match shape {
        MapShape::Source => 5,
        MapShape::Reaction => 4,
    }
}

/// How many of the envelope fields, the first ones, are required.
pub open spec fn required_count(shape: MapShape) -> int {
    match shape {
        MapShape::Source => 2,
        MapShape::Reaction => 3,
    }
}

/// The type of value an envelope field takes: `autoStart` a boolean,
/// `queries` a list of strings, `bootstrapProvider` anything, the others a
/// string.
pub open spec fn field_type(shape: MapShape, f: int) -> FieldType {
    match shape {
        MapShape::Source => if f == 2 {
            FieldType::Flag
        } else if f == 3 {
            FieldType::Any
        } else {
            FieldType::Text
        },
        MapShape::Reaction => if f == 2 {
            FieldType::TextList
        } else if f == 3 {
            FieldType::Flag
        } else {
            FieldType::Text
        },
    }
}

/// How an error names a type.
pub open spec fn type_label(t: FieldType) -> Seq<char> {
    match t {
        FieldType::Flag => "a boolean"@,
        FieldType::TextList => "a sequence of strings"@,
        _ => "a string"@,
    }
}

/// The field that a refused snake_case key misspells.
pub open spec fn envelope_misspelling(shape: MapShape, key: Seq<char>) -> Option<Seq<char>> {
    if key == "auto_start"@ {
        Some("autoStart"@)
    } else {
        match shape {
            MapShape::Source => if key == "bootstrap_provider"@ {
                Some("bootstrapProvider"@)
            } else if key == "identity_provider"@ {
                Some("identityProvider"@)
            } else {
                None
            },
            MapShape::Reaction => None,
        }
    }
}

/// Whether a value is of a type.
pub open spec fn fits(t: FieldType, v: EntryValue) -> bool {
    match (t, v) {
        (FieldType::Text, EntryValue::Text(_)) => true,
        (FieldType::Flag, EntryValue::Flag(_)) => true,
        (FieldType::TextList, EntryValue::TextList(_)) => true,
        (FieldType::Any, _) => true,
        _ => false,
    }
}

/// The keys of a map.
pub open spec fn keys_of(e: Seq<(String, EntryValue)>) -> Seq<Seq<char>> {
    e.map_values(|p: (String, EntryValue)| p.0@)
}

/// The first position before `n` whose key names field `f`.
pub open spec fn first_position(shape: MapShape, e: Seq<(String, EntryValue)>, n: int, f: int) -> Option<
    int,
>
    decreases n,
{
    if n <= 0 {
        None
    } else {
        match first_position(shape, e, n - 1, f) {
            Some(p) => Some(p),
            None => if envelope_field(shape, e[n - 1].0@) == Some(f) {
                Some(n - 1)
            } else {
                None
            },
        }
    }
}

/// The positions before `n` whose keys name no envelope field, in order.
pub open spec fn config_positions(shape: MapShape, e: Seq<(String, EntryValue)>, n: int) -> Seq<int>
    decreases n,
{
    if n <= 0 {
        Seq::empty()
    } else {
        let p = config_positions(shape, e, n - 1);
        if envelope_field(shape, e[n - 1].0@) is None {
            p.push(n - 1)
        } else {
            p
        }
    }
}

/// The plugin's configuration as an object built from the first `n`
/// entries: each entry whose key is no envelope field is inserted, a later
/// entry replacing an earlier one with the same key; the value of a key is
/// the position of its entry.
pub open spec fn config_object(shape: MapShape, e: Seq<(String, EntryValue)>, n: int) -> Map<
    Seq<char>,
    int,
>
    decreases n,
{
    if n <= 0 {
        Map::empty()
    } else {
        let m = config_object(shape, e, n - 1);
        if envelope_field(shape, e[n - 1].0@) is None {
            m.insert(e[n - 1].0@, n - 1)
        } else {
            m
        }
    }
}

/// Whether a list of keys with positions, no key twice, holds exactly the
/// object `m`.
pub open spec fn lists_object(v: Seq<(String, usize)>, m: Map<Seq<char>, int>) -> bool {
    &&& forall|i: int, j: int| 0 <= i < j < v.len() ==> #[trigger] v[i].0@ != #[trigger] v[j].0@
    &&& forall|i: int|
        0 <= i < v.len() ==> m.contains_key(#[trigger] v[i].0@) && m[v[i].0@] == v[i].1 as int
    &&& forall|k: Seq<char>|
        #[trigger] m.contains_key(k) ==> exists|i: int| 0 <= i < v.len() && v[i].0@ == k
}

/// Whether the key at position `i` is wrong: a refused misspelling, an
/// envelope field that occurred before, or one whose value has the wrong
/// type.
pub open spec fn defect_at(shape: MapShape, e: Seq<(String, EntryValue)>, i: int) -> bool {
    let key = e[i].0@;
    ||| envelope_misspelling(shape, key) is Some
    ||| match envelope_field(shape, key) {
        Some(f) => first_position(shape, e, i, f) is Some || !fits(field_type(shape, f), e[i].1),
        None => false,
    }
}

/// The first wrong key at or after position `i`.
pub open spec fn first_defect_from(shape: MapShape, e: Seq<(String, EntryValue)>, i: int) -> Option<
    int,
>
    decreases e.len() - i,
{
    if i >= e.len() {
        None
    } else if defect_at(shape, e, i) {
        Some(i)
    } else {
        first_defect_from(shape, e, i + 1)
    }
}

/// The error of the wrong key at position `i`.
pub open spec fn is_defect_error(
    err: ConfigMapError,
    shape: MapShape,
    e: Seq<(String, EntryValue)>,
    i: int,
) -> bool {
    let key = e[i].0@;
    match envelope_misspelling(shape, key) {
        Some(m) => err matches ConfigMapError::Envelope(
            EnvelopeError::Misspelled { found, expected },
        ) && found@ == key && expected@ == m,
        None => match envelope_field(shape, key) {
            Some(f) => if first_position(shape, e, i, f) is Some {
                err matches ConfigMapError::Envelope(EnvelopeError::DuplicateField(n)) && n@
                    == envelope_field_name(shape, f)
            } else {
                err matches ConfigMapError::WrongType { field, expected } && field@
                    == envelope_field_name(shape, f) && expected@ == type_label(
                    field_type(shape, f),
                )
            },
            None => false,
        },
    }
}

/// The first required field from `f` on that does not occur.
pub open spec fn first_missing_from(shape: MapShape, e: Seq<(String, EntryValue)>, f: int) -> Option<
    int,
>
    decreases required_count(shape) - f,
{
    if f >= required_count(shape) {
        None
    } else if first_position(shape, e, e.len() as int, f) is None {
        Some(f)
    } else {
        first_missing_from(shape, e, f + 1)
    }
}

/// Whether a configuration map is accepted: no key is wrong, and every
/// required field occurs.
pub open spec fn map_accepted(shape: MapShape, e: Seq<(String, EntryValue)>) -> bool {
    &&& first_defect_from(shape, e, 0) is None
    &&& first_missing_from(shape, e, 0) is None
}

/// What reading a map gives: the error of its first wrong key; else that of
/// its first missing required field; else acceptance.
pub open spec fn is_outcome_of<T>(r: Result<T, ConfigMapError>, shape: MapShape, e: Seq<(String, EntryValue)>) -> bool {
    match first_defect_from(shape, e, 0) {
        Some(i) => r matches Err(err) && is_defect_error(err, shape, e, i),
        None => match first_missing_from(shape, e, 0) {
            Some(f) => r matches Err(ConfigMapError::Envelope(EnvelopeError::MissingField(n)))
                && n@ == envelope_field_name(shape, f),
            None => r is Ok,
        },
    }
}

/// The text of the value at position `p` (empty when it is no string).
pub open spec fn text_at(e: Seq<(String, EntryValue)>, p: int) -> Seq<char> {
    match e[p].1 {
        EntryValue::Text(t) => t@,
        _ => Seq::empty(),
    }
}

/// The boolean at position `p` (false when it is none).
pub open spec fn flag_at(e: Seq<(String, EntryValue)>, p: int) -> bool {
    match e[p].1 {
        EntryValue::Flag(b) => b,
        _ => false,
    }
}

/// The strings of the list at position `p` (none when it is no list).
pub open spec fn texts_at(e: Seq<(String, EntryValue)>, p: int) -> Seq<Seq<char>> {
    match e[p].1 {
        EntryValue::TextList(v) => strings_view(v@),
        _ => Seq::empty(),
    }
}

pub open spec fn strings_view(v: Seq<String>) -> Seq<Seq<char>> {
    v.map_values(|s: String| s@)
}

/// The text of field `f`'s occurrence.
pub open spec fn field_text(shape: MapShape, e: Seq<(String, EntryValue)>, f: int) -> Option<Seq<char>> {
    match first_position(shape, e, e.len() as int, f) {
        Some(p) => Some(text_at(e, p)),
        None => None,
    }
}

/// The boolean of field `f`'s occurrence, true when it does not occur.
pub open spec fn field_flag_or_true(shape: MapShape, e: Seq<(String, EntryValue)>, f: int) -> bool {
    match first_position(shape, e, e.len() as int, f) {
        Some(p) => flag_at(e, p),
        None => true,
    }
}

/// The positions, as integers.
pub open spec fn positions_view(v: Seq<usize>) -> Seq<int> {
    v.map_values(|p: usize| p as int)
}

pub open spec fn opt_text(v: Option<String>) -> Option<Seq<char>> {
    match v {
        Some(t) => Some(t@),
        None => None,
    }
}

pub open spec fn opt_position(v: Option<usize>) -> Option<int> {
    match v {
        Some(p) => Some(p as int),
        None => None,
    }
}

/// Where each envelope field of a map is, and the positions of the
/// plugin's own entries, in order.
pub struct EnvelopePositions {
    pub fields: Vec<Option<usize>>,
    pub config: Vec<usize>,
}

/// The positions of an accepted map.
pub open spec fn is_positions_of(
    m: EnvelopePositions,
    shape: MapShape,
    e: Seq<(String, EntryValue)>,
) -> bool {
    &&& m.fields@.len() == field_count(shape)
    &&& forall|f: int|
        0 <= f < field_count(shape) ==> opt_position(#[trigger] m.fields@[f]) == first_position(
            shape,
            e,
            e.len() as int,
            f,
        )
    &&& positions_view(m.config@) == config_positions(shape, e, e.len() as int)
}

fn same_str(a: &str, b: &str) -> (r: bool)
    ensures
        r == (a@ == b@),
{
    chars_equal(&chars_of(a), &chars_of(b))
}

/// The envelope field a key names.
fn field_of(shape: MapShape, key: &str) -> (r: Option<usize>)
    ensures
        opt_position(r) == envelope_field(shape, key@),
        r matches Some(f) ==> f < field_count(shape),
{
    proof {
        reveal_strlit("kind");
        reveal_strlit("id");
        reveal_strlit("autoStart");
        reveal_strlit("bootstrapProvider");
        reveal_strlit("identityProvider");
        reveal_strlit("queries");
    }
    if same_str(key, "kind") {
        Some(0)
    } else if same_str(key, "id") {
        Some(1)
    } else {
        match shape {
            MapShape::Source => if same_str(key, "autoStart") {
                Some(2)
            } else if same_str(key, "bootstrapProvider") {
                Some(3)
            } else if same_str(key, "identityProvider") {
                Some(4)
            } else {
                None
            },
            MapShape::Reaction => if same_str(key, "queries") {
                Some(2)
            } else if same_str(key, "autoStart") {
                Some(3)
            } else {
                None
            },
        }
    }
}

/// The name of an envelope field.
fn field_name(shape: MapShape, f: usize) -> (r: &'static str)
    ensures
        r@ == envelope_field_name(shape, f as int),
{
    proof {
        reveal_strlit("kind");
        reveal_strlit("id");
        reveal_strlit("autoStart");
        reveal_strlit("bootstrapProvider");
        reveal_strlit("identityProvider");
        reveal_strlit("queries");
    }
    if f == 0 {
        "kind"
    } else if f == 1 {
        "id"
    } else {
        match shape {
            MapShape::Source => if f == 2 {
                "autoStart"
            } else if f == 3 {
                "bootstrapProvider"
            } else {
                "identityProvider"
            },
            MapShape::Reaction => if f == 2 {
                "queries"
            } else {
                "autoStart"
            },
        }
    }
}

/// The type of value an envelope field takes.
fn type_of_field(shape: MapShape, f: usize) -> (r: FieldType)
    ensures
        r == field_type(shape, f as int),
{
    match shape {
        MapShape::Source => if f == 2 {
            FieldType::Flag
        } else if f == 3 {
            FieldType::Any
        } else {
            FieldType::Text
        },
        MapShape::Reaction => if f == 2 {
            FieldType::TextList
        } else if f == 3 {
            FieldType::Flag
        } else {
            FieldType::Text
        },
    }
}

/// How an error names a type.
fn name_of_type(t: FieldType) -> (r: &'static str)
    ensures
        r@ == type_label(t),
{
    match t {
        FieldType::Flag => "a boolean",
        FieldType::TextList => "a sequence of strings",
        _ => "a string",
    }
}

/// Whether a value is of a type.
fn value_fits(t: FieldType, v: &EntryValue) -> (r: bool)
    ensures
        r == fits(t, *v),
{
    match (t, v) {
        (FieldType::Text, EntryValue::Text(_)) => true,
        (FieldType::Flag, EntryValue::Flag(_)) => true,
        (FieldType::TextList, EntryValue::TextList(_)) => true,
        (FieldType::Any, _) => true,
        _ => false,
    }
}

/// The refused misspelling a key is, with the field it misspells.
fn misspelling_of(shape: MapShape, key: &str) -> (r: Option<(&'static str, &'static str)>)
    ensures
        match (r, envelope_misspelling(shape, key@)) {
            (Some((found, expected)), Some(m)) => found@ == key@ && expected@ == m,
            (None, None) => true,
            _ => false,
        },
{
    proof {
        reveal_strlit("auto_start");
        reveal_strlit("autoStart");
        reveal_strlit("bootstrap_provider");
        reveal_strlit("bootstrapProvider");
        reveal_strlit("identity_provider");
        reveal_strlit("identityProvider");
    }
    if same_str(key, "auto_start") {
        Some(("auto_start", "autoStart"))
    } else {
        match shape {
            MapShape::Source => if same_str(key, "bootstrap_provider") {
                Some(("bootstrap_provider", "bootstrapProvider"))
            } else if same_str(key, "identity_provider") {
                Some(("identity_provider", "identityProvider"))
            } else {
                None
            },
            MapShape::Reaction => None,
        }
    }
}

/// Without a wrong key before `i`, the first wrong key is the first at or
/// after `i`.
proof fn lemma_first_defect_skip(shape: MapShape, e: Seq<(String, EntryValue)>, i: int)
    requires
        0 <= i <= e.len(),
        forall|j: int| 0 <= j < i ==> !#[trigger] defect_at(shape, e, j),
    ensures
        first_defect_from(shape, e, 0) == first_defect_from(shape, e, i),
    decreases i,
{
    if i > 0 {
        lemma_first_defect_skip(shape, e, i - 1);
        assert(!defect_at(shape, e, i - 1));
    }
}

/// Without a missing required field before `f`, the first missing one is
/// the first at or after `f`.
proof fn lemma_first_missing_skip(shape: MapShape, e: Seq<(String, EntryValue)>, f: int)
    requires
        0 <= f <= required_count(shape),
        forall|g: int|
            0 <= g < f ==> #[trigger] first_position(shape, e, e.len() as int, g) is Some,
    ensures
        first_missing_from(shape, e, 0) == first_missing_from(shape, e, f),
    decreases f,
{
    if f > 0 {
        lemma_first_missing_skip(shape, e, f - 1);
        assert(first_position(shape, e, e.len() as int, f - 1) is Some);
    }
}

/// Reads a configuration map, given as its keys with what the reading needs
/// of each value, in order: where each envelope field is, and which entries
/// are the plugin's own.
pub fn read_envelope(shape: MapShape, entries: &Vec<(String, EntryValue)>) -> (r: Result<
    EnvelopePositions,
    ConfigMapError,
>)
    ensures
        r is Ok <==> map_accepted(shape, entries@),
        is_outcome_of(r, shape, entries@),
        r matches Ok(m) ==> is_positions_of(m, shape, entries@),
{
    let ghost e = entries@;
    let n = entries.len();
    let count: usize = match shape {
        MapShape::Source => 5,
        MapShape::Reaction => 4,
    };
    let mut fields: Vec<Option<usize>> = Vec::new();
    while fields.len() < count
        invariant
            count == field_count(shape),
            fields@.len() <= count,
            forall|f: int| 0 <= f < fields@.len() ==> #[trigger] fields@[f] is None,
        decreases count - fields@.len(),
    {
        fields.push(None);
    }
    let mut config: Vec<usize> = Vec::new();
    let mut i: usize = 0;
    while i < n
        invariant
            e == entries@,
            n == e.len(),
            i <= n,
            count == field_count(shape),
            fields@.len() == count,
            forall|j: int| 0 <= j < i ==> !#[trigger] defect_at(shape, e, j),
            forall|f: int|
                0 <= f < count ==> opt_position(#[trigger] fields@[f]) == first_position(
                    shape,
                    e,
                    i as int,
                    f,
                ),
            positions_view(config@) == config_positions(shape, e, i as int),
        decreases n - i,
    {
        let key = entries[i].0.as_str();
        let ghost ii = i as int;
        assert(e[ii].0@ == key@);
        proof {
            lemma_first_defect_skip(shape, e, ii);
        }
        match misspelling_of(shape, key) {
            Some((found, expected)) => {
                assert(defect_at(shape, e, ii));
                return Err(ConfigMapError::Envelope(EnvelopeError::Misspelled { found, expected }));
            },
            None => {},
        }
        let ghost cfg = config@;
        let ghost before = fields@;
        match field_of(shape, key) {
            None => {
                config.push(i);
                assert(positions_view(config@) =~= positions_view(cfg).push(ii));
                assert forall|f: int| 0 <= f < count implies opt_position(#[trigger] fields@[f])
                    == first_position(shape, e, ii + 1, f) by {}
            },
            Some(f) => {
                assert(opt_position(fields@[f as int]) == first_position(shape, e, ii, f as int));
                if fields[f].is_some() {
                    assert(defect_at(shape, e, ii));
                    return Err(
                        ConfigMapError::Envelope(EnvelopeError::DuplicateField(field_name(shape, f))),
                    );
                }
                let t = type_of_field(shape, f);
                if !value_fits(t, &entries[i].1) {
                    assert(defect_at(shape, e, ii));
                    return Err(
                        ConfigMapError::WrongType {
                            field: field_name(shape, f),
                            expected: name_of_type(t),
                        },
                    );
                }
                fields.set(f, Some(i));
                assert forall|g: int| 0 <= g < count implies opt_position(#[trigger] fields@[g])
                    == first_position(shape, e, ii + 1, g) by {
                    if g != f as int {
                        assert(fields@[g] == before[g]);
                    }
                }
            },
        }
        assert(!defect_at(shape, e, ii));
        i = i + 1;
    }
    proof {
        lemma_first_defect_skip(shape, e, n as int);
        assert(first_defect_from(shape, e, n as int) is None);
    }
    let required: usize = match shape {
        MapShape::Source => 2,
        MapShape::Reaction => 3,
    };
    let mut f: usize = 0;
    while f < required
        invariant
            e == entries@,
            n == e.len(),
            required == required_count(shape),
            required <= count,
            count == field_count(shape),
            fields@.len() == count,
            f <= required,
            first_defect_from(shape, e, 0) is None,
            forall|g: int|
                0 <= g < count ==> opt_position(#[trigger] fields@[g]) == first_position(
                    shape,
                    e,
                    n as int,
                    g,
                ),
            forall|g: int| 0 <= g < f ==> #[trigger] first_position(shape, e, e.len() as int, g) is Some,
        decreases required - f,
    {
        assert(opt_position(fields@[f as int]) == first_position(shape, e, n as int, f as int));
        if fields[f].is_none() {
            proof {
                lemma_first_missing_skip(shape, e, f as int);
                assert(first_position(shape, e, e.len() as int, f as int) is None);
                assert(first_missing_from(shape, e, f as int) == Some(f as int));
            }
            return Err(ConfigMapError::Envelope(EnvelopeError::MissingField(field_name(shape, f))));
        }
        f = f + 1;
    }
    proof {
        lemma_first_missing_skip(shape, e, required as int);
    }
    Ok(EnvelopePositions { fields, config })
}

/// The position in `v` of the entry with key `key`, if any.
fn find_key(v: &Vec<(String, usize)>, key: &str) -> (r: Option<usize>)
    ensures
        match r {
            Some(j) => j < v@.len() && v@[j as int].0@ == key@,
            None => forall|j: int| 0 <= j < v@.len() ==> #[trigger] v@[j].0@ != key@,
        },
{
    let mut j: usize = 0;
    while j < v.len()
        invariant
            j <= v@.len(),
            forall|k: int| 0 <= k < j ==> #[trigger] v@[k].0@ != key@,
        decreases v@.len() - j,
    {
        if same_str(v[j].0.as_str(), key) {
            return Some(j);
        }
        j = j + 1;
    }
    None
}

/// The plugin's configuration of a map as an object: each key that is no
/// envelope field, with the position of its last entry.
pub fn config_object_of(shape: MapShape, entries: &Vec<(String, EntryValue)>) -> (r: Vec<
    (String, usize),
>)
    ensures
        lists_object(r@, config_object(shape, entries@, entries@.len() as int)),
{
    let ghost e = entries@;
    let mut out: Vec<(String, usize)> = Vec::new();
    let mut i: usize = 0;
    while i < entries.len()
        invariant
            e == entries@,
            i <= e.len(),
            lists_object(out@, config_object(shape, e, i as int)),
        decreases e.len() - i,
    {
        let key = entries[i].0.as_str();
        let ghost ii = i as int;
        let ghost m = config_object(shape, e, ii);
        let ghost before = out@;
        assert(e[ii].0@ == key@);
        if field_of(shape, key).is_none() {
            let ghost m2 = m.insert(key@, ii);
            assert(config_object(shape, e, ii + 1) == m2);
            match find_key(&out, key) {
                Some(j) => {
                    out.set(j, (entries[i].0.clone(), i));
                    assert forall|a: int| 0 <= a < out@.len() implies m2.contains_key(
                        #[trigger] out@[a].0@,
                    ) && m2[out@[a].0@] == out@[a].1 as int by {
                        if a != j as int {
                            assert(out@[a] == before[a]);
                            assert(before[a].0@ != before[j as int].0@);
                        }
                    }
                    assert forall|k: Seq<char>| #[trigger] m2.contains_key(k) implies exists|a: int|
                        0 <= a < out@.len() && out@[a].0@ == k by {
                        if k == key@ {
                            assert(out@[j as int].0@ == k);
                        } else {
                            assert(m.contains_key(k));
                            let a = choose|a: int| 0 <= a < before.len() && before[a].0@ == k;
                            assert(out@[a] == before[a]);
                        }
                    }
                    assert forall|a: int, b: int| 0 <= a < b < out@.len() implies #[trigger] out@[a].0@
                        != #[trigger] out@[b].0@ by {
                        if a != j as int {
                            assert(out@[a] == before[a]);
                        }
                        if b != j as int {
                            assert(out@[b] == before[b]);
                        }
                    }
                },
                None => {
                    out.push((entries[i].0.clone(), i));
                    assert forall|a: int| 0 <= a < out@.len() implies m2.contains_key(
                        #[trigger] out@[a].0@,
                    ) && m2[out@[a].0@] == out@[a].1 as int by {
                        if a < before.len() {
                            assert(out@[a] == before[a]);
                        }
                    }
                    assert forall|k: Seq<char>| #[trigger] m2.contains_key(k) implies exists|a: int|
                        0 <= a < out@.len() && out@[a].0@ == k by {
                        if k == key@ {
                            assert(out@[before.len() as int].0@ == k);
                        } else {
                            assert(m.contains_key(k));
                            let a = choose|a: int| 0 <= a < before.len() && before[a].0@ == k;
                            assert(out@[a] == before[a]);
                        }
                    }
                    assert forall|a: int, b: int| 0 <= a < b < out@.len() implies #[trigger] out@[a].0@
                        != #[trigger] out@[b].0@ by {
                        assert(out@[a] == before[a]);
                        if b < before.len() {
                            assert(out@[b] == before[b]);
                        }
                    }
                },
            }
        } else {
            assert(config_object(shape, e, ii + 1) == m);
        }
        i = i + 1;
    }
    out
}

/// Field `f` has a first position before `n` exactly when some key before
/// `n` names it, and that position is the first such key.
pub proof fn lemma_first_position(shape: MapShape, e: Seq<(String, EntryValue)>, n: int, f: int)
    requires
        0 <= n <= e.len(),
    ensures
        first_position(shape, e, n, f) is None <==> forall|j: int|
            0 <= j < n ==> envelope_field(shape, #[trigger] e[j].0@) != Some(f),
        first_position(shape, e, n, f) matches Some(p) ==> 0 <= p < n && envelope_field(
            shape,
            e[p].0@,
        ) == Some(f) && forall|j: int|
            0 <= j < p ==> envelope_field(shape, #[trigger] e[j].0@) != Some(f),
    decreases n,
{
    if n > 0 {
        lemma_first_position(shape, e, n - 1, f);
    }
}

/// Each envelope field's name names it.
pub proof fn lemma_field_names(shape: MapShape, f: int)
    requires
        0 <= f < field_count(shape),
    ensures
        envelope_field(shape, envelope_field_name(shape, f)) == Some(f),
{
    reveal_strlit("kind");
    reveal_strlit("id");
    reveal_strlit("autoStart");
    reveal_strlit("bootstrapProvider");
    reveal_strlit("identityProvider");
    reveal_strlit("queries");
    let name = envelope_field_name(shape, f);
    assert("kind"@.len() == 4 && "id"@.len() == 2 && "autoStart"@.len() == 9);
    assert("bootstrapProvider"@.len() == 17 && "identityProvider"@.len() == 16);
    assert("queries"@.len() == 7);
    if f == 0 {
        assert(name == "kind"@);
    } else if f == 1 {
        assert(name != "kind"@);
    } else {
        assert(name != "kind"@ && name != "id"@);
        match shape {
            MapShape::Source => {
                if f == 3 {
                    assert(name != "autoStart"@);
                } else if f == 4 {
                    assert(name != "autoStart"@ && name != "bootstrapProvider"@);
                }
            },
            MapShape::Reaction => {
                if f == 3 {
                    assert(name != "queries"@);
                }
            },
        }
    }
}

/// A wrong key at `i`, at or after `start`, makes a first wrong key from
/// `start` on.
proof fn lemma_defect_found(shape: MapShape, e: Seq<(String, EntryValue)>, start: int, i: int)
    requires
        0 <= start <= i < e.len(),
        defect_at(shape, e, i),
    ensures
        first_defect_from(shape, e, start) is Some,
    decreases i - start,
{
    if start < i && !defect_at(shape, e, start) {
        lemma_defect_found(shape, e, start + 1, i);
    }
}

/// A required field that does not occur, at or after `start`, makes a
/// first missing one from `start` on; when none is missing, every required
/// field occurs.
proof fn lemma_missing(shape: MapShape, e: Seq<(String, EntryValue)>, start: int)
    requires
        0 <= start <= required_count(shape),
    ensures
        first_missing_from(shape, e, start) is None <==> forall|f: int|
            start <= f < required_count(shape) ==> #[trigger] first_position(
                shape,
                e,
                e.len() as int,
                f,
            ) is Some,
    decreases required_count(shape) - start,
{
    if start < required_count(shape) {
        lemma_missing(shape, e, start + 1);
    }
}

/// A configuration map is refused when a required field does not occur,
/// when a key is a refused snake_case spelling of an envelope field, or when
/// an envelope field occurs twice.
pub proof fn lemma_map_refused(shape: MapShape, e: Seq<(String, EntryValue)>)
    requires
        (exists|f: int|
            0 <= f < required_count(shape) && !keys_of(e).contains(
                #[trigger] envelope_field_name(shape, f),
            )) || (exists|i: int|
            0 <= i < e.len() && (#[trigger] envelope_misspelling(shape, e[i].0@)) is Some) || (exists|
            i: int,
            j: int,
        |
            0 <= i < j < e.len() && envelope_field(shape, e[i].0@) is Some && #[trigger] e[i].0@
                == #[trigger] e[j].0@),
    ensures
        !map_accepted(shape, e),
{
    let n = e.len() as int;
    if exists|f: int|
        0 <= f < required_count(shape) && !keys_of(e).contains(
            #[trigger] envelope_field_name(shape, f),
        ) {
        let f = choose|f: int|
            0 <= f < required_count(shape) && !keys_of(e).contains(
                #[trigger] envelope_field_name(shape, f),
            );
        lemma_field_names(shape, f);
        lemma_first_position(shape, e, n, f);
        assert forall|j: int| 0 <= j < n implies envelope_field(shape, #[trigger] e[j].0@) != Some(
            f,
        ) by {
            assert(keys_of(e)[j] == e[j].0@);
            if envelope_field(shape, e[j].0@) == Some(f) {
                assert(e[j].0@ == envelope_field_name(shape, f)) by {
                    reveal_strlit("kind");
                    reveal_strlit("id");
                    reveal_strlit("autoStart");
                    reveal_strlit("bootstrapProvider");
                    reveal_strlit("identityProvider");
                    reveal_strlit("queries");
                }
            }
        }
        lemma_missing(shape, e, 0);
    } else if exists|i: int|
        0 <= i < e.len() && (#[trigger] envelope_misspelling(shape, e[i].0@)) is Some {
        let i = choose|i: int|
            0 <= i < e.len() && (#[trigger] envelope_misspelling(shape, e[i].0@)) is Some;
        assert(defect_at(shape, e, i));
        lemma_defect_found(shape, e, 0, i);
    } else {
        let (i, j) = choose|i: int, j: int|
            0 <= i < j < e.len() && envelope_field(shape, e[i].0@) is Some && #[trigger] e[i].0@
                == #[trigger] e[j].0@;
        let f = envelope_field(shape, e[i].0@).unwrap();
        lemma_first_position(shape, e, j, f);
        assert(first_position(shape, e, j, f) is Some);
        assert(defect_at(shape, e, j));
        lemma_defect_found(shape, e, 0, j);
    }
}

/// A configuration map is accepted when every required field occurs, no
/// key is a refused snake_case spelling, no envelope field occurs twice, and
/// each envelope field has a value of its type.
pub proof fn lemma_map_accepted(shape: MapShape, e: Seq<(String, EntryValue)>)
    requires
        forall|f: int|
            0 <= f < required_count(shape) ==> keys_of(e).contains(
                #[trigger] envelope_field_name(shape, f),
            ),
        forall|i: int| 0 <= i < e.len() ==> (#[trigger] envelope_misspelling(shape, e[i].0@)) is None,
        forall|i: int, j: int|
            0 <= i < j < e.len() && envelope_field(shape, e[i].0@) is Some ==> #[trigger] e[i].0@
                != #[trigger] e[j].0@,
        forall|i: int|
            0 <= i < e.len() ==> (#[trigger] envelope_field(shape, e[i].0@) matches Some(f) ==> fits(
                field_type(shape, f),
                e[i].1,
            )),
    ensures
        map_accepted(shape, e),
{
    let n = e.len() as int;
    assert forall|i: int| 0 <= i < n implies !#[trigger] defect_at(shape, e, i) by {
        if envelope_field(shape, e[i].0@) is Some {
            let f = envelope_field(shape, e[i].0@).unwrap();
            lemma_first_position(shape, e, i, f);
            if first_position(shape, e, i, f) is Some {
                let p = first_position(shape, e, i, f).unwrap();
                assert(envelope_field(shape, e[p].0@) == envelope_field(shape, e[i].0@));
                assert(e[p].0@ == e[i].0@) by {
                    reveal_strlit("kind");
                    reveal_strlit("id");
                    reveal_strlit("autoStart");
                    reveal_strlit("bootstrapProvider");
                    reveal_strlit("identityProvider");
                    reveal_strlit("queries");
                }
            }
        }
    }
    lemma_first_defect_skip(shape, e, n);
    assert forall|f: int| 0 <= f < required_count(shape) implies #[trigger] first_position(
        shape,
        e,
        n,
        f,
    ) is Some by {
        lemma_field_names(shape, f);
        lemma_first_position(shape, e, n, f);
        assert(keys_of(e).contains(envelope_field_name(shape, f)));
        let k = choose|k: int| 0 <= k < keys_of(e).len() && keys_of(e)[k] == envelope_field_name(shape, f);
        assert(keys_of(e)[k] == e[k].0@);
    }
    lemma_missing(shape, e, 0);
}

/// The plugin's configuration object holds exactly the keys of the map that
/// are no envelope field, whatever their values, each with its last entry.
pub proof fn lemma_config_object(shape: MapShape, e: Seq<(String, EntryValue)>, n: int, k: Seq<char>)
    requires
        0 <= n <= e.len(),
    ensures
        config_object(shape, e, n).contains_key(k) <==> envelope_field(shape, k) is None && exists|
            j: int,
        | 0 <= j < n && #[trigger] e[j].0@ == k,
        config_object(shape, e, n).contains_key(k) ==> {
            let p = config_object(shape, e, n)[k];
            &&& 0 <= p < n
            &&& e[p].0@ == k
            &&& forall|q: int| p < q < n ==> #[trigger] e[q].0@ != k
        },
    decreases n,
{
    if n > 0 {
        lemma_config_object(shape, e, n - 1, k);
        if exists|j: int| 0 <= j < n && #[trigger] e[j].0@ == k {
            let j = choose|j: int| 0 <= j < n && #[trigger] e[j].0@ == k;
            if j < n - 1 {
                assert(exists|j: int| 0 <= j < n - 1 && #[trigger] e[j].0@ == k);
            }
        }
    }
}

/// The message of a refused map.
pub open spec fn map_error_message(err: ConfigMapError) -> Seq<char> {
    match err {
        ConfigMapError::Envelope(x) => envelope_message(x),
        ConfigMapError::WrongType { field, expected } => "invalid type for `"@ + field@
            + "`, expected "@ + expected@,
    }
}

impl ConfigMapError {
    /// The message of the error.
    pub fn message(&self) -> (r: String)
        ensures
            r@ == map_error_message(*self),
    {
        match self {
            ConfigMapError::Envelope(x) => x.message(),
            ConfigMapError::WrongType { field, expected } => {
                let mut m = String::new();
                append(&mut m, "invalid type for `");
                append(&mut m, field);
                append(&mut m, "`, expected ");
                append(&mut m, expected);
                m
            },
        }
    }
}

/// Whether `t` occurs in `s`.
pub open spec fn mentions(s: Seq<char>, t: Seq<char>) -> bool {
    exists|k: int| 0 <= k && k + t.len() <= s.len() && #[trigger] s.subrange(k, k + t.len()) == t
}

proof fn lemma_mentions_middle(a: Seq<char>, b: Seq<char>, c: Seq<char>)
    ensures
        mentions(a + b + c, b),
{
    let s = a + b + c;
    assert(s.subrange(a.len() as int, (a.len() + b.len()) as int) =~= b);
}

/// A key that names an envelope field is that field's name.
proof fn lemma_field_key(shape: MapShape, k: Seq<char>)
    ensures
        envelope_field(shape, k) matches Some(f) ==> 0 <= f < field_count(shape) && k
            == envelope_field_name(shape, f),
{
}

/// The first wrong key is a wrong key.
proof fn lemma_first_defect_is_defect(shape: MapShape, e: Seq<(String, EntryValue)>, start: int)
    requires
        0 <= start,
    ensures
        first_defect_from(shape, e, start) matches Some(i) ==> start <= i < e.len() && defect_at(
            shape,
            e,
            i,
        ),
    decreases e.len() - start,
{
    if start < e.len() && !defect_at(shape, e, start) {
        lemma_first_defect_is_defect(shape, e, start + 1);
    }
}

/// The first missing required field does not occur.
proof fn lemma_first_missing_is_missing(shape: MapShape, e: Seq<(String, EntryValue)>, start: int)
    requires
        0 <= start,
    ensures
        first_missing_from(shape, e, start) matches Some(f) ==> start <= f < required_count(shape)
            && first_position(shape, e, e.len() as int, f) is None,
    decreases required_count(shape) - start,
{
    if start < required_count(shape) && first_position(shape, e, e.len() as int, start) is Some {
        lemma_first_missing_is_missing(shape, e, start + 1);
    }
}

/// When every envelope value has its type, the error of a refused map names
/// its defect: a repeated field's error says `duplicate` and names the field
/// that occurs twice; a misspelling's names both the key and the field it
/// misspells; a missing field's names that field, which no key is.
pub proof fn lemma_refusal_message(shape: MapShape, e: Seq<(String, EntryValue)>, err: ConfigMapError)
    requires
        is_outcome_of(Err::<(), ConfigMapError>(err), shape, e),
        forall|i: int|
            0 <= i < e.len() ==> (#[trigger] envelope_field(shape, e[i].0@) matches Some(f) ==> fits(
                field_type(shape, f),
                e[i].1,
            )),
    ensures
        match err {
            ConfigMapError::Envelope(EnvelopeError::DuplicateField(n)) => {
                &&& mentions(map_error_message(err), "duplicate"@)
                &&& mentions(map_error_message(err), n@)
                &&& exists|i: int, j: int|
                    0 <= i < j < e.len() && #[trigger] e[i].0@ == n@ && #[trigger] e[j].0@ == n@
            },
            ConfigMapError::Envelope(EnvelopeError::Misspelled { found, expected }) => {
                &&& mentions(map_error_message(err), found@)
                &&& mentions(map_error_message(err), expected@)
                &&& keys_of(e).contains(found@)
                &&& envelope_misspelling(shape, found@) == Some(expected@)
            },
            ConfigMapError::Envelope(EnvelopeError::MissingField(n)) => {
                &&& mentions(map_error_message(err), n@)
                &&& !keys_of(e).contains(n@)
                &&& exists|f: int| 0 <= f < required_count(shape) && n@ == envelope_field_name(shape, f)
            },
            ConfigMapError::WrongType { .. } => false,
        },
{
    reveal_strlit("duplicate field `");
    reveal_strlit("duplicate");
    let msg = map_error_message(err);
    lemma_first_defect_is_defect(shape, e, 0);
    lemma_first_missing_is_missing(shape, e, 0);
    match first_defect_from(shape, e, 0) {
        Some(i) => {
            let key = e[i].0@;
            assert(keys_of(e)[i] == key);
            lemma_field_key(shape, key);
            match err {
                ConfigMapError::Envelope(EnvelopeError::DuplicateField(n)) => {
                    let f = envelope_field(shape, key).unwrap();
                    lemma_first_position(shape, e, i, f);
                    let p = first_position(shape, e, i, f).unwrap();
                    lemma_field_key(shape, e[p].0@);
                    assert(e[p].0@ == n@ && e[i].0@ == n@);
                    lemma_mentions_middle("duplicate field `"@, n@, "`"@);
                    assert(msg.subrange(0int, 0int + "duplicate"@.len()) =~= "duplicate"@);
                    assert(mentions(msg, "duplicate"@));
                    assert(0 <= p < i < e.len() && e[p].0@ == n@ && e[i].0@ == n@);
                },
                ConfigMapError::Envelope(EnvelopeError::Misspelled { found, expected }) => {
                    lemma_mentions_middle("unknown field `"@, found@, "`, did you mean `"@ + expected@ + "`?"@);
                    assert(msg =~= "unknown field `"@ + found@ + ("`, did you mean `"@ + expected@ + "`?"@));
                    lemma_mentions_middle("unknown field `"@ + found@ + "`, did you mean `"@, expected@, "`?"@);
                },
                _ => {},
            }
        },
        None => {
            let f = first_missing_from(shape, e, 0).unwrap();
            lemma_field_names(shape, f);
            lemma_first_position(shape, e, e.len() as int, f);
            match err {
                ConfigMapError::Envelope(EnvelopeError::MissingField(n)) => {
                    lemma_mentions_middle("missing field `"@, n@, "`"@);
                    if keys_of(e).contains(n@) {
                        let j = choose|j: int| 0 <= j < keys_of(e).len() && keys_of(e)[j] == n@;
                        assert(keys_of(e)[j] == e[j].0@);
                    }
                },
                _ => {},
            }
        },
    }
}

// ----------------------------------------------------------------------------
// Sources and reactions
// ----------------------------------------------------------------------------

/// The envelope of a source read from a map; the bootstrap provider and the
/// plugin's configuration are given by their positions in the map.
#[derive(Debug)]
pub struct SourceFields {
    pub kind: String,
    pub id: String,
    pub auto_start: bool,
    /// The position of the `bootstrapProvider` entry, if there is one
    pub bootstrap_provider: Option<usize>,
    pub identity_provider: Option<String>,
    /// The plugin's own configuration: each key with the position of its
    /// last entry
    pub config: Vec<(String, usize)>,
}

/// The envelope that an accepted source map gives: `kind`, `id` and
/// `identityProvider` are the texts of their entries, `autoStart` is the
/// boolean of its entry (true when absent), `bootstrapProvider` is its
/// entry, and the plugin's configuration is the object of every other entry.
pub open spec fn is_source_fields_of(s: SourceFields, e: Seq<(String, EntryValue)>) -> bool {
    let shape = MapShape::Source;
    &&& Some(s.kind@) == field_text(shape, e, 0)
    &&& Some(s.id@) == field_text(shape, e, 1)
    &&& s.auto_start == field_flag_or_true(shape, e, 2)
    &&& opt_position(s.bootstrap_provider) == first_position(shape, e, e.len() as int, 3)
    &&& opt_text(s.identity_provider) == field_text(shape, e, 4)
    &&& lists_object(s.config@, config_object(shape, e, e.len() as int))
}

/// The envelope of a reaction read from a map; its configuration is given
/// by the positions of the plugin's entries.
#[derive(Debug)]
pub struct ReactionFields {
    pub kind: String,
    pub id: String,
    pub queries: Vec<String>,
    pub auto_start: bool,
    /// The plugin's own configuration: each key with the position of its
    /// last entry
    pub config: Vec<(String, usize)>,
}

/// The envelope that an accepted reaction map gives: `kind` and `id` are
/// the texts of their entries, `queries` the strings of its list,
/// `autoStart` the boolean of its entry (true when absent), and the
/// plugin's configuration the object of every other entry.
pub open spec fn is_reaction_fields_of(r: ReactionFields, e: Seq<(String, EntryValue)>) -> bool {
    let shape = MapShape::Reaction;
    &&& Some(r.kind@) == field_text(shape, e, 0)
    &&& Some(r.id@) == field_text(shape, e, 1)
    &&& first_position(shape, e, e.len() as int, 2) matches Some(p) && strings_view(r.queries@)
        == texts_at(e, p)
    &&& r.auto_start == field_flag_or_true(shape, e, 3)
    &&& lists_object(r.config@, config_object(shape, e, e.len() as int))
}

fn text_of(entries: &Vec<(String, EntryValue)>, p: usize) -> (r: String)
    requires
        p < entries@.len(),
    ensures
        r@ == text_at(entries@, p as int),
{
    match &entries[p].1 {
        EntryValue::Text(t) => t.clone(),
        _ => String::new(),
    }
}

fn texts_of(entries: &Vec<(String, EntryValue)>, p: usize) -> (r: Vec<String>)
    requires
        p < entries@.len(),
    ensures
        strings_view(r@) == texts_at(entries@, p as int),
{
    let mut out: Vec<String> = Vec::new();
    match &entries[p].1 {
        EntryValue::TextList(v) => {
            let mut i: usize = 0;
            while i < v.len()
                invariant
                    i <= v@.len(),
                    out@.len() == i,
                    forall|k: int| 0 <= k < i ==> #[trigger] out@[k]@ == v@[k]@,
                decreases v@.len() - i,
            {
                out.push(v[i].clone());
                i = i + 1;
            }
            assert(strings_view(out@) =~= strings_view(v@));
        },
        _ => {
            assert(strings_view(out@) =~= Seq::<Seq<char>>::empty());
        },
    }
    out
}

fn flag_or_true(entries: &Vec<(String, EntryValue)>, p: Option<usize>) -> (r: bool)
    requires
        p matches Some(q) ==> q < entries@.len(),
    ensures
        r == match p {
            Some(q) => flag_at(entries@, q as int),
            None => true,
        },
{
    match p {
        Some(q) => match &entries[q].1 {
            EntryValue::Flag(b) => *b,
            _ => false,
        },
        None => true,
    }
}

/// Reads a source's configuration map (see `read_envelope`): `autoStart`
/// defaults to true, and the other entries are the plugin's configuration.
pub fn read_source_map(entries: &Vec<(String, EntryValue)>) -> (r: Result<
    SourceFields,
    ConfigMapError,
>)
    ensures
        r is Ok <==> map_accepted(MapShape::Source, entries@),
        is_outcome_of(r, MapShape::Source, entries@),
        r matches Ok(s) ==> is_source_fields_of(s, entries@),
{
    let ghost e = entries@;
    let m = match read_envelope(MapShape::Source, entries) {
        Ok(m) => m,
        Err(err) => {
            return Err(err);
        },
    };
    proof {
        lemma_missing(MapShape::Source, e, 0);
        assert(first_position(MapShape::Source, e, e.len() as int, 0) is Some);
        assert(first_position(MapShape::Source, e, e.len() as int, 1) is Some);
        assert(opt_position(m.fields@[0]) == first_position(MapShape::Source, e, e.len() as int, 0));
        assert(opt_position(m.fields@[1]) == first_position(MapShape::Source, e, e.len() as int, 1));
        assert(opt_position(m.fields@[2]) == first_position(MapShape::Source, e, e.len() as int, 2));
        assert(opt_position(m.fields@[3]) == first_position(MapShape::Source, e, e.len() as int, 3));
        assert(opt_position(m.fields@[4]) == first_position(MapShape::Source, e, e.len() as int, 4));
        lemma_first_position(MapShape::Source, e, e.len() as int, 0);
        lemma_first_position(MapShape::Source, e, e.len() as int, 1);
        lemma_first_position(MapShape::Source, e, e.len() as int, 2);
        lemma_first_position(MapShape::Source, e, e.len() as int, 4);
    }
    let kind = text_of(entries, m.fields[0].unwrap());
    let id = text_of(entries, m.fields[1].unwrap());
    let auto_start = flag_or_true(entries, m.fields[2]);
    let identity_provider = match m.fields[4] {
        Some(p) => Some(text_of(entries, p)),
        None => None,
    };
    Ok(
        SourceFields {
            kind,
            id,
            auto_start,
            bootstrap_provider: m.fields[3],
            identity_provider,
            config: config_object_of(MapShape::Source, entries),
        },
    )
}

/// Reads a reaction's configuration map (see `read_envelope`): `autoStart`
/// defaults to true, and the other entries are the plugin's configuration.
pub fn read_reaction_map(entries: &Vec<(String, EntryValue)>) -> (r: Result<
    ReactionFields,
    ConfigMapError,
>)
    ensures
        r is Ok <==> map_accepted(MapShape::Reaction, entries@),
        is_outcome_of(r, MapShape::Reaction, entries@),
        r matches Ok(s) ==> is_reaction_fields_of(s, entries@),
{
    let ghost e = entries@;
    let m = match read_envelope(MapShape::Reaction, entries) {
        Ok(m) => m,
        Err(err) => {
            return Err(err);
        },
    };
    proof {
        lemma_missing(MapShape::Reaction, e, 0);
        assert(first_position(MapShape::Reaction, e, e.len() as int, 0) is Some);
        assert(first_position(MapShape::Reaction, e, e.len() as int, 1) is Some);
        assert(first_position(MapShape::Reaction, e, e.len() as int, 2) is Some);
        assert(opt_position(m.fields@[0]) == first_position(MapShape::Reaction, e, e.len() as int, 0));
        assert(opt_position(m.fields@[1]) == first_position(MapShape::Reaction, e, e.len() as int, 1));
        assert(opt_position(m.fields@[2]) == first_position(MapShape::Reaction, e, e.len() as int, 2));
        assert(opt_position(m.fields@[3]) == first_position(MapShape::Reaction, e, e.len() as int, 3));
        lemma_first_position(MapShape::Reaction, e, e.len() as int, 0);
        lemma_first_position(MapShape::Reaction, e, e.len() as int, 1);
        lemma_first_position(MapShape::Reaction, e, e.len() as int, 2);
        lemma_first_position(MapShape::Reaction, e, e.len() as int, 3);
    }
    let kind = text_of(entries, m.fields[0].unwrap());
    let id = text_of(entries, m.fields[1].unwrap());
    let queries = texts_of(entries, m.fields[2].unwrap());
    let auto_start = flag_or_true(entries, m.fields[3]);
    let config = config_object_of(MapShape::Reaction, entries);
    Ok(ReactionFields { kind, id, queries, auto_start, config })
}

} // verus!
