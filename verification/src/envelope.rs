//! The envelope of a component configuration map: the few fields that the
//! server reads itself (`kind`, `id`, `autoStart`, ...), each allowed once,
//! the misspellings it refuses, and the rest, which is the plugin's own
//! configuration. Also which source fields a bootstrap provider of the same
//! kind inherits.
use vstd::prelude::*;

use crate::text::{append, chars_equal, chars_of};

verus! {

/// Whether two strings hold the same characters.
fn same_str(a: &str, b: &str) -> (r: bool)
    ensures
        r == (a@ == b@),
{
    chars_equal(&chars_of(a), &chars_of(b))
}

/// What a key of a configuration map is.
#[derive(Debug, Clone, Copy, PartialEq, Eq, Structural)]
pub enum KeyDecision {
    /// The envelope field at this position
    Field(usize),
    /// A field of the plugin's own configuration
    Config,
}

/// Why a configuration map is refused.
#[derive(Debug, Clone, Copy)]
pub enum EnvelopeError {
    /// An envelope field occurs twice
    DuplicateField(&'static str),
    /// A snake_case spelling of an envelope field
    Misspelled { found: &'static str, expected: &'static str },
    /// A required envelope field is absent
    MissingField(&'static str),
}

/// The message of an envelope error.
pub open spec fn envelope_message(e: EnvelopeError) -> Seq<char> {
    match e {
        EnvelopeError::DuplicateField(f) => "duplicate field `"@ + f@ + "`"@,
        EnvelopeError::Misspelled { found, expected } => "unknown field `"@ + found@
            + "`, did you mean `"@ + expected@ + "`?"@,
        EnvelopeError::MissingField(f) => "missing field `"@ + f@ + "`"@,
    }
}

impl EnvelopeError {
    /// The message of the error, as a deserializer reports it.
    pub fn message(&self) -> (r: String)
        ensures
            r@ == envelope_message(*self),
    {
        let mut m = String::new();
        match self {
            EnvelopeError::DuplicateField(f) => {
                append(&mut m, "duplicate field `");
                append(&mut m, f);
                append(&mut m, "`");
            },
            EnvelopeError::Misspelled { found, expected } => {
                append(&mut m, "unknown field `");
                append(&mut m, found);
                append(&mut m, "`, did you mean `");
                append(&mut m, expected);
                append(&mut m, "`?");
            },
            EnvelopeError::MissingField(f) => {
                append(&mut m, "missing field `");
                append(&mut m, f);
                append(&mut m, "`");
            },
        }
        m
    }
}

pub open spec fn strs_view(v: Seq<&'static str>) -> Seq<Seq<char>> {
    v.map_values(|s: &'static str| s@)
}

/// The position of `key` in `names`, if it is there.
pub open spec fn position_of(names: Seq<Seq<char>>, key: Seq<char>) -> Option<int> {
    if exists|i: int| 0 <= i < names.len() && names[i] == key {
        Some(choose|i: int| 0 <= i < names.len() && names[i] == key)
    } else {
        None
    }
}

/// The fields that a configuration map handles itself, which of them are
/// required (the first `required`), the misspellings it refuses, and which
/// fields it has met so far.
pub struct Envelope {
    pub fields: Vec<&'static str>,
    pub required: usize,
    pub misspellings: Vec<(&'static str, &'static str)>,
    pub seen: Vec<bool>,
}

impl Envelope {
    /// The field names are distinct, the required ones are among them, and
    /// each has a flag.
    pub open spec fn wf(&self) -> bool {
        &&& self.seen@.len() == self.fields@.len()
        &&& self.required <= self.fields@.len()
        &&& forall|i: int, j: int|
            0 <= i < j < self.fields@.len() ==> #[trigger] self.fields@[i]@
                != #[trigger] self.fields@[j]@
    }

    /// The misspelling `key` is, if any: the first whose wrong name it is.
    pub open spec fn misspelling_of(&self, key: Seq<char>) -> Option<(&'static str, &'static str)> {
        let m = self.misspellings@;
        if exists|j: int| 0 <= j < m.len() && m[j].0@ == key {
            let j = choose|j: int|
                0 <= j < m.len() && m[j].0@ == key && forall|k: int|
                    0 <= k < j ==> m[k].0@ != key;
            Some(m[j])
        } else {
            None
        }
    }

    /// An envelope that has met no field yet.
    fn fresh(
        fields: Vec<&'static str>,
        required: usize,
        misspellings: Vec<(&'static str, &'static str)>,
    ) -> (e: Self)
        requires
            required <= fields@.len(),
            forall|i: int, j: int|
                0 <= i < j < fields@.len() ==> #[trigger] fields@[i]@ != #[trigger] fields@[j]@,
        ensures
            e.wf(),
            e.fields == fields,
            e.required == required,
            e.misspellings == misspellings,
            forall|i: int| 0 <= i < e.seen@.len() ==> !#[trigger] e.seen@[i],
    {
        let mut seen: Vec<bool> = Vec::new();
        let mut i: usize = 0;
        while i < fields.len()
            invariant
                i <= fields@.len(),
                seen@.len() == i,
                forall|k: int| 0 <= k < i ==> !#[trigger] seen@[k],
            decreases fields@.len() - i,
        {
            seen.push(false);
            i = i + 1;
        }
        Envelope { fields, required, misspellings, seen }
    }

    /// The envelope of a source: `kind` and `id` required, `autoStart`,
    /// `bootstrapProvider` and `identityProvider` optional; their snake_case
    /// spellings refused.
    pub fn source() -> (e: Self)
        ensures
            e.wf(),
            strs_view(e.fields@) == seq![
                "kind"@,
                "id"@,
                "autoStart"@,
                "bootstrapProvider"@,
                "identityProvider"@,
            ],
            e.required == 2,
            e.misspellings@ == seq![
                ("auto_start", "autoStart"),
                ("bootstrap_provider", "bootstrapProvider"),
                ("identity_provider", "identityProvider"),
            ],
            forall|i: int| 0 <= i < e.seen@.len() ==> !#[trigger] e.seen@[i],
    {
        let fields: Vec<&'static str> = vec![
            "kind",
            "id",
            "autoStart",
            "bootstrapProvider",
            "identityProvider",
        ];
        proof {
            reveal_strlit("kind");
            reveal_strlit("id");
            reveal_strlit("autoStart");
            reveal_strlit("bootstrapProvider");
            reveal_strlit("identityProvider");
            assert(strs_view(fields@) =~= seq![
                "kind"@,
                "id"@,
                "autoStart"@,
                "bootstrapProvider"@,
                "identityProvider"@,
            ]);
            assert forall|i: int, j: int| 0 <= i < j < fields@.len() implies #[trigger] fields@[i]@
                != #[trigger] fields@[j]@ by {
                assert(fields@[i]@ == strs_view(fields@)[i]);
                assert(fields@[j]@ == strs_view(fields@)[j]);
            }
        }
        let misspellings: Vec<(&'static str, &'static str)> = vec![
            ("auto_start", "autoStart"),
            ("bootstrap_provider", "bootstrapProvider"),
            ("identity_provider", "identityProvider"),
        ];
        Self::fresh(fields, 2, misspellings)
    }

    /// The envelope of a reaction: `kind`, `id` and `queries` required,
    /// `autoStart` optional; `auto_start` refused.
    pub fn reaction() -> (e: Self)
        ensures
            e.wf(),
            strs_view(e.fields@) == seq!["kind"@, "id"@, "queries"@, "autoStart"@],
            e.required == 3,
            e.misspellings@ == seq![("auto_start", "autoStart")],
            forall|i: int| 0 <= i < e.seen@.len() ==> !#[trigger] e.seen@[i],
    {
        let fields: Vec<&'static str> = vec!["kind", "id", "queries", "autoStart"];
        proof {
            reveal_strlit("kind");
            reveal_strlit("id");
            reveal_strlit("queries");
            reveal_strlit("autoStart");
            assert(strs_view(fields@) =~= seq!["kind"@, "id"@, "queries"@, "autoStart"@]);
            assert forall|i: int, j: int| 0 <= i < j < fields@.len() implies #[trigger] fields@[i]@
                != #[trigger] fields@[j]@ by {
                assert(fields@[i]@ == strs_view(fields@)[i]);
                assert(fields@[j]@ == strs_view(fields@)[j]);
            }
        }
        let misspellings: Vec<(&'static str, &'static str)> = vec![("auto_start", "autoStart")];
        Self::fresh(fields, 3, misspellings)
    }

    /// The envelope of an identity provider or of a top-level bootstrap
    /// provider: `kind` and `id`, both required.
    pub fn kind_and_id() -> (e: Self)
        ensures
            e.wf(),
            strs_view(e.fields@) == seq!["kind"@, "id"@],
            e.required == 2,
            e.misspellings@.len() == 0,
            forall|i: int| 0 <= i < e.seen@.len() ==> !#[trigger] e.seen@[i],
    {
        let fields: Vec<&'static str> = vec!["kind", "id"];
        proof {
            reveal_strlit("kind");
            reveal_strlit("id");
            assert(strs_view(fields@) =~= seq!["kind"@, "id"@]);
            assert forall|i: int, j: int| 0 <= i < j < fields@.len() implies #[trigger] fields@[i]@
                != #[trigger] fields@[j]@ by {
                assert(fields@[i]@ == strs_view(fields@)[i]);
                assert(fields@[j]@ == strs_view(fields@)[j]);
            }
        }
        Self::fresh(fields, 2, Vec::new())
    }

    /// The envelope of a bootstrap provider or of a state store: `kind`,
    /// required.
    pub fn kind_only() -> (e: Self)
        ensures
            e.wf(),
            strs_view(e.fields@) == seq!["kind"@],
            e.required == 1,
            e.misspellings@.len() == 0,
            forall|i: int| 0 <= i < e.seen@.len() ==> !#[trigger] e.seen@[i],
    {
        let fields: Vec<&'static str> = vec!["kind"];
        proof {
            reveal_strlit("kind");
            assert(strs_view(fields@) =~= seq!["kind"@]);
        }
        Self::fresh(fields, 1, Vec::new())
    }

    /// Reads one key of the map: an envelope field met for the first time is
    /// taken (and marked), one met before is a duplicate, a refused
    /// misspelling is an error, and anything else belongs to the plugin.
    pub fn read_key(&mut self, key: &str) -> (r: Result<KeyDecision, EnvelopeError>)
        requires
            old(self).wf(),
        ensures
            final(self).wf(),
            final(self).fields == old(self).fields,
            final(self).required == old(self).required,
            final(self).misspellings == old(self).misspellings,
            match position_of(strs_view(old(self).fields@), key@) {
                Some(i) => if old(self).seen@[i] {
                    &&& r matches Err(EnvelopeError::DuplicateField(f)) && f == old(self).fields@[i]
                    &&& final(self).seen@ == old(self).seen@
                } else {
                    &&& r == Ok::<KeyDecision, EnvelopeError>(KeyDecision::Field(i as usize))
                    &&& final(self).seen@ == old(self).seen@.update(i, true)
                },
                None => {
                    &&& final(self).seen@ == old(self).seen@
                    &&& match old(self).misspelling_of(key@) {
                        Some(m) => r matches Err(EnvelopeError::Misspelled { found, expected })
                            && found == m.0 && expected == m.1,
                        None => r == Ok::<KeyDecision, EnvelopeError>(KeyDecision::Config),
                    }
                },
            },
    {
        let ghost names = strs_view(self.fields@);
        let mut i: usize = 0;
        while i < self.fields.len()
            invariant
                *self == *old(self),
                self.wf(),
                i <= self.fields@.len(),
                names == strs_view(self.fields@),
                forall|k: int| 0 <= k < i ==> names[k] != key@,
            decreases self.fields@.len() - i,
        {
            if same_str(self.fields[i], key) {
                proof {
                    assert(names[i as int] == key@);
                    let c = choose|c: int| 0 <= c < names.len() && names[c] == key@;
                    if c != i {
                        if c < i {
                            assert(self.fields@[c]@ != self.fields@[i as int]@);
                        } else {
                            assert(self.fields@[i as int]@ != self.fields@[c]@);
                        }
                    }
                }
                if self.seen[i] {
                    return Err(EnvelopeError::DuplicateField(self.fields[i]));
                }
                self.seen.set(i, true);
                return Ok(KeyDecision::Field(i));
            }
            i = i + 1;
        }
        let ghost m = self.misspellings@;
        let mut j: usize = 0;
        while j < self.misspellings.len()
            invariant
                *self == *old(self),
                self.wf(),
                forall|k: int| 0 <= k < self.fields@.len() ==> names[k] != key@,
                names == strs_view(self.fields@),
                j <= m.len(),
                m == self.misspellings@,
                forall|k: int| 0 <= k < j ==> m[k].0@ != key@,
            decreases m.len() - j,
        {
            let (found, expected) = self.misspellings[j];
            if same_str(found, key) {
                proof {
                    assert(m[j as int].0@ == key@);
                    assert(0 <= j < m.len() && m[j as int].0@ == key@ && forall|k: int|
                        0 <= k < j ==> m[k].0@ != key@);
                    let c = choose|c: int|
                        0 <= c < m.len() && m[c].0@ == key@ && forall|k: int|
                            0 <= k < c ==> m[k].0@ != key@;
                    if c > j {
                        assert(m[j as int].0@ != key@);
                    }
                }
                return Err(EnvelopeError::Misspelled { found, expected });
            }
            j = j + 1;
        }
        Ok(KeyDecision::Config)
    }

    /// After the last key: the first required field that did not occur, if any.
    pub fn check_required(&self) -> (r: Result<(), EnvelopeError>)
        requires
            self.wf(),
        ensures
            r is Ok <==> forall|i: int| 0 <= i < self.required ==> #[trigger] self.seen@[i],
            r matches Err(e) ==> exists|i: int|
                0 <= i < self.required && !self.seen@[i] && (forall|k: int|
                    0 <= k < i ==> #[trigger] self.seen@[k]) && e
                    == EnvelopeError::MissingField(self.fields@[i]),
    {
        let mut i: usize = 0;
        while i < self.required
            invariant
                self.wf(),
                i <= self.required,
                forall|k: int| 0 <= k < i ==> #[trigger] self.seen@[k],
            decreases self.required - i,
        {
            if !self.seen[i] {
                return Err(EnvelopeError::MissingField(self.fields[i]));
            }
            i = i + 1;
        }
        Ok(())
    }
}

// ----------------------------------------------------------------------------
// Bootstrap providers that inherit the settings of their source
// ----------------------------------------------------------------------------

/// The source fields that a bootstrap provider of the same kind may inherit:
/// the connection settings for `postgres`, the files for `scriptfile`,
/// nothing for `application` and `noop`; other kinds inherit nothing and are
/// left as they are.
pub open spec fn allowed_fields(kind: Seq<char>) -> Option<Seq<Seq<char>>> {
    if kind == "postgres"@ {
        Some(
            seq![
                "host"@,
                "port"@,
                "database"@,
                "user"@,
                "password"@,
                "tables"@,
                "slotName"@,
                "publicationName"@,
                "sslMode"@,
                "tableKeys"@,
            ],
        )
    } else if kind == "scriptfile"@ {
        Some(seq!["filePaths"@])
    } else if kind == "application"@ || kind == "noop"@ {
        Some(seq![])
    } else {
        None
    }
}

/// The source fields that a bootstrap provider of kind `kind` may inherit.
pub fn allowed_bootstrap_provider_fields(kind: &str) -> (r: Option<Vec<&'static str>>)
    ensures
        match r {
            Some(v) => allowed_fields(kind@) == Some(strs_view(v@)),
            None => allowed_fields(kind@) is None,
        },
{
    if same_str(kind, "postgres") {
        let v: Vec<&'static str> = vec![
            "host",
            "port",
            "database",
            "user",
            "password",
            "tables",
            "slotName",
            "publicationName",
            "sslMode",
            "tableKeys",
        ];
        assert(strs_view(v@) =~= seq![
            "host"@,
            "port"@,
            "database"@,
            "user"@,
            "password"@,
            "tables"@,
            "slotName"@,
            "publicationName"@,
            "sslMode"@,
            "tableKeys"@,
        ]);
        Some(v)
    } else if same_str(kind, "scriptfile") {
        let v: Vec<&'static str> = vec!["filePaths"];
        assert(strs_view(v@) =~= seq!["filePaths"@]);
        Some(v)
    } else if same_str(kind, "application") || same_str(kind, "noop") {
        let v: Vec<&'static str> = Vec::new();
        assert(strs_view(v@) =~= Seq::<Seq<char>>::empty());
        Some(v)
    } else {
        None
    }
}

pub open spec fn strings_view(v: Seq<String>) -> Seq<Seq<char>> {
    v.map_values(|s: String| s@)
}

/// The allowed fields, in order, that the bootstrap provider lacks and the
/// source has.
pub open spec fn missing_present(allowed: Seq<Seq<char>>, bootstrap_keys: Seq<Seq<char>>, source_keys: Seq<
    Seq<char>,
>) -> Seq<Seq<char>> {
    allowed.filter(|f: Seq<char>| !bootstrap_keys.contains(f) && source_keys.contains(f))
}

/// The fields that a bootstrap provider inherits from its source: when its
/// kind is the source's kind and that kind allows inheriting, each allowed
/// field that the provider does not set and the source does; else none.
pub open spec fn inherited(
    source_kind: Seq<char>,
    bootstrap_kind: Option<Seq<char>>,
    bootstrap_keys: Seq<Seq<char>>,
    source_keys: Seq<Seq<char>>,
) -> Seq<Seq<char>> {
    match bootstrap_kind {
        Some(k) => if k == source_kind {
            match allowed_fields(k) {
                Some(a) => missing_present(a, bootstrap_keys, source_keys),
                None => seq![],
            }
        } else {
            seq![]
        },
        None => seq![],
    }
}

fn contains_key(keys: &Vec<String>, f: &str) -> (r: bool)
    ensures
        r == strings_view(keys@).contains(f@),
{
    let ghost view = strings_view(keys@);
    let mut i: usize = 0;
    while i < keys.len()
        invariant
            i <= keys@.len(),
            view == strings_view(keys@),
            forall|j: int| 0 <= j < i ==> view[j] != f@,
        decreases keys@.len() - i,
    {
        if same_str(keys[i].as_str(), f) {
            assert(view[i as int] == f@);
            return true;
        }
        i = i + 1;
    }
    false
}

/// The source fields that a bootstrap provider inherits: given the source's
/// kind, the provider's `kind` (when it is a string), the keys the provider
/// sets and the keys of the source's own configuration.
pub fn inherited_bootstrap_fields(
    source_kind: &str,
    bootstrap_kind: Option<&str>,
    bootstrap_keys: &Vec<String>,
    source_keys: &Vec<String>,
) -> (r: Vec<&'static str>)
    ensures
        strs_view(r@) == inherited(
            source_kind@,
            match bootstrap_kind {
                Some(k) => Some(k@),
                None => None,
            },
            strings_view(bootstrap_keys@),
            strings_view(source_keys@),
        ),
{
    let mut out: Vec<&'static str> = Vec::new();
    let bk = match bootstrap_kind {
        Some(k) => k,
        None => {
            assert(strs_view(out@) =~= Seq::<Seq<char>>::empty());
            return out;
        },
    };
    if !same_str(bk, source_kind) {
        assert(strs_view(out@) =~= Seq::<Seq<char>>::empty());
        return out;
    }
    let allowed = match allowed_bootstrap_provider_fields(bk) {
        Some(a) => a,
        None => {
            assert(strs_view(out@) =~= Seq::<Seq<char>>::empty());
            return out;
        },
    };
    let ghost av = strs_view(allowed@);
    let ghost bv = strings_view(bootstrap_keys@);
    let ghost sv = strings_view(source_keys@);
    let mut i: usize = 0;
    assert(av.subrange(0, 0) =~= Seq::<Seq<char>>::empty());
    assert(missing_present(av.subrange(0, 0), bv, sv) =~= Seq::<Seq<char>>::empty());
    assert(strs_view(out@) =~= Seq::<Seq<char>>::empty());
    while i < allowed.len()
        invariant
            i <= allowed@.len(),
            av == strs_view(allowed@),
            bv == strings_view(bootstrap_keys@),
            sv == strings_view(source_keys@),
            strs_view(out@) == missing_present(av.subrange(0, i as int), bv, sv),
        decreases allowed@.len() - i,
    {
        let f = allowed[i];
        let ghost before = out@;
        let ghost prefix = av.subrange(0, i + 1);
        assert(prefix.drop_last() =~= av.subrange(0, i as int));
        assert(prefix.last() == f@);
        proof {
            av.subrange(0, i as int).lemma_filter_push(
                f@,
                |g: Seq<char>| !bv.contains(g) && sv.contains(g),
            );
            assert(av.subrange(0, i as int).push(f@) =~= prefix);
        }
        if !contains_key(bootstrap_keys, f) && contains_key(source_keys, f) {
            out.push(f);
            assert(strs_view(out@) =~= strs_view(before).push(f@));
        }
        i = i + 1;
    }
    assert(av.subrange(0, allowed@.len() as int) =~= av);
    out
}

/// The identity provider kind that the runtime provides itself.
pub const BUILTIN_PASSWORD_KIND: &'static str = "password";

/// Whether an identity provider kind is built in (`password`), so that no
/// plugin is needed for it.
pub fn is_builtin_identity_kind(kind: &str) -> (r: bool)
    ensures
        r == (kind@ == "password"@),
{
    same_str(kind, "password")
}

/// What a filter keeps was there before.
proof fn lemma_filter_keeps_members(s: Seq<Seq<char>>, pred: spec_fn(Seq<char>) -> bool, x: Seq<char>)
    ensures
        s.filter(pred).contains(x) ==> s.contains(x),
    decreases s.len(),
{
    reveal(Seq::filter);
    if s.len() > 0 {
        let init = s.drop_last();
        lemma_filter_keeps_members(init, pred, x);
        if s.filter(pred).contains(x) {
            let sub = init.filter(pred);
            let j = choose|j: int| 0 <= j < s.filter(pred).len() && s.filter(pred)[j] == x;
            if pred(s.last()) && j == sub.len() {
                assert(s[s.len() - 1] == x);
            } else {
                assert(sub[j] == x);
                assert(sub.contains(x));
                let k = choose|k: int| 0 <= k < init.len() && init[k] == x;
                assert(s[k] == x);
            }
        }
    }
}

/// A postgres bootstrap provider of a postgres source inherits every postgres
/// connection field (host, port, database, user, password, tables, slotName,
/// publicationName, sslMode, tableKeys) that the source sets and the provider
/// does not, and nothing else.
pub proof fn lemma_postgres_bootstrap_inherits(
    bootstrap_keys: Seq<Seq<char>>,
    source_keys: Seq<Seq<char>>,
    f: Seq<char>,
)
    ensures
        inherited("postgres"@, Some("postgres"@), bootstrap_keys, source_keys).contains(f) <==> {
            &&& (f == "host"@ || f == "port"@ || f == "database"@ || f == "user"@ || f == "password"@
                || f == "tables"@ || f == "slotName"@ || f == "publicationName"@ || f == "sslMode"@
                || f == "tableKeys"@)
            &&& source_keys.contains(f)
            &&& !bootstrap_keys.contains(f)
        },
{
    let a = allowed_fields("postgres"@)->0;
    let pred = |g: Seq<char>| !bootstrap_keys.contains(g) && source_keys.contains(g);
    assert(inherited("postgres"@, Some("postgres"@), bootstrap_keys, source_keys) == a.filter(pred));
    if a.contains(f) && pred(f) {
        let i = choose|i: int| 0 <= i < a.len() && a[i] == f;
        a.lemma_filter_contains(pred, i);
    }
    if a.filter(pred).contains(f) {
        let i = choose|i: int| 0 <= i < a.filter(pred).len() && a.filter(pred)[i] == f;
        a.lemma_filter_pred(pred, i);
        lemma_filter_keeps_members(a, pred, f);
    }
    assert(a.contains(f) <==> (f == "host"@ || f == "port"@ || f == "database"@ || f == "user"@
        || f == "password"@ || f == "tables"@ || f == "slotName"@ || f == "publicationName"@
        || f == "sslMode"@ || f == "tableKeys"@)) by {
        if f == "host"@ { assert(a[0] == f); }
        if f == "port"@ { assert(a[1] == f); }
        if f == "database"@ { assert(a[2] == f); }
        if f == "user"@ { assert(a[3] == f); }
        if f == "password"@ { assert(a[4] == f); }
        if f == "tables"@ { assert(a[5] == f); }
        if f == "slotName"@ { assert(a[6] == f); }
        if f == "publicationName"@ { assert(a[7] == f); }
        if f == "sslMode"@ { assert(a[8] == f); }
        if f == "tableKeys"@ { assert(a[9] == f); }
    }
}

/// A scriptfile bootstrap provider of a scriptfile source inherits the
/// source's `filePaths` when it sets none; application and noop providers
/// inherit nothing; and a provider whose kind is not its source's inherits
/// nothing.
pub proof fn lemma_bootstrap_inheritance_by_kind(
    source_kind: Seq<char>,
    bootstrap_kind: Option<Seq<char>>,
    bootstrap_keys: Seq<Seq<char>>,
    source_keys: Seq<Seq<char>>,
    f: Seq<char>,
)
    ensures
        bootstrap_kind != Some(source_kind) ==> inherited(source_kind, bootstrap_kind, bootstrap_keys, source_keys).len() == 0,
        (source_kind == "application"@ || source_kind == "noop"@) ==> inherited(source_kind, bootstrap_kind, bootstrap_keys, source_keys).len() == 0,
        inherited("scriptfile"@, Some("scriptfile"@), bootstrap_keys, source_keys).contains(f) <==> (f
            == "filePaths"@ && source_keys.contains(f) && !bootstrap_keys.contains(f)),
        inherited(source_kind, bootstrap_kind, bootstrap_keys, source_keys).contains(f) ==> source_keys.contains(f)
            && !bootstrap_keys.contains(f),
{
    reveal_strlit("postgres");
    reveal_strlit("scriptfile");
    reveal_strlit("application");
    reveal_strlit("noop");
    assert("postgres"@.len() == 8 && "scriptfile"@.len() == 10 && "application"@.len() == 11
        && "noop"@.len() == 4);
    let pred = |g: Seq<char>| !bootstrap_keys.contains(g) && source_keys.contains(g);
    let a = seq!["filePaths"@];
    assert(allowed_fields("scriptfile"@) == Some(a));
    assert(inherited("scriptfile"@, Some("scriptfile"@), bootstrap_keys, source_keys) == a.filter(pred));
    if f == "filePaths"@ && pred(f) {
        assert(a[0] == f);
        a.lemma_filter_contains(pred, 0);
    }
    if a.filter(pred).contains(f) {
        lemma_filter_keeps_members(a, pred, f);
        let i = choose|i: int| 0 <= i < a.filter(pred).len() && a.filter(pred)[i] == f;
        a.lemma_filter_pred(pred, i);
        let k = choose|k: int| 0 <= k < a.len() && a[k] == f;
        assert(k == 0);
    }
    if (source_kind == "application"@ || source_kind == "noop"@) {
        assert(allowed_fields(source_kind) == Some(Seq::<Seq<char>>::empty()));
        assert(Seq::<Seq<char>>::empty().filter(pred) =~= Seq::<Seq<char>>::empty()) by {
            reveal(Seq::filter);
        }
    }
    let inh = inherited(source_kind, bootstrap_kind, bootstrap_keys, source_keys);
    if inh.contains(f) {
        let i = choose|i: int| 0 <= i < inh.len() && inh[i] == f;
        let al = allowed_fields(source_kind)->0;
        al.lemma_filter_pred(pred, i);
    }
}

} // verus!
