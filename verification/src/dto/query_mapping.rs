//! Mapping a query configuration document to the configuration the runtime
//! takes: each configuration value resolved to its text.
//!
//! An inline value resolves to itself. An environment variable or a secret
//! resolves to whatever the environment or the secret store holds, which
//! the caller looks up and hands in as an outcome; the mapping then follows
//! it.
use vstd::prelude::*;

use super::config_value::ConfigValue;
use super::query::QueryConfigDto;
use crate::deploy::ids_view;

verus! {

/// What a configuration value resolves to, given the outcome of looking up
/// a reference: an inline value is its own text, and the outcome is not
/// consulted.
pub open spec fn resolution(value: ConfigValue<String>, outcome: Result<String, String>) -> Result<
    Seq<char>,
    Seq<char>,
> {
    match value {
        ConfigValue::Static(t) => Ok(t@),
        _ => match outcome {
            Ok(t) => Ok(t@),
            Err(e) => Err(e@),
        },
    }
}

/// Resolves one configuration value with the outcome of its lookup.
pub fn resolve_string(value: &ConfigValue<String>, outcome: &Result<String, String>) -> (r: Result<
    String,
    String,
>)
    ensures
        match (r, resolution(*value, *outcome)) {
            (Ok(a), Ok(b)) => a@ == b,
            (Err(a), Err(b)) => a@ == b,
            _ => false,
        },
{
    match value {
        ConfigValue::Static(t) => Ok(t.clone()),
        _ => match outcome {
            Ok(t) => Ok(t.clone()),
            Err(e) => Err(e.clone()),
        },
    }
}

/// A subscription of a query to a source, resolved.
pub struct ResolvedSubscription {
    pub source_id: String,
    pub pipeline: Vec<String>,
}

/// A query configuration with its values resolved.
pub struct ResolvedQueryConfig {
    pub id: String,
    pub auto_start: bool,
    pub query: String,
    pub query_language: String,
    pub middleware: Vec<String>,
    pub sources: Vec<ResolvedSubscription>,
    pub enable_bootstrap: bool,
    pub bootstrap_buffer_size: usize,
}

/// The position of the first source whose id does not resolve, if any.
pub open spec fn first_unresolved_source(
    dto: QueryConfigDto,
    outcomes: Seq<Result<String, String>>,
) -> Option<int> {
    if exists|i: int|
        0 <= i < dto.sources@.len() && #[trigger] resolution(
            dto.sources@[i].source_id,
            outcomes[i],
        ) is Err {
        Some(
            choose|i: int|
                0 <= i < dto.sources@.len() && #[trigger] resolution(
                    dto.sources@[i].source_id,
                    outcomes[i],
                ) is Err && forall|k: int|
                    0 <= k < i ==> resolution(dto.sources@[k].source_id, outcomes[k]) is Ok,
        )
    } else {
        None
    }
}

fn copy_strings(v: &Vec<String>) -> (r: Vec<String>)
    ensures
        ids_view(r@) == ids_view(v@),
{
    let mut out: Vec<String> = Vec::new();
    let mut i: usize = 0;
    while i < v.len()
        invariant
            i <= v@.len(),
            out@.len() == i,
            forall|k: int| 0 <= k < i ==> #[trigger] out@[k]@ == v@[k]@,
        decreases v@.len() - i,
    {
        out.push(v[i].clone());
        i = i + 1;
    }
    assert(ids_view(out@) =~= ids_view(v@));
    out
}

/// Maps query configuration documents to resolved configurations.
pub struct QueryConfigMapper;

impl QueryConfigMapper {
    /// Maps a query configuration, given the outcome of looking up each
    /// source's id (in order), the query text and the query language. The
    /// source ids resolve first, then the query, then its language; the
    /// first that fails is the error. Otherwise every field is carried over,
    /// with each value resolved.
    pub fn map(
        &self,
        dto: &QueryConfigDto,
        source_ids: Vec<Result<String, String>>,
        query: Result<String, String>,
        query_language: Result<String, String>,
    ) -> (r: Result<ResolvedQueryConfig, String>)
        requires
            source_ids@.len() == dto.sources@.len(),
        ensures
            match first_unresolved_source(*dto, source_ids@) {
                Some(i) => r matches Err(e) && resolution(dto.sources@[i].source_id, source_ids@[i])
                    == Err::<Seq<char>, Seq<char>>(e@),
                None => match (
                    resolution(dto.query, query),
                    resolution(dto.query_language, query_language),
                ) {
                    (Err(e), _) => r matches Err(m) && m@ == e,
                    (Ok(_), Err(e)) => r matches Err(m) && m@ == e,
                    (Ok(q), Ok(l)) => r matches Ok(c) && {
                        &&& c.id@ == dto.id@
                        &&& c.auto_start == dto.auto_start
                        &&& c.query@ == q
                        &&& c.query_language@ == l
                        &&& ids_view(c.middleware@) == ids_view(dto.middleware@)
                        &&& c.sources@.len() == dto.sources@.len()
                        &&& forall|i: int|
                            0 <= i < c.sources@.len() ==> {
                                &&& resolution(dto.sources@[i].source_id, source_ids@[i])
                                    == Ok::<Seq<char>, Seq<char>>(#[trigger] c.sources@[i].source_id@)
                                &&& ids_view(c.sources@[i].pipeline@) == ids_view(
                                    dto.sources@[i].pipeline@,
                                )
                            }
                        &&& c.enable_bootstrap == dto.enable_bootstrap
                        &&& c.bootstrap_buffer_size == dto.bootstrap_buffer_size
                    },
                },
            },
    {
        let mut sources: Vec<ResolvedSubscription> = Vec::new();
        let ghost all = source_ids@;
        let n = dto.sources.len();
        let mut i: usize = 0;
        while i < n
            invariant
                n == dto.sources@.len(),
                all == source_ids@,
                all.len() == n,
                i <= n,
                sources@.len() == i,
                forall|k: int|
                    0 <= k < i ==> resolution(dto.sources@[k].source_id, all[k]) is Ok,
                forall|k: int|
                    0 <= k < i ==> {
                        &&& resolution(dto.sources@[k].source_id, all[k]) == Ok::<
                            Seq<char>,
                            Seq<char>,
                        >(#[trigger] sources@[k].source_id@)
                        &&& ids_view(sources@[k].pipeline@) == ids_view(dto.sources@[k].pipeline@)
                    },
            decreases n - i,
        {
            match resolve_string(&dto.sources[i].source_id, &source_ids[i]) {
                Ok(id) => {
                    let pipeline = copy_strings(&dto.sources[i].pipeline);
                    sources.push(ResolvedSubscription { source_id: id, pipeline });
                },
                Err(e) => {
                    proof {
                        let c = choose|c: int|
                            0 <= c < dto.sources@.len() && #[trigger] resolution(
                                dto.sources@[c].source_id,
                                all[c],
                            ) is Err && forall|k: int|
                                0 <= k < c ==> resolution(dto.sources@[k].source_id, all[k]) is Ok;
                        assert(resolution(dto.sources@[i as int].source_id, all[i as int]) is Err);
                        if c < i {
                            assert(resolution(dto.sources@[c].source_id, all[c]) is Ok);
                        }
                        if c > i {
                            assert(resolution(dto.sources@[i as int].source_id, all[i as int]) is Ok);
                        }
                    }
                    return Err(e);
                },
            }
            i = i + 1;
        }
        assert(!exists|j: int|
            0 <= j < dto.sources@.len() && #[trigger] resolution(
                dto.sources@[j].source_id,
                all[j],
            ) is Err);
        let q = match resolve_string(&dto.query, &query) {
            Ok(q) => q,
            Err(e) => {
                return Err(e);
            },
        };
        let l = match resolve_string(&dto.query_language, &query_language) {
            Ok(l) => l,
            Err(e) => {
                return Err(e);
            },
        };
        Ok(
            ResolvedQueryConfig {
                id: dto.id.clone(),
                auto_start: dto.auto_start,
                query: q,
                query_language: l,
                middleware: copy_strings(&dto.middleware),
                sources,
                enable_bootstrap: dto.enable_bootstrap,
                bootstrap_buffer_size: dto.bootstrap_buffer_size,
            },
        )
    }
}

} // verus!
