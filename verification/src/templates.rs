//! Solution template files: which files of the solutions directory are
//! templates and what they are called, how a request reaches a body parser,
//! and what a template lists.
use vstd::prelude::*;

use crate::content::{spec_is_yaml_content_type, is_yaml_content_type, spec_contains_yaml_anchor_or_alias, contains_yaml_anchor_or_alias};
use vstd::string::StringSliceAdditionalSpecFns;

use crate::solution::{SolutionTemplateMetadata, SolutionTemplateSummary};
use crate::text::{append, chars_equal, chars_of, string_from_range};
use crate::yaml_lines::last_index_before;

verus! {

/// The name and extension of a file name: the text before and after its
/// last `.`, when that `.` is not the first character (`Path::file_stem`
/// and `Path::extension`).
pub open spec fn stem_and_extension(name: Seq<char>) -> (Seq<char>, Option<Seq<char>>) {
    let i = last_index_before(name, '.', name.len() as int);
    if i > 0 {
        (name.subrange(0, i), Some(name.subrange(i + 1, name.len() as int)))
    } else {
        (name, None)
    }
}

/// The template id of a file: its stem, when its extension is `yaml` or
/// `yml` and the stem is not empty.
pub open spec fn template_id_of(name: Seq<char>) -> Option<Seq<char>> {
    let (stem, ext) = stem_and_extension(name);
    match ext {
        Some(e) => if (e == "yaml"@ || e == "yml"@) && stem.len() > 0 {
            Some(stem)
        } else {
            None
        },
        None => None,
    }
}

proof fn lemma_last_index_bounds(s: Seq<char>, c: char, j: int)
    requires
        0 <= j <= s.len(),
    ensures
        -1 <= last_index_before(s, c, j) < j,
    decreases j,
{
    if j > 0 && s[j - 1] != c {
        lemma_last_index_bounds(s, c, j - 1);
    }
}

/// The id of the template that a file of the solutions directory holds, if
/// it holds one.
pub fn template_id_for_file(file_name: &str) -> (r: Option<String>)
    ensures
        match r {
            Some(id) => template_id_of(file_name@) == Some(id@),
            None => template_id_of(file_name@) is None,
        },
{
    let s = chars_of(file_name);
    let n = s.len();
    let mut j = n;
    while j > 0 && s[j - 1] != '.'
        invariant
            j <= n,
            n == s@.len(),
            s@ == file_name@,
            last_index_before(s@, '.', n as int) == last_index_before(s@, '.', j as int),
        decreases j,
    {
        j = j - 1;
    }
    proof {
        lemma_last_index_bounds(s@, '.', n as int);
    }
    if j <= 1 {
        return None;
    }
    let i = j - 1;
    let ext = string_from_range(&s, i + 1, n);
    let ec = chars_of(ext.as_str());
    if chars_equal(&ec, &chars_of("yaml")) || chars_equal(&ec, &chars_of("yml")) {
        Some(string_from_range(&s, 0, i))
    } else {
        None
    }
}

/// The files in which a template may be stored: `<id>.yaml`, then `<id>.yml`.
pub fn template_file_names(template_id: &str) -> (r: (String, String))
    ensures
        r.0@ == template_id@ + ".yaml"@,
        r.1@ == template_id@ + ".yml"@,
{
    let mut a = String::new();
    append(&mut a, template_id);
    append(&mut a, ".yaml");
    let mut b = String::new();
    append(&mut b, template_id);
    append(&mut b, ".yml");
    (a, b)
}

/// The ids that the components of a template state (those without a string
/// `id` are left out), in order.
pub open spec fn stated_ids(ids: Seq<Option<String>>) -> Seq<Seq<char>>
    decreases ids.len(),
{
    if ids.len() == 0 {
        seq![]
    } else {
        match ids.last() {
            Some(id) => stated_ids(ids.drop_last()).push(id@),
            None => stated_ids(ids.drop_last()),
        }
    }
}

/// The ids that the components of a template state.
pub fn component_ids(ids: &Vec<Option<String>>) -> (r: Vec<String>)
    ensures
        r@.map_values(|s: String| s@) == stated_ids(ids@),
{
    let mut out: Vec<String> = Vec::new();
    let mut i: usize = 0;
    while i < ids.len()
        invariant
            i <= ids@.len(),
            out@.map_values(|s: String| s@) == stated_ids(ids@.subrange(0, i as int)),
        decreases ids@.len() - i,
    {
        let ghost prefix = ids@.subrange(0, i + 1);
        assert(prefix.drop_last() =~= ids@.subrange(0, i as int));
        let ghost before = out@;
        match &ids[i] {
            Some(id) => {
                out.push(id.clone());
                assert(out@.map_values(|s: String| s@) =~= before.map_values(|s: String| s@).push(
                    id@,
                ));
            },
            None => {},
        }
        i = i + 1;
    }
    assert(ids@.subrange(0, ids@.len() as int) =~= ids@);
    out
}

// ----------------------------------------------------------------------------
// Request bodies
// ----------------------------------------------------------------------------

/// A configuration request body wrapping the value it holds.
#[derive(Debug)]
pub struct ConfigBody<T>(pub T);

/// How a request body is read.
#[derive(Debug, Clone, Copy, PartialEq, Eq, Structural)]
pub enum BodyReading {
    /// As YAML
    Yaml,
    /// As JSON
    Json,
    /// Refused: YAML with anchors or aliases
    RefuseAliases,
}

/// How a request body is read: YAML when the content type says so (refused
/// when its text holds anchors or aliases), JSON otherwise.
pub open spec fn body_reading(content_type: Option<Seq<char>>, text: Option<Seq<u8>>) -> BodyReading {
    let is_yaml = match content_type {
        Some(c) => spec_is_yaml_content_type(c),
        None => false,
    };
    if is_yaml {
        match text {
            Some(t) => if spec_contains_yaml_anchor_or_alias(t) {
                BodyReading::RefuseAliases
            } else {
                BodyReading::Yaml
            },
            None => BodyReading::Yaml,
        }
    } else {
        BodyReading::Json
    }
}

/// How to read a request body, given its content type (when it has a
/// readable one) and its text (when it is UTF-8).
pub fn choose_body_reading(content_type: Option<&str>, text: Option<&str>) -> (r: BodyReading)
    ensures
        r == body_reading(
            match content_type {
                Some(c) => Some(c@),
                None => None,
            },
            match text {
                Some(t) => Some(t.spec_bytes()),
                None => None,
            },
        ),
{
    let is_yaml = match content_type {
        Some(c) => is_yaml_content_type(c),
        None => false,
    };
    if !is_yaml {
        return BodyReading::Json;
    }
    match text {
        Some(t) => if contains_yaml_anchor_or_alias(t) {
            BodyReading::RefuseAliases
        } else {
            BodyReading::Yaml
        },
        None => BodyReading::Yaml,
    }
}

// ----------------------------------------------------------------------------
// Listing the solutions directory
// ----------------------------------------------------------------------------

/// Where templates are looked for when no directory is configured.
pub const DEFAULT_SOLUTIONS_DIR: &'static str = "./solutions";

/// The solutions directory: the configured one, else `./solutions`.
pub fn solutions_dir_or_default(configured: Option<&str>) -> (r: &str)
    ensures
        r@ == match configured {
            Some(d) => d@,
            None => "./solutions"@,
        },
{
    match configured {
        Some(d) => d,
        None => DEFAULT_SOLUTIONS_DIR,
    }
}

/// A template read from a file: its metadata and how many sources, queries
/// and reactions it declares.
#[derive(Debug)]
pub struct ParsedTemplate {
    pub metadata: SolutionTemplateMetadata,
    pub source_count: usize,
    pub query_count: usize,
    pub reaction_count: usize,
}

/// An entry of the solutions directory: its file name, whether it is a
/// regular file, and the template it holds when it could be read and parsed.
#[derive(Debug)]
pub struct DirectoryEntry {
    pub file_name: String,
    pub is_file: bool,
    pub template: Option<ParsedTemplate>,
}

/// What reading the solutions directory found.
#[derive(Debug)]
pub enum SolutionsListing {
    /// The path does not exist
    Missing,
    /// The path is not a directory
    NotADirectory,
    /// The directory could not be read, for this reason
    Unreadable(String),
    /// The entries of the directory, in the order read
    Entries(Vec<DirectoryEntry>),
}

/// The templates that a directory's entries hold, in order: each regular
/// file named `<id>.yaml` or `<id>.yml` whose template parsed, with its id.
pub open spec fn listed_templates(es: Seq<DirectoryEntry>) -> Seq<(Seq<char>, ParsedTemplate)>
    decreases es.len(),
{
    if es.len() == 0 {
        Seq::empty()
    } else {
        let rest = listed_templates(es.drop_last());
        let e = es.last();
        if e.is_file && template_id_of(e.file_name@) is Some && e.template is Some {
            rest.push((template_id_of(e.file_name@)->0, e.template->0))
        } else {
            rest
        }
    }
}

/// The summaries of templates: the id, the metadata and the counts of each.
pub open spec fn summarizes(v: Seq<SolutionTemplateSummary>, l: Seq<(Seq<char>, ParsedTemplate)>) -> bool {
    &&& v.len() == l.len()
    &&& forall|i: int|
        0 <= i < v.len() ==> {
            &&& (#[trigger] v[i]).id@ == l[i].0
            &&& v[i].metadata == l[i].1.metadata
            &&& v[i].source_count == l[i].1.source_count
            &&& v[i].query_count == l[i].1.query_count
            &&& v[i].reaction_count == l[i].1.reaction_count
        }
}

/// Lists the templates of the solutions directory `dir`, given what reading
/// it found: none when it does not exist, an error when it is no directory
/// or cannot be read, else one summary per template file that parsed.
pub fn list_solution_templates(dir: &str, listing: SolutionsListing) -> (r: Result<
    Vec<SolutionTemplateSummary>,
    String,
>)
    ensures
        match listing {
            SolutionsListing::Missing => r matches Ok(v) && v@.len() == 0,
            SolutionsListing::NotADirectory => r matches Err(m) && m@ == "Solutions path '"@ + dir@
                + "' is not a directory"@,
            SolutionsListing::Unreadable(e) => r matches Err(m) && m@
                == "Failed to read solutions directory '"@ + dir@ + "': "@ + e@,
            SolutionsListing::Entries(es) => r matches Ok(v) && summarizes(
                v@,
                listed_templates(es@),
            ),
        },
{
    match listing {
        SolutionsListing::Missing => Ok(Vec::new()),
        SolutionsListing::NotADirectory => {
            let mut m = String::new();
            append(&mut m, "Solutions path '");
            append(&mut m, dir);
            append(&mut m, "' is not a directory");
            Err(m)
        },
        SolutionsListing::Unreadable(e) => {
            let mut m = String::new();
            append(&mut m, "Failed to read solutions directory '");
            append(&mut m, dir);
            append(&mut m, "': ");
            append(&mut m, e.as_str());
            Err(m)
        },
        SolutionsListing::Entries(es) => {
            let ghost all = es@;
            let mut rest = es;
            let total = rest.len();
            let mut out: Vec<SolutionTemplateSummary> = Vec::new();
            let mut k: usize = 0;
            while rest.len() > 0
                invariant
                    total == all.len(),
                    k <= all.len(),
                    rest@ == all.subrange(k as int, all.len() as int),
                    summarizes(out@, listed_templates(all.subrange(0, k as int))),
                decreases rest@.len(),
            {
                let ghost before = out@;
                let entry = rest.remove(0);
                assert(entry == all[k as int]);
                let ghost prefix = all.subrange(0, k + 1);
                assert(prefix.drop_last() =~= all.subrange(0, k as int));
                assert(prefix.last() == entry);
                if entry.is_file {
                    match template_id_for_file(entry.file_name.as_str()) {
                        Some(id) => {
                            match entry.template {
                                Some(t) => {
                                    out.push(
                                        SolutionTemplateSummary {
                                            id,
                                            metadata: t.metadata,
                                            source_count: t.source_count,
                                            query_count: t.query_count,
                                            reaction_count: t.reaction_count,
                                        },
                                    );
                                    assert forall|i: int| 0 <= i < before.len() implies #[trigger] out@[i]
                                        == before[i] by {}
                                },
                                None => {},
                            }
                        },
                        None => {},
                    }
                }
                k = k + 1;
                assert(rest@ =~= all.subrange(k as int, all.len() as int));
            }
            assert(all.subrange(0, k as int) =~= all);
            Ok(out)
        },
    }
}

} // verus!
