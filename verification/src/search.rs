//! Classifying a search query.
//!
//! A query may carry a `<type>:` prefix: `phase:` and `rhythm:` search the
//! corresponding field for the text after the colon, any other prefix
//! falls back to the general search, and a query without a colon searches
//! the document content.  The store that runs the search is outside the
//! library; the classification of the query is verified here.

use vstd::prelude::*;
use crate::meta::string_is;
use crate::text::{chars_vec, chars_to_string, sub_vec};

verus! {

/// The kind of search a query asks for.
#[derive(PartialEq, Eq, Structural, Clone, Copy, Debug)]
pub enum SearchType {
    PhaseSearch,
    RhythmSearch,
    StringSearch,
}

/// A search that could not be carried out.
#[derive(PartialEq, Eq, Structural, Clone, Copy, Debug)]
pub enum DocumentsError {
    SearchError,
}

/// The search store could not be reached.
#[derive(PartialEq, Eq, Structural, Clone, Copy, Debug)]
pub enum BackendError {
    ClientError,
}

/// The query the repository is asked to run.
pub enum SearchPlan {
    /// Records whose phase equals the text.
    Phase(String),
    /// Records whose rhythm equals the text.
    Rhythm(String),
    /// A full-text search over the indexed metadata.
    Meta(String),
    /// A full-text search over the document content.
    Content(String),
}

/// The first position at or after `i` holding a colon, or the length.
pub open spec fn first_colon(s: Seq<char>, i: int) -> int
    decreases s.len() - i when 0 <= i <= s.len()
{
    if i >= s.len() {
        s.len() as int
    } else if s[i] == ':' {
        i
    } else {
        first_colon(s, i + 1)
    }
}

/// The `<type>` prefix of a query with a colon.
pub open spec fn query_prefix(s: Seq<char>) -> Seq<char> {
    s.subrange(0, first_colon(s, 0))
}

/// The text after the first colon.
pub open spec fn query_rest(s: Seq<char>) -> Seq<char> {
    s.subrange(first_colon(s, 0) + 1, s.len() as int)
}

/// The search type a query names: `phase:`, `rhythm:`, anything else.
pub open spec fn search_type_of(s: Seq<char>) -> SearchType {
    if first_colon(s, 0) == s.len() {
        SearchType::StringSearch
    } else if query_prefix(s) == "phase"@ {
        SearchType::PhaseSearch
    } else if query_prefix(s) == "rhythm"@ {
        SearchType::RhythmSearch
    } else {
        SearchType::StringSearch
    }
}

fn exec_first_colon(v: &Vec<char>) -> (r: usize)
    ensures
        r == first_colon(v@, 0),
        r <= v@.len(),
{
    let mut i: usize = 0;
    while i < v.len()
        invariant
            i <= v@.len(),
            first_colon(v@, 0) == first_colon(v@, i as int),
        decreases v@.len() - i,
    {
        if v[i] == ':' {
            return i;
        }
        i += 1;
    }
    i
}

/// Classifies a query into the search the repository should run: the
/// field searches take the text after the colon, an unknown prefix falls
/// back to the metadata search with that text, and a query without a
/// colon searches the content with the whole query.
pub fn search_plan(query: &str) -> (r: SearchPlan)
    ensures
        match r {
            SearchPlan::Phase(t) => search_type_of(query@) == SearchType::PhaseSearch && t@
                == query_rest(query@),
            SearchPlan::Rhythm(t) => search_type_of(query@) == SearchType::RhythmSearch && t@
                == query_rest(query@),
            SearchPlan::Meta(t) => search_type_of(query@) == SearchType::StringSearch
                && first_colon(query@, 0) < query@.len() && t@ == query_rest(query@),
            SearchPlan::Content(t) => search_type_of(query@) == SearchType::StringSearch
                && first_colon(query@, 0) == query@.len() && t@ == query@,
        },
{
    let v = chars_vec(query);
    let c = exec_first_colon(&v);
    if c == v.len() {
        return SearchPlan::Content(String::from_str(query));
    }
    let prefix = chars_to_string(&sub_vec(&v, 0, c));
    let rest = chars_to_string(&sub_vec(&v, c + 1, v.len()));
    if string_is(&prefix, "phase") {
        SearchPlan::Phase(rest)
    } else if string_is(&prefix, "rhythm") {
        SearchPlan::Rhythm(rest)
    } else {
        SearchPlan::Meta(rest)
    }
}

/// The search type a query names.
pub fn search_type(query: &str) -> (r: SearchType)
    ensures
        r == search_type_of(query@),
{
    match search_plan(query) {
        SearchPlan::Phase(_) => SearchType::PhaseSearch,
        SearchPlan::Rhythm(_) => SearchType::RhythmSearch,
        SearchPlan::Meta(_) => SearchType::StringSearch,
        SearchPlan::Content(_) => SearchType::StringSearch,
    }
}

} // verus!
