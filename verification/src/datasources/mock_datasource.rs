//! A source that answers from a table held in memory.

use crate::duplicate::Duplicate;
use crate::search_result::{SearchResult, SearchResultView};
use crate::string_map::{pairs_of, StringMap};
use vstd::prelude::*;

verus! {

/// Whether `regex::Regex::new` accepts the pattern: whether the pattern is
/// well formed and its program fits the size that the crate allows.
pub uninterp spec fn regex_compiles(pattern: Seq<char>) -> bool;

/// Whether the regex that `regex::Regex::new` makes of the pattern matches
/// somewhere in the text, as `regex::Regex::is_match` tells.
pub uninterp spec fn regex_matches(pattern: Seq<char>, text: Seq<char>) -> bool;

/// What searching a text with a pattern comes to: nothing where the pattern
/// does not compile, otherwise whether it matches.
pub open spec fn regex_search(pattern: Seq<char>, text: Seq<char>) -> Option<bool> {
    if regex_compiles(pattern) {
        Some(regex_matches(pattern, text))
    } else {
        None
    }
}

/// Compiles `pattern` with `regex::Regex::new` and, where that succeeds, asks
/// `regex::Regex::is_match` whether the pattern matches somewhere in `text`.
///
/// Nothing is proved of this function. Its contract only gives the two
/// outcomes their names, which rests on neither call depending on anything
/// but its arguments. The two calls stand in one function because a compiled
/// regex cannot be told from another outside of it.
#[verifier::external_body]
fn search_with_regex(pattern: &str, text: &str) -> (r: Option<bool>)
    ensures
        regex_compiles(pattern@) ==> r == Some(regex_matches(pattern@, text@)),
        !regex_compiles(pattern@) ==> r is None,
{
    match regex::Regex::new(pattern) {
        Ok(compiled) => Some(compiled.is_match(text)),
        Err(_) => None,
    }
}

/// Whether the outcome of a regex search is a match: a pattern that does not
/// compile matches nothing.
pub open spec fn is_match(outcome: Option<bool>) -> bool {
    outcome == Some(true)
}

/// Whether `key`, read as a pattern, matches `query`.
pub open spec fn key_matches(key: Seq<char>, query: Seq<char>) -> bool {
    is_match(regex_search(key, query))
}

/// Whether the outcome of a regex search is a match: see [`is_match`].
pub fn counts_as_match(outcome: Option<bool>) -> (r: bool)
    ensures
        r == is_match(outcome),
{
    match outcome {
        Some(matched) => matched,
        None => false,
    }
}

/// A table of answers. A key of the table is a query, and at the same time a
/// pattern for queries.
#[derive(Debug)]
pub struct MockDataSource {
    pub data: StringMap<SearchResult>,
}

/// Whether the entry at `i` is the first entry of the table whose key matches
/// the query.
pub open spec fn is_first_match(
    pairs: Seq<(Seq<char>, SearchResultView)>,
    query: Seq<char>,
    i: int,
) -> bool {
    &&& 0 <= i < pairs.len()
    &&& key_matches(pairs[i].0, query)
    &&& forall|j: int| 0 <= j < i ==> !key_matches((#[trigger] pairs[j]).0, query)
}

impl MockDataSource {
    /// The answer to a query.
    ///
    /// A query that is a key of the table gets the answer under that key.
    /// Any other query gets the answer of the first entry, in the order in
    /// which the table keeps its entries, whose key matches the query as a
    /// pattern; and none where no key matches.
    pub fn search(&self, query: String) -> (r: Option<SearchResult>)
        ensures
            match r {
                Some(result) => if self.data@.contains_key(query@) {
                    result@ == self.data@[query@]
                } else {
                    exists|i: int|
                        is_first_match(self.data.pairs(), query@, i) && result@
                            == self.data.pairs()[i].1
                },
                None => {
                    &&& !self.data@.contains_key(query@)
                    &&& forall|i: int|
                        0 <= i < self.data.pairs().len() ==> !key_matches(
                            (#[trigger] self.data.pairs()[i]).0,
                            query@,
                        )
                },
            },
    {
        if let Some(found) = self.data.get(&query) {
            return Some(found.duplicate());
        }
        let entries = self.data.entries();
        let ghost pairs = self.data.pairs();
        let mut i: usize = 0;
        while i < entries.len()
            invariant
                i <= entries.len(),
                pairs == pairs_of(entries@),
                pairs == self.data.pairs(),
                !self.data@.contains_key(query@),
                forall|j: int| 0 <= j < i ==> !key_matches((#[trigger] pairs[j]).0, query@),
            decreases entries.len() - i,
        {
            let outcome = search_with_regex(entries[i].0.as_str(), query.as_str());
            if counts_as_match(outcome) {
                assert(is_first_match(pairs, query@, i as int));
                assert(pairs[i as int].1 == entries@[i as int].1@);
                return Some(entries[i].1.duplicate());
            }
            i += 1;
        }
        None
    }
}

} // verus!
