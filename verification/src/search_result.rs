//! What one source answers to a query, and the merge of several answers.

use crate::duplicate::{views, Duplicate};
use crate::numeric::{NumericFieldValue, NumericMerge, NumericMergeView, NumericView};
use crate::string::{StringFieldValue, StringMerge, StringMergeView, StringView};
use crate::string_map::{
    distinct_keys, gather, lemma_names_key_take, lemma_pairs_to_map_take,
    lemma_pairs_to_map_value, names_key, pairs_of, pairs_to_map, some_has, union_keys,
    values_under, StringMap,
};
use vstd::prelude::*;

verus! {

/// The fields that a source knows of one entity: numbers under their field
/// names, and labels under theirs. The two kinds have separate namespaces.
#[derive(Debug)]
pub struct SearchResult {
    /// Map from the field key to its value
    pub numeric_fields: StringMap<NumericFieldValue>,
    pub string_fields: StringMap<StringFieldValue>,
}

/// The mathematical value of a [`SearchResult`].
pub struct SearchResultView {
    pub numeric_fields: Map<Seq<char>, NumericView>,
    pub string_fields: Map<Seq<char>, StringView>,
}

impl View for SearchResult {
    type V = SearchResultView;

    open spec fn view(&self) -> SearchResultView {
        SearchResultView {
            numeric_fields: self.numeric_fields@,
            string_fields: self.string_fields@,
        }
    }
}

/// The merge of several answers as far as the rules decide it: under each
/// field name, what the merge of that field's values comes to.
#[derive(Debug)]
pub struct SearchMerge {
    pub numeric_fields: StringMap<NumericMerge>,
    pub string_fields: StringMap<StringMerge>,
}

/// The mathematical value of a [`SearchMerge`].
pub struct SearchMergeView {
    pub numeric_fields: Map<Seq<char>, NumericMergeView>,
    pub string_fields: Map<Seq<char>, StringMergeView>,
}

impl View for SearchMerge {
    type V = SearchMergeView;

    open spec fn view(&self) -> SearchMergeView {
        SearchMergeView {
            numeric_fields: self.numeric_fields@,
            string_fields: self.string_fields@,
        }
    }
}

/// The numeric fields of each answer, in the order of the answers.
pub open spec fn numeric_maps(results: Seq<SearchResultView>) -> Seq<Map<Seq<char>, NumericView>> {
    results.map_values(|result: SearchResultView| result.numeric_fields)
}

/// The label fields of each answer, in the order of the answers.
pub open spec fn string_maps(results: Seq<SearchResultView>) -> Seq<Map<Seq<char>, StringView>> {
    results.map_values(|result: SearchResultView| result.string_fields)
}

/// The merge of a list of answers.
///
/// A field name is in the merge if and only if some answer has it. Under it
/// stands the decision on the values that the answers give the field, taken
/// in the order of the answers; an answer without the field adds nothing.
/// Numeric fields and label fields are merged apart.
pub open spec fn merged_fields(results: Seq<SearchResultView>) -> SearchMergeView {
    SearchMergeView {
        numeric_fields: Map::new(
            |key: Seq<char>| some_has(numeric_maps(results), key),
            |key: Seq<char>|
                crate::numeric::merge_outcome(values_under(numeric_maps(results), key)),
        ),
        string_fields: Map::new(
            |key: Seq<char>| some_has(string_maps(results), key),
            |key: Seq<char>|
                crate::string::merge_outcome(values_under(string_maps(results), key)),
        ),
    }
}

/// Whether the rules alone fixed every field of the merge.
pub open spec fn all_resolved(merge: SearchMergeView) -> bool {
    &&& forall|key: Seq<char>| #[trigger]
        merge.numeric_fields.contains_key(key) ==> merge.numeric_fields[key] is Resolved
    &&& forall|key: Seq<char>| #[trigger]
        merge.string_fields.contains_key(key) ==> merge.string_fields[key] is Resolved
}

/// The answer that a merge with every field resolved stands for.
pub open spec fn resolved_fields(merge: SearchMergeView) -> SearchResultView {
    SearchResultView {
        numeric_fields: Map::new(
            |key: Seq<char>| merge.numeric_fields.contains_key(key),
            |key: Seq<char>| merge.numeric_fields[key]->Resolved_0,
        ),
        string_fields: Map::new(
            |key: Seq<char>| merge.string_fields.contains_key(key),
            |key: Seq<char>| merge.string_fields[key]->Resolved_0,
        ),
    }
}

impl Default for SearchResult {
    fn default() -> (r: SearchResult)
        ensures
            r@.numeric_fields == Map::<Seq<char>, NumericView>::empty(),
            r@.string_fields == Map::<Seq<char>, StringView>::empty(),
    {
        SearchResult { numeric_fields: StringMap::new(), string_fields: StringMap::new() }
    }
}

impl Duplicate for SearchResult {
    fn duplicate(&self) -> (r: SearchResult) {
        SearchResult {
            numeric_fields: self.numeric_fields.duplicate(),
            string_fields: self.string_fields.duplicate(),
        }
    }
}

impl Clone for SearchResult {
    fn clone(&self) -> (r: SearchResult)
        ensures
            r@ == self@,
    {
        self.duplicate()
    }
}

impl SearchResult {
    fn merge_numeric(results: &Vec<Self>) -> (r: StringMap<NumericMerge>)
        ensures
            r@ == merged_fields(views(results@)).numeric_fields,
    {
        let ghost all = numeric_maps(views(results@));
        let mut maps: Vec<&StringMap<NumericFieldValue>> = Vec::new();
        let mut i: usize = 0;
        while i < results.len()
            invariant
                i <= results.len(),
                maps.len() == i,
                forall|j: int| 0 <= j < i ==> maps@[j]@ == results@[j]@.numeric_fields,
            decreases results.len() - i,
        {
            maps.push(&results[i].numeric_fields);
            i += 1;
        }
        assert(views(maps@) =~= all);
        let keys = union_keys(&maps);
        let mut merged: StringMap<NumericMerge> = StringMap::new();
        let mut n: usize = 0;
        while n < keys.len()
            invariant
                n <= keys.len(),
                views(maps@) == all,
                merged@ == Map::new(
                    |key: Seq<char>| names_key(keys@.take(n as int), key),
                    |key: Seq<char>| crate::numeric::merge_outcome(values_under(all, key)),
                ),
            decreases keys.len() - n,
        {
            let values = gather(&maps, &keys[n]);
            let outcome = NumericFieldValue::merge(values);
            proof {
                lemma_names_key_take(keys@, n as int);
                assert(merged@.insert(keys@[n as int]@, outcome@) =~= Map::new(
                    |key: Seq<char>| names_key(keys@.take(n + 1), key),
                    |key: Seq<char>| crate::numeric::merge_outcome(values_under(all, key)),
                ));
            }
            merged.insert(keys[n].clone(), outcome);
            n += 1;
        }
        proof {
            assert(keys@.take(keys.len() as int) =~= keys@);
            assert(merged@ =~= merged_fields(views(results@)).numeric_fields);
        }
        merged
    }

    fn merge_strings(results: &Vec<Self>) -> (r: StringMap<StringMerge>)
        ensures
            r@ == merged_fields(views(results@)).string_fields,
    {
        let ghost all = string_maps(views(results@));
        let mut maps: Vec<&StringMap<StringFieldValue>> = Vec::new();
        let mut i: usize = 0;
        while i < results.len()
            invariant
                i <= results.len(),
                maps.len() == i,
                forall|j: int| 0 <= j < i ==> maps@[j]@ == results@[j]@.string_fields,
            decreases results.len() - i,
        {
            maps.push(&results[i].string_fields);
            i += 1;
        }
        assert(views(maps@) =~= all);
        let keys = union_keys(&maps);
        let mut merged: StringMap<StringMerge> = StringMap::new();
        let mut n: usize = 0;
        while n < keys.len()
            invariant
                n <= keys.len(),
                views(maps@) == all,
                merged@ == Map::new(
                    |key: Seq<char>| names_key(keys@.take(n as int), key),
                    |key: Seq<char>| crate::string::merge_outcome(values_under(all, key)),
                ),
            decreases keys.len() - n,
        {
            let values = gather(&maps, &keys[n]);
            let outcome = StringFieldValue::merge(values);
            proof {
                lemma_names_key_take(keys@, n as int);
                assert(merged@.insert(keys@[n as int]@, outcome@) =~= Map::new(
                    |key: Seq<char>| names_key(keys@.take(n + 1), key),
                    |key: Seq<char>| crate::string::merge_outcome(values_under(all, key)),
                ));
            }
            merged.insert(keys[n].clone(), outcome);
            n += 1;
        }
        proof {
            assert(keys@.take(keys.len() as int) =~= keys@);
            assert(merged@ =~= merged_fields(views(results@)).string_fields);
        }
        merged
    }

    /// Merges the answers field by field, as [`merged_fields`] states it.
    pub fn merge(results: &Vec<Self>) -> (r: SearchMerge)
        ensures
            r@ == merged_fields(views(results@)),
    {
        SearchMerge {
            numeric_fields: Self::merge_numeric(results),
            string_fields: Self::merge_strings(results),
        }
    }
}

impl SearchMerge {
    fn numeric_resolved(&self) -> (r: bool)
        ensures
            r == forall|key: Seq<char>| #[trigger]
                self@.numeric_fields.contains_key(key) ==> self@.numeric_fields[key] is Resolved,
    {
        let entries = self.numeric_fields.entries();
        let ghost pairs = pairs_of(entries@);
        let mut n: usize = 0;
        while n < entries.len()
            invariant
                n <= entries.len(),
                pairs == pairs_of(entries@),
                distinct_keys(pairs),
                pairs_to_map(pairs) == self@.numeric_fields,
                forall|key: Seq<char>| #[trigger]
                    pairs_to_map(pairs.take(n as int)).contains_key(key) ==> pairs_to_map(
                        pairs.take(n as int),
                    )[key] is Resolved,
            decreases entries.len() - n,
        {
            proof {
                lemma_pairs_to_map_take(pairs, n as int);
                lemma_pairs_to_map_value(pairs, n as int);
            }
            if let NumericMerge::Combine(_) = entries[n].1 {
                assert(pairs[n as int].1 is Combine);
                return false;
            }
            n += 1;
        }
        proof {
            assert(pairs.take(entries.len() as int) =~= pairs);
        }
        true
    }

    fn strings_resolved(&self) -> (r: bool)
        ensures
            r == forall|key: Seq<char>| #[trigger]
                self@.string_fields.contains_key(key) ==> self@.string_fields[key] is Resolved,
    {
        let entries = self.string_fields.entries();
        let ghost pairs = pairs_of(entries@);
        let mut n: usize = 0;
        while n < entries.len()
            invariant
                n <= entries.len(),
                pairs == pairs_of(entries@),
                distinct_keys(pairs),
                pairs_to_map(pairs) == self@.string_fields,
                forall|key: Seq<char>| #[trigger]
                    pairs_to_map(pairs.take(n as int)).contains_key(key) ==> pairs_to_map(
                        pairs.take(n as int),
                    )[key] is Resolved,
            decreases entries.len() - n,
        {
            proof {
                lemma_pairs_to_map_take(pairs, n as int);
                lemma_pairs_to_map_value(pairs, n as int);
            }
            if let StringMerge::Fuse(_) = entries[n].1 {
                assert(pairs[n as int].1 is Fuse);
                return false;
            }
            n += 1;
        }
        proof {
            assert(pairs.take(entries.len() as int) =~= pairs);
        }
        true
    }

    /// The merged answer, where the rules alone fixed every field; otherwise
    /// the merge as it was.
    pub fn finish(self) -> (r: Result<SearchResult, SearchMerge>)
        ensures
            match r {
                Ok(result) => all_resolved(self@) && result@ == resolved_fields(self@),
                Err(merge) => !all_resolved(self@) && merge@ == self@,
            },
    {
        if !self.numeric_resolved() || !self.strings_resolved() {
            return Err(self);
        }
        let ghost whole = self@;
        let mut result = SearchResult::default();
        let numeric = self.numeric_fields.into_entries();
        let ghost numeric_pairs = pairs_of(numeric@);
        for entry in iter: numeric
            invariant
                pairs_of(iter.seq()) == numeric_pairs,
                distinct_keys(numeric_pairs),
                pairs_to_map(numeric_pairs) == whole.numeric_fields,
                all_resolved(whole),
                result@.string_fields == Map::<Seq<char>, StringView>::empty(),
                result@.numeric_fields == Map::new(
                    |key: Seq<char>|
                        pairs_to_map(numeric_pairs.take(iter.index() as int)).contains_key(key),
                    |key: Seq<char>|
                        pairs_to_map(numeric_pairs.take(iter.index() as int))[key]->Resolved_0,
                ),
        {
            proof {
                let n = iter.index() as int;
                lemma_pairs_to_map_take(numeric_pairs, n);
                lemma_pairs_to_map_value(numeric_pairs, n);
                assert(numeric_pairs[n] == (entry.0@, entry.1@));
                assert(whole.numeric_fields.contains_key(entry.0@));
                assert(entry.1@ is Resolved);
            }
            match entry.1 {
                NumericMerge::Resolved(value) => {
                    proof {
                        let n = iter.index() as int;
                        assert(result@.numeric_fields.insert(entry.0@, value@) =~= Map::new(
                            |key: Seq<char>|
                                pairs_to_map(numeric_pairs.take(n + 1)).contains_key(key),
                            |key: Seq<char>|
                                pairs_to_map(numeric_pairs.take(n + 1))[key]->Resolved_0,
                        ));
                    }
                    result.numeric_fields.insert(entry.0, value);
                },
                NumericMerge::Combine(_) => {},
            }
        }
        let strings = self.string_fields.into_entries();
        let ghost string_pairs = pairs_of(strings@);
        proof {
            assert(numeric_pairs.take(numeric_pairs.len() as int) =~= numeric_pairs);
            assert(result@.numeric_fields =~= resolved_fields(whole).numeric_fields);
        }
        for entry in iter: strings
            invariant
                pairs_of(iter.seq()) == string_pairs,
                distinct_keys(string_pairs),
                pairs_to_map(string_pairs) == whole.string_fields,
                all_resolved(whole),
                result@.numeric_fields == resolved_fields(whole).numeric_fields,
                result@.string_fields == Map::new(
                    |key: Seq<char>|
                        pairs_to_map(string_pairs.take(iter.index() as int)).contains_key(key),
                    |key: Seq<char>|
                        pairs_to_map(string_pairs.take(iter.index() as int))[key]->Resolved_0,
                ),
        {
            proof {
                let n = iter.index() as int;
                lemma_pairs_to_map_take(string_pairs, n);
                lemma_pairs_to_map_value(string_pairs, n);
                assert(string_pairs[n] == (entry.0@, entry.1@));
                assert(whole.string_fields.contains_key(entry.0@));
                assert(entry.1@ is Resolved);
            }
            match entry.1 {
                StringMerge::Resolved(value) => {
                    proof {
                        let n = iter.index() as int;
                        assert(result@.string_fields.insert(entry.0@, value@) =~= Map::new(
                            |key: Seq<char>|
                                pairs_to_map(string_pairs.take(n + 1)).contains_key(key),
                            |key: Seq<char>|
                                pairs_to_map(string_pairs.take(n + 1))[key]->Resolved_0,
                        ));
                    }
                    result.string_fields.insert(entry.0, value);
                },
                StringMerge::Fuse(_) => {},
            }
        }
        proof {
            assert(string_pairs.take(string_pairs.len() as int) =~= string_pairs);
            assert(result@.string_fields =~= resolved_fields(whole).string_fields);
        }
        Ok(result)
    }
}

} // verus!
