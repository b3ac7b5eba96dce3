//! The engine: the declared fields, and the pipeline from the sources'
//! answers to the response.
//!
//! Asking the sources is the caller's business. The engine takes what they
//! answered, one entry per source and `None` for a source that gave no
//! answer, checks each answer against the declared fields, merges the
//! answers, and pairs every merged field with its declaration.

use crate::duplicate::{views, Duplicate};
use crate::numeric::{NumericFieldValue, NumericView};
use crate::scalar::Float64;
use crate::search_result::{
    all_resolved, merged_fields, numeric_maps, resolved_fields, string_maps, SearchMerge,
    SearchResult, SearchResultView,
};
use crate::string::{label_probabilities, StringFieldValue, StringView};
use crate::string_map::{
    distinct_keys, lemma_pairs_to_map_take, pairs_of, pairs_to_map, some_has, StringMap,
};
use vstd::prelude::*;
use vstd::string::StringExecFns;

verus! {

/// The kind of a declared field.
#[derive(Debug, PartialEq)]
pub enum FieldType {
    /// A label.
    String,
    /// A real number, measured in `unit`.
    Float { unit: String },
}

/// The mathematical value of a [`FieldType`].
pub enum FieldTypeView {
    String,
    Float { unit: Seq<char> },
}

impl View for FieldType {
    type V = FieldTypeView;

    open spec fn view(&self) -> FieldTypeView {
        match *self {
            FieldType::String => FieldTypeView::String,
            FieldType::Float { unit } => FieldTypeView::Float { unit: unit@ },
        }
    }
}

/// The declaration of a field.
#[derive(Debug)]
pub struct Field {
    pub description: String,
    pub field_type: FieldType,
}

/// The mathematical value of a [`Field`].
pub struct FieldView {
    pub description: Seq<char>,
    pub field_type: FieldTypeView,
}

impl View for Field {
    type V = FieldView;

    open spec fn view(&self) -> FieldView {
        FieldView { description: self.description@, field_type: self.field_type@ }
    }
}

/// The resolved value of a field.
#[derive(Debug)]
pub enum FieldValue {
    String(StringFieldValue),
    Numeric(NumericFieldValue),
}

/// The mathematical value of a [`FieldValue`].
pub enum FieldValueView {
    String(StringView),
    Numeric(NumericView),
}

impl View for FieldValue {
    type V = FieldValueView;

    open spec fn view(&self) -> FieldValueView {
        match *self {
            FieldValue::String(value) => FieldValueView::String(value@),
            FieldValue::Numeric(value) => FieldValueView::Numeric(value@),
        }
    }
}

/// The declared fields, by name.
#[derive(Debug)]
pub struct SearchEngine {
    pub search_fields: StringMap<Field>,
}

/// What a query comes to: each field that some source answered, with its
/// declaration and its merged value.
#[derive(Debug)]
pub struct SearchResponse {
    /// Map from the field key to its value
    pub fields: StringMap<(Field, FieldValue)>,
}

impl View for SearchResponse {
    type V = Map<Seq<char>, (FieldView, FieldValueView)>;

    open spec fn view(&self) -> Map<Seq<char>, (FieldView, FieldValueView)> {
        self.fields@
    }
}

impl Duplicate for FieldType {
    fn duplicate(&self) -> (r: FieldType) {
        match self {
            FieldType::String => FieldType::String,
            FieldType::Float { unit } => FieldType::Float { unit: unit.clone() },
        }
    }
}

impl Clone for FieldType {
    fn clone(&self) -> (r: FieldType)
        ensures
            r@ == self@,
    {
        self.duplicate()
    }
}

impl Duplicate for Field {
    fn duplicate(&self) -> (r: Field) {
        Field { description: self.description.clone(), field_type: self.field_type.duplicate() }
    }
}

impl Clone for Field {
    fn clone(&self) -> (r: Field)
        ensures
            r@ == self@,
    {
        self.duplicate()
    }
}

impl Duplicate for FieldValue {
    fn duplicate(&self) -> (r: FieldValue) {
        match self {
            FieldValue::String(value) => FieldValue::String(value.duplicate()),
            FieldValue::Numeric(value) => FieldValue::Numeric(value.duplicate()),
        }
    }
}

impl Clone for FieldValue {
    fn clone(&self) -> (r: FieldValue)
        ensures
            r@ == self@,
    {
        self.duplicate()
    }
}

impl<A: Duplicate, B: Duplicate> Duplicate for (A, B) {
    fn duplicate(&self) -> (r: (A, B)) {
        (self.0.duplicate(), self.1.duplicate())
    }
}

impl Duplicate for SearchResponse {
    fn duplicate(&self) -> (r: SearchResponse) {
        SearchResponse { fields: self.fields.duplicate() }
    }
}

impl Clone for SearchResponse {
    fn clone(&self) -> (r: SearchResponse)
        ensures
            r@ == self@,
    {
        self.duplicate()
    }
}

/// Whether the fields declare `key` as a number.
pub open spec fn declares_float(schema: Map<Seq<char>, FieldView>, key: Seq<char>) -> bool {
    schema.contains_key(key) && schema[key].field_type is Float
}

/// Whether the fields declare `key` as a label.
pub open spec fn declares_string(schema: Map<Seq<char>, FieldView>, key: Seq<char>) -> bool {
    schema.contains_key(key) && schema[key].field_type is String
}

/// An answer without what the declared fields do not allow: a numeric field
/// stays if and only if its name is declared as a number, a label field if
/// and only if its name is declared as a label. What stays is unchanged.
pub open spec fn verified(
    schema: Map<Seq<char>, FieldView>,
    result: SearchResultView,
) -> SearchResultView {
    SearchResultView {
        numeric_fields: Map::new(
            |key: Seq<char>| result.numeric_fields.contains_key(key) && declares_float(schema, key),
            |key: Seq<char>| result.numeric_fields[key],
        ),
        string_fields: Map::new(
            |key: Seq<char>| result.string_fields.contains_key(key) && declares_string(schema, key),
            |key: Seq<char>| result.string_fields[key],
        ),
    }
}

/// The view of what each source answered.
pub open spec fn answer_views(answers: Seq<Option<SearchResult>>) -> Seq<Option<SearchResultView>> {
    answers.map_values(
        |answer: Option<SearchResult>|
            match answer {
                Some(result) => Some(result@),
                None => None,
            },
    )
}

/// The answers that were given, each verified, in the order of the sources.
/// A source that gave no answer adds nothing.
pub open spec fn verified_answers(
    schema: Map<Seq<char>, FieldView>,
    answers: Seq<Option<SearchResultView>>,
) -> Seq<SearchResultView>
    decreases answers.len(),
{
    if answers.len() == 0 {
        Seq::empty()
    } else {
        match answers.last() {
            Some(result) => verified_answers(schema, answers.drop_last()).push(
                verified(schema, result),
            ),
            None => verified_answers(schema, answers.drop_last()),
        }
    }
}

/// The response to a merged answer: every field of it that is declared, with
/// its declaration. A name that the answer has both as a number and as a
/// label stands in the response as the label.
pub open spec fn response_fields(
    schema: Map<Seq<char>, FieldView>,
    merged: SearchResultView,
) -> Map<Seq<char>, (FieldView, FieldValueView)> {
    Map::new(
        |key: Seq<char>|
            schema.contains_key(key) && (merged.numeric_fields.contains_key(key)
                || merged.string_fields.contains_key(key)),
        |key: Seq<char>|
            if merged.string_fields.contains_key(key) {
                (schema[key], FieldValueView::String(merged.string_fields[key]))
            } else {
                (schema[key], FieldValueView::Numeric(merged.numeric_fields[key]))
            },
    )
}

/// What a reader is told of a field: its description, followed for a number
/// by the unit in brackets, and for a label by a note on the form of the
/// result.
pub open spec fn summary_of(field: FieldView) -> Seq<char> {
    match field.field_type {
        FieldTypeView::Float { unit } => field.description + " ("@ + unit + ")"@,
        FieldTypeView::String => field.description
            + ". Result is a distribution, mapping each key to a probability"@,
    }
}

/// The number that a response holds under a name: none where the name is not
/// in the response, or stands there as a label.
pub open spec fn numeric_under(
    response: Map<Seq<char>, (FieldView, FieldValueView)>,
    name: Seq<char>,
) -> Option<NumericView> {
    if response.contains_key(name) {
        match response[name].1 {
            FieldValueView::Numeric(value) => Some(value),
            FieldValueView::String(value) => None,
        }
    } else {
        None
    }
}

/// The labels that a response holds under a name, with their probabilities:
/// none where the name is not in the response, stands there as a number, or
/// as an error.
pub open spec fn labels_under(
    response: Map<Seq<char>, (FieldView, FieldValueView)>,
    name: Seq<char>,
) -> Option<Map<Seq<char>, Float64>> {
    if response.contains_key(name) {
        match response[name].1 {
            FieldValueView::String(value) => label_probabilities(value),
            FieldValueView::Numeric(value) => None,
        }
    } else {
        None
    }
}

impl Field {
    /// What a reader is told of the field: see [`summary_of`].
    pub fn summary(&self) -> (r: String)
        ensures
            r@ == summary_of(self@),
    {
        match &self.field_type {
            FieldType::Float { unit } => self.description.clone().concat(" (").concat(
                unit.as_str(),
            ).concat(")"),
            FieldType::String => self.description.clone().concat(
                ". Result is a distribution, mapping each key to a probability",
            ),
        }
    }
}

impl SearchResponse {
    /// The number under a name: see [`numeric_under`].
    pub fn numeric_value(&self, name: &String) -> (r: Option<NumericFieldValue>)
        ensures
            match r {
                Some(value) => numeric_under(self@, name@) == Some(value@),
                None => numeric_under(self@, name@) is None,
            },
    {
        match self.fields.get(name) {
            Some(entry) => match &entry.1 {
                FieldValue::Numeric(value) => Some(value.duplicate()),
                FieldValue::String(_) => None,
            },
            None => None,
        }
    }

    /// The labels under a name: see [`labels_under`].
    pub fn label_values(&self, name: &String) -> (r: Option<StringMap<Float64>>)
        ensures
            match r {
                Some(labels) => labels_under(self@, name@) == Some(labels@),
                None => labels_under(self@, name@) is None,
            },
    {
        match self.fields.get(name) {
            Some(entry) => match &entry.1 {
                FieldValue::String(value) => value.labels(),
                FieldValue::Numeric(_) => None,
            },
            None => None,
        }
    }
}

impl SearchEngine {
    /// Drops from an answer every field that is not declared, or is declared
    /// with another kind: see [`verified`].
    pub fn verify(&self, result: &SearchResult) -> (r: SearchResult)
        ensures
            r@ == verified(self.search_fields@, result@),
    {
        let ghost schema = self.search_fields@;
        let mut kept = SearchResult::default();
        let numeric = result.numeric_fields.entries();
        let ghost numeric_pairs = pairs_of(numeric@);
        let mut n: usize = 0;
        while n < numeric.len()
            invariant
                n <= numeric.len(),
                schema == self.search_fields@,
                numeric_pairs == pairs_of(numeric@),
                distinct_keys(numeric_pairs),
                kept@.string_fields == Map::<Seq<char>, StringView>::empty(),
                kept@.numeric_fields == Map::new(
                    |key: Seq<char>|
                        pairs_to_map(numeric_pairs.take(n as int)).contains_key(key)
                            && declares_float(schema, key),
                    |key: Seq<char>| pairs_to_map(numeric_pairs.take(n as int))[key],
                ),
            decreases numeric.len() - n,
        {
            proof {
                lemma_pairs_to_map_take(numeric_pairs, n as int);
                assert(numeric_pairs[n as int] == (numeric@[n as int].0@, numeric@[n as int].1@));
            }
            let ghost before = kept@.numeric_fields;
            let declared = match self.search_fields.get(&numeric[n].0) {
                Some(field) => match field.field_type {
                    FieldType::Float { .. } => true,
                    FieldType::String => false,
                },
                None => false,
            };
            if declared {
                kept.numeric_fields.insert(numeric[n].0.clone(), numeric[n].1.duplicate());
            }
            proof {
                assert(kept@.numeric_fields =~= Map::new(
                    |key: Seq<char>|
                        pairs_to_map(numeric_pairs.take(n + 1)).contains_key(key)
                            && declares_float(schema, key),
                    |key: Seq<char>| pairs_to_map(numeric_pairs.take(n + 1))[key],
                ));
            }
            n += 1;
        }
        proof {
            assert(numeric_pairs.take(numeric.len() as int) =~= numeric_pairs);
            assert(kept@.numeric_fields =~= verified(schema, result@).numeric_fields);
        }
        let strings = result.string_fields.entries();
        let ghost string_pairs = pairs_of(strings@);
        let mut m: usize = 0;
        while m < strings.len()
            invariant
                m <= strings.len(),
                schema == self.search_fields@,
                string_pairs == pairs_of(strings@),
                distinct_keys(string_pairs),
                kept@.numeric_fields == verified(schema, result@).numeric_fields,
                kept@.string_fields == Map::new(
                    |key: Seq<char>|
                        pairs_to_map(string_pairs.take(m as int)).contains_key(key)
                            && declares_string(schema, key),
                    |key: Seq<char>| pairs_to_map(string_pairs.take(m as int))[key],
                ),
            decreases strings.len() - m,
        {
            proof {
                lemma_pairs_to_map_take(string_pairs, m as int);
                assert(string_pairs[m as int] == (strings@[m as int].0@, strings@[m as int].1@));
            }
            let declared = match self.search_fields.get(&strings[m].0) {
                Some(field) => match field.field_type {
                    FieldType::String => true,
                    FieldType::Float { .. } => false,
                },
                None => false,
            };
            if declared {
                kept.string_fields.insert(strings[m].0.clone(), strings[m].1.duplicate());
            }
            proof {
                assert(kept@.string_fields =~= Map::new(
                    |key: Seq<char>|
                        pairs_to_map(string_pairs.take(m + 1)).contains_key(key)
                            && declares_string(schema, key),
                    |key: Seq<char>| pairs_to_map(string_pairs.take(m + 1))[key],
                ));
            }
            m += 1;
        }
        proof {
            assert(string_pairs.take(strings.len() as int) =~= string_pairs);
            assert(kept@.string_fields =~= verified(schema, result@).string_fields);
        }
        kept
    }

    /// Verifies every answer that was given: see [`verified_answers`].
    pub fn verify_all(&self, answers: &Vec<Option<SearchResult>>) -> (r: Vec<SearchResult>)
        ensures
            views(r@) == verified_answers(self.search_fields@, answer_views(answers@)),
    {
        let ghost schema = self.search_fields@;
        let ghost all = answer_views(answers@);
        let mut kept: Vec<SearchResult> = Vec::new();
        let mut i: usize = 0;
        while i < answers.len()
            invariant
                i <= answers.len(),
                schema == self.search_fields@,
                all == answer_views(answers@),
                views(kept@) == verified_answers(schema, all.take(i as int)),
            decreases answers.len() - i,
        {
            proof {
                assert(all.take(i + 1).drop_last() =~= all.take(i as int));
                assert(all.take(i + 1).last() == all[i as int]);
            }
            match &answers[i] {
                Some(result) => {
                    let checked = self.verify(result);
                    assert(views(kept@.push(checked)) =~= views(kept@).push(checked@));
                    kept.push(checked);
                },
                None => {},
            }
            i += 1;
        }
        proof {
            assert(all.take(answers.len() as int) =~= all);
        }
        kept
    }

    /// Pairs every field of a merged answer with its declaration: see
    /// [`response_fields`].
    pub fn annotate(&self, merged: SearchResult) -> (r: SearchResponse)
        ensures
            r@ == response_fields(self.search_fields@, merged@),
    {
        let ghost schema = self.search_fields@;
        let ghost whole = merged@;
        let mut fields: StringMap<(Field, FieldValue)> = StringMap::new();
        let numeric = merged.numeric_fields.into_entries();
        let ghost numeric_pairs = pairs_of(numeric@);
        for entry in iter: numeric
            invariant
                schema == self.search_fields@,
                pairs_of(iter.seq()) == numeric_pairs,
                distinct_keys(numeric_pairs),
                fields@ == Map::new(
                    |key: Seq<char>|
                        schema.contains_key(key) && pairs_to_map(
                            numeric_pairs.take(iter.index() as int),
                        ).contains_key(key),
                    |key: Seq<char>|
                        (
                            schema[key],
                            FieldValueView::Numeric(
                                pairs_to_map(numeric_pairs.take(iter.index() as int))[key],
                            ),
                        ),
                ),
        {
            let ghost n = iter.index() as int;
            proof {
                lemma_pairs_to_map_take(numeric_pairs, n);
                assert(numeric_pairs[n] == (entry.0@, entry.1@));
            }
            match self.search_fields.get(&entry.0) {
                Some(field) => {
                    fields.insert(entry.0, (field.duplicate(), FieldValue::Numeric(entry.1)));
                },
                None => {},
            }
            proof {
                assert(fields@ =~= Map::new(
                    |key: Seq<char>|
                        schema.contains_key(key) && pairs_to_map(
                            numeric_pairs.take(n + 1),
                        ).contains_key(key),
                    |key: Seq<char>|
                        (
                            schema[key],
                            FieldValueView::Numeric(pairs_to_map(numeric_pairs.take(n + 1))[key]),
                        ),
                ));
            }
        }
        proof {
            assert(numeric_pairs.take(numeric_pairs.len() as int) =~= numeric_pairs);
        }
        let strings = merged.string_fields.into_entries();
        let ghost string_pairs = pairs_of(strings@);
        for entry in iter: strings
            invariant
                schema == self.search_fields@,
                pairs_of(iter.seq()) == string_pairs,
                distinct_keys(string_pairs),
                pairs_to_map(numeric_pairs) == whole.numeric_fields,
                fields@ == Map::new(
                    |key: Seq<char>|
                        schema.contains_key(key) && (whole.numeric_fields.contains_key(key)
                            || pairs_to_map(string_pairs.take(iter.index() as int)).contains_key(
                            key,
                        )),
                    |key: Seq<char>|
                        if pairs_to_map(string_pairs.take(iter.index() as int)).contains_key(key) {
                            (
                                schema[key],
                                FieldValueView::String(
                                    pairs_to_map(string_pairs.take(iter.index() as int))[key],
                                ),
                            )
                        } else {
                            (schema[key], FieldValueView::Numeric(whole.numeric_fields[key]))
                        },
                ),
        {
            let ghost n = iter.index() as int;
            proof {
                lemma_pairs_to_map_take(string_pairs, n);
                assert(string_pairs[n] == (entry.0@, entry.1@));
            }
            match self.search_fields.get(&entry.0) {
                Some(field) => {
                    fields.insert(entry.0, (field.duplicate(), FieldValue::String(entry.1)));
                },
                None => {},
            }
            proof {
                assert(fields@ =~= Map::new(
                    |key: Seq<char>|
                        schema.contains_key(key) && (whole.numeric_fields.contains_key(key)
                            || pairs_to_map(string_pairs.take(n + 1)).contains_key(key)),
                    |key: Seq<char>|
                        if pairs_to_map(string_pairs.take(n + 1)).contains_key(key) {
                            (
                                schema[key],
                                FieldValueView::String(pairs_to_map(string_pairs.take(n + 1))[key]),
                            )
                        } else {
                            (schema[key], FieldValueView::Numeric(whole.numeric_fields[key]))
                        },
                ));
            }
        }
        proof {
            assert(string_pairs.take(string_pairs.len() as int) =~= string_pairs);
            assert(fields@ =~= response_fields(schema, whole));
        }
        SearchResponse { fields }
    }

    /// Answers a query from what the sources answered to it.
    ///
    /// The answers are verified and merged. Where the rules alone fix every
    /// merged field, the result is the response. Where a field is left to be
    /// combined or fused, the result is the merge: the caller does the
    /// arithmetic on what is left and calls [`SearchEngine::annotate`].
    pub fn search(&self, answers: &Vec<Option<SearchResult>>) -> (r: Result<
        SearchResponse,
        SearchMerge,
    >)
        ensures
            match r {
                Ok(response) => {
                    &&& all_resolved(search_merge(self.search_fields@, answer_views(answers@)))
                    &&& response@ == response_fields(
                        self.search_fields@,
                        resolved_fields(search_merge(self.search_fields@, answer_views(answers@))),
                    )
                },
                Err(merge) => {
                    &&& !all_resolved(search_merge(self.search_fields@, answer_views(answers@)))
                    &&& merge@ == search_merge(self.search_fields@, answer_views(answers@))
                },
            },
    {
        let checked = self.verify_all(answers);
        match SearchResult::merge(&checked).finish() {
            Ok(merged) => Ok(self.annotate(merged)),
            Err(merge) => Err(merge),
        }
    }
}

/// The merge that a query comes to: the merge of the verified answers.
pub open spec fn search_merge(
    schema: Map<Seq<char>, FieldView>,
    answers: Seq<Option<SearchResultView>>,
) -> crate::search_result::SearchMergeView {
    merged_fields(verified_answers(schema, answers))
}

/// Whether an answer was given and has a numeric field of the name.
pub open spec fn has_numeric(answer: Option<SearchResultView>, key: Seq<char>) -> bool {
    match answer {
        Some(result) => result.numeric_fields.contains_key(key),
        None => false,
    }
}

/// Whether an answer was given and has a label field of the name.
pub open spec fn has_string(answer: Option<SearchResultView>, key: Seq<char>) -> bool {
    match answer {
        Some(result) => result.string_fields.contains_key(key),
        None => false,
    }
}

/// Whether some source answered with a numeric field of the name.
pub open spec fn answered_numeric(answers: Seq<Option<SearchResultView>>, key: Seq<char>) -> bool {
    exists|i: int| 0 <= i < answers.len() && has_numeric(#[trigger] answers[i], key)
}

/// Whether some source answered with a label field of the name.
pub open spec fn answered_string(answers: Seq<Option<SearchResultView>>, key: Seq<char>) -> bool {
    exists|i: int| 0 <= i < answers.len() && has_string(#[trigger] answers[i], key)
}

/// A verified answer holds declared fields only, each of the kind that it is
/// declared with; so no name is in it both as a number and as a label, and
/// verifying it again changes nothing.
pub proof fn lemma_verified_is_declared(schema: Map<Seq<char>, FieldView>, result: SearchResultView)
    ensures
        forall|key: Seq<char>| #[trigger]
            verified(schema, result).numeric_fields.contains_key(key) ==> declares_float(
                schema,
                key,
            ),
        forall|key: Seq<char>| #[trigger]
            verified(schema, result).string_fields.contains_key(key) ==> declares_string(
                schema,
                key,
            ),
        forall|key: Seq<char>|
            !(#[trigger] verified(schema, result).numeric_fields.contains_key(key) && verified(
                schema,
                result,
            ).string_fields.contains_key(key)),
        verified(schema, verified(schema, result)) == verified(schema, result),
{
    let once = verified(schema, result);
    let twice = verified(schema, once);
    assert(twice.numeric_fields =~= once.numeric_fields);
    assert(twice.string_fields =~= once.string_fields);
}

/// The fields of a response.
///
/// A name is in the response to a query if and only if some source answered
/// it with the kind that the name is declared with. It stands there with its
/// declaration, and its value is a number if and only if it is declared as a
/// number. What a source answers under a name that is not declared, or under
/// the other kind, changes nothing.
pub proof fn lemma_response_is_declared(
    schema: Map<Seq<char>, FieldView>,
    answers: Seq<Option<SearchResultView>>,
    key: Seq<char>,
)
    ensures
        response_fields(schema, resolved_fields(search_merge(schema, answers))).contains_key(key)
            <==> (answered_numeric(answers, key) && declares_float(schema, key)) || (
        answered_string(answers, key) && declares_string(schema, key)),
        response_fields(schema, resolved_fields(search_merge(schema, answers))).contains_key(key)
            ==> {
            let entry = response_fields(schema, resolved_fields(search_merge(schema, answers)))[key];
            &&& entry.0 == schema[key]
            &&& entry.1 is Numeric <==> schema[key].field_type is Float
            &&& entry.1 is String <==> schema[key].field_type is String
        },
{
    lemma_verified_answers_hold(schema, answers, key);
}

proof fn lemma_verified_answers_hold(
    schema: Map<Seq<char>, FieldView>,
    answers: Seq<Option<SearchResultView>>,
    key: Seq<char>,
)
    ensures
        some_has(numeric_maps(verified_answers(schema, answers)), key) <==> (answered_numeric(
            answers,
            key,
        ) && declares_float(schema, key)),
        some_has(string_maps(verified_answers(schema, answers)), key) <==> (answered_string(
            answers,
            key,
        ) && declares_string(schema, key)),
    decreases answers.len(),
{
    let kept = verified_answers(schema, answers);
    if answers.len() == 0 {
        assert(kept.len() == 0);
    } else {
        let front = answers.drop_last();
        let n = answers.len() - 1;
        lemma_verified_answers_hold(schema, front, key);
        let kept_front = verified_answers(schema, front);
        assert forall|i: int| 0 <= i < n implies front[i] == answers[i] by {}
        assert(answered_numeric(answers, key) <==> (answered_numeric(front, key) || has_numeric(
            answers[n],
            key,
        ))) by {
            if answered_numeric(front, key) {
                let i = choose|i: int|
                    0 <= i < front.len() && has_numeric(#[trigger] front[i], key);
                assert(answers[i] == front[i]);
            }
            if answered_numeric(answers, key) {
                let i = choose|i: int|
                    0 <= i < answers.len() && has_numeric(#[trigger] answers[i], key);
                if i < n {
                    assert(front[i] == answers[i]);
                }
            }
        }
        assert(answered_string(answers, key) <==> (answered_string(front, key) || has_string(
            answers[n],
            key,
        ))) by {
            if answered_string(front, key) {
                let i = choose|i: int| 0 <= i < front.len() && has_string(#[trigger] front[i], key);
                assert(answers[i] == front[i]);
            }
            if answered_string(answers, key) {
                let i = choose|i: int|
                    0 <= i < answers.len() && has_string(#[trigger] answers[i], key);
                if i < n {
                    assert(front[i] == answers[i]);
                }
            }
        }
        match answers.last() {
            Some(result) => {
                let last = verified(schema, result);
                assert(kept == kept_front.push(last));
                lemma_some_has_push(numeric_maps(kept_front), last.numeric_fields, key);
                lemma_some_has_push(string_maps(kept_front), last.string_fields, key);
                assert(numeric_maps(kept) =~= numeric_maps(kept_front).push(last.numeric_fields));
                assert(string_maps(kept) =~= string_maps(kept_front).push(last.string_fields));
            },
            None => {
                assert(kept == kept_front);
            },
        }
    }
}

proof fn lemma_some_has_push<T>(
    maps: Seq<Map<Seq<char>, T>>,
    last: Map<Seq<char>, T>,
    key: Seq<char>,
)
    ensures
        some_has(maps.push(last), key) <==> (some_has(maps, key) || last.contains_key(key)),
{
    let longer = maps.push(last);
    if some_has(maps, key) {
        let i = choose|i: int| 0 <= i < maps.len() && (#[trigger] maps[i]).contains_key(key);
        assert(longer[i].contains_key(key));
    }
    if last.contains_key(key) {
        assert(longer[maps.len() as int].contains_key(key));
    }
    if some_has(longer, key) {
        let i = choose|i: int| 0 <= i < longer.len() && (#[trigger] longer[i]).contains_key(key);
        if i < maps.len() {
            assert(maps[i].contains_key(key));
        }
    }
}

/// A query that no source answers comes to a response without fields,
/// whatever fields are declared and however many sources were asked.
pub proof fn lemma_no_answer_no_fields(
    schema: Map<Seq<char>, FieldView>,
    answers: Seq<Option<SearchResultView>>,
)
    requires
        forall|i: int| 0 <= i < answers.len() ==> #[trigger] answers[i] is None,
    ensures
        all_resolved(search_merge(schema, answers)),
        response_fields(schema, resolved_fields(search_merge(schema, answers))) == Map::<
            Seq<char>,
            (FieldView, FieldValueView),
        >::empty(),
    decreases answers.len(),
{
    assert(verified_answers(schema, answers).len() == 0) by {
        lemma_unanswered(schema, answers);
    }
    let merge = search_merge(schema, answers);
    assert(merge.numeric_fields =~= Map::empty());
    assert(merge.string_fields =~= Map::empty());
    assert(response_fields(schema, resolved_fields(merge)) =~= Map::empty());
}

proof fn lemma_unanswered(schema: Map<Seq<char>, FieldView>, answers: Seq<Option<SearchResultView>>)
    requires
        forall|i: int| 0 <= i < answers.len() ==> #[trigger] answers[i] is None,
    ensures
        verified_answers(schema, answers).len() == 0,
    decreases answers.len(),
{
    if answers.len() > 0 {
        assert(answers[answers.len() - 1] is None);
        lemma_unanswered(schema, answers.drop_last());
    }
}

} // verus!
