//! Uncertain labels, and the rules by which several of them become one.
//!
//! A field's label is one string, a discrete distribution over strings, or a
//! marker that no coherent value exists. A distribution lists the probability
//! of each label in its support; a label that it does not list has
//! probability zero, and the listed probabilities need not add up to one.
//!
//! This module holds every decision that merging labels takes and does no
//! arithmetic. Where a merge comes down to multiplying probabilities, `merge`
//! hands back the factors of each candidate label, the caller multiplies, adds
//! and divides, and `fused` builds the result from what came out.

use crate::duplicate::{views, Duplicate};
use crate::scalar::{Float64, NAN_BITS, ONE_BITS, ZERO_BITS};
use crate::string_map::{
    distinct_keys, has_key, lemma_has_key_take, lemma_pairs_to_map_domain,
    lemma_pairs_to_map_take, pairs_of, pairs_to_map, StringMap,
};
use vstd::prelude::*;

verus! {

/// An uncertain label.
#[derive(Debug)]
pub enum StringFieldValue {
    /// One label.
    Exact(String),
    /// The probability of each label of the support.
    Distribution(StringMap<Float64>),
    /// No coherent value.
    Error,
}

/// The mathematical value of a [`StringFieldValue`].
pub enum StringView {
    Exact(Seq<char>),
    Distribution(Map<Seq<char>, Float64>),
    Error,
}

impl View for StringFieldValue {
    type V = StringView;

    open spec fn view(&self) -> StringView {
        match *self {
            StringFieldValue::Exact(label) => StringView::Exact(label@),
            StringFieldValue::Distribution(probabilities) => StringView::Distribution(
                probabilities@,
            ),
            StringFieldValue::Error => StringView::Error,
        }
    }
}

/// What the rules decide of a merge before any probability is multiplied.
#[derive(Debug)]
pub enum StringMerge {
    /// The rules alone fix the result.
    Resolved(StringFieldValue),
    /// The result is the renormalised product of the inputs: for each
    /// candidate label, the probability that each input gives it, in the
    /// order of the inputs.
    Fuse(StringMap<Vec<Float64>>),
}

/// The mathematical value of a [`StringMerge`].
pub enum StringMergeView {
    Resolved(StringView),
    Fuse(Map<Seq<char>, Seq<Float64>>),
}

impl View for StringMerge {
    type V = StringMergeView;

    open spec fn view(&self) -> StringMergeView {
        match *self {
            StringMerge::Resolved(value) => StringMergeView::Resolved(value@),
            StringMerge::Fuse(table) => StringMergeView::Fuse(table@),
        }
    }
}

/// What the arithmetic on one candidate label came to: the product of the
/// label's factors, and that product over the sum of all labels' products.
#[derive(Clone, Copy, Debug, PartialEq)]
pub struct Share {
    pub product: Float64,
    pub quotient: Float64,
}

impl View for Share {
    type V = Share;

    open spec fn view(&self) -> Share {
        *self
    }
}

impl Duplicate for Share {
    fn duplicate(&self) -> (r: Share) {
        *self
    }
}

/// Whether some value of the list is the error marker.
pub open spec fn any_error(values: Seq<StringView>) -> bool {
    exists|i: int| 0 <= i < values.len() && #[trigger] values[i] is Error
}

/// Whether every value of the list is a single label.
pub open spec fn all_exact(values: Seq<StringView>) -> bool {
    forall|i: int| 0 <= i < values.len() ==> #[trigger] values[i] is Exact
}

/// Whether every value of the list equals the first.
pub open spec fn all_equal_first(values: Seq<StringView>) -> bool {
    forall|i: int| 0 <= i < values.len() ==> #[trigger] values[i] == values[0]
}

/// The probability that a value gives a label, the value read as a
/// distribution: a single label has probability one and every other label
/// zero; a distribution gives what it lists, and zero to a label that it does
/// not list.
pub open spec fn probability(value: StringView, label: Seq<char>) -> Float64 {
    match value {
        StringView::Exact(own) => if own == label {
            Float64 { bits: ONE_BITS }
        } else {
            Float64 { bits: ZERO_BITS }
        },
        StringView::Distribution(probabilities) => if probabilities.contains_key(label) {
            probabilities[label]
        } else {
            Float64 { bits: ZERO_BITS }
        },
        StringView::Error => Float64 { bits: NAN_BITS },
    }
}

/// The labels that a value lists, the value read as a distribution.
pub open spec fn support(value: StringView) -> Set<Seq<char>> {
    match value {
        StringView::Exact(own) => set![own],
        StringView::Distribution(probabilities) => probabilities.dom(),
        StringView::Error => Set::empty(),
    }
}

/// The probability that each value of the list gives the label, in the order
/// of the list.
pub open spec fn factors(values: Seq<StringView>, label: Seq<char>) -> Seq<Float64> {
    Seq::new(values.len(), |j: int| probability(values[j], label))
}

/// The factors of each candidate label. The candidates are the labels that
/// the first value lists, and no others: a label that only a later value
/// lists is not considered.
pub open spec fn factor_table(values: Seq<StringView>) -> Map<Seq<char>, Seq<Float64>> {
    Map::new(
        |label: Seq<char>| support(values[0]).contains(label),
        |label: Seq<char>| factors(values, label),
    )
}

/// The decision that merging a list of values comes to.
///
/// No value gives an error, and one value gives itself. Of two or more: an
/// error among them makes the result an error; single labels alone give
/// their label where they all agree, and an error where two differ; any
/// other list is to be fused, each value read as a distribution.
pub open spec fn merge_outcome(values: Seq<StringView>) -> StringMergeView {
    if values.len() == 0 {
        StringMergeView::Resolved(StringView::Error)
    } else if values.len() == 1 {
        StringMergeView::Resolved(values[0])
    } else if any_error(values) {
        StringMergeView::Resolved(StringView::Error)
    } else if all_exact(values) {
        if all_equal_first(values) {
            StringMergeView::Resolved(values[0])
        } else {
            StringMergeView::Resolved(StringView::Error)
        }
    } else {
        StringMergeView::Fuse(factor_table(values))
    }
}

/// The labels that survive a fusion, each with its quotient: those whose
/// product is greater than zero.
pub open spec fn survivors(shares: Map<Seq<char>, Share>) -> Map<Seq<char>, Float64> {
    Map::new(
        |label: Seq<char>| shares.contains_key(label) && shares[label].product.spec_is_positive(),
        |label: Seq<char>| shares[label].quotient,
    )
}

/// The value that a fusion comes to: an error where the products add up to
/// zero, since no label is then left with any probability; otherwise the
/// distribution of the surviving labels.
pub open spec fn fused_outcome(shares: Map<Seq<char>, Share>, sum: Float64) -> StringView {
    if sum.spec_is_zero() {
        StringView::Error
    } else {
        StringView::Distribution(survivors(shares))
    }
}

/// The labels of a value as the caller of a query sees them: a single label
/// with probability one, a distribution as it stands, nothing for an error.
pub open spec fn label_probabilities(value: StringView) -> Option<Map<Seq<char>, Float64>> {
    match value {
        StringView::Exact(own) => Some(map![own => Float64 { bits: ONE_BITS }]),
        StringView::Distribution(probabilities) => Some(probabilities),
        StringView::Error => None,
    }
}

impl Duplicate for StringFieldValue {
    fn duplicate(&self) -> (r: StringFieldValue) {
        match self {
            StringFieldValue::Exact(label) => StringFieldValue::Exact(label.clone()),
            StringFieldValue::Distribution(probabilities) => StringFieldValue::Distribution(
                probabilities.duplicate(),
            ),
            StringFieldValue::Error => StringFieldValue::Error,
        }
    }
}

impl Clone for StringFieldValue {
    fn clone(&self) -> (r: StringFieldValue)
        ensures
            r@ == self@,
    {
        self.duplicate()
    }
}

impl StringFieldValue {
    /// The probability that the value gives the label: see [`probability`].
    pub fn probability_of(&self, label: &String) -> (r: Float64)
        ensures
            r == probability(self@, label@),
    {
        match self {
            StringFieldValue::Exact(own) => {
                if *own == *label {
                    Float64::one()
                } else {
                    Float64::zero()
                }
            },
            StringFieldValue::Distribution(probabilities) => {
                match probabilities.get(label) {
                    Some(p) => *p,
                    None => Float64::zero(),
                }
            },
            StringFieldValue::Error => Float64::nan(),
        }
    }

    fn factor_row(v: &Vec<Self>, label: &String) -> (row: Vec<Float64>)
        ensures
            row@ == factors(views(v@), label@),
    {
        let mut row: Vec<Float64> = Vec::new();
        let mut j: usize = 0;
        while j < v.len()
            invariant
                j <= v.len(),
                row.len() == j,
                forall|k: int| 0 <= k < j ==> row@[k] == probability(v@[k]@, label@),
            decreases v.len() - j,
        {
            row.push(v[j].probability_of(label));
            j += 1;
        }
        assert(row@ =~= factors(views(v@), label@));
        row
    }

    /// Decides the merge of `v`, as [`merge_outcome`] states it.
    pub fn merge(v: Vec<Self>) -> (r: StringMerge)
        ensures
            r@ == merge_outcome(views(v@)),
    {
        let ghost values = views(v@);
        if v.len() == 0 {
            return StringMerge::Resolved(StringFieldValue::Error);
        }
        if v.len() == 1 {
            return StringMerge::Resolved(v[0].duplicate());
        }
        let mut i: usize = 0;
        while i < v.len()
            invariant
                i <= v.len(),
                values == views(v@),
                forall|j: int| 0 <= j < i ==> !(#[trigger] values[j] is Error),
            decreases v.len() - i,
        {
            if let StringFieldValue::Error = v[i] {
                assert(values[i as int] is Error);
                return StringMerge::Resolved(StringFieldValue::Error);
            }
            i += 1;
        }
        let mut every_exact = true;
        let mut every_equal = true;
        let mut k: usize = 0;
        while k < v.len()
            invariant
                k <= v.len(),
                v.len() >= 2,
                values == views(v@),
                every_exact <==> forall|j: int| 0 <= j < k ==> #[trigger] values[j] is Exact,
                every_exact ==> (every_equal <==> forall|j: int|
                    0 <= j < k ==> #[trigger] values[j] == values[0]),
            decreases v.len() - k,
        {
            match (&v[k], &v[0]) {
                (StringFieldValue::Exact(label), StringFieldValue::Exact(first)) => {
                    if !(*label == *first) {
                        assert(values[k as int] != values[0]);
                        every_equal = false;
                    }
                },
                (StringFieldValue::Exact(_), _) => {
                    assert(!(values[0] is Exact));
                },
                _ => {
                    assert(!(values[k as int] is Exact));
                    every_exact = false;
                },
            }
            k += 1;
        }
        if every_exact {
            if every_equal {
                return StringMerge::Resolved(v[0].duplicate());
            } else {
                return StringMerge::Resolved(StringFieldValue::Error);
            }
        }
        let mut table: StringMap<Vec<Float64>> = StringMap::new();
        match &v[0] {
            StringFieldValue::Exact(label) => {
                let row = Self::factor_row(&v, label);
                table.insert(label.clone(), row);
                assert(table@ =~= factor_table(values));
            },
            StringFieldValue::Distribution(probabilities) => {
                let entries = probabilities.entries();
                let ghost pairs = pairs_of(entries@);
                let mut n: usize = 0;
                while n < entries.len()
                    invariant
                        n <= entries.len(),
                        values == views(v@),
                        pairs == pairs_of(entries@),
                        table@ == Map::new(
                            |label: Seq<char>| has_key(pairs.take(n as int), label),
                            |label: Seq<char>| factors(values, label),
                        ),
                    decreases entries.len() - n,
                {
                    let row = Self::factor_row(&v, &entries[n].0);
                    proof {
                        let key = entries@[n as int].0@;
                        assert(pairs[n as int].0 == key);
                        assert forall|label: Seq<char>| #[trigger]
                            has_key(pairs.take(n + 1), label) <==> (has_key(
                                pairs.take(n as int),
                                label,
                            ) || label == key) by {
                            lemma_has_key_take(pairs, n as int, label);
                        }
                        assert(table@.insert(key, row@) =~= Map::new(
                            |label: Seq<char>| has_key(pairs.take(n + 1), label),
                            |label: Seq<char>| factors(values, label),
                        ));
                    }
                    table.insert(entries[n].0.clone(), row);
                    n += 1;
                }
                proof {
                    assert(pairs.take(entries.len() as int) =~= pairs);
                    lemma_pairs_to_map_domain(pairs);
                    assert(table@ =~= factor_table(values));
                }
            },
            StringFieldValue::Error => {
                assert(values[0] is Error);
            },
        }
        StringMerge::Fuse(table)
    }

    /// Builds the result of a fusion from the arithmetic on its candidate
    /// labels: `shares` holds each label's product and quotient, `sum` the sum
    /// of all products. See [`fused_outcome`].
    pub fn fused(shares: StringMap<Share>, sum: Float64) -> (r: Self)
        ensures
            r@ == fused_outcome(shares@, sum),
    {
        if sum.is_zero() {
            return StringFieldValue::Error;
        }
        let entries = shares.entries();
        let ghost pairs = pairs_of(entries@);
        let mut kept: StringMap<Float64> = StringMap::new();
        let mut n: usize = 0;
        while n < entries.len()
            invariant
                n <= entries.len(),
                pairs == pairs_of(entries@),
                distinct_keys(pairs),
                kept@ == survivors(pairs_to_map(pairs.take(n as int))),
            decreases entries.len() - n,
        {
            proof {
                lemma_pairs_to_map_take(pairs, n as int);
                let before = pairs_to_map(pairs.take(n as int));
                let key = entries@[n as int].0@;
                let share = entries@[n as int].1;
                assert(pairs[n as int] == (key, share));
                if share.product.spec_is_positive() {
                    assert(survivors(before.insert(key, share)) =~= survivors(before).insert(
                        key,
                        share.quotient,
                    ));
                } else {
                    assert(survivors(before.insert(key, share)) =~= survivors(before));
                }
            }
            if entries[n].1.product.is_positive() {
                kept.insert(entries[n].0.clone(), entries[n].1.quotient);
            }
            n += 1;
        }
        proof {
            assert(pairs.take(entries.len() as int) =~= pairs);
        }
        StringFieldValue::Distribution(kept)
    }

    /// The labels of the value with their probabilities, as
    /// [`label_probabilities`] states them.
    pub fn labels(&self) -> (r: Option<StringMap<Float64>>)
        ensures
            match r {
                Some(listed) => label_probabilities(self@) == Some(listed@),
                None => label_probabilities(self@) is None,
            },
    {
        match self {
            StringFieldValue::Exact(own) => {
                let mut listed: StringMap<Float64> = StringMap::new();
                listed.insert(own.clone(), Float64::one());
                assert(listed@ =~= map![own@ => Float64 { bits: ONE_BITS }]);
                Some(listed)
            },
            StringFieldValue::Distribution(probabilities) => Some(probabilities.duplicate()),
            StringFieldValue::Error => None,
        }
    }
}

} // verus!
