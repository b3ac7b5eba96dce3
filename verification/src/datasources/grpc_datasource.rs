//! A source behind a remote procedure call: from the messages of the wire to
//! the values of the library.
//!
//! The types here hold what the messages hold, field for field. A value that
//! a message may leave out is an `Option`; the entries of a map come as a
//! list, in which a later entry for a key replaces an earlier one.

use crate::numeric::{NumericFieldValue, NumericView};
use crate::scalar::Float64;
use crate::search_result::SearchResult;
use crate::string::{StringFieldValue, StringView};
use crate::string_map::{pairs_of, pairs_to_map, StringMap};
use vstd::prelude::*;

verus! {

/// A label as the wire carries it.
#[derive(Debug)]
pub enum WireString {
    Exact(String),
    Distribution(Vec<(String, Float64)>),
}

/// A number as the wire carries it.
#[derive(Debug)]
pub enum WireNumeric {
    Exact { value: Float64 },
    Normal { sigma: Float64, mu: Float64 },
    Uniform { min: Float64, max: Float64 },
    Combination {
        values: Vec<Option<WireNumeric>>,
        scaling_factor: Float64,
        mu: Float64,
        sigma: Float64,
    },
}

/// An answer as the wire carries it.
#[derive(Debug)]
pub struct WireSearchResponse {
    pub numeric_fields: Vec<(String, Option<WireNumeric>)>,
    pub string_fields: Vec<(String, Option<WireString>)>,
}

/// The items of a list that are there, in the order of the list.
pub open spec fn present<T>(items: Seq<Option<T>>) -> Seq<T>
    decreases items.len(),
{
    if items.len() == 0 {
        Seq::empty()
    } else {
        match items.last() {
            Some(item) => present(items.drop_last()).push(item),
            None => present(items.drop_last()),
        }
    }
}

/// The label that a message stands for.
pub open spec fn string_of(value: WireString) -> StringView {
    match value {
        WireString::Exact(label) => StringView::Exact(label@),
        WireString::Distribution(entries) => StringView::Distribution(
            pairs_to_map(pairs_of(entries@)),
        ),
    }
}

/// The number that a message stands for. The components of a combination are
/// those of its values that are there.
pub open spec fn numeric_of(value: WireNumeric) -> NumericView
    decreases value,
{
    match value {
        WireNumeric::Exact { value } => NumericView::Exact(value),
        WireNumeric::Normal { sigma, mu } => NumericView::Normal { sigma, mean: mu },
        WireNumeric::Uniform { min, max } => NumericView::Uniform { min, max },
        WireNumeric::Combination { values, scaling_factor, mu, sigma } => NumericView::Combination {
            components: present(numerics_of(values@)),
            scaling_factor,
            mean: mu,
            sigma,
        },
    }
}

/// The number that each message of a list stands for, where the message is
/// there.
pub open spec fn numerics_of(values: Seq<Option<WireNumeric>>) -> Seq<Option<NumericView>>
    decreases values,
{
    Seq::new(
        values.len(),
        |i: int|
            if 0 <= i < values.len() {
                match values[i] {
                    Some(inner) => Some(numeric_of(inner)),
                    None => None,
                }
            } else {
                None
            },
    )
}

/// The numeric fields that the entries of a message stand for: an entry
/// without a value adds nothing.
pub open spec fn numeric_fields_of(entries: Seq<(String, Option<WireNumeric>)>) -> Map<
    Seq<char>,
    NumericView,
>
    decreases entries.len(),
{
    if entries.len() == 0 {
        Map::empty()
    } else {
        match entries.last().1 {
            Some(value) => numeric_fields_of(entries.drop_last()).insert(
                entries.last().0@,
                numeric_of(value),
            ),
            None => numeric_fields_of(entries.drop_last()),
        }
    }
}

/// The label fields that the entries of a message stand for: an entry without
/// a value adds nothing.
pub open spec fn string_fields_of(entries: Seq<(String, Option<WireString>)>) -> Map<
    Seq<char>,
    StringView,
>
    decreases entries.len(),
{
    if entries.len() == 0 {
        Map::empty()
    } else {
        match entries.last().1 {
            Some(value) => string_fields_of(entries.drop_last()).insert(
                entries.last().0@,
                string_of(value),
            ),
            None => string_fields_of(entries.drop_last()),
        }
    }
}

/// The label that a message stands for: see [`string_of`].
pub fn convert_string_field_value(value: WireString) -> (r: StringFieldValue)
    ensures
        r@ == string_of(value),
{
    match value {
        WireString::Exact(label) => StringFieldValue::Exact(label),
        WireString::Distribution(entries) => StringFieldValue::Distribution(
            StringMap::from_entries(entries),
        ),
    }
}

/// The number that a message stands for: see [`numeric_of`].
pub fn convert_numeric_field_value(value: WireNumeric) -> (r: NumericFieldValue)
    ensures
        r@ == numeric_of(value),
    decreases value,
{
    match value {
        WireNumeric::Exact { value } => NumericFieldValue::Exact(value),
        WireNumeric::Normal { sigma, mu } => NumericFieldValue::Normal { sigma, mean: mu },
        WireNumeric::Uniform { min, max } => NumericFieldValue::Uniform { min, max },
        WireNumeric::Combination { values, scaling_factor, mu, sigma } => {
            let ghost inner = numerics_of(values@);
            let mut components: Vec<NumericFieldValue> = Vec::new();
            for item in iter: values
                invariant
                    value matches WireNumeric::Combination { values: all, .. } && all@
                        == iter.seq(),
                    inner.len() == iter.seq().len(),
                    forall|i: int|
                        0 <= i < inner.len() ==> inner[i] == match #[trigger] iter.seq()[i] {
                            Some(wire) => Some(numeric_of(wire)),
                            None => None,
                        },
                    crate::duplicate::views(components@) == present(
                        inner.take(iter.index() as int),
                    ),
            {
                proof {
                    let n = iter.index() as int;
                    assert(inner.take(n + 1).drop_last() =~= inner.take(n));
                    assert(inner.take(n + 1).last() == inner[n]);
                }
                match item {
                    Some(wire) => {
                        let component = convert_numeric_field_value(wire);
                        assert(crate::duplicate::views(components@.push(component))
                            =~= crate::duplicate::views(components@).push(component@));
                        components.push(component);
                    },
                    None => {},
                }
            }
            proof {
                assert(inner.take(inner.len() as int) =~= inner);
            }
            let converted = NumericFieldValue::Combination {
                components,
                scaling_factor,
                mean: mu,
                sigma,
            };
            assert(converted@->components =~= present(inner));
            converted
        },
    }
}

/// The answer that a message stands for: each field that has a value,
/// converted.
pub fn convert_search_response(response: WireSearchResponse) -> (r: SearchResult)
    ensures
        r@.numeric_fields == numeric_fields_of(response.numeric_fields@),
        r@.string_fields == string_fields_of(response.string_fields@),
{
    let mut result = SearchResult::default();
    let ghost numeric = response.numeric_fields@;
    let ghost strings = response.string_fields@;
    for entry in iter: response.numeric_fields
        invariant
            iter.seq() == numeric,
            result@.string_fields == Map::<Seq<char>, StringView>::empty(),
            result@.numeric_fields == numeric_fields_of(numeric.take(iter.index() as int)),
    {
        proof {
            let n = iter.index() as int;
            assert(numeric.take(n + 1).drop_last() =~= numeric.take(n));
            assert(numeric.take(n + 1).last() == numeric[n]);
        }
        match entry.1 {
            Some(value) => {
                result.numeric_fields.insert(entry.0, convert_numeric_field_value(value));
            },
            None => {},
        }
    }
    proof {
        assert(numeric.take(numeric.len() as int) =~= numeric);
    }
    for entry in iter: response.string_fields
        invariant
            iter.seq() == strings,
            result@.numeric_fields == numeric_fields_of(numeric),
            result@.string_fields == string_fields_of(strings.take(iter.index() as int)),
    {
        proof {
            let n = iter.index() as int;
            assert(strings.take(n + 1).drop_last() =~= strings.take(n));
            assert(strings.take(n + 1).last() == strings[n]);
        }
        match entry.1 {
            Some(value) => {
                result.string_fields.insert(entry.0, convert_string_field_value(value));
            },
            None => {},
        }
    }
    proof {
        assert(strings.take(strings.len() as int) =~= strings);
    }
    result
}

} // verus!
