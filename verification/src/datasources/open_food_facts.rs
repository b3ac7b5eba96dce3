//! A source behind the Open Food Facts product search: from what the search
//! returned to the answer.

use crate::numeric::{NumericFieldValue, NumericView};
use crate::scalar::Float64;
use crate::search_result::{SearchResult, SearchResultView};
use vstd::prelude::*;
use vstd::string::StringExecFns;

verus! {

/// The energy of a product: the figure that the product states, and a tenth
/// of that figure, which the caller works out.
#[derive(Clone, Copy, Debug, PartialEq)]
pub struct Energy {
    pub stated: Float64,
    pub tenth: Float64,
}

/// The nutrition facts of a product.
#[derive(Clone, Copy, Debug, PartialEq)]
pub struct Nutriments {
    pub energy: Option<Energy>,
}

/// A product as the search returns it.
#[derive(Clone, Copy, Debug, PartialEq)]
pub struct Product {
    pub nutriments: Option<Nutriments>,
}

/// The answer with the one field `energy_density`: a normal distribution
/// around a tenth of the stated energy, as wide as the stated energy.
pub open spec fn energy_fields(energy: Energy) -> SearchResultView {
    SearchResultView {
        numeric_fields: map!["energy_density"@ => NumericView::Normal {
            sigma: energy.stated,
            mean: energy.tenth,
        }],
        string_fields: Map::empty(),
    }
}

/// The answer without fields.
pub open spec fn no_fields() -> SearchResultView {
    SearchResultView { numeric_fields: Map::empty(), string_fields: Map::empty() }
}

/// The answer that a search result stands for.
///
/// Only the first product counts. A result without a product list is an
/// answer without fields; an empty list, or a first product without
/// nutrition facts, is no answer; nutrition facts without an energy are an
/// answer without fields.
pub open spec fn energy_answer(products: Option<Seq<Product>>) -> Option<SearchResultView> {
    match products {
        None => Some(no_fields()),
        Some(list) => if list.len() == 0 {
            None
        } else {
            match list[0].nutriments {
                None => None,
                Some(nutriments) => match nutriments.energy {
                    None => Some(no_fields()),
                    Some(energy) => Some(energy_fields(energy)),
                },
            }
        },
    }
}

/// The answer that a search result stands for: see [`energy_answer`].
pub fn answer(products: Option<Vec<Product>>) -> (r: Option<SearchResult>)
    ensures
        match r {
            Some(result) => energy_answer(
                match products {
                    Some(list) => Some(list@),
                    None => None,
                },
            ) == Some(result@),
            None => energy_answer(
                match products {
                    Some(list) => Some(list@),
                    None => None,
                },
            ) is None,
        },
{
    match products {
        None => Some(SearchResult::default()),
        Some(list) => {
            if list.len() == 0 {
                return None;
            }
            match list[0].nutriments {
                None => None,
                Some(nutriments) => match nutriments.energy {
                    None => Some(SearchResult::default()),
                    Some(energy) => {
                        let mut result = SearchResult::default();
                        result.numeric_fields.insert(
                            String::from_str("energy_density"),
                            NumericFieldValue::Normal { sigma: energy.stated, mean: energy.tenth },
                        );
                        assert(result@.numeric_fields =~= energy_fields(energy).numeric_fields);
                        Some(result)
                    },
                },
            }
        },
    }
}

} // verus!
