//! Data fusion for a federated search: several sources are asked for the same
//! entity, and what they answer, field by field, is merged into one response.
//!
//! An answer gives a field as an uncertain number
//! ([`numeric::NumericFieldValue`]) or as an uncertain label
//! ([`string::StringFieldValue`]). The library holds the rules by which
//! several such values become one, the merge of whole answers
//! ([`search_result::SearchResult`]), and the engine that checks answers
//! against the declared fields and builds the response
//! ([`search_engine::SearchEngine`]). Every rule has a contract, stated over
//! the mathematical value of the data, and is proved to meet it.
//!
//! Two things are left to the caller. It asks the sources, since that is
//! input and output; the library takes the answers. And it does the
//! arithmetic on real numbers, which the library holds as bit patterns
//! ([`scalar::Float64`]) and never computes with: where a merge comes down to
//! integrating a product of densities or to multiplying probabilities, the
//! library hands back exactly what is to be computed and builds the result
//! from what the caller computed.

pub mod datasources;
pub mod duplicate;
pub mod numeric;
pub mod scalar;
pub mod search_engine;
pub mod search_engine_config;
pub mod search_result;
pub mod string;
pub mod string_map;
