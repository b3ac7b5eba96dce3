//! The configuration of an engine: the declared fields and the sources to ask.

use crate::search_engine::{Field, SearchEngine};
use crate::string_map::StringMap;
use std::path::PathBuf;
use vstd::prelude::*;

verus! {

/// `std::path::PathBuf`, which the library only carries from the
/// configuration to whoever opens the file.
#[verifier::external_type_specification]
#[verifier::external_body]
pub struct ExPathBuf(PathBuf);

/// Where a source is to be found.
#[derive(Debug)]
pub enum DataSourceConfig {
    OpenFoodFacts,
    Mock { data_path: PathBuf },
    Grpc { address: String },
    Rest { base_url: String },
}

/// The declared fields, and the sources in the order in which they are asked.
#[derive(Debug)]
pub struct Config {
    pub fields: StringMap<Field>,
    pub data_sources: Vec<DataSourceConfig>,
}

impl Config {
    /// Splits the configuration into the engine, which holds the declared
    /// fields as they are, and the sources, which are left for the caller to
    /// connect.
    pub fn to_search_engine(self) -> (r: (SearchEngine, Vec<DataSourceConfig>))
        ensures
            r.0.search_fields@ == self.fields@,
            r.1@ == self.data_sources@,
    {
        (SearchEngine { search_fields: self.fields }, self.data_sources)
    }
}

} // verus!
