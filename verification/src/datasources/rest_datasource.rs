//! A source behind an HTTP endpoint.

use vstd::prelude::*;
use vstd::string::StringExecFns;

verus! {

/// A source that answers `GET <base_url>/search?query=<query>` with an answer
/// in JSON. Its view is the base URL.
#[derive(Debug)]
pub struct RestDatasource {
    base_url: String,
}

impl View for RestDatasource {
    type V = Seq<char>;

    closed spec fn view(&self) -> Seq<char> {
        self.base_url@
    }
}

/// The address to ask for a query: the base URL, the path of the search
/// endpoint, and the query as it stands.
pub open spec fn search_address(base_url: Seq<char>, query: Seq<char>) -> Seq<char> {
    base_url + "/search?query="@ + query
}

impl RestDatasource {
    /// The source at `base_url`.
    pub fn new(base_url: String) -> (r: Self)
        ensures
            r@ == base_url@,
    {
        RestDatasource { base_url }
    }

    /// The address to ask for `query`: see [`search_address`].
    pub fn search_url(&self, query: &String) -> (r: String)
        ensures
            r@ == search_address(self@, query@),
    {
        self.base_url.clone().concat("/search?query=").concat(query.as_str())
    }
}

} // verus!
