//! The search query: one request to search the documents of a role.

use vstd::prelude::*;

verus! {

/// A search request. Only the term is required; what is absent is left
/// to the searcher's defaults.
#[derive(Clone, Debug, PartialEq, Eq)]
pub struct SearchQuery {
    /// The user's query text, as typed.
    pub search_term: String,
    /// How many results to pass over.
    pub skip: Option<usize>,
    /// How many results to return at most.
    pub limit: Option<usize>,
    /// The role whose graph is searched.
    pub role: Option<String>,
}

/// A query as mathematics.
pub ghost struct SearchQueryView {
    pub search_term: Seq<char>,
    pub skip: Option<nat>,
    pub limit: Option<nat>,
    pub role: Option<Seq<char>>,
}

impl View for SearchQuery {
    type V = SearchQueryView;

    open spec fn view(&self) -> SearchQueryView {
        SearchQueryView {
            search_term: self.search_term@,
            skip: match self.skip {
                Some(n) => Some(n as nat),
                None => None,
            },
            limit: match self.limit {
                Some(n) => Some(n as nat),
                None => None,
            },
            role: self.role.deep_view(),
        }
    }
}

} // verus!
