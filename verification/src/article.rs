//! The article: a document as a caller submits it, possibly partial.

use vstd::prelude::*;

verus! {

/// A submitted document. Only `title`, `url` and `body` are required of
/// the caller.
#[derive(Clone, Debug, PartialEq, Eq)]
pub struct Article {
    /// The caller's identity for the document, if they chose one.
    pub id: Option<String>,
    /// A short summary.
    pub stub: Option<String>,
    pub title: String,
    /// Where the document was found.
    pub url: String,
    /// The full content.
    pub body: String,
    pub description: Option<String>,
    pub tags: Option<Vec<String>>,
}

/// An article as mathematics: every string a sequence of characters.
pub ghost struct ArticleView {
    pub id: Option<Seq<char>>,
    pub stub: Option<Seq<char>>,
    pub title: Seq<char>,
    pub url: Seq<char>,
    pub body: Seq<char>,
    pub description: Option<Seq<char>>,
    pub tags: Option<Seq<Seq<char>>>,
}

impl View for Article {
    type V = ArticleView;

    open spec fn view(&self) -> ArticleView {
        ArticleView {
            id: self.id.deep_view(),
            stub: self.stub.deep_view(),
            title: self.title@,
            url: self.url@,
            body: self.body@,
            description: self.description.deep_view(),
            tags: self.tags.deep_view(),
        }
    }
}

} // verus!
