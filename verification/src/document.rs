//! The canonical document, and the conversion that makes one of an article.

use vstd::prelude::*;
use vstd::std_specs::convert::FromSpecImpl;
use crate::article::{Article, ArticleView};
use crate::ident::{
    draw_bits, is_sortable_text, lemma_text_is_injective, render_id, sortable_text, ID_LEN,
};

verus! {

/// A document as it is indexed and stored: always identified.
#[derive(Clone, Debug, PartialEq, Eq)]
pub struct Document {
    pub id: String,
    pub title: String,
    pub body: Option<String>,
    pub description: Option<String>,
}

/// A document as mathematics: every string a sequence of characters.
pub ghost struct DocumentView {
    pub id: Seq<char>,
    pub title: Seq<char>,
    pub body: Option<Seq<char>>,
    pub description: Option<Seq<char>>,
}

impl View for Document {
    type V = DocumentView;

    open spec fn view(&self) -> DocumentView {
        DocumentView {
            id: self.id@,
            title: self.title@,
            body: self.body.deep_view(),
            description: self.description.deep_view(),
        }
    }
}

/// The document of `article` when `fresh` is the identity on offer: the
/// caller's id wins, whatever it holds; title and description pass through;
/// the body is always present; stub, url and tags are left behind.
pub open spec fn canonical(article: ArticleView, fresh: Seq<char>) -> DocumentView {
    DocumentView {
        id: match article.id {
            Some(id) => id,
            None => fresh,
        },
        title: article.title,
        body: Some(article.body),
        description: article.description,
    }
}

/// Whether `doc` is a document of `article`: title and description as
/// submitted, the body present, and as id the caller's, verbatim, or else
/// the text of some sortable identifier.
pub open spec fn is_document_of(article: ArticleView, doc: DocumentView) -> bool {
    &&& doc.title == article.title
    &&& doc.body == Some(article.body)
    &&& doc.description == article.description
    &&& match article.id {
        Some(id) => doc.id == id,
        None => is_sortable_text(doc.id),
    }
}

impl Document {
    /// The document of `article`, identified by the caller's id, or by the
    /// text of the identifier `fresh` where the caller gave none.
    pub fn from_article(article: Article, fresh: u128) -> (doc: Document)
        ensures
            doc@ == canonical(article@, sortable_text(fresh)),
    {
        let Article { id, title, body, description, .. } = article;
        let id = match id {
            Some(id) => id,
            None => render_id(fresh),
        };
        Document { id, title, body: Some(body), description }
    }
}

impl FromSpecImpl<Article> for Document {
    /// A new identity differs from call to call, so the conversion is no
    /// function of the article alone.
    open spec fn obeys_from_spec() -> bool {
        false
    }

    open spec fn from_spec(v: Article) -> Document {
        arbitrary()
    }
}

impl From<Article> for Document {
    /// The document of `val`. An article without an id gets a new sortable
    /// identifier, drawn from the clock and from random numbers.
    fn from(val: Article) -> (doc: Document)
        ensures
            is_document_of(val@, doc@),
            val@.id is None ==> doc@.id.len() == ID_LEN,
    {
        // Nothing is drawn for an article that names itself: its id wins
        // over whatever is on offer.
        let fresh: u128 = if val.id.is_none() {
            draw_bits()
        } else {
            0
        };
        Document::from_article(val, fresh)
    }
}

/// Whatever identifier is on offer, the canonical document is a document
/// of the article.
pub proof fn lemma_canonical_is_document(article: ArticleView, fresh: u128)
    ensures
        is_document_of(article, canonical(article, sortable_text(fresh))),
{
}

/// An article that brings its own id has one document only: converting it
/// again gives the same document.
pub proof fn lemma_supplied_id_fixes_document(
    article: ArticleView,
    first: DocumentView,
    second: DocumentView,
)
    requires
        article.id is Some,
        is_document_of(article, first),
        is_document_of(article, second),
    ensures
        first == second,
        first.id == article.id->0,
{
}

/// An article without an id gets a different document for each
/// identifier: two conversions agree only where they drew the same one.
pub proof fn lemma_fresh_ids_part_documents(article: ArticleView, first: u128, second: u128)
    requires
        article.id is None,
        canonical(article, sortable_text(first)) == canonical(article, sortable_text(second)),
    ensures
        first == second,
{
    lemma_text_is_injective(first, second);
}

} // verus!
