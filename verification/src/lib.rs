//! Request and document schemas of a role-scoped document search service:
//! the search query, the submitted article, the canonical document, and the
//! conversion that gives every submitted article an identity.

pub mod article;
pub mod document;
pub mod ident;
pub mod query;
