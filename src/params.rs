//! The plain request values that the HTTP layer decodes and hands to the library.

use vstd::prelude::*;
use crate::article::ArticleQuery;
use crate::user_name::UserName;

verus! {

/// Window of an article listing.
pub struct GetArticlesParams {
    pub skip: usize,
    pub limit: usize,
}

/// A new article; `author` names an existing user.
pub struct CreateArticlePayload {
    pub author: String,
    pub title: String,
    pub content: String,
}

/// A partial update of an article; absent fields are kept.
pub struct UpdateArticlePayload {
    pub title: Option<String>,
    pub content: Option<String>,
}

/// An article search: optional title text and author, and the window of results.
pub struct SearchParams {
    pub title_q: Option<String>,
    pub author: Option<String>,
    pub skip: usize,
    pub limit: usize,
}

impl SearchParams {
    /// The filter that this search describes.
    pub fn into_query(self) -> (r: ArticleQuery)
        ensures
            r.title_query == self.title_q,
            self.author is Some == r.author_query is Some,
            r.author_query matches Some(n) ==> self.author matches Some(a) && n@ == a@,
    {
        ArticleQuery {
            title_query: self.title_q,
            author_query: match self.author {
                Some(a) => Some(UserName::new(a)),
                None => None,
            },
        }
    }
}

/// A registration.
pub struct CreateUserRequest {
    pub name: String,
    pub display_name: String,
    pub intro: String,
    pub email: String,
    pub show_email: bool,
    pub password: String,
}

/// A partial update of a user; absent fields are kept.
pub struct UpdateUserRequest {
    pub display_name: Option<String>,
    pub intro: Option<String>,
    pub email: Option<String>,
    pub show_email: Option<bool>,
    pub password: Option<String>,
}

/// Window of a user listing.
pub struct GetUsersParams {
    pub skip: usize,
    pub limit: usize,
}

/// Connection settings for an article store kept in a database.
pub struct ArticleRepositoryImpl {
    uri: String,
    user_name: String,
}

impl ArticleRepositoryImpl {
    pub fn new(uri: String, user_name: String) -> (r: ArticleRepositoryImpl)
        ensures
            r.uri() == uri@,
            r.user_name() == user_name@,
    {
        ArticleRepositoryImpl { uri, user_name }
    }

    /// The database address.
    pub closed spec fn uri(&self) -> Seq<char> {
        self.uri@
    }

    /// The database user.
    pub closed spec fn user_name(&self) -> Seq<char> {
        self.user_name@
    }

    /// The database address.
    pub fn get_uri(&self) -> (r: &str)
        ensures
            r@ == self.uri(),
    {
        self.uri.as_str()
    }

    /// The database user.
    pub fn get_user_name(&self) -> (r: &str)
        ensures
            r@ == self.user_name(),
    {
        self.user_name.as_str()
    }
}

} // verus!
