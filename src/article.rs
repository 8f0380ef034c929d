//! Articles and the filter that selects them.

use vstd::prelude::*;
use crate::clock::now_micros;
use crate::ids::ArticleId;
use crate::user_name::UserName;

verus! {

/// An article as a mathematical value.
pub struct ArticleView {
    pub id: ArticleId,
    pub author: Seq<char>,
    pub content: Seq<char>,
    pub title: Seq<char>,
    pub created_at: i64,
    pub updated_at: i64,
}

/// A published text. The author is a name copied when the article was written, not a
/// link to a live user.
#[derive(Debug)]
pub struct Article {
    pub id: ArticleId,
    pub author: UserName,
    pub content: String,
    pub title: String,
    /// Microseconds since the Unix epoch.
    pub created_at: i64,
    /// Microseconds since the Unix epoch; never earlier than `created_at`.
    pub updated_at: i64,
}

impl View for Article {
    type V = ArticleView;

    open spec fn view(&self) -> ArticleView {
        ArticleView {
            id: self.id,
            author: self.author@,
            content: self.content@,
            title: self.title@,
            created_at: self.created_at,
            updated_at: self.updated_at,
        }
    }
}

impl ArticleView {
    /// A well-formed article: a twelve-byte identifier, and not modified before it was made.
    pub open spec fn wf(self) -> bool {
        self.id.wf() && self.created_at <= self.updated_at
    }
}

impl Clone for Article {
    fn clone(&self) -> (r: Self)
        ensures
            r@ == self@,
    {
        Article {
            id: self.id,
            author: self.author.clone(),
            content: self.content.clone(),
            title: self.title.clone(),
            created_at: self.created_at,
            updated_at: self.updated_at,
        }
    }
}

impl Article {
    /// A new article with a fresh identifier, made and last modified now.
    pub fn new_article(title: String, author: UserName, content: String) -> (r: Article)
        ensures
            r@.title == title@,
            r@.author == author@,
            r@.content == content@,
            r.created_at == r.updated_at,
            r@.wf(),
    {
        let now = now_micros();
        Article { id: ArticleId::new(), title, author, content, created_at: now, updated_at: now }
    }
}

/// The values of a sequence of articles.
pub open spec fn article_views(s: Seq<Article>) -> Seq<ArticleView> {
    s.map_values(|a: Article| a@)
}

/// Whether `needle` occurs in `hay` as a contiguous run.
pub open spec fn is_infix(needle: Seq<char>, hay: Seq<char>) -> bool {
    exists|i: int|
        0 <= i && i + needle.len() <= hay.len() && #[trigger] hay.subrange(i, i + needle.len())
            == needle
}

/// Relies on `str::contains` with a string pattern: whether `needle` occurs in `hay`.
#[verifier::external_body]
fn str_contains(hay: &str, needle: &str) -> (r: bool)
    ensures
        r == is_infix(needle@, hay@),
{
    hay.contains(needle)
}

/// Criteria for selecting articles; an absent criterion lets every article through.
pub struct ArticleQuery {
    /// Text that the title must contain (case-sensitive).
    pub title_query: Option<String>,
    /// The exact author.
    pub author_query: Option<UserName>,
}

impl ArticleQuery {
    /// Whether article `a` meets both criteria.
    pub open spec fn matches(&self, a: ArticleView) -> bool {
        &&& (match self.title_query {
            Some(t) => is_infix(t@, a.title),
            None => true,
        })
        &&& (match self.author_query {
            Some(n) => n@ == a.author,
            None => true,
        })
    }

    /// Whether `a` meets both criteria.
    pub fn matches_article(&self, a: &Article) -> (r: bool)
        ensures
            r == self.matches(a@),
    {
        let title_ok = match &self.title_query {
            Some(t) => str_contains(a.title.as_str(), t.as_str()),
            None => true,
        };
        let author_ok = match &self.author_query {
            Some(n) => a.author == *n,
            None => true,
        };
        title_ok && author_ok
    }
}

} // verus!
