//! The article store: every article, keyed by identifier, listed in creation order.

use vstd::prelude::*;
use crate::article::{Article, ArticleQuery, ArticleView, article_views};
use crate::clock::{advance, advanced, now_micros};
use crate::error::ArticleServiceError;
use crate::ids::{ArticleId, lemma_free_value_exists};
use crate::ordering::{
    is_ordered_page, k_smallest_keys, lemma_filter_unique_ids, lemma_rank_of_kth,
    lemma_unique_ids_keys, sort_key, sort_keys, unique_ids,
};
use crate::user_name::UserName;

verus! {

/// Whether some article of `s` has identifier `id`.
pub open spec fn has_article(s: Seq<ArticleView>, id: ArticleId) -> bool {
    exists|i: int| 0 <= i < s.len() && #[trigger] s[i].id == id
}

/// The index in `articles` of the article with identifier `id`, if any.
fn position_of(articles: &Vec<Article>, id: ArticleId) -> (r: Option<usize>)
    ensures
        r matches Some(i) ==> i < articles@.len() && articles@[i as int].id == id,
        r is None ==> forall|i: int| 0 <= i < articles@.len() ==> articles@[i].id != id,
{
    let mut i: usize = 0;
    while i < articles.len()
        invariant
            0 <= i <= articles@.len(),
            forall|j: int| 0 <= j < i ==> articles@[j].id != id,
        decreases articles@.len() - i,
    {
        if articles[i].id == id {
            return Some(i);
        }
        i += 1;
    }
    None
}

/// `drawn` if no article has it, else the least identifier value that no article has. One
/// of the values `0..=n` is always free among `n` articles.
fn free_article_id(articles: &Vec<Article>, drawn: ArticleId) -> (r: ArticleId)
    requires
        drawn.wf(),
    ensures
        r.wf(),
        forall|i: int| 0 <= i < articles@.len() ==> articles@[i].id != r,
{
    if position_of(articles, drawn).is_none() {
        return drawn;
    }
    let ghost vals = articles@.map_values(|a: Article| a.id.value as int);
    let n = articles.len();
    let mut k: u128 = 0;
    while k <= n as u128
        invariant
            n == articles@.len(),
            vals == articles@.map_values(|a: Article| a.id.value as int),
            forall|j: int| 0 <= j < k ==> vals.contains(j),
        decreases n as u128 + 1 - k,
    {
        match position_of(articles, ArticleId { value: k }) {
            None => {
                return ArticleId { value: k };
            },
            Some(i) => {
                assert(vals[i as int] == k as int);
            },
        }
        k += 1;
    }
    proof {
        lemma_free_value_exists(vals);
    }
    assert(false);
    drawn
}

/// The page of `articles` in listing order that skips `skip` articles and holds at most
/// `limit`.
pub fn ordered_page(articles: &Vec<Article>, skip: usize, limit: usize) -> (r: Vec<Article>)
    requires
        unique_ids(article_views(articles@)),
    ensures
        is_ordered_page(article_views(articles@), skip as int, limit as int, article_views(r@)),
{
    let ghost s = article_views(articles@);
    let n = articles.len();
    if skip >= n {
        let r: Vec<Article> = Vec::new();
        assert(article_views(r@) =~= Seq::<ArticleView>::empty());
        return r;
    }
    let take = if limit < n - skip {
        limit
    } else {
        n - skip
    };
    let k = skip + take;
    let mut keys: Vec<(i64, u128)> = Vec::new();
    let mut i: usize = 0;
    while i < n
        invariant
            0 <= i <= n,
            n == articles@.len(),
            s == article_views(articles@),
            keys@.len() == i,
            forall|j: int| 0 <= j < i ==> #[trigger] keys@[j] == sort_key(s[j]),
        decreases n - i,
    {
        keys.push((articles[i].created_at, articles[i].id.value));
        i += 1;
    }
    assert(keys@ =~= sort_keys(s));
    proof {
        lemma_unique_ids_keys(s);
    }
    let ks = k_smallest_keys(keys, k);
    let mut page: Vec<Article> = Vec::new();
    let mut j: usize = skip;
    while j < k
        invariant
            skip <= j <= k,
            k <= n,
            n == articles@.len(),
            s == article_views(articles@),
            unique_ids(s),
            ks@.len() == k,
            forall|a: int, b: int| 0 <= a < b < ks@.len() ==> crate::ordering::key_lt(ks@[a], ks@[b]),
            forall|a: int| 0 <= a < ks@.len() ==> sort_keys(s).contains(#[trigger] ks@[a]),
            forall|x: (i64, u128), a: int|
                #![trigger sort_keys(s).contains(x), ks@[a]]
                sort_keys(s).contains(x) && !ks@.contains(x) && 0 <= a < ks@.len()
                    ==> crate::ordering::key_lt(ks@[a], x),
            page@.len() == j - skip,
            forall|t: int|
                0 <= t < page@.len() ==> s.contains(#[trigger] page@[t]@)
                    && crate::ordering::rank(s, page@[t]@) == skip + t,
        decreases k - j,
    {
        let key = ks[j];
        assert(sort_keys(s).contains(ks@[j as int]));
        let ghost m = choose|m: int| 0 <= m < sort_keys(s).len() && sort_keys(s)[m] == key;
        let found = position_of(articles, ArticleId { value: key.1 });
        match found {
            Some(idx) => {
                proof {
                    assert(s[m].id == articles@[idx as int]@.id);
                    assert(s[idx as int] == articles@[idx as int]@);
                    assert(m == idx);
                    lemma_rank_of_kth(s, ks@, j as int, s[m]);
                }
                page.push(articles[idx].clone());
            },
            None => {
                assert(articles@[m]@ == s[m]);
                assert(false);
            },
        }
        j += 1;
    }
    assert(page@.len() == take);
    page
}

/// A store of articles: identifiers are distinct and every article is well formed.
pub open spec fn store_wf(s: Seq<ArticleView>) -> bool {
    unique_ids(s) && forall|i: int| 0 <= i < s.len() ==> (#[trigger] s[i]).wf()
}

/// The text of an optional string.
pub open spec fn opt_view(o: Option<String>) -> Option<Seq<char>> {
    match o {
        Some(t) => Some(t@),
        None => None,
    }
}

/// The article made under `id` at time `now`.
pub open spec fn fresh_article(
    id: ArticleId,
    now: i64,
    title: Seq<char>,
    author: Seq<char>,
    content: Seq<char>,
) -> ArticleView {
    ArticleView { id, author, content, title, created_at: now, updated_at: now }
}

/// Article `a` after a partial update at time `now`: each field that is given replaces
/// the old one, and the modification time advances.
pub open spec fn patched(
    a: ArticleView,
    title: Option<Seq<char>>,
    content: Option<Seq<char>>,
    now: i64,
) -> ArticleView {
    ArticleView {
        title: match title {
            Some(t) => t,
            None => a.title,
        },
        content: match content {
            Some(c) => c,
            None => a.content,
        },
        updated_at: advanced(a.updated_at, now),
        ..a
    }
}

/// Every article, in the order of insertion. Operations that take `&mut self` are atomic
/// with respect to each other; see `InMemoryArticleRepository` for sharing between threads.
pub struct ArticleStore {
    articles: Vec<Article>,
}

impl View for ArticleStore {
    type V = Seq<ArticleView>;

    closed spec fn view(&self) -> Seq<ArticleView> {
        article_views(self.articles@)
    }
}

impl ArticleStore {
    pub open spec fn wf(&self) -> bool {
        store_wf(self@)
    }

    /// An empty store.
    pub fn new() -> (r: ArticleStore)
        ensures
            r@ == Seq::<ArticleView>::empty(),
            r.wf(),
    {
        let r = ArticleStore { articles: Vec::new() };
        assert(r@ =~= Seq::<ArticleView>::empty());
        r
    }

    /// The number of articles.
    pub fn len(&self) -> (r: usize)
        ensures
            r == self@.len(),
    {
        self.articles.len()
    }

    /// The page of articles in order of creation (ties by identifier) that skips `skip`
    /// articles and holds at most `limit`.
    pub fn get_articles(&self, skip: usize, limit: usize) -> (r: Vec<Article>)
        requires
            self.wf(),
        ensures
            is_ordered_page(self@, skip as int, limit as int, article_views(r@)),
    {
        ordered_page(&self.articles, skip, limit)
    }

    /// The article with identifier `id`.
    pub fn get_article_by_id(&self, id: ArticleId) -> (r: Result<Article, ArticleServiceError>)
        ensures
            r is Ok == has_article(self@, id),
            r matches Ok(a) ==> a@.id == id && self@.contains(a@),
            r matches Err(e) ==> e == ArticleServiceError::ArticleNotFound,
    {
        match position_of(&self.articles, id) {
            Some(i) => {
                assert(self@[i as int] == self.articles@[i as int]@);
                assert(self@[i as int].id == id);
                Ok(self.articles[i].clone())
            },
            None => {
                assert(!has_article(self@, id)) by {
                    assert forall|i: int| 0 <= i < self@.len() implies self@[i].id != id by {
                        assert(self@[i] == self.articles@[i]@);
                    }
                }
                Err(ArticleServiceError::ArticleNotFound)
            },
        }
    }

    /// Stores a new article under `id`, made and last modified at `now`. Refused when `id`
    /// is already in use.
    pub fn insert_article(
        &mut self,
        id: ArticleId,
        now: i64,
        title: String,
        author: UserName,
        content: String,
    ) -> (r: Result<Article, ArticleServiceError>)
        requires
            old(self).wf(),
            id.wf(),
        ensures
            final(self).wf(),
            r is Ok == !has_article(old(self)@, id),
            r matches Ok(a) ==> a@ == fresh_article(id, now, title@, author@, content@)
                && final(self)@ == old(self)@.push(a@),
            r matches Err(e) ==> e == ArticleServiceError::ArticleAlreadyExists && final(self)@
                == old(self)@,
    {
        match position_of(&self.articles, id) {
            Some(i) => {
                assert(self@[i as int] == self.articles@[i as int]@);
                Err(ArticleServiceError::ArticleAlreadyExists)
            },
            None => {
                let ghost before = self@;
                assert(!has_article(before, id)) by {
                    assert forall|i: int| 0 <= i < before.len() implies before[i].id != id by {
                        assert(before[i] == self.articles@[i]@);
                    }
                }
                let article = Article { id, author, content, title, created_at: now, updated_at: now };
                self.articles.push(article.clone());
                assert(self@ =~= before.push(article@));
                Ok(article)
            },
        }
    }

    /// Stores a new article, made and last modified now, under a fresh identifier. It always
    /// succeeds: should the drawn identifier be in use, an unused one is taken instead.
    pub fn add_article(&mut self, title: String, author: UserName, content: String) -> (r: Result<
        Article,
        ArticleServiceError,
    >)
        requires
            old(self).wf(),
        ensures
            final(self).wf(),
            r is Ok,
            r matches Ok(a) ==> a@.title == title@ && a@.author == author@ && a@.content
                == content@ && a.created_at == a.updated_at && a.id.wf() && !has_article(
                old(self)@,
                a.id,
            ) && final(self)@ == old(self)@.push(a@),
    {
        let id = free_article_id(&self.articles, ArticleId::new());
        assert(!has_article(self@, id)) by {
            assert forall|i: int| 0 <= i < self@.len() implies self@[i].id != id by {
                assert(self@[i] == self.articles@[i]@);
            }
        }
        let now = now_micros();
        self.insert_article(id, now, title, author, content)
    }

    /// Replaces the fields that are given of the article with identifier `id`, and advances
    /// its modification time as the clock reads `now`.
    pub fn update_article_at(
        &mut self,
        id: ArticleId,
        title: Option<String>,
        content: Option<String>,
        now: i64,
    ) -> (r: Result<Article, ArticleServiceError>)
        requires
            old(self).wf(),
        ensures
            final(self).wf(),
            r is Ok == has_article(old(self)@, id),
            r matches Ok(a) ==> exists|i: int|
                0 <= i < old(self)@.len() && old(self)@[i].id == id && a@ == patched(
                    #[trigger] old(self)@[i],
                    opt_view(title),
                    opt_view(content),
                    now,
                ) && final(self)@ == old(self)@.update(i, a@),
            r matches Err(e) ==> e == ArticleServiceError::ArticleNotFound && final(self)@
                == old(self)@,
    {
        let ghost before = self@;
        match position_of(&self.articles, id) {
            Some(i) => {
                let old_article = self.articles[i].clone();
                assert(before[i as int] == old_article@);
                let new_title = match title {
                    Some(t) => t,
                    None => old_article.title,
                };
                let new_content = match content {
                    Some(c) => c,
                    None => old_article.content,
                };
                let article = Article {
                    id: old_article.id,
                    author: old_article.author,
                    content: new_content,
                    title: new_title,
                    created_at: old_article.created_at,
                    updated_at: advance(old_article.updated_at, now),
                };
                let stored = article.clone();
                self.articles.set(i, stored);
                assert(self@ =~= before.update(i as int, article@));
                assert(store_wf(self@)) by {
                    assert forall|a: int, b: int|
                        0 <= a < self@.len() && 0 <= b < self@.len() && a != b implies self@[a].id
                        != self@[b].id by {
                        assert(self@[a].id == before[a].id && self@[b].id == before[b].id);
                    }
                }
                Ok(article)
            },
            None => {
                assert(!has_article(before, id)) by {
                    assert forall|i: int| 0 <= i < before.len() implies before[i].id != id by {
                        assert(before[i] == self.articles@[i]@);
                    }
                }
                Err(ArticleServiceError::ArticleNotFound)
            },
        }
    }

    /// Replaces the fields that are given of the article with identifier `id`, and advances
    /// its modification time as the clock reads now.
    pub fn update_article(&mut self, id: ArticleId, title: Option<String>, content: Option<String>) -> (r:
        Result<Article, ArticleServiceError>)
        requires
            old(self).wf(),
        ensures
            final(self).wf(),
            r is Ok == has_article(old(self)@, id),
            r matches Ok(a) ==> exists|i: int, now: i64|
                0 <= i < old(self)@.len() && old(self)@[i].id == id && a@ == #[trigger] patched(
                    old(self)@[i],
                    opt_view(title),
                    opt_view(content),
                    now,
                ) && final(self)@ == old(self)@.update(i, a@),
            r matches Err(e) ==> e == ArticleServiceError::ArticleNotFound && final(self)@
                == old(self)@,
    {
        let now = now_micros();
        self.update_article_at(id, title, content, now)
    }

    /// Removes the article with identifier `id`.
    pub fn delete_article(&mut self, id: ArticleId) -> (r: Result<(), ArticleServiceError>)
        requires
            old(self).wf(),
        ensures
            final(self).wf(),
            r is Ok == has_article(old(self)@, id),
            r is Ok ==> exists|i: int|
                0 <= i < old(self)@.len() && #[trigger] old(self)@[i].id == id && final(self)@
                    == old(self)@.remove(i),
            r matches Err(e) ==> e == ArticleServiceError::ArticleNotFound && final(self)@
                == old(self)@,
    {
        let ghost before = self@;
        match position_of(&self.articles, id) {
            Some(i) => {
                assert(before[i as int] == self.articles@[i as int]@);
                assert(before[i as int].id == id);
                self.articles.remove(i);
                assert(self@ =~= before.remove(i as int));
                assert(store_wf(self@)) by {
                    assert forall|a: int, b: int|
                        0 <= a < self@.len() && 0 <= b < self@.len() && a != b implies self@[a].id
                        != self@[b].id by {
                        let a2 = if a < i { a } else { a + 1 };
                        let b2 = if b < i { b } else { b + 1 };
                        assert(self@[a] == before[a2] && self@[b] == before[b2]);
                    }
                    assert forall|a: int| 0 <= a < self@.len() implies (#[trigger] self@[a]).wf() by {
                        let a2 = if a < i { a } else { a + 1 };
                        assert(self@[a] == before[a2]);
                    }
                }
                Ok(())
            },
            None => {
                assert(!has_article(before, id)) by {
                    assert forall|i: int| 0 <= i < before.len() implies before[i].id != id by {
                        assert(before[i] == self.articles@[i]@);
                    }
                }
                Err(ArticleServiceError::ArticleNotFound)
            },
        }
    }

    /// The page, in the order of `get_articles`, of the articles that `query` selects.
    pub fn get_articles_with_query(&self, skip: usize, limit: usize, query: &ArticleQuery) -> (r:
        Vec<Article>)
        requires
            self.wf(),
        ensures
            is_ordered_page(
                self@.filter(|a: ArticleView| query.matches(a)),
                skip as int,
                limit as int,
                article_views(r@),
            ),
    {
        let ghost pred = |a: ArticleView| query.matches(a);
        let mut selected: Vec<Article> = Vec::new();
        let mut i: usize = 0;
        while i < self.articles.len()
            invariant
                0 <= i <= self.articles@.len(),
                pred == (|a: ArticleView| query.matches(a)),
                article_views(selected@) == self@.subrange(0, i as int).filter(pred),
            decreases self.articles@.len() - i,
        {
            let ghost prefix = self@.subrange(0, i as int);
            let ghost next = self@.subrange(0, i as int + 1);
            assert(next.drop_last() =~= prefix);
            assert(next.last() == self.articles@[i as int]@);
            assert(next.filter(pred) == if pred(next.last()) {
                prefix.filter(pred).push(next.last())
            } else {
                prefix.filter(pred)
            }) by {
                reveal(Seq::filter);
            }
            assert(pred(next.last()) == query.matches(next.last()));
            if query.matches_article(&self.articles[i]) {
                selected.push(self.articles[i].clone());
                assert(article_views(selected@) =~= prefix.filter(pred).push(next.last()));
            } else {
                assert(article_views(selected@) =~= prefix.filter(pred));
            }
            i += 1;
        }
        assert(self@.subrange(0, self@.len() as int) =~= self@);
        proof {
            lemma_filter_unique_ids(self@, pred);
        }
        ordered_page(&selected, skip, limit)
    }
}

} // verus!
