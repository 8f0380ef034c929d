//! Properties that relate several operations of the stores, stated over the same models
//! that the operations' contracts use.

use vstd::prelude::*;
use crate::article::ArticleView;
use crate::article_store::{has_article, patched, store_wf};
use crate::ordering::{is_ordered_page, key_lt, rank, sort_key, sort_keys, unique_ids};
use crate::user::UserView;
use crate::user_store::{has_user, name_taken, name_taken_by_other, user_page, users_wf};

verus! {

/// Registering users one after another under distinct names, none of them in use in the
/// starting store `s`; `us[k]` is what the `k`-th call of `UserStore::add_user` returns,
/// so it carries the `k`-th name and, by that contract, the store after `k` calls is `s`
/// followed by `us[..k]`. Before each call the name is free, so each call succeeds (the
/// contract refuses exactly the names in use); afterwards every name is taken and listing
/// the whole store gives back `s` followed by all the new users.
pub proof fn lemma_distinct_free_names_all_register(s: Seq<UserView>, us: Seq<UserView>)
    requires
        forall|i: int, j: int|
            0 <= i < us.len() && 0 <= j < us.len() && i != j ==> us[i].name != us[j].name,
        forall|k: int| 0 <= k < us.len() ==> !name_taken(s, #[trigger] us[k].name),
    ensures
        forall|k: int|
            0 <= k < us.len() ==> !name_taken(#[trigger] (s + us.subrange(0, k)), us[k].name),
        forall|k: int| 0 <= k < us.len() ==> #[trigger] (s + us.subrange(0, k)).push(us[k]) == s
            + us.subrange(0, k + 1),
        forall|k: int| 0 <= k < us.len() ==> name_taken(s + us, #[trigger] us[k].name),
        user_page(s + us, 0, (s + us).len() as int) == s + us,
{
    assert forall|k: int| 0 <= k < us.len() implies !name_taken(
        #[trigger] (s + us.subrange(0, k)),
        us[k].name,
    ) by {
        let p = s + us.subrange(0, k);
        assert(!name_taken(s, us[k].name));
        assert forall|i: int| 0 <= i < p.len() implies p[i].name != us[k].name by {
            if i < s.len() {
                assert(p[i] == s[i]);
            } else {
                assert(p[i] == us[i - s.len()]);
            }
        }
    }
    assert forall|k: int| 0 <= k < us.len() implies #[trigger] (s + us.subrange(0, k)).push(us[k])
        == s + us.subrange(0, k + 1) by {
        assert((s + us.subrange(0, k)).push(us[k]) =~= s + us.subrange(0, k + 1));
    }
    assert forall|k: int| 0 <= k < us.len() implies name_taken(s + us, #[trigger] us[k].name) by {
        assert((s + us)[s.len() + k] == us[k]);
    }
    assert(user_page(s + us, 0, (s + us).len() as int) =~= s + us);
}

/// Two registrations under one name that is free in the store `s`, in either order (the
/// lock of `InMemoryUserRepository` puts concurrent ones in some order). `UserStore::add_user`
/// succeeds exactly when the name is free and then appends its user `first`: so the first
/// call succeeds, and in the store it leaves the name is taken, so the second call is
/// refused with `UserAlreadyExists`. Exactly one of the two succeeds.
pub proof fn lemma_same_name_only_one_registered(s: Seq<UserView>, name: Seq<char>, first: UserView)
    requires
        !name_taken(s, name),
        first.name == name,
    ensures
        !name_taken(s, name),
        name_taken(s.push(first), name),
{
    assert(s.push(first)[s.len() as int] == first);
}

/// A partial update that gives a title only: the title is replaced, the content, author,
/// identifier and creation time are kept, and the modification time is after the
/// creation time.
pub proof fn lemma_title_update_keeps_content(a: ArticleView, title: Seq<char>, now: i64)
    requires
        a.wf(),
        a.updated_at < i64::MAX,
    ensures
        patched(a, Some(title), None, now).title == title,
        patched(a, Some(title), None, now).content == a.content,
        patched(a, Some(title), None, now).author == a.author,
        patched(a, Some(title), None, now).id == a.id,
        patched(a, Some(title), None, now).created_at == a.created_at,
        patched(a, Some(title), None, now).updated_at > patched(a, Some(title), None, now).created_at,
        patched(a, Some(title), None, now).wf(),
{
}

/// After an article is removed, no article of the store has its identifier, so a lookup
/// of that identifier reports `ArticleNotFound`.
pub proof fn lemma_deleted_article_gone(s: Seq<ArticleView>, i: int)
    requires
        store_wf(s),
        0 <= i < s.len(),
    ensures
        !has_article(s.remove(i), s[i].id),
{
    let r = s.remove(i);
    assert forall|j: int| 0 <= j < r.len() implies r[j].id != s[i].id by {
        if j < i {
            assert(r[j] == s[j]);
        } else {
            assert(r[j] == s[j + 1]);
        }
    }
}

/// Renaming a user to the name of a different user is a clash with another user, which
/// `UserStore::update_user` refuses with `UserAlreadyExists`, leaving the store (and so
/// both names) unchanged.
pub proof fn lemma_rename_to_other_users_name_refused(s: Seq<UserView>, i: int, j: int)
    requires
        users_wf(s),
        0 <= i < s.len(),
        0 <= j < s.len(),
        i != j,
    ensures
        name_taken_by_other(s, s[i].id, s[j].name),
{
    assert(s[j].id != s[i].id);
}

/// Filtering by a weaker predicate keeps at least as many items, and strictly more when
/// the item at `w` passes only the weaker one.
proof fn lemma_filter_len_monotone<A>(s: Seq<A>, p: spec_fn(A) -> bool, q: spec_fn(A) -> bool, w: int)
    requires
        forall|x: A| #[trigger] p(x) ==> q(x),
    ensures
        s.filter(p).len() <= s.filter(q).len(),
        0 <= w < s.len() && q(s[w]) && !p(s[w]) ==> s.filter(p).len() < s.filter(q).len(),
    decreases s.len(),
{
    reveal(Seq::filter);
    if s.len() > 0 {
        let rest = s.drop_last();
        if w == s.len() - 1 {
            lemma_filter_len_monotone(rest, p, q, -1);
        } else {
            lemma_filter_len_monotone(rest, p, q, w);
            if 0 <= w < rest.len() {
                assert(rest[w] == s[w]);
            }
        }
    }
}

/// An article of the store that comes before `b` in listing order has a smaller rank.
proof fn lemma_rank_increases(s: Seq<ArticleView>, a: ArticleView, b: ArticleView, ia: int)
    requires
        0 <= ia < s.len(),
        s[ia] == a,
        key_lt(sort_key(a), sort_key(b)),
    ensures
        rank(s, a) < rank(s, b),
{
    let p = |k: (i64, u128)| key_lt(k, sort_key(a));
    let q = |k: (i64, u128)| key_lt(k, sort_key(b));
    assert(sort_keys(s)[ia] == sort_key(a));
    lemma_filter_len_monotone(sort_keys(s), p, q, ia);
}

/// Pagination is deterministic: on a store whose identifiers are distinct, the window
/// that skips `skip` articles and holds at most `limit` has exactly one page in listing
/// order, so `ArticleStore::get_articles` has one possible result.
pub proof fn lemma_page_unique(
    s: Seq<ArticleView>,
    skip: int,
    limit: int,
    r1: Seq<ArticleView>,
    r2: Seq<ArticleView>,
)
    requires
        unique_ids(s),
        is_ordered_page(s, skip, limit, r1),
        is_ordered_page(s, skip, limit, r2),
    ensures
        r1 == r2,
{
    assert forall|i: int| 0 <= i < r1.len() implies r1[i] == r2[i] by {
        let a = r1[i];
        let b = r2[i];
        assert(s.contains(a) && s.contains(b));
        let ia = choose|j: int| 0 <= j < s.len() && s[j] == a;
        let ib = choose|j: int| 0 <= j < s.len() && s[j] == b;
        if key_lt(sort_key(a), sort_key(b)) {
            lemma_rank_increases(s, a, b, ia);
        } else if key_lt(sort_key(b), sort_key(a)) {
            lemma_rank_increases(s, b, a, ib);
        } else {
            assert(a.id == b.id);
            assert(ia == ib);
        }
    }
    assert(r1 =~= r2);
}

} // verus!
