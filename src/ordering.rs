//! The order in which articles are listed: by creation time, ties broken by identifier;
//! and what a page of that order is.

use vstd::prelude::*;
use itertools::Itertools;
use crate::article::ArticleView;

verus! {

/// The position of an article in listing order: creation time, then identifier value.
pub open spec fn sort_key(a: ArticleView) -> (i64, u128) {
    (a.created_at, a.id.value)
}

/// The strict lexicographic order on sort keys, the order that std gives tuples.
pub open spec fn key_lt(x: (i64, u128), y: (i64, u128)) -> bool {
    x.0 < y.0 || (x.0 == y.0 && x.1 < y.1)
}

/// The sort keys of `s`, in the order of `s`.
pub open spec fn sort_keys(s: Seq<ArticleView>) -> Seq<(i64, u128)> {
    s.map_values(|a: ArticleView| sort_key(a))
}

/// How many articles of `s` come before `a` in listing order.
pub open spec fn rank(s: Seq<ArticleView>, a: ArticleView) -> nat {
    sort_keys(s).filter(|k: (i64, u128)| key_lt(k, sort_key(a))).len()
}

/// No two articles of `s` share an identifier.
pub open spec fn unique_ids(s: Seq<ArticleView>) -> bool {
    forall|i: int, j: int| 0 <= i < s.len() && 0 <= j < s.len() && i != j ==> s[i].id != s[j].id
}

/// The length of the window that starts `skip` items into `n` items and holds at most
/// `limit` of them.
pub open spec fn page_len(n: int, skip: int, limit: int) -> int {
    if skip >= n {
        0
    } else if limit < n - skip {
        limit
    } else {
        n - skip
    }
}

/// `r` is the page of `s` in listing order that skips the first `skip` articles and holds
/// at most `limit`: its `i`-th entry is an article of `s` with exactly `skip + i`
/// articles of `s` before it.
pub open spec fn is_ordered_page(s: Seq<ArticleView>, skip: int, limit: int, r: Seq<ArticleView>) -> bool {
    &&& r.len() == page_len(s.len() as int, skip, limit)
    &&& forall|i: int|
        0 <= i < r.len() ==> s.contains(#[trigger] r[i]) && rank(s, r[i]) == skip + i
}

/// Relies on itertools' `Itertools::k_smallest`: the `k` least items of the input in
/// ascending order, that is the first `k` of the sorted input (all of them if there are
/// fewer). The keys handed in are distinct.
#[verifier::external_body]
pub(crate) fn k_smallest_keys(keys: Vec<(i64, u128)>, k: usize) -> (r: Vec<(i64, u128)>)
    requires
        keys@.no_duplicates(),
    ensures
        r@.len() == if k < keys@.len() { k as int } else { keys@.len() as int },
        forall|a: int, b: int| 0 <= a < b < r@.len() ==> key_lt(r@[a], r@[b]),
        forall|a: int| 0 <= a < r@.len() ==> keys@.contains(#[trigger] r@[a]),
        forall|x: (i64, u128), a: int|
            #![trigger keys@.contains(x), r@[a]]
            keys@.contains(x) && !r@.contains(x) && 0 <= a < r@.len() ==> key_lt(r@[a], x),
{
    keys.into_iter().k_smallest(k).collect()
}

/// Filtering keeps a sequence free of duplicates.
pub proof fn lemma_filter_no_duplicates<A>(s: Seq<A>, p: spec_fn(A) -> bool)
    requires
        s.no_duplicates(),
    ensures
        s.filter(p).no_duplicates(),
    decreases s.len(),
{
    reveal(Seq::filter);
    if s.len() > 0 {
        let rest = s.drop_last();
        assert(rest.no_duplicates());
        lemma_filter_no_duplicates(rest, p);
        if p(s.last()) {
            if rest.filter(p).contains(s.last()) {
                rest.lemma_filter_contains_rev(p, s.last());
                let j = choose|j: int| 0 <= j < rest.len() && rest[j] == s.last();
                assert(s[j] == s[s.len() - 1]);
            }
        }
    }
}

/// Articles with distinct identifiers have distinct sort keys.
pub proof fn lemma_unique_ids_keys(s: Seq<ArticleView>)
    requires
        unique_ids(s),
    ensures
        sort_keys(s).no_duplicates(),
{
    assert forall|i: int, j: int|
        0 <= i < sort_keys(s).len() && 0 <= j < sort_keys(s).len() && i != j implies sort_keys(
        s,
    )[i] != sort_keys(s)[j] by {
        assert(s[i].id != s[j].id);
    }
}

/// Filtering keeps identifiers distinct.
pub proof fn lemma_filter_unique_ids(s: Seq<ArticleView>, p: spec_fn(ArticleView) -> bool)
    requires
        unique_ids(s),
    ensures
        unique_ids(s.filter(p)),
    decreases s.len(),
{
    reveal(Seq::filter);
    if s.len() > 0 {
        let rest = s.drop_last();
        assert(unique_ids(rest)) by {
            assert forall|i: int, j: int|
                0 <= i < rest.len() && 0 <= j < rest.len() && i != j implies rest[i].id
                != rest[j].id by {
                assert(rest[i] == s[i] && rest[j] == s[j]);
            }
        }
        lemma_filter_unique_ids(rest, p);
        if p(s.last()) {
            let f = rest.filter(p);
            assert forall|i: int| 0 <= i < f.len() implies f[i].id != s.last().id by {
                assert(f.contains(f[i]));
                rest.lemma_filter_contains_rev(p, f[i]);
                let j = choose|j: int| 0 <= j < rest.len() && rest[j] == f[i];
                assert(s[j] == rest[j]);
            }
        }
    }
}

/// If `ks` is what `k_smallest_keys` returns for the keys of `s`, then the article `a`
/// whose key is `ks[i]` has exactly `i` articles of `s` before it.
pub proof fn lemma_rank_of_kth(s: Seq<ArticleView>, ks: Seq<(i64, u128)>, i: int, a: ArticleView)
    requires
        unique_ids(s),
        forall|a: int, b: int| 0 <= a < b < ks.len() ==> key_lt(ks[a], ks[b]),
        forall|a: int| 0 <= a < ks.len() ==> sort_keys(s).contains(#[trigger] ks[a]),
        forall|x: (i64, u128), a: int|
            #![trigger sort_keys(s).contains(x), ks[a]]
            sort_keys(s).contains(x) && !ks.contains(x) && 0 <= a < ks.len() ==> key_lt(ks[a], x),
        0 <= i < ks.len(),
        sort_key(a) == ks[i],
    ensures
        rank(s, a) == i,
{
    let keys = sort_keys(s);
    let x = ks[i];
    let p = |k: (i64, u128)| key_lt(k, sort_key(a));
    let f = keys.filter(p);
    let before = ks.subrange(0, i);
    lemma_unique_ids_keys(s);
    lemma_filter_no_duplicates(keys, p);
    f.unique_seq_to_set();
    assert(before.no_duplicates()) by {
        assert forall|a: int, b: int|
            0 <= a < before.len() && 0 <= b < before.len() && a != b implies before[a]
            != before[b] by {
            if a < b {
                assert(key_lt(ks[a], ks[b]));
            } else {
                assert(key_lt(ks[b], ks[a]));
            }
        }
    }
    before.unique_seq_to_set();
    assert forall|y: (i64, u128)| f.to_set().contains(y) implies before.to_set().contains(y) by {
        keys.lemma_filter_contains_rev(p, y);
        let m = choose|m: int| 0 <= m < f.len() && f[m] == y;
        keys.lemma_filter_pred(p, m);
        if ks.contains(y) {
            let j = choose|j: int| 0 <= j < ks.len() && ks[j] == y;
            if j >= i {
                assert(j == i || key_lt(ks[i], ks[j]));
            }
            assert(before[j] == y);
        } else {
            assert(key_lt(ks[i], y));
        }
    }
    assert forall|y: (i64, u128)| before.to_set().contains(y) implies f.to_set().contains(y) by {
        let j = choose|j: int| 0 <= j < before.len() && before[j] == y;
        assert(ks[j] == y);
        assert(keys.contains(ks[j]));
        let m = choose|m: int| 0 <= m < keys.len() && keys[m] == y;
        keys.lemma_filter_contains(p, m);
    }
    assert(f.to_set() =~= before.to_set());
}

} // verus!
