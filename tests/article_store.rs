use blog_backend::article::{Article, ArticleQuery};
use blog_backend::article_store::ArticleStore;
use blog_backend::clock::advance;
use blog_backend::error::ArticleServiceError;
use blog_backend::ids::ArticleId;
use blog_backend::repository::{ArticleRepository, InMemoryArticleRepository};
use blog_backend::usecase::{ArticleService, ArticleUsecase};
use blog_backend::user_name::UserName;

fn name(s: &str) -> UserName {
    UserName::new(s.to_string())
}

fn put(store: &mut ArticleStore, id: u128, now: i64, title: &str, author: &str) -> Article {
    store
        .insert_article(
            ArticleId { value: id },
            now,
            title.to_string(),
            name(author),
            format!("content of {title}"),
        )
        .unwrap()
}

fn titles(v: &[Article]) -> Vec<String> {
    v.iter().map(|a| a.title.clone()).collect()
}

#[test]
fn add_then_get_returns_same_fields() {
    let mut store = ArticleStore::new();
    let a = store
        .add_article("T".to_string(), name("A"), "C".to_string())
        .unwrap();
    let got = store.get_article_by_id(a.id).unwrap();
    assert_eq!(got.title, "T");
    assert_eq!(got.author.as_str(), "A");
    assert_eq!(got.content, "C");
    assert_eq!(got.created_at, got.updated_at);
    assert_eq!(got.id, a.id);
    // the clock wrapper gives a time after 2020-01-01 in microseconds
    assert!(got.created_at > 1_577_836_800_000_000);
}

#[test]
fn fresh_ids_differ() {
    let mut store = ArticleStore::new();
    let a = store.add_article("a".to_string(), name("x"), "c".to_string()).unwrap();
    let b = store.add_article("b".to_string(), name("x"), "c".to_string()).unwrap();
    assert_ne!(a.id, b.id);
    assert_eq!(store.len(), 2);
}

#[test]
fn update_title_only_keeps_content() {
    let mut store = ArticleStore::new();
    let a = put(&mut store, 7, 100, "T", "A");
    let u = store
        .update_article_at(a.id, Some("T2".to_string()), None, 250)
        .unwrap();
    assert_eq!(u.title, "T2");
    assert_eq!(u.content, "content of T");
    assert_eq!(u.created_at, 100);
    assert_eq!(u.updated_at, 250);
    assert!(u.updated_at > u.created_at);
    let again = store.get_article_by_id(a.id).unwrap();
    assert_eq!(again.title, "T2");
    assert_eq!(again.content, "content of T");
}

#[test]
fn update_with_clock_advances_time() {
    let mut store = ArticleStore::new();
    let a = store.add_article("T".to_string(), name("A"), "C".to_string()).unwrap();
    let u = store.update_article(a.id, Some("T2".to_string()), None).unwrap();
    assert_eq!(u.title, "T2");
    assert_eq!(u.content, "C");
    assert!(u.updated_at > u.created_at);
}

#[test]
fn update_when_clock_goes_back_still_advances() {
    let mut store = ArticleStore::new();
    let a = put(&mut store, 7, 100, "T", "A");
    let u = store.update_article_at(a.id, None, Some("C2".to_string()), 40).unwrap();
    assert_eq!(u.updated_at, 101);
    assert_eq!(u.title, "T");
    assert_eq!(u.content, "C2");
    let v = store.update_article_at(a.id, None, None, 40).unwrap();
    assert_eq!(v.updated_at, 102);
}

#[test]
fn advance_formula() {
    assert_eq!(advance(10, 20), 20);
    assert_eq!(advance(10, 10), 11);
    assert_eq!(advance(10, 3), 11);
    assert_eq!(advance(i64::MAX, 3), i64::MAX);
}

#[test]
fn update_missing_article_not_found() {
    let mut store = ArticleStore::new();
    put(&mut store, 1, 10, "T", "A");
    let r = store.update_article_at(ArticleId { value: 2 }, Some("T2".to_string()), None, 20);
    assert_eq!(r.unwrap_err(), ArticleServiceError::ArticleNotFound);
    assert_eq!(store.get_article_by_id(ArticleId { value: 1 }).unwrap().title, "T");
}

#[test]
fn delete_then_get_not_found() {
    let mut store = ArticleStore::new();
    let a = put(&mut store, 1, 10, "T", "A");
    put(&mut store, 2, 20, "U", "A");
    assert_eq!(store.delete_article(a.id), Ok(()));
    assert_eq!(
        store.get_article_by_id(a.id).unwrap_err(),
        ArticleServiceError::ArticleNotFound
    );
    assert_eq!(store.delete_article(a.id), Err(ArticleServiceError::ArticleNotFound));
    assert_eq!(store.len(), 1);
}

#[test]
fn insert_article_with_used_id_refused() {
    let mut store = ArticleStore::new();
    put(&mut store, 1, 10, "T", "A");
    let r = store.insert_article(ArticleId { value: 1 }, 20, "U".to_string(), name("B"), "c".to_string());
    assert_eq!(r.unwrap_err(), ArticleServiceError::ArticleAlreadyExists);
    assert_eq!(store.len(), 1);
}

#[test]
fn page_two_from_five_by_creation_time() {
    let mut store = ArticleStore::new();
    // identifiers run against creation order, so order must come from the time
    put(&mut store, 50, 1000, "first", "A");
    put(&mut store, 40, 2000, "second", "A");
    put(&mut store, 30, 3000, "third", "A");
    put(&mut store, 20, 4000, "fourth", "A");
    put(&mut store, 10, 5000, "fifth", "A");
    let page = store.get_articles(2, 2);
    assert_eq!(titles(&page), vec!["third", "fourth"]);
}

#[test]
fn page_order_is_by_time_not_insertion() {
    let mut store = ArticleStore::new();
    put(&mut store, 1, 300, "c", "A");
    put(&mut store, 2, 100, "a", "A");
    put(&mut store, 3, 200, "b", "A");
    assert_eq!(titles(&store.get_articles(0, 10)), vec!["a", "b", "c"]);
}

#[test]
fn equal_times_ordered_by_id() {
    let mut store = ArticleStore::new();
    put(&mut store, 9, 100, "nine", "A");
    put(&mut store, 3, 100, "three", "A");
    put(&mut store, 5, 100, "five", "A");
    assert_eq!(titles(&store.get_articles(0, 3)), vec!["three", "five", "nine"]);
    assert_eq!(titles(&store.get_articles(1, 1)), vec!["five"]);
}

#[test]
fn page_edges() {
    let mut store = ArticleStore::new();
    assert!(store.get_articles(0, 10).is_empty());
    put(&mut store, 1, 10, "a", "A");
    put(&mut store, 2, 20, "b", "A");
    put(&mut store, 3, 30, "c", "A");
    assert!(store.get_articles(0, 0).is_empty());
    assert!(store.get_articles(3, 5).is_empty());
    assert!(store.get_articles(usize::MAX, usize::MAX).is_empty());
    assert_eq!(titles(&store.get_articles(1, usize::MAX)), vec!["b", "c"]);
    assert_eq!(titles(&store.get_articles(2, 5)), vec!["c"]);
}

#[test]
fn query_by_title_substring() {
    let mut store = ArticleStore::new();
    put(&mut store, 1, 10, "Rust最高", "A");
    put(&mut store, 2, 20, "Python", "A");
    let q = ArticleQuery { title_query: Some("Rust".to_string()), author_query: None };
    assert_eq!(titles(&store.get_articles_with_query(0, 10, &q)), vec!["Rust最高"]);
    let q = ArticleQuery { title_query: Some("最高".to_string()), author_query: None };
    assert_eq!(titles(&store.get_articles_with_query(0, 10, &q)), vec!["Rust最高"]);
    let q = ArticleQuery { title_query: Some("rust".to_string()), author_query: None };
    assert!(store.get_articles_with_query(0, 10, &q).is_empty());
}

#[test]
fn query_by_unknown_author_is_empty() {
    let mut store = ArticleStore::new();
    put(&mut store, 1, 10, "Rust最高", "A");
    put(&mut store, 2, 20, "Python", "A");
    let q = ArticleQuery { title_query: None, author_query: Some(name("nobody")) };
    assert!(store.get_articles_with_query(0, 10, &q).is_empty());
}

#[test]
fn query_filters_combine_and_paginate() {
    let mut store = ArticleStore::new();
    put(&mut store, 1, 40, "Rust 4", "A");
    put(&mut store, 2, 10, "Rust 1", "A");
    put(&mut store, 3, 20, "Rust 2", "B");
    put(&mut store, 4, 30, "Go", "A");
    put(&mut store, 5, 50, "Rust 5", "A");
    let q = ArticleQuery { title_query: Some("Rust".to_string()), author_query: Some(name("A")) };
    assert_eq!(titles(&store.get_articles_with_query(0, 10, &q)), vec!["Rust 1", "Rust 4", "Rust 5"]);
    assert_eq!(titles(&store.get_articles_with_query(1, 1, &q)), vec!["Rust 4"]);
    let all = ArticleQuery { title_query: None, author_query: None };
    assert_eq!(store.get_articles_with_query(0, 10, &all).len(), 5);
}

#[test]
fn id_text_round_trip() {
    let id = ArticleId::parse_str("507f1f77bcf86cd799439011").unwrap();
    assert_eq!(id.value, 0x507f1f77bcf86cd799439011);
    assert_eq!(id.to_hex(), "507f1f77bcf86cd799439011");
    let upper = ArticleId::parse_str("507F1F77BCF86CD799439011").unwrap();
    assert_eq!(upper, id);
    assert_eq!(ArticleId { value: 1 }.to_hex(), "000000000000000000000001");
}

#[test]
fn id_text_rejected() {
    assert!(ArticleId::parse_str("507f1f77bcf86cd79943901").is_err());
    assert!(ArticleId::parse_str("507f1f77bcf86cd7994390111").is_err());
    assert!(ArticleId::parse_str("507f1f77bcf86cd79943901g").is_err());
    assert!(ArticleId::parse_str("").is_err());
}

#[test]
fn shared_repository_round_trip() {
    let repo = InMemoryArticleRepository::new();
    let a = repo.add_article("T".to_string(), name("A"), "C".to_string()).unwrap();
    assert_eq!(repo.get_article_by_id(a.id).unwrap().title, "T");
    let u = repo.update_article(a.id, None, Some("C2".to_string())).unwrap();
    assert_eq!(u.content, "C2");
    assert_eq!(u.title, "T");
    assert_eq!(repo.get_articles(0, 10).len(), 1);
    assert_eq!(repo.delete_article(a.id), Ok(()));
    assert_eq!(repo.get_article_by_id(a.id).unwrap_err(), ArticleServiceError::ArticleNotFound);
    assert_eq!(repo.delete_article(a.id), Err(ArticleServiceError::ArticleNotFound));
}

#[test]
fn usecase_search_and_create() {
    let service = ArticleUsecase::new(InMemoryArticleRepository::new());
    service.create_article("Rust最高".to_string(), name("furakuta"), "x".to_string()).unwrap();
    service.create_article("Python".to_string(), name("hoge"), "y".to_string()).unwrap();
    let q = ArticleQuery { title_query: Some("Rust".to_string()), author_query: None };
    assert_eq!(titles(&service.search_articles(0, 10, q)), vec!["Rust最高"]);
    let q = ArticleQuery { title_query: None, author_query: Some(name("hoge")) };
    assert_eq!(titles(&service.search_articles(0, 10, q)), vec!["Python"]);
    assert_eq!(service.get_articles(0, 5).len(), 2);
}
