use blog_backend::error::UserServiceError;
use blog_backend::ids::UserId;
use blog_backend::params::{ArticleRepositoryImpl, SearchParams};
use blog_backend::repository::{InMemoryUserRepository, UserRepository};
use blog_backend::usecase::{UserService, UserUsecase};
use blog_backend::user::UserResponse;
use blog_backend::user_store::UserStore;

fn add(store: &mut UserStore, n: &str) -> Result<blog_backend::user::User, UserServiceError> {
    store.add_user(
        n.to_string(),
        format!("{n} display"),
        "intro".to_string(),
        format!("{n}@example.com"),
        true,
        vec![1, 2, 3],
    )
}

fn names(v: &[blog_backend::user::User]) -> Vec<String> {
    v.iter().map(|u| u.name.as_str().to_string()).collect()
}

#[test]
fn distinct_names_all_registered() {
    let mut store = UserStore::new();
    for n in ["furakuta", "hoge", "fuga", "piyo"] {
        assert!(add(&mut store, n).is_ok());
    }
    let mut listed = names(&store.get_users(0, 100));
    listed.sort();
    assert_eq!(listed, vec!["fuga", "furakuta", "hoge", "piyo"]);
}

#[test]
fn same_name_twice_only_first_registered() {
    let mut store = UserStore::new();
    assert!(add(&mut store, "hoge").is_ok());
    assert_eq!(add(&mut store, "hoge").unwrap_err(), UserServiceError::UserAlreadyExists);
    assert_eq!(store.len(), 1);
}

#[test]
fn same_name_twice_through_shared_repository() {
    let repo = InMemoryUserRepository::new();
    let first = repo.add_user("a".to_string(), "A".to_string(), "".to_string(), "".to_string(), false, vec![9]);
    let second = repo.add_user("a".to_string(), "B".to_string(), "".to_string(), "".to_string(), false, vec![9]);
    assert!(first.is_ok());
    assert_eq!(second.unwrap_err(), UserServiceError::UserAlreadyExists);
    assert_eq!(repo.get_users(0, 10).len(), 1);
    assert_eq!(repo.get_user_by_name("a").unwrap().display_name, "A");
}

#[test]
fn insert_user_with_used_id_refused() {
    let mut store = UserStore::new();
    let id = UserId { value: 5 };
    store
        .insert_user(id, 1, "a".to_string(), "".to_string(), "".to_string(), "".to_string(), false, vec![1])
        .unwrap();
    let r = store.insert_user(id, 2, "b".to_string(), "".to_string(), "".to_string(), "".to_string(), false, vec![1]);
    assert_eq!(r.unwrap_err(), UserServiceError::UserAlreadyExists);
}

#[test]
fn rename_to_taken_name_refused_and_names_kept() {
    let mut store = UserStore::new();
    let a = add(&mut store, "alice").unwrap();
    let b = add(&mut store, "bob").unwrap();
    let r = store.update_user(a.id, Some("bob".to_string()), Some("new".to_string()), None, None, None, None);
    assert_eq!(r.unwrap_err(), UserServiceError::UserAlreadyExists);
    let a2 = store.get_user_by_id(a.id).unwrap();
    let b2 = store.get_user_by_id(b.id).unwrap();
    assert_eq!(a2.name.as_str(), "alice");
    assert_eq!(a2.display_name, "alice display");
    assert_eq!(b2.name.as_str(), "bob");
}

#[test]
fn rename_to_own_or_free_name() {
    let mut store = UserStore::new();
    let a = add(&mut store, "alice").unwrap();
    let same = store.update_user(a.id, Some("alice".to_string()), None, None, None, None, None).unwrap();
    assert_eq!(same.name.as_str(), "alice");
    let renamed = store
        .update_user(a.id, Some("carol".to_string()), None, Some("hi".to_string()), None, Some(false), Some(vec![7]))
        .unwrap();
    assert_eq!(renamed.name.as_str(), "carol");
    assert_eq!(renamed.intro, "hi");
    assert!(!renamed.show_email);
    assert_eq!(renamed.pw_hash, vec![7]);
    assert_eq!(renamed.email, "alice@example.com");
    assert!(store.get_user_by_name("alice").is_err());
    assert_eq!(store.get_user_by_name("carol").unwrap().id, a.id);
}

#[test]
fn update_missing_user_not_found() {
    let mut store = UserStore::new();
    add(&mut store, "alice").unwrap();
    let r = store.update_user(UserId { value: 1 }, None, Some("x".to_string()), None, None, None, None);
    assert_eq!(r.unwrap_err(), UserServiceError::UserNotFound);
    // a name held by someone is reported first, as the name is checked before the lookup
    let r = store.update_user(UserId { value: 1 }, Some("alice".to_string()), None, None, None, None, None);
    assert_eq!(r.unwrap_err(), UserServiceError::UserAlreadyExists);
}

#[test]
fn lookups_and_validation() {
    let mut store = UserStore::new();
    let a = add(&mut store, "alice").unwrap();
    assert_eq!(store.get_user_by_name("alice").unwrap().id, a.id);
    assert_eq!(store.get_user_by_name("bob").unwrap_err(), UserServiceError::UserNotFound);
    assert_eq!(store.get_user_by_id(UserId { value: 3 }).unwrap_err(), UserServiceError::UserNotFound);
    assert_eq!(store.validate_user_name("alice").unwrap_err(), UserServiceError::UserAlreadyExists);
    assert_eq!(store.validate_user_name("bob").unwrap().as_str(), "bob");
}

#[test]
fn users_listed_in_registration_order() {
    let mut store = UserStore::new();
    for n in ["a", "b", "c", "d", "e"] {
        add(&mut store, n).unwrap();
    }
    assert_eq!(names(&store.get_users(1, 3)), vec!["b", "c", "d"]);
    assert_eq!(names(&store.get_users(4, 3)), vec!["e"]);
    assert!(store.get_users(5, 3).is_empty());
    assert!(store.get_users(0, 0).is_empty());
    assert_eq!(names(&store.get_users(3, usize::MAX)), vec!["d", "e"]);
}

#[test]
fn delete_user_then_lookup_fails() {
    let mut store = UserStore::new();
    let a = add(&mut store, "alice").unwrap();
    assert_eq!(store.delete_user(a.id), Ok(()));
    assert_eq!(store.get_user_by_id(a.id).unwrap_err(), UserServiceError::UserNotFound);
    assert_eq!(store.delete_user(a.id), Err(UserServiceError::UserNotFound));
    assert!(add(&mut store, "alice").is_ok());
}

#[test]
fn create_user_keeps_sha256_of_password() {
    let service = UserUsecase::new(InMemoryUserRepository::new());
    let u = service
        .create_user("fuga".to_string(), "Fuga User".to_string(), "Hello, I am Fuga.".to_string(), "fuga@gmail.com".to_string(), true, "abc".to_string())
        .unwrap();
    let expected: Vec<u8> = vec![
        0xba, 0x78, 0x16, 0xbf, 0x8f, 0x01, 0xcf, 0xea, 0x41, 0x41, 0x40, 0xde, 0x5d, 0xae, 0x22, 0x23,
        0xb0, 0x03, 0x61, 0xa3, 0x96, 0x17, 0x7a, 0x9c, 0xb4, 0x10, 0xff, 0x61, 0xf2, 0x00, 0x15, 0xad,
    ];
    assert_eq!(u.pw_hash, expected);
    assert_eq!(service.get_users(0, 5).len(), 1);
}

#[test]
fn usecase_update_and_delete_by_name() {
    let service = UserUsecase::new(InMemoryUserRepository::new());
    service.create_user("hoge".to_string(), "ほげ".to_string(), "".to_string(), "h@example.com".to_string(), false, "pw".to_string()).unwrap();
    let u = service.update_user("hoge".to_string(), None, Some("new intro".to_string()), None, Some(true), None).unwrap();
    assert_eq!(u.intro, "new intro");
    assert!(u.show_email);
    assert_eq!(u.display_name, "ほげ");
    assert_eq!(
        service.update_user("nobody".to_string(), None, None, None, None, None).unwrap_err(),
        UserServiceError::UserNotFound
    );
    assert_eq!(service.validate_user_name("hoge").unwrap_err(), UserServiceError::UserAlreadyExists);
    assert_eq!(service.delete_user("hoge"), Ok(()));
    assert_eq!(service.delete_user("hoge"), Err(UserServiceError::UserNotFound));
    assert!(service.get_user_by_name("hoge").is_err());
}

#[test]
fn response_hides_email_unless_shown() {
    let mut store = UserStore::new();
    let shown = add(&mut store, "a").unwrap();
    let hidden = store
        .add_user("b".to_string(), "B".to_string(), "".to_string(), "b@example.com".to_string(), false, vec![1])
        .unwrap();
    assert_eq!(UserResponse::from_user(&shown).email, Some("a@example.com".to_string()));
    assert_eq!(UserResponse::from_user(&hidden).email, None);
    assert_eq!(UserResponse::from_user(&hidden).name, "b");
}

#[test]
fn search_params_become_query() {
    let p = SearchParams { title_q: Some("Rust".to_string()), author: Some("hoge".to_string()), skip: 0, limit: 5 };
    let q = p.into_query();
    assert_eq!(q.title_query, Some("Rust".to_string()));
    assert_eq!(q.author_query.unwrap().as_str(), "hoge");
}

#[test]
fn repository_settings_kept() {
    let r = ArticleRepositoryImpl::new("mongodb://localhost".to_string(), "blog".to_string());
    assert_eq!(r.get_uri(), "mongodb://localhost");
    assert_eq!(r.get_user_name(), "blog");
}

#[test]
fn user_id_text_round_trip() {
    let id = UserId::parse_str("0123456789abcdefABCDEF01").unwrap();
    assert_eq!(id.to_hex(), "0123456789abcdefabcdef01");
    assert!(UserId::parse_str("xyz").is_err());
}
