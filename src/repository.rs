//! The stores as shared by concurrent request handlers: each behind one reader-writer lock,
//! so that many readers or one writer work at a time and every operation sees and leaves
//! a well-formed store. The lock's invariant is the store's well-formedness, so the
//! uniqueness of identifiers and of user names holds between any two operations.

use vstd::prelude::*;
use vstd::rwlock::{RwLock, RwLockPredicate};
use crate::article::{Article, ArticleQuery, ArticleView, article_views};
use crate::article_store::{ArticleStore, has_article, opt_view, patched, store_wf};
use crate::error::{ArticleServiceError, UserServiceError};
use crate::ids::{ArticleId, UserId};
use crate::ordering::is_ordered_page;
use crate::user::{User, UserView, user_views};
use crate::user_name::UserName;
use crate::user_store::{
    UserStore, has_user, name_taken, name_taken_by_other, opt_bytes, opt_text, patched_user,
    user_page, users_wf,
};

verus! {

/// What the article lock guarantees of the store it guards.
pub struct ArticleStoreInv;

impl RwLockPredicate<ArticleStore> for ArticleStoreInv {
    open spec fn inv(self, v: ArticleStore) -> bool {
        v.wf()
    }
}

/// What the user lock guarantees of the store it guards.
pub struct UserStoreInv;

impl RwLockPredicate<UserStore> for UserStoreInv {
    open spec fn inv(self, v: UserStore) -> bool {
        v.wf()
    }
}

/// The article store, shared. Each operation is one critical section, so it acts on one
/// well-formed state of the store (called a snapshot below); a check and the change that
/// depends on it are never split.
pub struct InMemoryArticleRepository {
    articles: RwLock<ArticleStore, ArticleStoreInv>,
}

impl InMemoryArticleRepository {
    /// An empty shared store.
    pub fn new() -> (r: InMemoryArticleRepository) {
        InMemoryArticleRepository { articles: RwLock::new(ArticleStore::new(), Ghost(ArticleStoreInv)) }
    }
}

/// The storage contract for articles that the use cases rely on. Each operation acts on one
/// well-formed state of the store (a snapshot); what is promised holds whatever other
/// callers do at the same time.
pub trait ArticleRepository {
    /// A page in order of creation, as `ArticleStore::get_articles` gives it on a snapshot.
    fn get_articles(&self, skip: usize, limit: usize) -> (r: Vec<Article>)
        ensures
            exists|s: Seq<ArticleView>|
                store_wf(s) && is_ordered_page(s, skip as int, limit as int, article_views(r@)),
    ;

    /// The article with identifier `id`, as a snapshot holds it.
    fn get_article_by_id(&self, id: ArticleId) -> (r: Result<Article, ArticleServiceError>)
        ensures
            r matches Ok(a) ==> a@.id == id && a@.wf(),
            r matches Err(e) ==> e == ArticleServiceError::ArticleNotFound,
            exists|s: Seq<ArticleView>|
                store_wf(s) && (r is Ok == has_article(s, id)) && (r matches Ok(a) ==> s.contains(a@)),
    ;

    /// Stores a new article, made now, under a fresh identifier.
    fn add_article(&self, title: String, author: UserName, content: String) -> (r: Result<
        Article,
        ArticleServiceError,
    >)
        ensures
            r matches Ok(a) ==> a@.title == title@ && a@.author == author@ && a@.content
                == content@ && a.created_at == a.updated_at,
            r is Ok,
            exists|s: Seq<ArticleView>|
                store_wf(s) && (r matches Ok(a) ==> !has_article(s, a.id)),
    ;

    /// Replaces the given fields of the article with identifier `id` and advances its
    /// modification time; the lookup and the change are one step.
    fn update_article(&self, id: ArticleId, title: Option<String>, content: Option<String>) -> (r:
        Result<Article, ArticleServiceError>)
        ensures
            r matches Err(e) ==> e == ArticleServiceError::ArticleNotFound,
            exists|s: Seq<ArticleView>|
                store_wf(s) && (r is Ok == has_article(s, id)) && (r matches Ok(a) ==> exists|
                    i: int,
                    now: i64,
                |
                    0 <= i < s.len() && s[i].id == id && a@ == #[trigger] patched(
                        s[i],
                        opt_view(title),
                        opt_view(content),
                        now,
                    )),
    ;

    /// Removes the article with identifier `id`.
    fn delete_article(&self, id: ArticleId) -> (r: Result<(), ArticleServiceError>)
        ensures
            r matches Err(e) ==> e == ArticleServiceError::ArticleNotFound,
            exists|s: Seq<ArticleView>| store_wf(s) && (r is Ok == has_article(s, id)),
    ;

    /// A page of the articles that `query` selects, as `ArticleStore::get_articles_with_query`
    /// gives it on a snapshot.
    fn get_articles_with_query(&self, skip: usize, limit: usize, query: &ArticleQuery) -> (r:
        Vec<Article>)
        ensures
            exists|s: Seq<ArticleView>|
                store_wf(s) && is_ordered_page(
                    s.filter(|a: ArticleView| query.matches(a)),
                    skip as int,
                    limit as int,
                    article_views(r@),
                ),
    ;
}

impl ArticleRepository for InMemoryArticleRepository {
    fn get_articles(&self, skip: usize, limit: usize) -> (r: Vec<Article>)
    {
        let handle = self.articles.acquire_read();
        let store = handle.borrow();
        let r = store.get_articles(skip, limit);
        assert(store_wf(store@) && is_ordered_page(store@, skip as int, limit as int, article_views(r@)));
        handle.release_read();
        r
    }

    fn get_article_by_id(&self, id: ArticleId) -> (r: Result<Article, ArticleServiceError>)
    {
        let handle = self.articles.acquire_read();
        let store = handle.borrow();
        let r = store.get_article_by_id(id);
        assert(store_wf(store@) && (r is Ok == has_article(store@, id)) && (r matches Ok(a) ==> store@.contains(a@)));
        handle.release_read();
        r
    }

    fn add_article(&self, title: String, author: UserName, content: String) -> (r: Result<
        Article,
        ArticleServiceError,
    >)
    {
        let (mut store, handle) = self.articles.acquire_write();
        let ghost s = store@;
        let r = store.add_article(title, author, content);
        assert(store_wf(s) && (r matches Ok(a) ==> !has_article(s, a.id)));
        handle.release_write(store);
        r
    }

    fn update_article(&self, id: ArticleId, title: Option<String>, content: Option<String>) -> (r:
        Result<Article, ArticleServiceError>) {
        let (mut store, handle) = self.articles.acquire_write();
        let ghost s = store@;
        let r = store.update_article(id, title, content);
        assert(store_wf(s) && (r is Ok == has_article(s, id)));
        handle.release_write(store);
        r
    }

    fn delete_article(&self, id: ArticleId) -> (r: Result<(), ArticleServiceError>)
    {
        let (mut store, handle) = self.articles.acquire_write();
        let ghost s = store@;
        let r = store.delete_article(id);
        assert(store_wf(s) && (r is Ok == has_article(s, id)));
        handle.release_write(store);
        r
    }

    fn get_articles_with_query(&self, skip: usize, limit: usize, query: &ArticleQuery) -> (r:
        Vec<Article>)
    {
        let handle = self.articles.acquire_read();
        let store = handle.borrow();
        let r = store.get_articles_with_query(skip, limit, query);
        assert(store_wf(store@));
        handle.release_read();
        r
    }
}

/// The user store, shared. Each operation is one critical section, so it acts on one
/// well-formed state of the store (called a snapshot below): in particular a name is
/// checked and claimed in the same step, and two registrations under one name cannot
/// both succeed.
pub struct InMemoryUserRepository {
    users: RwLock<UserStore, UserStoreInv>,
}

impl InMemoryUserRepository {
    /// An empty shared store.
    pub fn new() -> (r: InMemoryUserRepository) {
        InMemoryUserRepository { users: RwLock::new(UserStore::new(), Ghost(UserStoreInv)) }
    }
}

/// The storage contract for users that the use cases rely on. Each operation acts on one
/// well-formed state of the store (a snapshot); what is promised holds whatever other
/// callers do at the same time.
pub trait UserRepository {
    /// Users in order of registration, as `UserStore::get_users` gives them on a snapshot.
    fn get_users(&self, skip: usize, limit: usize) -> (r: Vec<User>)
        ensures
            exists|s: Seq<UserView>|
                users_wf(s) && user_views(r@) == user_page(s, skip as int, limit as int),
    ;

    /// The user with identifier `id`, as a snapshot holds it.
    fn get_user_by_id(&self, id: UserId) -> (r: Result<User, UserServiceError>)
        ensures
            r matches Ok(u) ==> u@.id == id && u@.wf(),
            r matches Err(e) ==> e == UserServiceError::UserNotFound,
            exists|s: Seq<UserView>|
                users_wf(s) && (r is Ok == has_user(s, id)) && (r matches Ok(u) ==> s.contains(u@)),
    ;

    /// The user called `name`, as a snapshot holds it.
    fn get_user_by_name(&self, name: &str) -> (r: Result<User, UserServiceError>)
        ensures
            r matches Ok(u) ==> u@.name == name@ && u@.wf(),
            r matches Err(e) ==> e == UserServiceError::UserNotFound,
            exists|s: Seq<UserView>|
                users_wf(s) && (r is Ok == name_taken(s, name@)) && (r matches Ok(u) ==> s.contains(u@)),
    ;

    /// Registers a user, made now, under a fresh identifier; the name is checked and
    /// claimed in one step.
    fn add_user(
        &self,
        name: String,
        display_name: String,
        intro: String,
        email: String,
        show_email: bool,
        pw_hash: Vec<u8>,
    ) -> (r: Result<User, UserServiceError>)
        requires
            pw_hash@.len() > 0,
        ensures
            r matches Ok(u) ==> u@.name == name@ && u@.display_name == display_name@ && u@.intro
                == intro@ && u@.email == email@ && u@.show_email == show_email && u@.pw_hash
                == pw_hash@,
            r matches Err(e) ==> e == UserServiceError::UserAlreadyExists,
            exists|s: Seq<UserView>|
                users_wf(s) && (r is Ok == !name_taken(s, name@)) && (r matches Ok(u) ==> !has_user(
                    s,
                    u.id,
                )),
    ;

    /// Replaces the given fields of the user with identifier `id`; a new name is checked
    /// against the other users and claimed in one step.
    fn update_user(
        &self,
        id: UserId,
        name: Option<String>,
        display_name: Option<String>,
        intro: Option<String>,
        email: Option<String>,
        show_email: Option<bool>,
        pw_hash: Option<Vec<u8>>,
    ) -> (r: Result<User, UserServiceError>)
        requires
            pw_hash matches Some(h) ==> h@.len() > 0,
        ensures
            exists|s: Seq<UserView>|
                users_wf(s) && (r == Err::<User, UserServiceError>(
                    UserServiceError::UserAlreadyExists,
                ) <==> (name matches Some(n) && name_taken_by_other(s, id, n@))) && (r
                    == Err::<User, UserServiceError>(UserServiceError::UserNotFound) <==> (!(
                name matches Some(n) && name_taken_by_other(s, id, n@)) && !has_user(s, id)))
                    && (r matches Ok(u) ==> exists|i: int|
                    0 <= i < s.len() && s[i].id == id && u@ == #[trigger] patched_user(
                        s[i],
                        opt_text(name),
                        opt_text(display_name),
                        opt_text(intro),
                        opt_text(email),
                        show_email,
                        opt_bytes(pw_hash),
                    )),
    ;

    /// Removes the user with identifier `id`.
    fn delete_user(&self, id: UserId) -> (r: Result<(), UserServiceError>)
        ensures
            r matches Err(e) ==> e == UserServiceError::UserNotFound,
            exists|s: Seq<UserView>| users_wf(s) && (r is Ok == has_user(s, id)),
    ;

    /// `name` as a user name, if no user of a snapshot holds it. A caller that validates and
    /// then registers in two calls may still be refused by `add_user`, which checks again.
    fn validate_user_name(&self, name: &str) -> (r: Result<UserName, UserServiceError>)
        ensures
            r matches Ok(n) ==> n@ == name@,
            r matches Err(e) ==> e == UserServiceError::UserAlreadyExists,
            exists|s: Seq<UserView>| users_wf(s) && (r is Ok == !name_taken(s, name@)),
    ;
}

impl UserRepository for InMemoryUserRepository {
    fn get_users(&self, skip: usize, limit: usize) -> (r: Vec<User>)
    {
        let handle = self.users.acquire_read();
        let store = handle.borrow();
        let r = store.get_users(skip, limit);
        assert(users_wf(store@) && user_views(r@) == user_page(store@, skip as int, limit as int));
        handle.release_read();
        r
    }

    fn get_user_by_id(&self, id: UserId) -> (r: Result<User, UserServiceError>)
    {
        let handle = self.users.acquire_read();
        let store = handle.borrow();
        let r = store.get_user_by_id(id);
        assert(users_wf(store@) && (r is Ok == has_user(store@, id)) && (r matches Ok(u) ==> store@.contains(u@)));
        handle.release_read();
        r
    }

    fn get_user_by_name(&self, name: &str) -> (r: Result<User, UserServiceError>)
    {
        let handle = self.users.acquire_read();
        let store = handle.borrow();
        let r = store.get_user_by_name(name);
        assert(users_wf(store@) && (r is Ok == name_taken(store@, name@)) && (r matches Ok(u) ==> store@.contains(u@)));
        handle.release_read();
        r
    }

    fn add_user(
        &self,
        name: String,
        display_name: String,
        intro: String,
        email: String,
        show_email: bool,
        pw_hash: Vec<u8>,
    ) -> (r: Result<User, UserServiceError>)
    {
        let (mut store, handle) = self.users.acquire_write();
        let ghost s = store@;
        let r = store.add_user(name, display_name, intro, email, show_email, pw_hash);
        assert(users_wf(s) && (r is Ok == !name_taken(s, name@)) && (r matches Ok(u) ==> !has_user(s, u.id)));
        handle.release_write(store);
        r
    }

    fn update_user(
        &self,
        id: UserId,
        name: Option<String>,
        display_name: Option<String>,
        intro: Option<String>,
        email: Option<String>,
        show_email: Option<bool>,
        pw_hash: Option<Vec<u8>>,
    ) -> (r: Result<User, UserServiceError>)
    {
        let (mut store, handle) = self.users.acquire_write();
        let ghost s = store@;
        let r = store.update_user(id, name, display_name, intro, email, show_email, pw_hash);
        assert(users_wf(s));
        handle.release_write(store);
        r
    }

    fn delete_user(&self, id: UserId) -> (r: Result<(), UserServiceError>)
    {
        let (mut store, handle) = self.users.acquire_write();
        let ghost s = store@;
        let r = store.delete_user(id);
        assert(users_wf(s) && (r is Ok == has_user(s, id)));
        handle.release_write(store);
        r
    }

    fn validate_user_name(&self, name: &str) -> (r: Result<UserName, UserServiceError>)
    {
        let handle = self.users.acquire_read();
        let store = handle.borrow();
        let r = store.validate_user_name(name);
        assert(users_wf(store@) && (r is Ok == !name_taken(store@, name@)));
        handle.release_read();
        r
    }
}

} // verus!
