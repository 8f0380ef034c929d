//! The operations that request handlers call: articles as stored, and users addressed by
//! name, with passwords hashed before they reach the store.

use vstd::prelude::*;
use sha2::Digest;
use crate::article::{Article, ArticleQuery, ArticleView, article_views};
use crate::article_store::{has_article, opt_view, patched, store_wf};
use crate::error::{ArticleServiceError, UserServiceError};
use crate::ids::ArticleId;
use crate::ordering::is_ordered_page;
use crate::repository::{ArticleRepository, UserRepository};
use crate::user::{User, UserView, user_views};
use crate::user_name::UserName;
use crate::user_store::{has_user, name_taken, opt_text, patched_user, user_page, users_wf};

verus! {

/// The SHA-256 digest of the UTF-8 encoding of `password`.
pub uninterp spec fn password_digest(password: Seq<char>) -> Seq<u8>;

/// Relies on sha2's `Sha256::digest`: the SHA-256 digest of the password's UTF-8 bytes,
/// which depends on the password alone and is 32 bytes long.
#[verifier::external_body]
fn hash_password(password: &str) -> (r: Vec<u8>)
    ensures
        r@ == password_digest(password@),
        r@.len() == 32,
{
    sha2::Sha256::digest(password.as_bytes()).to_vec()
}

/// The digest that is stored for an optional new password.
pub open spec fn opt_digest(password: Option<String>) -> Option<Seq<u8>> {
    match password {
        Some(p) => Some(password_digest(p@)),
        None => None,
    }
}

/// Article operations over any article store that keeps the storage contract.
pub struct ArticleUsecase<A: ArticleRepository> {
    repository: A,
}

impl<A: ArticleRepository> ArticleUsecase<A> {
    pub fn new(repository: A) -> (r: ArticleUsecase<A>) {
        ArticleUsecase { repository }
    }
}

/// The article operations that request handlers rely on.
pub trait ArticleService {
    /// A page of articles in order of creation.
    fn get_articles(&self, skip: usize, limit: usize) -> (r: Vec<Article>)
        ensures
            exists|s: Seq<ArticleView>|
                store_wf(s) && is_ordered_page(s, skip as int, limit as int, article_views(r@)),
    ;

    /// The article with identifier `id`.
    fn get_article_by_id(&self, id: ArticleId) -> (r: Result<Article, ArticleServiceError>)
        ensures
            r matches Ok(a) ==> a@.id == id && a@.wf(),
            r matches Err(e) ==> e == ArticleServiceError::ArticleNotFound,
            exists|s: Seq<ArticleView>|
                store_wf(s) && (r is Ok == has_article(s, id)) && (r matches Ok(a) ==> s.contains(a@)),
    ;

    /// Publishes a new article.
    fn create_article(&self, title: String, author: UserName, content: String) -> (r: Result<
        Article,
        ArticleServiceError,
    >)
        ensures
            r matches Ok(a) ==> a@.title == title@ && a@.author == author@ && a@.content
                == content@ && a.created_at == a.updated_at,
            r is Ok,
            exists|s: Seq<ArticleView>|
                store_wf(s) && (r matches Ok(a) ==> !has_article(s, a.id)),
    ;

    /// Replaces the given fields of an article.
    fn update_article(&self, id: ArticleId, title: Option<String>, content: Option<String>) -> (r:
        Result<Article, ArticleServiceError>)
        ensures
            r matches Err(e) ==> e == ArticleServiceError::ArticleNotFound,
            exists|s: Seq<ArticleView>|
                store_wf(s) && (r is Ok == has_article(s, id)) && (r matches Ok(a) ==> exists|
                    i: int,
                    now: i64,
                |
                    0 <= i < s.len() && s[i].id == id && a@ == #[trigger] patched(
                        s[i],
                        opt_view(title),
                        opt_view(content),
                        now,
                    )),
    ;

    /// Removes an article.
    fn delete_article(&self, id: ArticleId) -> (r: Result<(), ArticleServiceError>)
        ensures
            r matches Err(e) ==> e == ArticleServiceError::ArticleNotFound,
            exists|s: Seq<ArticleView>| store_wf(s) && (r is Ok == has_article(s, id)),
    ;

    /// A page, in order of creation, of the articles that `query` selects.
    fn search_articles(&self, skip: usize, limit: usize, query: ArticleQuery) -> (r: Vec<Article>)
        ensures
            exists|s: Seq<ArticleView>|
                store_wf(s) && is_ordered_page(
                    s.filter(|a: ArticleView| query.matches(a)),
                    skip as int,
                    limit as int,
                    article_views(r@),
                ),
    ;
}

impl<A: ArticleRepository> ArticleService for ArticleUsecase<A> {
    fn get_articles(&self, skip: usize, limit: usize) -> (r: Vec<Article>) {
        self.repository.get_articles(skip, limit)
    }

    fn get_article_by_id(&self, id: ArticleId) -> (r: Result<Article, ArticleServiceError>) {
        self.repository.get_article_by_id(id)
    }

    fn create_article(&self, title: String, author: UserName, content: String) -> (r: Result<
        Article,
        ArticleServiceError,
    >) {
        self.repository.add_article(title, author, content)
    }

    fn update_article(&self, id: ArticleId, title: Option<String>, content: Option<String>) -> (r:
        Result<Article, ArticleServiceError>) {
        self.repository.update_article(id, title, content)
    }

    fn delete_article(&self, id: ArticleId) -> (r: Result<(), ArticleServiceError>) {
        self.repository.delete_article(id)
    }

    fn search_articles(&self, skip: usize, limit: usize, query: ArticleQuery) -> (r: Vec<Article>) {
        self.repository.get_articles_with_query(skip, limit, &query)
    }
}

/// User operations over any user store that keeps the storage contract. Users are
/// addressed by name; names are not changed here.
pub struct UserUsecase<U: UserRepository> {
    repository: U,
}

impl<U: UserRepository> UserUsecase<U> {
    pub fn new(repository: U) -> (r: UserUsecase<U>) {
        UserUsecase { repository }
    }
}

/// The user operations that request handlers rely on; users are addressed by name.
pub trait UserService {
    /// Users in order of registration.
    fn get_users(&self, skip: usize, limit: usize) -> (r: Vec<User>)
        ensures
            exists|s: Seq<UserView>|
                users_wf(s) && user_views(r@) == user_page(s, skip as int, limit as int),
    ;

    /// The user called `name`.
    fn get_user_by_name(&self, name: &str) -> (r: Result<User, UserServiceError>)
        ensures
            r matches Ok(u) ==> u@.name == name@ && u@.wf(),
            r matches Err(e) ==> e == UserServiceError::UserNotFound,
            exists|s: Seq<UserView>|
                users_wf(s) && (r is Ok == name_taken(s, name@)) && (r matches Ok(u) ==> s.contains(u@)),
    ;

    /// Registers a user; the password is kept as its SHA-256 digest.
    fn create_user(
        &self,
        name: String,
        display_name: String,
        intro: String,
        email: String,
        show_email: bool,
        password: String,
    ) -> (r: Result<User, UserServiceError>)
        ensures
            r matches Ok(u) ==> u@.name == name@ && u@.display_name == display_name@ && u@.intro
                == intro@ && u@.email == email@ && u@.show_email == show_email && u@.pw_hash
                == password_digest(password@) && u@.pw_hash.len() == 32,
            r matches Err(e) ==> e == UserServiceError::UserAlreadyExists,
            exists|s: Seq<UserView>|
                users_wf(s) && (r is Ok == !name_taken(s, name@)) && (r matches Ok(u) ==> !has_user(
                    s,
                    u.id,
                )),
    ;

    /// Replaces the given fields of the user called `name`; a new password is kept as its
    /// SHA-256 digest, and the name is never changed. The user is looked up in one snapshot
    /// and changed by identifier in a later one: if it is removed in between, the change
    /// reports `UserNotFound`.
    fn update_user(
        &self,
        name: String,
        display_name: Option<String>,
        intro: Option<String>,
        email: Option<String>,
        show_email: Option<bool>,
        password: Option<String>,
    ) -> (r: Result<User, UserServiceError>)
        ensures
            r matches Err(e) ==> e == UserServiceError::UserNotFound,
            exists|s: Seq<UserView>|
                users_wf(s) && (!name_taken(s, name@) ==> r == Err::<User, UserServiceError>(
                    UserServiceError::UserNotFound,
                )) && (r matches Ok(u) ==> exists|i: int|
                    0 <= i < s.len() && s[i].name == name@ && #[trigger] s[i].id == u.id),
            r matches Ok(u) ==> exists|s: Seq<UserView>, i: int|
                users_wf(s) && 0 <= i < s.len() && s[i].id == u.id && u@ == #[trigger] patched_user(
                    s[i],
                    None,
                    opt_text(display_name),
                    opt_text(intro),
                    opt_text(email),
                    show_email,
                    opt_digest(password),
                ),
    ;

    /// Removes the user called `name`. The user is looked up, then removed by identifier.
    fn delete_user(&self, name: &str) -> (r: Result<(), UserServiceError>)
        ensures
            r matches Err(e) ==> e == UserServiceError::UserNotFound,
            exists|s: Seq<UserView>|
                users_wf(s) && (!name_taken(s, name@) ==> r == Err::<(), UserServiceError>(
                    UserServiceError::UserNotFound,
                )),
    ;

    /// `name` as a user name, if no user holds it.
    fn validate_user_name(&self, name: &str) -> (r: Result<UserName, UserServiceError>)
        ensures
            r matches Ok(n) ==> n@ == name@,
            r matches Err(e) ==> e == UserServiceError::UserAlreadyExists,
            exists|s: Seq<UserView>| users_wf(s) && (r is Ok == !name_taken(s, name@)),
    ;
}

impl<U: UserRepository> UserService for UserUsecase<U> {
    fn get_users(&self, skip: usize, limit: usize) -> (r: Vec<User>) {
        self.repository.get_users(skip, limit)
    }

    fn get_user_by_name(&self, name: &str) -> (r: Result<User, UserServiceError>) {
        self.repository.get_user_by_name(name)
    }

    fn create_user(
        &self,
        name: String,
        display_name: String,
        intro: String,
        email: String,
        show_email: bool,
        password: String,
    ) -> (r: Result<User, UserServiceError>) {
        let pw_hash = hash_password(password.as_str());
        self.repository.add_user(name, display_name, intro, email, show_email, pw_hash)
    }

    fn update_user(
        &self,
        name: String,
        display_name: Option<String>,
        intro: Option<String>,
        email: Option<String>,
        show_email: Option<bool>,
        password: Option<String>,
    ) -> (r: Result<User, UserServiceError>) {
        let user = match self.repository.get_user_by_name(name.as_str()) {
            Ok(u) => u,
            Err(e) => {
                return Err(e);
            },
        };
        let pw_hash = match &password {
            Some(p) => Some(hash_password(p.as_str())),
            None => None,
        };
        self.repository.update_user(user.id, None, display_name, intro, email, show_email, pw_hash)
    }

    fn delete_user(&self, name: &str) -> (r: Result<(), UserServiceError>) {
        let user = match self.repository.get_user_by_name(name) {
            Ok(u) => u,
            Err(e) => {
                return Err(e);
            },
        };
        self.repository.delete_user(user.id)
    }

    fn validate_user_name(&self, name: &str) -> (r: Result<UserName, UserServiceError>) {
        self.repository.validate_user_name(name)
    }
}

} // verus!
