//! Users, and the form in which a user is shown to others.

use vstd::prelude::*;
use crate::ids::UserId;
use crate::user_name::UserName;

verus! {

/// A user as a mathematical value.
pub struct UserView {
    pub id: UserId,
    pub name: Seq<char>,
    pub display_name: Seq<char>,
    pub intro: Seq<char>,
    pub email: Seq<char>,
    pub show_email: bool,
    pub pw_hash: Seq<u8>,
    pub created_at: i64,
}

impl UserView {
    /// A well-formed user: a twelve-byte identifier and a password hash that is not empty.
    pub open spec fn wf(self) -> bool {
        self.id.wf() && self.pw_hash.len() > 0
    }
}

/// A registered user.
#[derive(Debug)]
pub struct User {
    pub id: UserId,
    /// Unique among the users of a store.
    pub name: UserName,
    pub display_name: String,
    pub intro: String,
    pub email: String,
    /// Whether `email` may be shown to others.
    pub show_email: bool,
    /// The hashed password.
    pub pw_hash: Vec<u8>,
    /// Microseconds since the Unix epoch.
    pub created_at: i64,
}

impl View for User {
    type V = UserView;

    open spec fn view(&self) -> UserView {
        UserView {
            id: self.id,
            name: self.name@,
            display_name: self.display_name@,
            intro: self.intro@,
            email: self.email@,
            show_email: self.show_email,
            pw_hash: self.pw_hash@,
            created_at: self.created_at,
        }
    }
}

/// The values of a sequence of users.
pub open spec fn user_views(s: Seq<User>) -> Seq<UserView> {
    s.map_values(|u: User| u@)
}

/// A copy of a byte string.
fn copy_bytes(b: &Vec<u8>) -> (r: Vec<u8>)
    ensures
        r@ == b@,
{
    let mut r: Vec<u8> = Vec::new();
    let mut i: usize = 0;
    while i < b.len()
        invariant
            0 <= i <= b@.len(),
            r@ == b@.subrange(0, i as int),
        decreases b@.len() - i,
    {
        r.push(b[i]);
        i += 1;
        assert(r@ =~= b@.subrange(0, i as int));
    }
    assert(b@.subrange(0, b@.len() as int) =~= b@);
    r
}

impl Clone for User {
    fn clone(&self) -> (r: Self)
        ensures
            r@ == self@,
    {
        User {
            id: self.id,
            name: self.name.clone(),
            display_name: self.display_name.clone(),
            intro: self.intro.clone(),
            email: self.email.clone(),
            show_email: self.show_email,
            pw_hash: copy_bytes(&self.pw_hash),
            created_at: self.created_at,
        }
    }
}

/// What others may see of a user: no password hash, and the e-mail address only where
/// the user allows it.
#[derive(Debug)]
pub struct UserResponse {
    pub id: UserId,
    pub name: String,
    pub display_name: String,
    pub intro: String,
    pub email: Option<String>,
}

impl UserResponse {
    /// The public form of `user`.
    pub fn from_user(user: &User) -> (r: UserResponse)
        ensures
            r.id == user.id,
            r.name@ == user.name@,
            r.display_name@ == user.display_name@,
            r.intro@ == user.intro@,
            r.email is Some == user.show_email,
            r.email matches Some(e) ==> e@ == user.email@,
    {
        UserResponse {
            id: user.id,
            name: user.name.as_str().to_owned(),
            display_name: user.display_name.clone(),
            intro: user.intro.clone(),
            email: if user.show_email {
                Some(user.email.clone())
            } else {
                None
            },
        }
    }
}

} // verus!
