//! The user store: every user, keyed by identifier, with each name held by at most one user.

use vstd::prelude::*;
use crate::clock::now_micros;
use crate::error::UserServiceError;
use crate::ids::{UserId, lemma_free_value_exists};
use crate::user::{User, UserView, user_views};
use crate::user_name::UserName;

verus! {

/// Whether some user of `s` has identifier `id`.
pub open spec fn has_user(s: Seq<UserView>, id: UserId) -> bool {
    exists|i: int| 0 <= i < s.len() && #[trigger] s[i].id == id
}

/// Whether some user of `s` is called `name`.
pub open spec fn name_taken(s: Seq<UserView>, name: Seq<char>) -> bool {
    exists|i: int| 0 <= i < s.len() && #[trigger] s[i].name == name
}

/// Whether some user of `s` other than the one with identifier `id` is called `name`.
pub open spec fn name_taken_by_other(s: Seq<UserView>, id: UserId, name: Seq<char>) -> bool {
    exists|i: int| 0 <= i < s.len() && s[i].id != id && #[trigger] s[i].name == name
}

/// A store of users: identifiers are distinct, names are distinct, and every user is well
/// formed.
pub open spec fn users_wf(s: Seq<UserView>) -> bool {
    &&& forall|i: int, j: int|
        0 <= i < s.len() && 0 <= j < s.len() && i != j ==> s[i].id != s[j].id && s[i].name
            != s[j].name
    &&& forall|i: int| 0 <= i < s.len() ==> (#[trigger] s[i]).wf()
}

/// The window of `s`, in store order, that skips `skip` users and holds at most `limit`.
pub open spec fn user_page(s: Seq<UserView>, skip: int, limit: int) -> Seq<UserView> {
    let lo = if skip < s.len() { skip } else { s.len() as int };
    let hi = if limit < s.len() - lo { lo + limit } else { s.len() as int };
    s.subrange(lo, hi)
}

/// The user made under `id` at time `now`.
pub open spec fn fresh_user(
    id: UserId,
    now: i64,
    name: Seq<char>,
    display_name: Seq<char>,
    intro: Seq<char>,
    email: Seq<char>,
    show_email: bool,
    pw_hash: Seq<u8>,
) -> UserView {
    UserView { id, name, display_name, intro, email, show_email, pw_hash, created_at: now }
}

/// The value of an optional field given as text.
pub open spec fn opt_text(o: Option<String>) -> Option<Seq<char>> {
    match o {
        Some(t) => Some(t@),
        None => None,
    }
}

/// The value of an optional field given as bytes.
pub open spec fn opt_bytes(o: Option<Vec<u8>>) -> Option<Seq<u8>> {
    match o {
        Some(b) => Some(b@),
        None => None,
    }
}

/// `given` if present, else `current`.
pub open spec fn or_keep<T>(given: Option<T>, current: T) -> T {
    match given {
        Some(v) => v,
        None => current,
    }
}

/// User `u` after a partial update: each field that is given replaces the old one.
pub open spec fn patched_user(
    u: UserView,
    name: Option<Seq<char>>,
    display_name: Option<Seq<char>>,
    intro: Option<Seq<char>>,
    email: Option<Seq<char>>,
    show_email: Option<bool>,
    pw_hash: Option<Seq<u8>>,
) -> UserView {
    UserView {
        name: or_keep(name, u.name),
        display_name: or_keep(display_name, u.display_name),
        intro: or_keep(intro, u.intro),
        email: or_keep(email, u.email),
        show_email: or_keep(show_email, u.show_email),
        pw_hash: or_keep(pw_hash, u.pw_hash),
        ..u
    }
}

/// The index in `users` of the user with identifier `id`, if any.
fn position_of_id(users: &Vec<User>, id: UserId) -> (r: Option<usize>)
    ensures
        r matches Some(i) ==> i < users@.len() && users@[i as int].id == id,
        r is None ==> forall|i: int| 0 <= i < users@.len() ==> users@[i].id != id,
{
    let mut i: usize = 0;
    while i < users.len()
        invariant
            0 <= i <= users@.len(),
            forall|j: int| 0 <= j < i ==> users@[j].id != id,
        decreases users@.len() - i,
    {
        if users[i].id == id {
            return Some(i);
        }
        i += 1;
    }
    None
}

/// The index in `users` of a user called `name`, other than the one with identifier
/// `except` if that is given.
fn position_of_name(users: &Vec<User>, name: &String, except: Option<UserId>) -> (r: Option<usize>)
    ensures
        r matches Some(i) ==> i < users@.len() && users@[i as int].name@ == name@ && except
            != Some(users@[i as int].id),
        r is None ==> forall|i: int|
            0 <= i < users@.len() && except != Some(users@[i].id) ==> users@[i].name@ != name@,
{
    let mut i: usize = 0;
    while i < users.len()
        invariant
            0 <= i <= users@.len(),
            forall|j: int|
                0 <= j < i && except != Some(users@[j].id) ==> users@[j].name@ != name@,
        decreases users@.len() - i,
    {
        let other = match except {
            Some(id) => users[i].id != id,
            None => true,
        };
        if other && users[i].name.is(name) {
            return Some(i);
        }
        i += 1;
    }
    None
}

/// `drawn` if no user has it, else the least identifier value that no user has. One of
/// the values `0..=n` is always free among `n` users.
fn free_user_id(users: &Vec<User>, drawn: UserId) -> (r: UserId)
    requires
        drawn.wf(),
    ensures
        r.wf(),
        forall|i: int| 0 <= i < users@.len() ==> users@[i].id != r,
{
    if position_of_id(users, drawn).is_none() {
        return drawn;
    }
    let ghost vals = users@.map_values(|u: User| u.id.value as int);
    let n = users.len();
    let mut k: u128 = 0;
    while k <= n as u128
        invariant
            n == users@.len(),
            vals == users@.map_values(|u: User| u.id.value as int),
            forall|j: int| 0 <= j < k ==> vals.contains(j),
        decreases n as u128 + 1 - k,
    {
        match position_of_id(users, UserId { value: k }) {
            None => {
                return UserId { value: k };
            },
            Some(i) => {
                assert(vals[i as int] == k as int);
            },
        }
        k += 1;
    }
    proof {
        lemma_free_value_exists(vals);
    }
    assert(false);
    drawn
}

/// Every user, in the order of registration. Operations that take `&mut self` are atomic
/// with respect to each other, so a name is checked and claimed in one step; see
/// `InMemoryUserRepository` for sharing between threads.
pub struct UserStore {
    users: Vec<User>,
}

impl View for UserStore {
    type V = Seq<UserView>;

    closed spec fn view(&self) -> Seq<UserView> {
        user_views(self.users@)
    }
}

impl UserStore {
    pub open spec fn wf(&self) -> bool {
        users_wf(self@)
    }

    /// An empty store.
    pub fn new() -> (r: UserStore)
        ensures
            r@ == Seq::<UserView>::empty(),
            r.wf(),
    {
        let r = UserStore { users: Vec::new() };
        assert(r@ =~= Seq::<UserView>::empty());
        r
    }

    /// The number of users.
    pub fn len(&self) -> (r: usize)
        ensures
            r == self@.len(),
    {
        self.users.len()
    }

    /// The users in order of registration, skipping `skip` and at most `limit` of them.
    pub fn get_users(&self, skip: usize, limit: usize) -> (r: Vec<User>)
        ensures
            user_views(r@) == user_page(self@, skip as int, limit as int),
    {
        let n = self.users.len();
        let lo = if skip < n {
            skip
        } else {
            n
        };
        let hi = if limit < n - lo {
            lo + limit
        } else {
            n
        };
        let mut page: Vec<User> = Vec::new();
        let mut i: usize = lo;
        while i < hi
            invariant
                lo <= i <= hi,
                hi <= n,
                n == self.users@.len(),
                user_views(page@) == self@.subrange(lo as int, i as int),
            decreases hi - i,
        {
            let ghost prior = page@;
            let u = self.users[i].clone();
            assert(u@ == self@[i as int]);
            page.push(u);
            assert(user_views(page@) =~= user_views(prior).push(self@[i as int]));
            i += 1;
            assert(user_views(page@) =~= self@.subrange(lo as int, i as int));
        }
        page
    }

    /// The user with identifier `id`.
    pub fn get_user_by_id(&self, id: UserId) -> (r: Result<User, UserServiceError>)
        ensures
            r is Ok == has_user(self@, id),
            r matches Ok(u) ==> u@.id == id && self@.contains(u@),
            r matches Err(e) ==> e == UserServiceError::UserNotFound,
    {
        match position_of_id(&self.users, id) {
            Some(i) => {
                assert(self@[i as int] == self.users@[i as int]@);
                assert(self@[i as int].id == id);
                Ok(self.users[i].clone())
            },
            None => {
                assert(!has_user(self@, id)) by {
                    assert forall|i: int| 0 <= i < self@.len() implies self@[i].id != id by {
                        assert(self@[i] == self.users@[i]@);
                    }
                }
                Err(UserServiceError::UserNotFound)
            },
        }
    }

    /// The user called `name`.
    pub fn get_user_by_name(&self, name: &str) -> (r: Result<User, UserServiceError>)
        ensures
            r is Ok == name_taken(self@, name@),
            r matches Ok(u) ==> u@.name == name@ && self@.contains(u@),
            r matches Err(e) ==> e == UserServiceError::UserNotFound,
    {
        let wanted = name.to_owned();
        match position_of_name(&self.users, &wanted, None) {
            Some(i) => {
                assert(self@[i as int] == self.users@[i as int]@);
                assert(self@[i as int].name == name@);
                Ok(self.users[i].clone())
            },
            None => {
                assert(!name_taken(self@, name@)) by {
                    assert forall|i: int| 0 <= i < self@.len() implies self@[i].name != name@ by {
                        assert(self@[i] == self.users@[i]@);
                    }
                }
                Err(UserServiceError::UserNotFound)
            },
        }
    }

    /// `name` as a user name, if no user holds it yet.
    pub fn validate_user_name(&self, name: &str) -> (r: Result<UserName, UserServiceError>)
        ensures
            r is Ok == !name_taken(self@, name@),
            r matches Ok(n) ==> n@ == name@,
            r matches Err(e) ==> e == UserServiceError::UserAlreadyExists,
    {
        let wanted = name.to_owned();
        match position_of_name(&self.users, &wanted, None) {
            Some(i) => {
                assert(self@[i as int] == self.users@[i as int]@);
                assert(self@[i as int].name == name@);
                Err(UserServiceError::UserAlreadyExists)
            },
            None => {
                assert(!name_taken(self@, name@)) by {
                    assert forall|i: int| 0 <= i < self@.len() implies self@[i].name != name@ by {
                        assert(self@[i] == self.users@[i]@);
                    }
                }
                Ok(UserName::new(wanted))
            },
        }
    }

    /// Registers a user under `id`, made at `now`. Refused when the name or the identifier
    /// is already in use; the check and the insertion are one step.
    pub fn insert_user(
        &mut self,
        id: UserId,
        now: i64,
        name: String,
        display_name: String,
        intro: String,
        email: String,
        show_email: bool,
        pw_hash: Vec<u8>,
    ) -> (r: Result<User, UserServiceError>)
        requires
            old(self).wf(),
            id.wf(),
            pw_hash@.len() > 0,
        ensures
            final(self).wf(),
            r is Ok == (!name_taken(old(self)@, name@) && !has_user(old(self)@, id)),
            r matches Ok(u) ==> u@ == fresh_user(
                id,
                now,
                name@,
                display_name@,
                intro@,
                email@,
                show_email,
                pw_hash@,
            ) && final(self)@ == old(self)@.push(u@),
            r matches Err(e) ==> e == UserServiceError::UserAlreadyExists && final(self)@
                == old(self)@,
    {
        let ghost before = self@;
        if let Some(i) = position_of_name(&self.users, &name, None) {
            assert(before[i as int] == self.users@[i as int]@);
            assert(before[i as int].name == name@);
            return Err(UserServiceError::UserAlreadyExists);
        }
        assert(!name_taken(before, name@)) by {
            assert forall|i: int| 0 <= i < before.len() implies before[i].name != name@ by {
                assert(before[i] == self.users@[i]@);
            }
        }
        if let Some(i) = position_of_id(&self.users, id) {
            assert(before[i as int] == self.users@[i as int]@);
            assert(before[i as int].id == id);
            return Err(UserServiceError::UserAlreadyExists);
        }
        assert(!has_user(before, id)) by {
            assert forall|i: int| 0 <= i < before.len() implies before[i].id != id by {
                assert(before[i] == self.users@[i]@);
            }
        }
        let user = User {
            id,
            name: UserName::new(name),
            display_name,
            intro,
            email,
            show_email,
            pw_hash,
            created_at: now,
        };
        self.users.push(user.clone());
        assert(self@ =~= before.push(user@));
        Ok(user)
    }

    /// Registers a user, made now, under a fresh identifier (should the drawn one be in use,
    /// an unused one is taken instead). Refused exactly when the name is already in use.
    pub fn add_user(
        &mut self,
        name: String,
        display_name: String,
        intro: String,
        email: String,
        show_email: bool,
        pw_hash: Vec<u8>,
    ) -> (r: Result<User, UserServiceError>)
        requires
            old(self).wf(),
            pw_hash@.len() > 0,
        ensures
            final(self).wf(),
            r is Ok == !name_taken(old(self)@, name@),
            r matches Ok(u) ==> u@.name == name@ && u@.display_name == display_name@ && u@.intro
                == intro@ && u@.email == email@ && u@.show_email == show_email && u@.pw_hash
                == pw_hash@ && u.id.wf() && !has_user(old(self)@, u.id) && final(self)@
                == old(self)@.push(u@),
            r matches Err(e) ==> e == UserServiceError::UserAlreadyExists && final(self)@
                == old(self)@,
    {
        let id = free_user_id(&self.users, UserId::new());
        assert(!has_user(self@, id)) by {
            assert forall|i: int| 0 <= i < self@.len() implies self@[i].id != id by {
                assert(self@[i] == self.users@[i]@);
            }
        }
        let now = now_micros();
        self.insert_user(id, now, name, display_name, intro, email, show_email, pw_hash)
    }

    /// Replaces the fields that are given of the user with identifier `id`. A new name must
    /// not be held by another user; the check and the rename are one step.
    pub fn update_user(
        &mut self,
        id: UserId,
        name: Option<String>,
        display_name: Option<String>,
        intro: Option<String>,
        email: Option<String>,
        show_email: Option<bool>,
        pw_hash: Option<Vec<u8>>,
    ) -> (r: Result<User, UserServiceError>)
        requires
            old(self).wf(),
            pw_hash matches Some(h) ==> h@.len() > 0,
        ensures
            final(self).wf(),
            r matches Err(e) ==> final(self)@ == old(self)@,
            r == Err::<User, UserServiceError>(UserServiceError::UserAlreadyExists) <==> (
            name matches Some(n) && name_taken_by_other(old(self)@, id, n@)),
            r == Err::<User, UserServiceError>(UserServiceError::UserNotFound) <==> (!(
            name matches Some(n) && name_taken_by_other(old(self)@, id, n@)) && !has_user(
                old(self)@,
                id,
            )),
            r matches Ok(u) ==> exists|i: int|
                0 <= i < old(self)@.len() && old(self)@[i].id == id && u@ == #[trigger] patched_user(
                    old(self)@[i],
                    opt_text(name),
                    opt_text(display_name),
                    opt_text(intro),
                    opt_text(email),
                    show_email,
                    opt_bytes(pw_hash),
                ) && final(self)@ == old(self)@.update(i, u@),
    {
        let ghost before = self@;
        if let Some(n) = &name {
            if let Some(i) = position_of_name(&self.users, n, Some(id)) {
                assert(before[i as int] == self.users@[i as int]@);
                assert(before[i as int].name == n@ && before[i as int].id != id);
                return Err(UserServiceError::UserAlreadyExists);
            }
            assert(!name_taken_by_other(before, id, n@)) by {
                assert forall|i: int| 0 <= i < before.len() && before[i].id != id implies before[i].name
                    != n@ by {
                    assert(before[i] == self.users@[i]@);
                }
            }
        }
        let i = match position_of_id(&self.users, id) {
            Some(i) => i,
            None => {
                assert(!has_user(before, id)) by {
                    assert forall|i: int| 0 <= i < before.len() implies before[i].id != id by {
                        assert(before[i] == self.users@[i]@);
                    }
                }
                return Err(UserServiceError::UserNotFound);
            },
        };
        let current = self.users[i].clone();
        assert(before[i as int] == current@);
        assert(before[i as int].id == id);
        let ghost old_name = name;
        let ghost old_display_name = display_name;
        let ghost old_intro = intro;
        let ghost old_email = email;
        let ghost old_pw_hash = pw_hash;
        let user = User {
            id: current.id,
            name: match name {
                Some(n) => UserName::new(n),
                None => current.name,
            },
            display_name: match display_name {
                Some(v) => v,
                None => current.display_name,
            },
            intro: match intro {
                Some(v) => v,
                None => current.intro,
            },
            email: match email {
                Some(v) => v,
                None => current.email,
            },
            show_email: match show_email {
                Some(v) => v,
                None => current.show_email,
            },
            pw_hash: match pw_hash {
                Some(v) => v,
                None => current.pw_hash,
            },
            created_at: current.created_at,
        };
        assert(user@ == patched_user(
            before[i as int],
            opt_text(old_name),
            opt_text(old_display_name),
            opt_text(old_intro),
            opt_text(old_email),
            show_email,
            opt_bytes(old_pw_hash),
        ));
        self.users.set(i, user.clone());
        assert(self@ =~= before.update(i as int, user@));
        assert(users_wf(self@)) by {
            assert forall|a: int, b: int|
                0 <= a < self@.len() && 0 <= b < self@.len() && a != b implies self@[a].id
                != self@[b].id && self@[a].name != self@[b].name by {
                if a != i && b != i {
                    assert(self@[a] == before[a] && self@[b] == before[b]);
                } else if a == i {
                    assert(self@[b] == before[b]);
                } else {
                    assert(self@[a] == before[a]);
                }
            }
        }
        Ok(user)
    }

    /// Removes the user with identifier `id`.
    pub fn delete_user(&mut self, id: UserId) -> (r: Result<(), UserServiceError>)
        requires
            old(self).wf(),
        ensures
            final(self).wf(),
            r is Ok == has_user(old(self)@, id),
            r is Ok ==> exists|i: int|
                0 <= i < old(self)@.len() && #[trigger] old(self)@[i].id == id && final(self)@
                    == old(self)@.remove(i),
            r matches Err(e) ==> e == UserServiceError::UserNotFound && final(self)@
                == old(self)@,
    {
        let ghost before = self@;
        match position_of_id(&self.users, id) {
            Some(i) => {
                assert(before[i as int] == self.users@[i as int]@);
                assert(before[i as int].id == id);
                self.users.remove(i);
                assert(self@ =~= before.remove(i as int));
                assert(users_wf(self@)) by {
                    assert forall|a: int, b: int|
                        0 <= a < self@.len() && 0 <= b < self@.len() && a != b implies self@[a].id
                        != self@[b].id && self@[a].name != self@[b].name by {
                        let a2 = if a < i { a } else { a + 1 };
                        let b2 = if b < i { b } else { b + 1 };
                        assert(self@[a] == before[a2] && self@[b] == before[b2]);
                    }
                    assert forall|a: int| 0 <= a < self@.len() implies (#[trigger] self@[a]).wf() by {
                        let a2 = if a < i { a } else { a + 1 };
                        assert(self@[a] == before[a2]);
                    }
                }
                Ok(())
            },
            None => {
                assert(!has_user(before, id)) by {
                    assert forall|i: int| 0 <= i < before.len() implies before[i].id != id by {
                        assert(before[i] == self.users@[i]@);
                    }
                }
                Err(UserServiceError::UserNotFound)
            },
        }
    }
}

} // verus!
