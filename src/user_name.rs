use vstd::prelude::*;

verus! {

/// A user's unique handle, kept apart from display names and e-mail addresses.
/// Equality is equality of the inner text.
#[derive(Debug, Hash)]
pub struct UserName {
    inner: String,
}

impl View for UserName {
    type V = Seq<char>;

    closed spec fn view(&self) -> Seq<char> {
        self.inner@
    }
}

impl UserName {
    /// The name as text.
    pub fn as_str(&self) -> (r: &str)
        ensures
            r@ == self@,
    {
        self.inner.as_str()
    }

    /// Wraps `name`; whether it is free is for the user store to decide.
    pub fn new(name: String) -> (r: UserName)
        ensures
            r@ == name@,
    {
        UserName { inner: name }
    }

    /// Whether this name reads exactly as `name`.
    pub fn is(&self, name: &String) -> (r: bool)
        ensures
            r == (self@ == name@),
    {
        self.inner == *name
    }
}

impl Clone for UserName {
    fn clone(&self) -> (r: Self)
        ensures
            r@ == self@,
    {
        UserName { inner: self.inner.clone() }
    }
}

impl PartialEq for UserName {
    fn eq(&self, other: &UserName) -> (r: bool) {
        self.inner == other.inner
    }
}

impl vstd::std_specs::cmp::PartialEqSpecImpl for UserName {
    open spec fn obeys_eq_spec() -> bool {
        true
    }

    open spec fn eq_spec(&self, other: &UserName) -> bool {
        self@ == other@
    }
}

impl Eq for UserName {}

} // verus!
