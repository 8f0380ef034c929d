//! The failures that the stores report.

use vstd::prelude::*;

verus! {

/// Why an article operation did not succeed.
#[derive(Debug, Clone, Copy, PartialEq, Eq, Structural)]
pub enum ArticleServiceError {
    /// No article has the given identifier.
    ArticleNotFound,
    /// The identifier drawn for a new article is already in use.
    ArticleAlreadyExists,
}

/// Why a user operation did not succeed.
#[derive(Debug, Clone, Copy, PartialEq, Eq, Structural)]
pub enum UserServiceError {
    /// No user has the given identifier or name.
    UserNotFound,
    /// The name (or the identifier drawn for a new user) is already in use.
    UserAlreadyExists,
}

} // verus!
