//! Error taxonomy of the core: each variant corresponds to one class of
//! failure that callers map to a transport status.

use vstd::prelude::*;

verus! {

/// The error type shared by every fallible operation of the core.
///
/// `Database` stands for a storage fault whose detail is kept server-side;
/// `NotFound` for an absent resource; `Validation` for malformed input;
/// `AuthError` for bad credentials and invalid, expired or already-used
/// tokens; `Conflict` for duplicate usernames or emails; `Forbidden` for an
/// authenticated requester with insufficient privilege.
#[derive(Debug)]
pub enum AppError {
    Database(String),
    NotFound(String),
    Validation(String),
    AuthError(String),
    Conflict(String),
    Forbidden(String),
}

impl AppError {
    /// The message carried by the error, whatever its variant.
    pub fn message(&self) -> (r: &String)
        ensures
            r@ == self.message_view(),
    {
        match self {
            AppError::Database(m) => m,
            AppError::NotFound(m) => m,
            AppError::Validation(m) => m,
            AppError::AuthError(m) => m,
            AppError::Conflict(m) => m,
            AppError::Forbidden(m) => m,
        }
    }

    /// The message as a sequence of characters.
    pub open spec fn message_view(&self) -> Seq<char> {
        match self {
            AppError::Database(m) => m@,
            AppError::NotFound(m) => m@,
            AppError::Validation(m) => m@,
            AppError::AuthError(m) => m@,
            AppError::Conflict(m) => m@,
            AppError::Forbidden(m) => m@,
        }
    }
}

} // verus!
