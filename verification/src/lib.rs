//! Authentication and authorization core: password hashing, signed session
//! tokens, single-use expiring tokens (refresh, password reset, email
//! verification), and role-based access control over an in-memory credential
//! store.

pub mod audit;
pub mod auth;
pub mod clock;
pub mod codec;
pub mod error;
pub mod hashing;
pub mod laws;
pub mod model;
pub mod random;
pub mod roles;
pub mod store;
pub mod users;

pub use error::AppError;
