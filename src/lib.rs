//! An authentication core: a session cache keyed by username in front of a
//! pluggable credential store.

pub mod cache;
pub mod error;
pub mod password;
pub mod service;
pub mod store;
pub mod user;

pub use cache::SessionCache;
pub use error::AuthError;
pub use service::{gate_request, AuthService, Authenticate};
pub use store::{select_user, Database};
pub use user::User;
