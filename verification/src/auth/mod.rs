//! Users, sessions and the check that authorizes a request.

pub mod auth_fairing;
pub mod auth_request_state;
pub mod auth_system;
pub mod user;

pub use auth_fairing::AuthFairing;
pub use auth_request_state::AuthRequestState;
pub use auth_system::AuthSystem;
pub use user::{Session, User};
