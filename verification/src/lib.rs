//! A small user directory guarded by bearer tokens.
//!
//! The crate holds the rules of the service: how passwords are checked, how
//! tokens are issued and honored, what the user store does on each operation
//! and what every request is answered with. Transport, body encoding and
//! locking are left to the caller.

pub mod api;
pub mod clock;
pub mod credentials;
pub mod guard;
pub mod laws;
pub mod password;
pub mod reply;
pub mod state;
pub mod text;
pub mod token;
pub mod users;

pub use api::{
    create_user, create_user_as, delete_user, delete_user_as, get_all_users, get_user_by_id, login,
    refuse, update_user, update_user_as, verify_token, LoginRequest,
};
pub use clock::Timestamp;
pub use credentials::{Admin, CredentialStore};
pub use guard::extract_token_claims;
pub use reply::{Failure, Reply};
pub use state::AppState;
pub use token::{Claims, LoginResponse};
pub use users::{CreateUserRequest, UpdateUserRequest, User, UserStore};
