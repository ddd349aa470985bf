//! The state that the service starts with.

use vstd::prelude::*;
use crate::clock::Timestamp;
use crate::credentials::{Admin, AdminView, CredentialStore};
use crate::password::{cost_marker, hash, password_matches};
use crate::text::starts_with;
use crate::users::{Directory, UserStore};

verus! {

/// What the service holds: the users, the administrators and the secret that
/// tokens are signed with.
#[derive(Debug)]
pub struct AppState {
    pub users: UserStore,
    pub admins: CredentialStore,
    pub jwt_secret: String,
}

impl AppState {
    /// Whether both stores are in order.
    pub open spec fn wf(&self) -> bool {
        self.users.wf() && self.admins.wf()
    }

    /// The state at startup for a given administrator: no users yet, and
    /// `admin` as the one identity that can log in.
    pub fn seeded(jwt_secret: String, admin: Admin) -> (state: AppState)
        ensures
            state.wf(),
            state.users@ == Directory::empty(),
            state.admins@ == Map::<Seq<char>, AdminView>::empty().insert(admin@.username, admin@),
            state.jwt_secret@ == jwt_secret@,
    {
        AppState { users: UserStore::new(), admins: CredentialStore::seeded(admin), jwt_secret }
    }

    /// The state at startup: no users yet, and one administrator, whose
    /// password is stored as a fresh digest of cost 12 and never as it came.
    /// Returns `None` where the hasher failed.
    pub fn new(jwt_secret: String, admin_username: &str, admin_password: &str, now: &Timestamp) -> (state:
        Option<AppState>)
        ensures
            state matches Some(s) ==> {
                &&& s.wf()
                &&& s.users@ == Directory::empty()
                &&& s.jwt_secret@ == jwt_secret@
                &&& s.admins@.dom() == set![admin_username@]
                &&& s.admins@[admin_username@].username == admin_username@
                &&& s.admins@[admin_username@].created_at == now.text()
                &&& password_matches(admin_password@, s.admins@[admin_username@].password_hash)
                &&& starts_with(s.admins@[admin_username@].password_hash, cost_marker())
            },
    {
        AppState::started(jwt_secret, admin_username, hash(admin_password), now)
    }

    /// The state at startup, given what hashing the administrator's password
    /// came to: with a digest, no users yet and the administrator as the one
    /// identity, made at `now`; without one, no state.
    pub fn started(
        jwt_secret: String,
        admin_username: &str,
        password_hash: Option<String>,
        now: &Timestamp,
    ) -> (state: Option<AppState>)
        ensures
            state is Some <==> password_hash is Some,
            state matches Some(s) ==> {
                &&& s.wf()
                &&& s.users@ == Directory::empty()
                &&& s.jwt_secret@ == jwt_secret@
                &&& s.admins@ == Map::<Seq<char>, AdminView>::empty().insert(
                    admin_username@,
                    AdminView {
                        username: admin_username@,
                        password_hash: password_hash->0@,
                        created_at: now.text(),
                    },
                )
            },
    {
        match password_hash {
            Some(password_hash) => {
                let admin = Admin {
                    username: admin_username.to_owned(),
                    password_hash,
                    created_at: now.to_rfc3339(),
                };
                Some(AppState::seeded(jwt_secret, admin))
            },
            None => None,
        }
    }
}

} // verus!
