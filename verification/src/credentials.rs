//! The credential store: the administrators who may log in, by username.

use vstd::prelude::*;
use vstd::string::*;

verus! {

/// An administrator: a username and the digest of a password.
#[derive(Debug, PartialEq, Eq)]
pub struct Admin {
    pub username: String,
    pub password_hash: String,
    pub created_at: String,
}

/// What contracts say of an `Admin`.
pub struct AdminView {
    pub username: Seq<char>,
    pub password_hash: Seq<char>,
    pub created_at: Seq<char>,
}

impl View for Admin {
    type V = AdminView;

    open spec fn view(&self) -> AdminView {
        AdminView {
            username: self.username@,
            password_hash: self.password_hash@,
            created_at: self.created_at@,
        }
    }
}

impl DeepView for Admin {
    type V = AdminView;

    open spec fn deep_view(&self) -> AdminView {
        self@
    }
}

impl Clone for Admin {
    fn clone(&self) -> (copy: Self)
        ensures
            copy == *self,
    {
        Admin {
            username: self.username.clone(),
            password_hash: self.password_hash.clone(),
            created_at: self.created_at.clone(),
        }
    }
}

/// The identity under `username` in `admins`, if there is one.
pub open spec fn identity_of(admins: Map<Seq<char>, AdminView>, username: Seq<char>) -> Option<
    AdminView,
> {
    if admins.contains_key(username) {
        Some(admins[username])
    } else {
        None
    }
}

/// Whether every identity of `admins` stands under its own username.
pub open spec fn keyed_by_username(admins: Map<Seq<char>, AdminView>) -> bool {
    forall|username: Seq<char>| #[trigger]
        admins.contains_key(username) ==> admins[username].username == username
}

spec fn holds_name(admins: Seq<Admin>, username: Seq<char>) -> bool {
    exists|i: int| 0 <= i < admins.len() && #[trigger] admins[i].username@ == username
}

spec fn place_of(admins: Seq<Admin>, username: Seq<char>) -> int {
    choose|i: int| 0 <= i < admins.len() && #[trigger] admins[i].username@ == username
}

/// The administrators, filled once when it is made and only read after.
#[derive(Debug)]
pub struct CredentialStore {
    admins: Vec<Admin>,
}

impl View for CredentialStore {
    type V = Map<Seq<char>, AdminView>;

    closed spec fn view(&self) -> Map<Seq<char>, AdminView> {
        Map::new(
            |username: Seq<char>| holds_name(self.admins@, username),
            |username: Seq<char>| self.admins@[place_of(self.admins@, username)]@,
        )
    }
}

impl CredentialStore {
    /// Whether the store is in order: no two administrators share a username.
    pub closed spec fn wf(&self) -> bool {
        forall|i: int, j: int|
            0 <= i < self.admins@.len() && 0 <= j < self.admins@.len() && i != j
                ==> #[trigger] self.admins@[i].username@ != #[trigger] self.admins@[j].username@
    }

    /// In a store that is in order every identity stands under its own
    /// username.
    pub proof fn lemma_keyed_by_username(&self)
        requires
            self.wf(),
        ensures
            keyed_by_username(self@),
    {
    }

    /// The store that holds `admin` and nobody else.
    pub fn seeded(admin: Admin) -> (store: CredentialStore)
        ensures
            store.wf(),
            store@ == Map::<Seq<char>, AdminView>::empty().insert(admin@.username, admin@),
    {
        let mut admins: Vec<Admin> = Vec::new();
        admins.push(admin);
        let store = CredentialStore { admins };
        proof {
            let expected = Map::<Seq<char>, AdminView>::empty().insert(admin@.username, admin@);
            assert forall|username: Seq<char>| store@.contains_key(username) <==> username
                == admin@.username by {
                if username == admin@.username {
                    assert(store.admins@[0].username@ == username);
                }
            }
            assert(store@ =~= expected);
        }
        store
    }

    /// The identity under `username`, if there is one.
    pub fn lookup(&self, username: &str) -> (admin: Option<Admin>)
        requires
            self.wf(),
        ensures
            admin.deep_view() == identity_of(self@, username@),
    {
        let wanted = String::from_str(username);
        let mut i: usize = 0;
        while i < self.admins.len()
            invariant
                self.wf(),
                i <= self.admins@.len(),
                wanted@ == username@,
                forall|k: int| 0 <= k < i ==> self.admins@[k].username@ != username@,
            decreases self.admins@.len() - i,
        {
            if self.admins[i].username == wanted {
                proof {
                    assert(holds_name(self.admins@, username@));
                    assert(place_of(self.admins@, username@) == i);
                }
                return Some(self.admins[i].clone());
            }
            i = i + 1;
        }
        proof {
            if holds_name(self.admins@, username@) {
                let k = place_of(self.admins@, username@);
                assert(self.admins@[k].username@ == username@);
            }
        }
        None
    }
}

} // verus!
