//! The user store: records by id, with ids that the store alone hands out.

use vstd::prelude::*;
use vstd::string::*;
use crate::text::{decimal, decimal_string, lemma_decimal_injective};

verus! {

/// A user record.
#[derive(Debug, PartialEq, Eq)]
pub struct User {
    pub id: String,
    pub name: String,
    pub email: String,
    pub created_at: String,
}

/// What contracts say of a `User`.
pub struct UserView {
    pub id: Seq<char>,
    pub name: Seq<char>,
    pub email: Seq<char>,
    pub created_at: Seq<char>,
}

impl View for User {
    type V = UserView;

    open spec fn view(&self) -> UserView {
        UserView {
            id: self.id@,
            name: self.name@,
            email: self.email@,
            created_at: self.created_at@,
        }
    }
}

impl DeepView for User {
    type V = UserView;

    open spec fn deep_view(&self) -> UserView {
        self@
    }
}

impl Clone for User {
    fn clone(&self) -> (copy: Self)
        ensures
            copy == *self,
    {
        User {
            id: self.id.clone(),
            name: self.name.clone(),
            email: self.email.clone(),
            created_at: self.created_at.clone(),
        }
    }
}

/// What a caller supplies to have a user created. The id is not among it.
#[derive(Debug, PartialEq, Eq)]
pub struct CreateUserRequest {
    pub name: String,
    pub email: String,
}

/// What contracts say of a `CreateUserRequest`.
pub struct CreateUserRequestView {
    pub name: Seq<char>,
    pub email: Seq<char>,
}

impl View for CreateUserRequest {
    type V = CreateUserRequestView;

    open spec fn view(&self) -> CreateUserRequestView {
        CreateUserRequestView { name: self.name@, email: self.email@ }
    }
}

/// A patch to a user record: only the fields that are present are changed.
#[derive(Debug, PartialEq, Eq)]
pub struct UpdateUserRequest {
    pub name: Option<String>,
    pub email: Option<String>,
}

/// What contracts say of an `UpdateUserRequest`.
pub struct UpdateUserRequestView {
    pub name: Option<Seq<char>>,
    pub email: Option<Seq<char>>,
}

impl View for UpdateUserRequest {
    type V = UpdateUserRequestView;

    open spec fn view(&self) -> UpdateUserRequestView {
        UpdateUserRequestView { name: self.name.deep_view(), email: self.email.deep_view() }
    }
}

/// The id of the `n`-th user that a store creates, counted from 0: `user_`
/// and the decimal numeral of `n`.
pub open spec fn user_id(n: nat) -> Seq<char> {
    seq!['u', 's', 'e', 'r', '_'] + decimal(n)
}

/// Different counts give different ids.
pub proof fn lemma_user_id_injective(a: nat, b: nat)
    requires
        user_id(a) == user_id(b),
    ensures
        a == b,
{
    assert(user_id(a).subrange(5, user_id(a).len() as int) =~= decimal(a));
    assert(user_id(b).subrange(5, user_id(b).len() as int) =~= decimal(b));
    lemma_decimal_injective(a, b);
}

/// `user` with the fields that `patch` holds put in place of its own.
pub open spec fn patched(user: UserView, patch: UpdateUserRequestView) -> UserView {
    UserView {
        id: user.id,
        name: match patch.name {
            Some(name) => name,
            None => user.name,
        },
        email: match patch.email {
            Some(email) => email,
            None => user.email,
        },
        created_at: user.created_at,
    }
}

/// The state of a user store: its records by id, and how many users it has
/// created so far.
pub struct Directory {
    pub users: Map<Seq<char>, UserView>,
    pub created: nat,
}

impl Directory {
    /// Every record stands under its own id, and every id is one that the
    /// store has handed out.
    pub open spec fn wf(self) -> bool {
        &&& self.users.dom().finite()
        &&& forall|id: Seq<char>| #[trigger]
            self.users.contains_key(id) ==> self.users[id].id == id && exists|n: nat|
                n < self.created && id == #[trigger] user_id(n)
    }

    /// The store that has created nothing yet.
    pub open spec fn empty() -> Directory {
        Directory { users: Map::empty(), created: 0 }
    }

    /// The record that the next creation makes.
    pub open spec fn next_user(
        self,
        name: Seq<char>,
        email: Seq<char>,
        created_at: Seq<char>,
    ) -> UserView {
        UserView { id: user_id(self.created), name, email, created_at }
    }

    /// The store after the next creation.
    pub open spec fn create(
        self,
        name: Seq<char>,
        email: Seq<char>,
        created_at: Seq<char>,
    ) -> Directory {
        let user = self.next_user(name, email, created_at);
        Directory { users: self.users.insert(user.id, user), created: self.created + 1 }
    }

    /// The record under `id`, if there is one.
    pub open spec fn get(self, id: Seq<char>) -> Option<UserView> {
        if self.users.contains_key(id) {
            Some(self.users[id])
        } else {
            None
        }
    }

    /// The store after `patch` is applied to the record under `id`; unchanged
    /// where there is none.
    pub open spec fn update(self, id: Seq<char>, patch: UpdateUserRequestView) -> Directory {
        if self.users.contains_key(id) {
            Directory { users: self.users.insert(id, patched(self.users[id], patch)), ..self }
        } else {
            self
        }
    }

    /// The store without the record under `id`.
    pub open spec fn delete(self, id: Seq<char>) -> Directory {
        Directory { users: self.users.remove(id), ..self }
    }

    /// Whether `listing` holds each record of the store exactly once.
    pub open spec fn listed_by(self, listing: Seq<UserView>) -> bool {
        &&& forall|i: int|
            0 <= i < listing.len() ==> self.get(#[trigger] listing[i].id) == Some(listing[i])
        &&& forall|i: int, j: int|
            0 <= i < j < listing.len() ==> #[trigger] listing[i].id != #[trigger] listing[j].id
        &&& forall|id: Seq<char>| #[trigger]
            self.users.contains_key(id) ==> exists|i: int|
                0 <= i < listing.len() && #[trigger] listing[i].id == id
    }
}

/// The views of `records`, in their order.
pub open spec fn views(records: Seq<User>) -> Seq<UserView> {
    records.map_values(|user: User| user@)
}

/// Whether no two of `records` share an id.
spec fn distinct_ids(records: Seq<UserView>) -> bool {
    forall|i: int, j: int|
        0 <= i < records.len() && 0 <= j < records.len() && i != j ==> #[trigger] records[i].id
            != #[trigger] records[j].id
}

/// Whether `records` holds a record under `id`.
spec fn holds_id(records: Seq<UserView>, id: Seq<char>) -> bool {
    exists|i: int| 0 <= i < records.len() && #[trigger] records[i].id == id
}

/// The place of the record under `id` in `records`, where there is one.
spec fn place_of(records: Seq<UserView>, id: Seq<char>) -> int {
    choose|i: int| 0 <= i < records.len() && #[trigger] records[i].id == id
}

/// The records as a map from their ids.
spec fn by_id(records: Seq<UserView>) -> Map<Seq<char>, UserView> {
    Map::new(|id: Seq<char>| holds_id(records, id), |id: Seq<char>| records[place_of(records, id)])
}

proof fn lemma_by_id_at(records: Seq<UserView>, i: int)
    requires
        distinct_ids(records),
        0 <= i < records.len(),
    ensures
        by_id(records).contains_key(records[i].id),
        by_id(records)[records[i].id] == records[i],
{
    let id = records[i].id;
    assert(holds_id(records, id));
    let p = place_of(records, id);
    assert(p == i);
}

proof fn lemma_by_id_empty()
    ensures
        by_id(Seq::<UserView>::empty()) == Map::<Seq<char>, UserView>::empty(),
{
    assert(by_id(Seq::<UserView>::empty()) =~= Map::<Seq<char>, UserView>::empty());
}

proof fn lemma_by_id_push(records: Seq<UserView>, user: UserView)
    requires
        distinct_ids(records),
        !holds_id(records, user.id),
    ensures
        distinct_ids(records.push(user)),
        by_id(records.push(user)) == by_id(records).insert(user.id, user),
{
    let longer = records.push(user);
    assert(distinct_ids(longer)) by {
        assert forall|i: int, j: int|
            0 <= i < longer.len() && 0 <= j < longer.len() && i != j implies #[trigger] longer[i].id
            != #[trigger] longer[j].id by {
            if i < records.len() && j < records.len() {
                assert(records[i].id != records[j].id);
            } else if i < records.len() {
                assert(records[i].id != user.id);
            } else {
                assert(records[j].id != user.id);
            }
        }
    }
    assert forall|id: Seq<char>| holds_id(longer, id) <==> (id == user.id || holds_id(
        records,
        id,
    )) by {
        if holds_id(longer, id) {
            let i = place_of(longer, id);
            if i < records.len() {
                assert(records[i].id == id);
            }
        }
        if id == user.id {
            assert(longer[records.len() as int].id == id);
        }
        if holds_id(records, id) {
            let i = place_of(records, id);
            assert(longer[i].id == id);
        }
    }
    assert forall|id: Seq<char>| holds_id(longer, id) implies by_id(longer)[id] == by_id(
        records,
    ).insert(user.id, user)[id] by {
        let i = place_of(longer, id);
        lemma_by_id_at(longer, i);
        if i < records.len() {
            lemma_by_id_at(records, i);
        }
    }
    assert(by_id(longer) =~= by_id(records).insert(user.id, user));
}

proof fn lemma_by_id_update(records: Seq<UserView>, i: int, user: UserView)
    requires
        distinct_ids(records),
        0 <= i < records.len(),
        user.id == records[i].id,
    ensures
        distinct_ids(records.update(i, user)),
        by_id(records.update(i, user)) == by_id(records).insert(user.id, user),
{
    let changed = records.update(i, user);
    assert(distinct_ids(changed)) by {
        assert forall|a: int, b: int|
            0 <= a < changed.len() && 0 <= b < changed.len() && a != b implies #[trigger] changed[a].id
            != #[trigger] changed[b].id by {
            assert(changed[a].id == records[a].id);
            assert(changed[b].id == records[b].id);
        }
    }
    assert forall|id: Seq<char>| holds_id(changed, id) <==> holds_id(records, id) by {
        if holds_id(changed, id) {
            let a = place_of(changed, id);
            assert(records[a].id == id);
        }
        if holds_id(records, id) {
            let a = place_of(records, id);
            assert(changed[a].id == id);
        }
    }
    assert(holds_id(records, user.id));
    assert forall|id: Seq<char>| holds_id(changed, id) implies by_id(changed)[id] == by_id(
        records,
    ).insert(user.id, user)[id] by {
        let a = place_of(changed, id);
        lemma_by_id_at(changed, a);
        lemma_by_id_at(records, a);
    }
    assert(by_id(changed) =~= by_id(records).insert(user.id, user));
}

proof fn lemma_by_id_remove(records: Seq<UserView>, i: int)
    requires
        distinct_ids(records),
        0 <= i < records.len(),
    ensures
        distinct_ids(records.remove(i)),
        by_id(records.remove(i)) == by_id(records).remove(records[i].id),
{
    let fewer = records.remove(i);
    let gone = records[i].id;
    assert forall|a: int| 0 <= a < fewer.len() implies #[trigger] fewer[a] == records[if a < i {
        a
    } else {
        a + 1
    }] by {}
    assert(distinct_ids(fewer)) by {
        assert forall|a: int, b: int|
            0 <= a < fewer.len() && 0 <= b < fewer.len() && a != b implies #[trigger] fewer[a].id
            != #[trigger] fewer[b].id by {
            let a0 = if a < i {
                a
            } else {
                a + 1
            };
            let b0 = if b < i {
                b
            } else {
                b + 1
            };
            assert(fewer[a] == records[a0]);
            assert(fewer[b] == records[b0]);
            assert(records[a0].id != records[b0].id);
        }
    }
    assert forall|id: Seq<char>| holds_id(fewer, id) <==> (id != gone && holds_id(
        records,
        id,
    )) by {
        if holds_id(fewer, id) {
            let a = place_of(fewer, id);
            let a0 = if a < i {
                a
            } else {
                a + 1
            };
            assert(fewer[a] == records[a0]);
            assert(records[a0].id == id);
            assert(records[a0].id != records[i].id);
        }
        if id != gone && holds_id(records, id) {
            let a0 = place_of(records, id);
            let a = if a0 < i {
                a0
            } else {
                a0 - 1
            };
            assert(fewer[a] == records[a0]);
            assert(fewer[a].id == id);
        }
    }
    assert forall|id: Seq<char>| holds_id(fewer, id) implies by_id(fewer)[id] == by_id(
        records,
    ).remove(gone)[id] by {
        let a = place_of(fewer, id);
        let a0 = if a < i {
            a
        } else {
            a + 1
        };
        assert(fewer[a] == records[a0]);
        lemma_by_id_at(fewer, a);
        lemma_by_id_at(records, a0);
    }
    assert(by_id(fewer) =~= by_id(records).remove(gone));
}

/// Writes the id of the `n`-th user.
pub fn user_id_string(n: u64) -> (id: String)
    ensures
        id@ == user_id(n as nat),
{
    proof {
        reveal_strlit("user_");
    }
    let digits = decimal_string(n);
    let id = String::from_str("user_").concat(digits.as_str());
    assert(id@ =~= user_id(n as nat));
    id
}

/// The store of user records.
///
/// It takes `&mut self` for every change, so whoever shares it among
/// request handlers wraps it in one lock; the operations then happen one
/// after the other.
#[derive(Debug)]
pub struct UserStore {
    records: Vec<User>,
    created: u64,
}

impl View for UserStore {
    type V = Directory;

    closed spec fn view(&self) -> Directory {
        Directory { users: by_id(views(self.records@)), created: self.created as nat }
    }
}

impl UserStore {
    /// Whether the store is in order: no two records share an id, and its
    /// state is a valid one.
    pub closed spec fn wf(&self) -> bool {
        &&& distinct_ids(views(self.records@))
        &&& self@.wf()
    }

    /// A store that is in order has a valid state.
    pub proof fn lemma_state_wf(&self)
        requires
            self.wf(),
        ensures
            self@.wf(),
    {
    }

    /// A store without records that has created nothing yet.
    pub fn new() -> (store: UserStore)
        ensures
            store.wf(),
            store@ == Directory::empty(),
    {
        UserStore::starting_at(0)
    }

    /// A store without records that counts on from `created` earlier
    /// creations, so that none of their ids is handed out again.
    pub fn starting_at(created: u64) -> (store: UserStore)
        ensures
            store.wf(),
            store@ == (Directory { users: Map::empty(), created: created as nat }),
    {
        let records: Vec<User> = Vec::new();
        proof {
            assert(views(records@) =~= Seq::<UserView>::empty());
            lemma_by_id_empty();
        }
        UserStore { records, created }
    }

    /// Whether another user can still be created: the count of creations
    /// has not reached the end of its word.
    pub fn has_room(&self) -> (room: bool)
        ensures
            room == (self@.created < u64::MAX),
    {
        self.created < u64::MAX
    }

    /// The place of the record under `id`, if there is one.
    fn position(&self, id: &str) -> (place: Option<usize>)
        ensures
            match place {
                Some(i) => i < self.records@.len() && self.records@[i as int].id@ == id@,
                None => !holds_id(views(self.records@), id@),
            },
    {
        let wanted = String::from_str(id);
        let mut i: usize = 0;
        while i < self.records.len()
            invariant
                i <= self.records@.len(),
                wanted@ == id@,
                forall|k: int| 0 <= k < i ==> self.records@[k].id@ != id@,
            decreases self.records@.len() - i,
        {
            if self.records[i].id == wanted {
                return Some(i);
            }
            i = i + 1;
        }
        proof {
            if holds_id(views(self.records@), id@) {
                let k = place_of(views(self.records@), id@);
                assert(self.records@[k].id@ == id@);
            }
        }
        None
    }

    /// The record under `id`, if there is one.
    pub fn get(&self, id: &str) -> (user: Option<User>)
        requires
            self.wf(),
        ensures
            user.deep_view() == self@.get(id@),
    {
        match self.position(id) {
            Some(i) => {
                proof {
                    lemma_by_id_at(views(self.records@), i as int);
                }
                Some(self.records[i].clone())
            },
            None => None,
        }
    }

    /// Every record, each once. The order is that of creation, which callers
    /// are not to rely on.
    pub fn list(&self) -> (users: Vec<User>)
        requires
            self.wf(),
        ensures
            self@.listed_by(views(users@)),
    {
        let mut users: Vec<User> = Vec::new();
        let mut i: usize = 0;
        while i < self.records.len()
            invariant
                i <= self.records@.len(),
                users@.len() == i,
                forall|k: int| 0 <= k < i ==> users@[k] == self.records@[k],
            decreases self.records@.len() - i,
        {
            users.push(self.records[i].clone());
            i = i + 1;
        }
        proof {
            let all = views(self.records@);
            assert(views(users@) =~= all);
            assert forall|k: int| 0 <= k < all.len() implies self@.get(#[trigger] all[k].id)
                == Some(all[k]) by {
                lemma_by_id_at(all, k);
            }
            assert forall|id: Seq<char>| #[trigger] self@.users.contains_key(id) implies exists|
                k: int,
            |
                0 <= k < all.len() && #[trigger] all[k].id == id by {
                assert(holds_id(all, id));
            }
        }
        users
    }

    /// Creates a user with a fresh id and stores it. Returns the record, or
    /// `None`, with nothing changed, where the store has handed out every id
    /// that its counter can hold.
    pub fn create(&mut self, name: String, email: String, created_at: String) -> (user: Option<
        User,
    >)
        requires
            old(self).wf(),
        ensures
            final(self).wf(),
            match user {
                Some(u) => {
                    &&& old(self)@.created < u64::MAX
                    &&& u@ == old(self)@.next_user(name@, email@, created_at@)
                    &&& final(self)@ == old(self)@.create(name@, email@, created_at@)
                },
                None => old(self)@.created == u64::MAX && final(self)@ == old(self)@,
            },
    {
        if self.created == u64::MAX {
            return None;
        }
        let id = user_id_string(self.created);
        let user = User { id, name, email, created_at };
        let copy = user.clone();
        proof {
            let before = views(self.records@);
            if holds_id(before, user@.id) {
                let i = place_of(before, user@.id);
                lemma_by_id_at(before, i);
                let n = choose|n: nat| n < self.created && user@.id == user_id(n);
                lemma_user_id_injective(n, self.created as nat);
            }
            lemma_by_id_push(before, user@);
            assert(views(self.records@.push(user)) =~= before.push(user@));
        }
        self.created = self.created + 1;
        self.records.push(user);
        Some(copy)
    }

    /// Applies `patch` to the record under `id` and returns the record as it
    /// then stands, or `None`, with nothing changed, where there is none.
    pub fn update(&mut self, id: &str, patch: UpdateUserRequest) -> (user: Option<User>)
        requires
            old(self).wf(),
        ensures
            final(self).wf(),
            final(self)@ == old(self)@.update(id@, patch@),
            user.deep_view() == final(self)@.get(id@),
            user is Some <==> old(self)@.users.contains_key(id@),
    {
        match self.position(id) {
            Some(i) => {
                let current = &self.records[i];
                let name = match patch.name {
                    Some(name) => name,
                    None => current.name.clone(),
                };
                let email = match patch.email {
                    Some(email) => email,
                    None => current.email.clone(),
                };
                let user = User {
                    id: current.id.clone(),
                    name,
                    email,
                    created_at: current.created_at.clone(),
                };
                let copy = user.clone();
                proof {
                    let before = views(self.records@);
                    lemma_by_id_at(before, i as int);
                    assert(user@ == patched(before[i as int], patch@));
                    lemma_by_id_update(before, i as int, user@);
                    assert(views(self.records@.update(i as int, user)) =~= before.update(
                        i as int,
                        user@,
                    ));
                }
                self.records.set(i, user);
                Some(copy)
            },
            None => None,
        }
    }

    /// Removes the record under `id`. Returns whether there was one.
    pub fn delete(&mut self, id: &str) -> (found: bool)
        requires
            old(self).wf(),
        ensures
            final(self).wf(),
            final(self)@ == old(self)@.delete(id@),
            found == old(self)@.users.contains_key(id@),
    {
        match self.position(id) {
            Some(i) => {
                proof {
                    let before = views(self.records@);
                    lemma_by_id_at(before, i as int);
                    lemma_by_id_remove(before, i as int);
                    assert(views(self.records@.remove(i as int)) =~= before.remove(i as int));
                }
                self.records.remove(i);
                true
            },
            None => {
                proof {
                    assert(self@.users.remove(id@) =~= self@.users);
                }
                false
            },
        }
    }
}

} // verus!
