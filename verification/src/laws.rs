//! What holds of the service as a whole, proved from the definitions of the
//! other modules.

use vstd::prelude::*;
use crate::api::{after_create, after_delete, after_update, login_reply, LoginRequestView};
use crate::credentials::{keyed_by_username, AdminView};
use crate::password::password_matches;
use crate::reply::{reply_status, Failure, ReplyView};
use crate::text::{lemma_occurrences_add, lemma_occurrences_contains, occurrences};
use crate::token::{
    honored, hs256_signature, issued, names_hs256, signed_text, verified_claims, well_signed,
    ClaimsView, TOKEN_LIFETIME_SECS,
};
use crate::users::{
    lemma_user_id_injective, user_id, CreateUserRequestView, Directory, UpdateUserRequestView,
    UserView,
};

verus! {

/// A token that was issued to `subject` at the second `secs` is honored for
/// `subject` at every time before 24 hours have passed, and at no time from
/// then on.
pub proof fn lemma_issued_token_is_honored(
    subject: Seq<char>,
    secret: Seq<char>,
    secs: u64,
    nanos: u32,
    at: u64,
)
    requires
        issued(subject, secret, secs, nanos) is Some,
    ensures
        honored(issued(subject, secret, secs, nanos)->0.token, secret, at) == if at < secs
            + TOKEN_LIFETIME_SECS {
            Some(ClaimsView { username: subject, exp: (secs + TOKEN_LIFETIME_SECS) as usize })
        } else {
            None
        },
{
}

/// A login with the username of an administrator and a password that matches
/// the stored digest is answered with a token or with the failure to make
/// one, never with a refusal; and a token that it is answered with is honored
/// for that username at every time before 24 hours have passed, and at no
/// time from then on.
pub proof fn lemma_login_token_is_honored(
    admins: Map<Seq<char>, AdminView>,
    secret: Seq<char>,
    request: LoginRequestView,
    secs: u64,
    nanos: u32,
    at: u64,
)
    requires
        keyed_by_username(admins),
        admins.contains_key(request.username),
        password_matches(request.password, admins[request.username].password_hash),
    ensures
        match login_reply(admins, secret, request, secs, nanos) {
            ReplyView::Token(response) => honored(response.token, secret, at) == if at < secs
                + TOKEN_LIFETIME_SECS {
                Some(
                    ClaimsView {
                        username: request.username,
                        exp: (secs + TOKEN_LIFETIME_SECS) as usize,
                    },
                )
            } else {
                None
            },
            ReplyView::Failure(failure) => failure == Failure::TokenGeneration,
            _ => false,
        },
{
    if issued(request.username, secret, secs, nanos) is Some {
        lemma_issued_token_is_honored(request.username, secret, secs, nanos, at);
    }
}

/// A login with an unknown username or with a password that does not match
/// is refused, in both cases with the same answer.
pub proof fn lemma_login_refused(
    admins: Map<Seq<char>, AdminView>,
    secret: Seq<char>,
    request: LoginRequestView,
    secs: u64,
    nanos: u32,
)
    requires
        !admins.contains_key(request.username) || !password_matches(
            request.password,
            admins[request.username].password_hash,
        ),
    ensures
        login_reply(admins, secret, request, secs, nanos) == ReplyView::Failure(
            Failure::InvalidCredentials,
        ),
{
}

/// Where a token is honored at some time, the same token with anything else
/// in the place of its signature is honored at no time: a signing input has
/// one signature under a secret.
pub proof fn lemma_forged_signature_is_rejected(
    message: Seq<char>,
    signature: Seq<char>,
    forged: Seq<char>,
    secret: Seq<char>,
    now: u64,
    at: u64,
)
    requires
        !signature.contains('.'),
        forged != signature,
        honored(signed_text(message, signature), secret, now) is Some,
    ensures
        honored(signed_text(message, forged), secret, at) is None,
{
    let token = signed_text(message, signature);
    let other = signed_text(message, forged);
    assert(well_signed(token, secret));
    assert(signature == hs256_signature(message, secret));
    if forged.contains('.') {
        lemma_occurrences_add(message + seq!['.'], signature, '.');
        lemma_occurrences_add(message + seq!['.'], forged, '.');
        lemma_occurrences_contains(signature, '.');
        lemma_occurrences_contains(forged, '.');
        assert(occurrences(other, '.') > 2);
    } else {
        if well_signed(other, secret) {
            assert(forged == hs256_signature(message, secret));
        }
    }
}

/// A token whose header does not name HS256 (one that names no algorithm,
/// or another) is honored at no time, whatever its signature.
pub proof fn lemma_other_algorithm_is_rejected(token: Seq<char>, secret: Seq<char>, now: u64)
    requires
        !names_hs256(token),
    ensures
        honored(token, secret, now) is None,
{
}

/// A text that is not made of three parts is honored at no time.
pub proof fn lemma_malformed_token_is_rejected(token: Seq<char>, secret: Seq<char>, now: u64)
    requires
        occurrences(token, '.') != 2,
    ensures
        honored(token, secret, now) is None,
{
}

/// A token is never honored at or after the expiry that it carries, however
/// good its signature.
pub proof fn lemma_expired_token_is_rejected(token: Seq<char>, secret: Seq<char>, now: u64)
    requires
        verified_claims(token, secret) matches Some(claims) && claims.1 <= now,
    ensures
        honored(token, secret, now) is None,
{
}

/// Claims that are honored expire strictly after the time at which they are.
pub proof fn lemma_honored_not_expired(token: Seq<char>, secret: Seq<char>, now: u64)
    requires
        honored(token, secret, now) is Some,
    ensures
        now < honored(token, secret, now)->0.exp,
{
}

/// A request to change the store that comes without a token that is honored
/// changes nothing, and is answered with the one refusal and the status 401,
/// whatever it asked for and whether or not the user it names exists.
pub proof fn lemma_refused_request_changes_nothing(
    users: Directory,
    id: Seq<char>,
    new_user: CreateUserRequestView,
    patch: UpdateUserRequestView,
    created_at: Seq<char>,
)
    ensures
        after_create(users, None, new_user, created_at) == (
            users,
            ReplyView::Failure(Failure::AuthenticationRequired),
        ),
        after_update(users, None, id, patch) == (
            users,
            ReplyView::Failure(Failure::AuthenticationRequired),
        ),
        after_delete(users, None, id) == (
            users,
            ReplyView::Failure(Failure::AuthenticationRequired),
        ),
        reply_status(ReplyView::Failure(Failure::AuthenticationRequired)) == 401,
{
}

/// A user that was just created is found under its id, as the record that
/// creating returned; the id is one that no record had before, and every
/// other record is as it was.
pub proof fn lemma_get_after_create(
    users: Directory,
    name: Seq<char>,
    email: Seq<char>,
    created_at: Seq<char>,
)
    requires
        users.wf(),
    ensures
        users.create(name, email, created_at).wf(),
        users.create(name, email, created_at).get(users.next_user(name, email, created_at).id)
            == Some(users.next_user(name, email, created_at)),
        users.get(users.next_user(name, email, created_at).id) is None,
        forall|id: Seq<char>|
            id != users.next_user(name, email, created_at).id ==> #[trigger] users.create(
                name,
                email,
                created_at,
            ).get(id) == users.get(id),
{
    let user = users.next_user(name, email, created_at);
    let after = users.create(name, email, created_at);
    if users.users.contains_key(user.id) {
        let n = choose|n: nat| n < users.created && user.id == user_id(n);
        lemma_user_id_injective(n, users.created);
    }
    assert forall|id: Seq<char>| #[trigger] after.users.contains_key(id) implies after.users[id].id
        == id && exists|n: nat| n < after.created && id == #[trigger] user_id(n) by {
        if id == user.id {
            assert(users.created < after.created && id == user_id(users.created));
        } else {
            let n = choose|n: nat| n < users.created && id == user_id(n);
            assert(n < after.created && id == user_id(n));
        }
    }
}

/// A patch that holds a name alone changes the name of the record under
/// `id` and nothing else of it, and no other record; where there is no
/// record under `id`, nothing changes and none is found.
pub proof fn lemma_update_name_only(users: Directory, id: Seq<char>, name: Seq<char>)
    requires
        users.wf(),
    ensures
        ({
            let patch = UpdateUserRequestView { name: Some(name), email: None };
            let after = users.update(id, patch);
            &&& after.wf()
            &&& users.get(id) matches Some(before) ==> after.get(id) == Some(
                UserView {
                    id: before.id,
                    name,
                    email: before.email,
                    created_at: before.created_at,
                },
            )
            &&& users.get(id) is None ==> after == users && after.get(id) is None
            &&& forall|other: Seq<char>| other != id ==> #[trigger] after.get(other) == users.get(other)
        }),
{
    let patch = UpdateUserRequestView { name: Some(name), email: None };
    let after = users.update(id, patch);
    if users.users.contains_key(id) {
        assert(after.users.dom() =~= users.users.dom());
        assert forall|key: Seq<char>| #[trigger] after.users.contains_key(key) implies after.users[key].id
            == key && exists|n: nat| n < after.created && key == #[trigger] user_id(n) by {
            assert(users.users.contains_key(key));
            let n = choose|n: nat| n < users.created && key == user_id(n);
            assert(n < after.created && key == user_id(n));
        }
    }
}

/// After a delete no record is found under `id`, a second delete finds
/// none either and changes nothing, and every other record is as it was.
pub proof fn lemma_delete_then_get(users: Directory, id: Seq<char>)
    requires
        users.wf(),
    ensures
        users.delete(id).wf(),
        users.delete(id).get(id) is None,
        !users.delete(id).users.contains_key(id),
        users.delete(id).delete(id) == users.delete(id),
        forall|other: Seq<char>| other != id ==> #[trigger] users.delete(id).get(other) == users.get(other),
{
    let after = users.delete(id);
    assert(after.users.remove(id) =~= after.users);
    assert forall|key: Seq<char>| #[trigger] after.users.contains_key(key) implies after.users[key].id
        == key && exists|n: nat| n < after.created && key == #[trigger] user_id(n) by {
        assert(users.users.contains_key(key));
        let n = choose|n: nat| n < users.created && key == user_id(n);
        assert(n < after.created && key == user_id(n));
    }
}

/// The store after one creation for each of `requests`, in their order.
pub open spec fn create_each(
    users: Directory,
    requests: Seq<CreateUserRequestView>,
    created_at: Seq<char>,
) -> Directory
    decreases requests.len(),
{
    if requests.len() == 0 {
        users
    } else {
        create_each(users, requests.drop_last(), created_at).create(
            requests.last().name,
            requests.last().email,
            created_at,
        )
    }
}

/// However many users are created one after the other, each gets an id of
/// its own that no earlier record had: the store grows by as many records as
/// there were requests, and what it held before is still there.
pub proof fn lemma_creates_yield_distinct_ids(
    users: Directory,
    requests: Seq<CreateUserRequestView>,
    created_at: Seq<char>,
)
    requires
        users.wf(),
    ensures
        ({
            let after = create_each(users, requests, created_at);
            &&& after.wf()
            &&& after.created == users.created + requests.len()
            &&& after.users.dom().len() == users.users.dom().len() + requests.len()
            &&& forall|k: int|
                0 <= k < requests.len() ==> !users.users.contains_key(
                    #[trigger] user_id((users.created + k) as nat),
                ) && after.get(user_id((users.created + k) as nat)) == Some(
                    UserView {
                        id: user_id((users.created + k) as nat),
                        name: requests[k].name,
                        email: requests[k].email,
                        created_at,
                    },
                )
            &&& forall|j: int, k: int|
                0 <= j < k < requests.len() ==> #[trigger] user_id((users.created + j) as nat)
                    != #[trigger] user_id((users.created + k) as nat)
            &&& forall|id: Seq<char>| #[trigger]
                users.users.contains_key(id) ==> after.get(id) == users.get(id)
        }),
    decreases requests.len(),
{
    let after = create_each(users, requests, created_at);
    if requests.len() > 0 {
        let earlier = requests.drop_last();
        let before = create_each(users, earlier, created_at);
        let last = requests.last();
        lemma_creates_yield_distinct_ids(users, earlier, created_at);
        lemma_get_after_create(before, last.name, last.email, created_at);
        let new_id = user_id(before.created);
        assert(after.users.dom() =~= before.users.dom().insert(new_id));
        assert(!before.users.contains_key(new_id));
        assert forall|k: int| 0 <= k < requests.len() implies !users.users.contains_key(
            #[trigger] user_id((users.created + k) as nat),
        ) && after.get(user_id((users.created + k) as nat)) == Some(
            UserView {
                id: user_id((users.created + k) as nat),
                name: requests[k].name,
                email: requests[k].email,
                created_at,
            },
        ) by {
            let id = user_id((users.created + k) as nat);
            if k < earlier.len() {
                assert(earlier[k] == requests[k]);
                if id == new_id {
                    lemma_user_id_injective((users.created + k) as nat, before.created);
                }
                assert(after.get(id) == before.get(id));
            } else {
                assert(id == new_id);
                if users.users.contains_key(id) {
                    assert(before.get(id) == users.get(id));
                }
            }
        }
        assert forall|j: int, k: int| 0 <= j < k < requests.len() implies #[trigger] user_id(
            (users.created + j) as nat,
        ) != #[trigger] user_id((users.created + k) as nat) by {
            if user_id((users.created + j) as nat) == user_id((users.created + k) as nat) {
                lemma_user_id_injective((users.created + j) as nat, (users.created + k) as nat);
            }
        }
        assert forall|id: Seq<char>| #[trigger] users.users.contains_key(id) implies after.get(id)
            == users.get(id) by {
            assert(before.get(id) == users.get(id));
            assert(id != new_id);
        }
    }
}

/// One request to create a user, as the store meets it: what the guard
/// found for it, what it asks for and the text of the time it came at.
pub struct CreateOrder {
    pub claims: Option<ClaimsView>,
    pub request: CreateUserRequestView,
    pub created_at: Seq<char>,
}

/// The store and the answers after the requests `orders`, taken one after
/// the other in their order, as the one lock around the store takes the
/// requests of callers that come at the same time.
pub open spec fn after_creates(users: Directory, orders: Seq<CreateOrder>) -> (
    Directory,
    Seq<ReplyView>,
)
    decreases orders.len(),
{
    if orders.len() == 0 {
        (users, Seq::empty())
    } else {
        let earlier = after_creates(users, orders.drop_last());
        let last = after_create(
            earlier.0,
            orders.last().claims,
            orders.last().request,
            orders.last().created_at,
        );
        (last.0, earlier.1.push(last.1))
    }
}

/// The record that the `k`-th of `orders` creates in a store that has
/// created `created` users before them.
pub open spec fn record_of(created: nat, orders: Seq<CreateOrder>, k: int) -> UserView {
    UserView {
        id: user_id((created + k) as nat),
        name: orders[k].request.name,
        email: orders[k].request.email,
        created_at: orders[k].created_at,
    }
}

/// However many requests to create a user are let through, and in whatever
/// order they reach the store, each is answered with its own record and the
/// status 201 as long as ids are left: the ids differ from one another and
/// from every id that was there before, each record is found under its id
/// afterwards, the store has grown by as many records as there were
/// requests, and what it held before is still there.
pub proof fn lemma_creates_are_answered_with_distinct_records(
    users: Directory,
    orders: Seq<CreateOrder>,
)
    requires
        users.wf(),
        forall|k: int| 0 <= k < orders.len() ==> (#[trigger] orders[k]).claims is Some,
        users.created + orders.len() <= u64::MAX,
    ensures
        ({
            let (after, replies) = after_creates(users, orders);
            &&& after.wf()
            &&& after.created == users.created + orders.len()
            &&& after.users.dom().len() == users.users.dom().len() + orders.len()
            &&& replies.len() == orders.len()
            &&& forall|k: int|
                0 <= k < orders.len() ==> #[trigger] replies[k] == ReplyView::Created(
                    record_of(users.created, orders, k),
                ) && reply_status(replies[k]) == 201
            &&& forall|k: int|
                0 <= k < orders.len() ==> !users.users.contains_key(
                    #[trigger] record_of(users.created, orders, k).id,
                ) && after.get(record_of(users.created, orders, k).id) == Some(
                    record_of(users.created, orders, k),
                )
            &&& forall|j: int, k: int|
                0 <= j < k < orders.len() ==> #[trigger] record_of(users.created, orders, j).id
                    != #[trigger] record_of(users.created, orders, k).id
            &&& forall|id: Seq<char>| #[trigger]
                users.users.contains_key(id) ==> after.get(id) == users.get(id)
        }),
    decreases orders.len(),
{
    let (after, replies) = after_creates(users, orders);
    if orders.len() > 0 {
        let earlier = orders.drop_last();
        let (before, answered) = after_creates(users, earlier);
        let last = orders.last();
        let n = earlier.len() as int;
        assert forall|k: int| 0 <= k < earlier.len() implies (#[trigger] earlier[k]).claims
            is Some by {
            assert(earlier[k] == orders[k]);
        }
        lemma_creates_are_answered_with_distinct_records(users, earlier);
        assert(last.claims is Some);
        assert(before.created < u64::MAX);
        lemma_get_after_create(before, last.request.name, last.request.email, last.created_at);
        let new_record = before.next_user(last.request.name, last.request.email, last.created_at);
        assert(new_record == record_of(users.created, orders, n));
        assert(after == before.create(last.request.name, last.request.email, last.created_at));
        assert(replies == answered.push(ReplyView::Created(new_record)));
        assert(after.users.dom() =~= before.users.dom().insert(new_record.id));
        assert forall|k: int| 0 <= k < earlier.len() implies record_of(users.created, orders, k)
            == record_of(users.created, earlier, k) by {
            assert(earlier[k] == orders[k]);
        }
        assert forall|k: int| 0 <= k < orders.len() implies !users.users.contains_key(
            #[trigger] record_of(users.created, orders, k).id,
        ) && after.get(record_of(users.created, orders, k).id) == Some(
            record_of(users.created, orders, k),
        ) by {
            let id = record_of(users.created, orders, k).id;
            if k < n {
                assert(record_of(users.created, orders, k) == record_of(users.created, earlier, k));
                if id == new_record.id {
                    lemma_user_id_injective((users.created + k) as nat, before.created);
                }
                assert(after.get(id) == before.get(id));
            } else {
                assert(id == new_record.id);
                if users.users.contains_key(id) {
                    assert(before.get(id) == users.get(id));
                }
            }
        }
        assert forall|j: int, k: int| 0 <= j < k < orders.len() implies #[trigger] record_of(
            users.created,
            orders,
            j,
        ).id != #[trigger] record_of(users.created, orders, k).id by {
            if user_id((users.created + j) as nat) == user_id((users.created + k) as nat) {
                lemma_user_id_injective((users.created + j) as nat, (users.created + k) as nat);
            }
        }
        assert forall|k: int| 0 <= k < orders.len() implies #[trigger] replies[k]
            == ReplyView::Created(record_of(users.created, orders, k)) && reply_status(replies[k])
            == 201 by {
            if k < n {
                assert(replies[k] == answered[k]);
                assert(record_of(users.created, orders, k) == record_of(users.created, earlier, k));
            }
        }
        assert forall|id: Seq<char>| #[trigger] users.users.contains_key(id) implies after.get(id)
            == users.get(id) by {
            assert(before.get(id) == users.get(id));
            assert(id != new_record.id);
        }
    }
}

} // verus!
