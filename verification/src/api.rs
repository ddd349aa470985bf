//! What each request is answered with, and what it does to the user store.
//!
//! Reading users is open to everyone. Creating, updating and deleting go
//! through the guard first, and leave the store untouched where it refuses.

use vstd::prelude::*;
use crate::clock::Timestamp;
use crate::credentials::{identity_of, AdminView, CredentialStore};
use crate::guard::{authorized, extract_token_claims};
use crate::password::{password_matches, verify};
use crate::reply::{claims_reply, token_reply, user_reply, Failure, Reply, ReplyView};
use crate::token::{honored, issue, issued, Claims, ClaimsView, TOKEN_LIFETIME_SECS};
use crate::users::{
    CreateUserRequest, CreateUserRequestView, Directory, UpdateUserRequest,
    UpdateUserRequestView, UserStore,
};

verus! {

/// The credentials of a login attempt.
#[derive(Debug, PartialEq, Eq)]
pub struct LoginRequest {
    pub username: String,
    pub password: String,
}

/// What contracts say of a `LoginRequest`.
pub struct LoginRequestView {
    pub username: Seq<char>,
    pub password: Seq<char>,
}

impl View for LoginRequest {
    type V = LoginRequestView;

    open spec fn view(&self) -> LoginRequestView {
        LoginRequestView { username: self.username@, password: self.password@ }
    }
}

/// The answer to a login attempt at the instant `secs`, `nanos`: a token for
/// the administrator of that name whose digest the password matches, and
/// the same refusal for an unknown name and for a wrong password.
pub open spec fn login_reply(
    admins: Map<Seq<char>, AdminView>,
    secret: Seq<char>,
    request: LoginRequestView,
    secs: u64,
    nanos: u32,
) -> ReplyView {
    match identity_of(admins, request.username) {
        Some(admin) => if password_matches(request.password, admin.password_hash) {
            token_reply(issued(admin.username, secret, secs, nanos))
        } else {
            ReplyView::Failure(Failure::InvalidCredentials)
        },
        None => ReplyView::Failure(Failure::InvalidCredentials),
    }
}

/// Answers a login attempt.
///
/// A token that is handed out is honored, for the username of the request,
/// at every time up to 24 hours after `now`, and at none from then on.
pub fn login(
    admins: &CredentialStore,
    jwt_secret: &str,
    request: &LoginRequest,
    now: &Timestamp,
) -> (reply: Reply)
    requires
        admins.wf(),
    ensures
        reply@ == login_reply(admins@, jwt_secret@, request@, now.secs(), now.nanos()),
        reply@ matches ReplyView::Token(response) ==> forall|at: u64|
            #[trigger] honored(response.token, jwt_secret@, at) == if at < now.secs()
                + TOKEN_LIFETIME_SECS {
                Some(
                    ClaimsView {
                        username: request@.username,
                        exp: (now.secs() + TOKEN_LIFETIME_SECS) as usize,
                    },
                )
            } else {
                None
            },
{
    match admins.lookup(request.username.as_str()) {
        Some(admin) => {
            proof {
                admins.lemma_keyed_by_username();
            }
            if verify(request.password.as_str(), admin.password_hash.as_str()) {
                Reply::for_token(issue(admin.username.as_str(), jwt_secret, now))
            } else {
                Reply::Failure(Failure::InvalidCredentials)
            }
        },
        None => Reply::Failure(Failure::InvalidCredentials),
    }
}

/// Answers a token check: the claims of the token behind the
/// `Authorization` header where it is honored, and one refusal otherwise.
pub fn verify_token(auth_header: Option<&str>, jwt_secret: &str, now: &Timestamp) -> (reply: Reply)
    ensures
        reply@ == claims_reply(authorized(auth_header.deep_view(), jwt_secret@, now.secs())),
{
    Reply::for_claims(extract_token_claims(auth_header, jwt_secret, now))
}

/// The refusal that a change to the store is answered with where the guard
/// found no claims; `None` where the request may go on.
pub open spec fn refusal(claims: Option<ClaimsView>) -> Option<ReplyView> {
    match claims {
        Some(_) => None,
        None => Some(ReplyView::Failure(Failure::AuthenticationRequired)),
    }
}

/// The state and the answer after a request to create a user.
pub open spec fn after_create(
    users: Directory,
    claims: Option<ClaimsView>,
    request: CreateUserRequestView,
    created_at: Seq<char>,
) -> (Directory, ReplyView) {
    match refusal(claims) {
        Some(reply) => (users, reply),
        None => if users.created < u64::MAX {
            (
                users.create(request.name, request.email, created_at),
                ReplyView::Created(users.next_user(request.name, request.email, created_at)),
            )
        } else {
            (users, ReplyView::Failure(Failure::IdsExhausted))
        },
    }
}

/// The state and the answer after a request to update the user under `id`.
pub open spec fn after_update(
    users: Directory,
    claims: Option<ClaimsView>,
    id: Seq<char>,
    request: UpdateUserRequestView,
) -> (Directory, ReplyView) {
    match refusal(claims) {
        Some(reply) => (users, reply),
        None => (users.update(id, request), user_reply(users.update(id, request).get(id))),
    }
}

/// The state and the answer after a request to delete the user under `id`.
pub open spec fn after_delete(users: Directory, claims: Option<ClaimsView>, id: Seq<char>) -> (
    Directory,
    ReplyView,
) {
    match refusal(claims) {
        Some(reply) => (users, reply),
        None => (
            users.delete(id),
            if users.users.contains_key(id) {
                ReplyView::Deleted
            } else {
                ReplyView::Failure(Failure::UserNotFound)
            },
        ),
    }
}

/// The refusal for a request that the guard did not let through, or `None`
/// where it did. A handler asks this before it reads anything else of the
/// request.
pub fn refuse(claims: &Option<Claims>) -> (reply: Option<Reply>)
    ensures
        match reply {
            Some(r) => refusal(claims.deep_view()) == Some(r@),
            None => refusal(claims.deep_view()) is None,
        },
{
    match claims {
        Some(_) => None,
        None => Some(Reply::Failure(Failure::AuthenticationRequired)),
    }
}

/// Creates a user for a request that the guard let through with `claims`, and
/// refuses, with the store untouched, where it found none.
pub fn create_user_as(
    users: &mut UserStore,
    claims: &Option<Claims>,
    request: CreateUserRequest,
    now: &Timestamp,
) -> (reply: Reply)
    requires
        old(users).wf(),
    ensures
        final(users).wf(),
        (final(users)@, reply@) == after_create(
            old(users)@,
            claims.deep_view(),
            request@,
            now.text(),
        ),
{
    match refuse(claims) {
        Some(reply) => reply,
        None => match users.create(request.name, request.email, now.to_rfc3339()) {
            Some(user) => Reply::Created(user),
            None => Reply::Failure(Failure::IdsExhausted),
        },
    }
}

/// Updates a user for a request that the guard let through with `claims`, and
/// refuses, with the store untouched, where it found none.
pub fn update_user_as(
    users: &mut UserStore,
    claims: &Option<Claims>,
    id: &str,
    request: UpdateUserRequest,
) -> (reply: Reply)
    requires
        old(users).wf(),
    ensures
        final(users).wf(),
        (final(users)@, reply@) == after_update(old(users)@, claims.deep_view(), id@, request@),
{
    match refuse(claims) {
        Some(reply) => reply,
        None => Reply::for_user(users.update(id, request)),
    }
}

/// Deletes a user for a request that the guard let through with `claims`, and
/// refuses, with the store untouched, where it found none.
pub fn delete_user_as(users: &mut UserStore, claims: &Option<Claims>, id: &str) -> (reply: Reply)
    requires
        old(users).wf(),
    ensures
        final(users).wf(),
        (final(users)@, reply@) == after_delete(old(users)@, claims.deep_view(), id@),
{
    match refuse(claims) {
        Some(reply) => reply,
        None => if users.delete(id) {
            Reply::Deleted
        } else {
            Reply::Failure(Failure::UserNotFound)
        },
    }
}

/// Answers a request to create a user: with the new record, whose id the
/// store chose, where the token behind `auth_header` is honored.
pub fn create_user(
    users: &mut UserStore,
    jwt_secret: &str,
    auth_header: Option<&str>,
    request: CreateUserRequest,
    now: &Timestamp,
) -> (reply: Reply)
    requires
        old(users).wf(),
    ensures
        final(users).wf(),
        (final(users)@, reply@) == after_create(
            old(users)@,
            authorized(auth_header.deep_view(), jwt_secret@, now.secs()),
            request@,
            now.text(),
        ),
{
    let claims = extract_token_claims(auth_header, jwt_secret, now);
    create_user_as(users, &claims, request, now)
}

/// Answers a request to update the user under `id`: with the record as it
/// stands after the patch, where the token behind `auth_header` is honored.
pub fn update_user(
    users: &mut UserStore,
    jwt_secret: &str,
    auth_header: Option<&str>,
    id: &str,
    request: UpdateUserRequest,
    now: &Timestamp,
) -> (reply: Reply)
    requires
        old(users).wf(),
    ensures
        final(users).wf(),
        (final(users)@, reply@) == after_update(
            old(users)@,
            authorized(auth_header.deep_view(), jwt_secret@, now.secs()),
            id@,
            request@,
        ),
{
    let claims = extract_token_claims(auth_header, jwt_secret, now);
    update_user_as(users, &claims, id, request)
}

/// Answers a request to delete the user under `id`, where the token behind
/// `auth_header` is honored.
pub fn delete_user(
    users: &mut UserStore,
    jwt_secret: &str,
    auth_header: Option<&str>,
    id: &str,
    now: &Timestamp,
) -> (reply: Reply)
    requires
        old(users).wf(),
    ensures
        final(users).wf(),
        (final(users)@, reply@) == after_delete(
            old(users)@,
            authorized(auth_header.deep_view(), jwt_secret@, now.secs()),
            id@,
        ),
{
    let claims = extract_token_claims(auth_header, jwt_secret, now);
    delete_user_as(users, &claims, id)
}

/// Answers a request for every user. No token is asked for.
pub fn get_all_users(users: &UserStore) -> (reply: Reply)
    requires
        users.wf(),
    ensures
        reply@ matches ReplyView::Users(listing) && users@.listed_by(listing),
{
    Reply::Users(users.list())
}

/// Answers a request for the user under `id`. No token is asked for.
pub fn get_user_by_id(users: &UserStore, id: &str) -> (reply: Reply)
    requires
        users.wf(),
    ensures
        reply@ == user_reply(users@.get(id@)),
{
    Reply::for_user(users.get(id))
}

} // verus!
