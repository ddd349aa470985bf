//! The answers that requests get: a record, a list, a token, or the failure
//! that stopped them, each with its status code.

use vstd::prelude::*;
use vstd::string::*;
use crate::token::{Claims, ClaimsView, LoginResponse, LoginResponseView};
use crate::users::{views, User, UserView};

verus! {

/// Why a request was not carried out.
#[derive(Clone, Copy, Debug, PartialEq, Eq, Structural)]
pub enum Failure {
    /// A login with an unknown username or a wrong password.
    InvalidCredentials,
    /// A token check on a request without a token that is honored.
    InvalidToken,
    /// A change to the store by a request without a token that is honored.
    AuthenticationRequired,
    /// No user has the id that the request names.
    UserNotFound,
    /// The token of a successful login could not be made.
    TokenGeneration,
    /// The store has handed out every id that its counter can hold.
    IdsExhausted,
}

/// The status code that goes with `failure`.
pub open spec fn failure_status(failure: Failure) -> u16 {
    match failure {
        Failure::InvalidCredentials => 401,
        Failure::InvalidToken => 401,
        Failure::AuthenticationRequired => 401,
        Failure::UserNotFound => 404,
        Failure::TokenGeneration => 500,
        Failure::IdsExhausted => 500,
    }
}

/// The message that goes with `failure`.
pub open spec fn failure_message(failure: Failure) -> Seq<char> {
    match failure {
        Failure::InvalidCredentials => "Invalid credentials"@,
        Failure::InvalidToken => "Invalid or expired token"@,
        Failure::AuthenticationRequired => "Authentication required for this operation"@,
        Failure::UserNotFound => "User not found"@,
        Failure::TokenGeneration => "Failed to generate token"@,
        Failure::IdsExhausted => "No user id is left"@,
    }
}

impl Failure {
    /// The status code to answer with.
    pub fn status(&self) -> (code: u16)
        ensures
            code == failure_status(*self),
    {
        match self {
            Failure::InvalidCredentials => 401,
            Failure::InvalidToken => 401,
            Failure::AuthenticationRequired => 401,
            Failure::UserNotFound => 404,
            Failure::TokenGeneration => 500,
            Failure::IdsExhausted => 500,
        }
    }

    /// The message to answer with. It names the kind of failure and never
    /// the step that failed.
    pub fn message(&self) -> (text: String)
        ensures
            text@ == failure_message(*self),
    {
        match self {
            Failure::InvalidCredentials => "Invalid credentials".to_owned(),
            Failure::InvalidToken => "Invalid or expired token".to_owned(),
            Failure::AuthenticationRequired => "Authentication required for this operation"
                .to_owned(),
            Failure::UserNotFound => "User not found".to_owned(),
            Failure::TokenGeneration => "Failed to generate token".to_owned(),
            Failure::IdsExhausted => "No user id is left".to_owned(),
        }
    }
}

/// The answer to a request.
#[derive(Debug, PartialEq, Eq)]
pub enum Reply {
    /// A login succeeded.
    Token(LoginResponse),
    /// The token of the request is honored, for these claims.
    Claims(Claims),
    /// The user that was asked for, or the user as updated.
    User(User),
    /// The user that was created.
    Created(User),
    /// Every user.
    Users(Vec<User>),
    /// The user was deleted.
    Deleted,
    /// The request was not carried out.
    Failure(Failure),
}

/// What contracts say of a `Reply`.
pub enum ReplyView {
    Token(LoginResponseView),
    Claims(ClaimsView),
    User(UserView),
    Created(UserView),
    Users(Seq<UserView>),
    Deleted,
    Failure(Failure),
}

impl View for Reply {
    type V = ReplyView;

    open spec fn view(&self) -> ReplyView {
        match self {
            Reply::Token(response) => ReplyView::Token(response@),
            Reply::Claims(claims) => ReplyView::Claims(claims@),
            Reply::User(user) => ReplyView::User(user@),
            Reply::Created(user) => ReplyView::Created(user@),
            Reply::Users(users) => ReplyView::Users(views(users@)),
            Reply::Deleted => ReplyView::Deleted,
            Reply::Failure(failure) => ReplyView::Failure(*failure),
        }
    }
}

/// The status code that goes with `reply`.
pub open spec fn reply_status(reply: ReplyView) -> u16 {
    match reply {
        ReplyView::Created(_) => 201,
        ReplyView::Failure(failure) => failure_status(failure),
        _ => 200,
    }
}

/// The message that goes with `reply`, where it carries no record.
pub open spec fn reply_message(reply: ReplyView) -> Option<Seq<char>> {
    match reply {
        ReplyView::Deleted => Some("User deleted successfully"@),
        ReplyView::Failure(failure) => Some(failure_message(failure)),
        _ => None,
    }
}

/// The JSON object with the one field `field`, whose value is `text`. It is
/// meant for a text that needs no escaping, as all messages here are.
pub open spec fn notice(field: Seq<char>, text: Seq<char>) -> Seq<char> {
    "{\""@ + field + "\": \""@ + text + "\"}"@
}

/// The body that goes with `reply`, where it carries no record: its message
/// as a JSON object, under `message` for a success and `error` for a failure.
pub open spec fn reply_body(reply: ReplyView) -> Option<Seq<char>> {
    match reply {
        ReplyView::Deleted => Some(notice("message"@, "User deleted successfully"@)),
        ReplyView::Failure(failure) => Some(notice("error"@, failure_message(failure))),
        _ => None,
    }
}

/// Writes the JSON object with the one field `field`, whose value is `text`.
fn write_notice(field: &str, text: &str) -> (body: String)
    ensures
        body@ == notice(field@, text@),
{
    String::from_str("{\"").concat(field).concat("\": \"").concat(text).concat("\"}")
}

/// The answer to a login, given what issuing the token came to.
pub open spec fn token_reply(response: Option<LoginResponseView>) -> ReplyView {
    match response {
        Some(r) => ReplyView::Token(r),
        None => ReplyView::Failure(Failure::TokenGeneration),
    }
}

/// The answer to a token check, given what the guard found.
pub open spec fn claims_reply(claims: Option<ClaimsView>) -> ReplyView {
    match claims {
        Some(c) => ReplyView::Claims(c),
        None => ReplyView::Failure(Failure::InvalidToken),
    }
}

/// The answer to a request for one user, given what the store holds.
pub open spec fn user_reply(user: Option<UserView>) -> ReplyView {
    match user {
        Some(u) => ReplyView::User(u),
        None => ReplyView::Failure(Failure::UserNotFound),
    }
}

impl Reply {
    /// The status code to answer with.
    pub fn status(&self) -> (code: u16)
        ensures
            code == reply_status(self@),
    {
        match self {
            Reply::Created(_) => 201,
            Reply::Failure(failure) => failure.status(),
            _ => 200,
        }
    }

    /// The message to answer with, where the reply carries no record.
    pub fn message(&self) -> (text: Option<String>)
        ensures
            text.deep_view() == reply_message(self@),
    {
        match self {
            Reply::Deleted => Some("User deleted successfully".to_owned()),
            Reply::Failure(failure) => Some(failure.message()),
            _ => None,
        }
    }

    /// The body to answer with, where the reply carries no record.
    pub fn body(&self) -> (text: Option<String>)
        ensures
            text.deep_view() == reply_body(self@),
    {
        match self {
            Reply::Deleted => Some(write_notice("message", "User deleted successfully")),
            Reply::Failure(failure) => Some(write_notice("error", failure.message().as_str())),
            _ => None,
        }
    }

    /// The answer to a login, given what issuing the token came to.
    pub fn for_token(response: Option<LoginResponse>) -> (reply: Reply)
        ensures
            reply@ == token_reply(response.deep_view()),
    {
        match response {
            Some(r) => Reply::Token(r),
            None => Reply::Failure(Failure::TokenGeneration),
        }
    }

    /// The answer to a token check, given what the guard found.
    pub fn for_claims(claims: Option<Claims>) -> (reply: Reply)
        ensures
            reply@ == claims_reply(claims.deep_view()),
    {
        match claims {
            Some(c) => Reply::Claims(c),
            None => Reply::Failure(Failure::InvalidToken),
        }
    }

    /// The answer to a request for one user, given what the store holds.
    pub fn for_user(user: Option<User>) -> (reply: Reply)
        ensures
            reply@ == user_reply(user.deep_view()),
    {
        match user {
            Some(u) => Reply::User(u),
            None => Reply::Failure(Failure::UserNotFound),
        }
    }
}

} // verus!
