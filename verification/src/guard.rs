//! The guard in front of every operation that changes the user store.

use vstd::prelude::*;
use crate::clock::Timestamp;
use crate::text::{strip_prefix, without_prefix};
use crate::token::{honored, validate, Claims, ClaimsView};

verus! {

/// What a bearer credential begins with: the scheme name and one space.
pub open spec fn bearer_prefix() -> Seq<char> {
    seq!['B', 'e', 'a', 'r', 'e', 'r', ' ']
}

/// The claims that a request is let through with, given the value of its
/// `Authorization` header, if it has one: the header names the bearer scheme
/// and the token behind it is honored at the time `now`.
pub open spec fn authorized(header: Option<Seq<char>>, secret: Seq<char>, now: u64) -> Option<
    ClaimsView,
> {
    match header {
        Some(value) => match without_prefix(value, bearer_prefix()) {
            Some(token) => honored(token, secret, now),
            None => None,
        },
        None => None,
    }
}

/// Decides whether a request is authenticated, from the value of its
/// `Authorization` header.
///
/// A missing header, another scheme and a token that is not honored all give
/// the same `None`: the caller cannot tell which step failed.
pub fn extract_token_claims(auth_header: Option<&str>, jwt_secret: &str, now: &Timestamp) -> (claims:
    Option<Claims>)
    ensures
        claims.deep_view() == authorized(auth_header.deep_view(), jwt_secret@, now.secs()),
{
    proof {
        reveal_strlit("Bearer ");
        assert("Bearer "@ =~= bearer_prefix());
    }
    match auth_header {
        Some(value) => match strip_prefix(value, "Bearer ") {
            Some(token) => validate(token, jwt_secret, now),
            None => None,
        },
        None => None,
    }
}

} // verus!
