//! Bearer tokens: signed with HMAC-SHA256 under one secret, carrying a
//! subject and an expiry, honored only while the signature verifies and the
//! expiry lies strictly ahead.

use vstd::prelude::*;
use vstd::string::*;
use crate::clock::{shown, Timestamp};
use crate::text::{occurrences, occurs_times};

verus! {

/// How long a token lasts from the moment it is issued: 24 hours.
pub const TOKEN_LIFETIME_SECS: u64 = 86_400;

/// What a token says: who it was issued to and until when it holds.
#[derive(Debug, PartialEq, Eq)]
pub struct Claims {
    pub username: String,
    pub exp: usize,
}

/// What contracts say of a `Claims`.
pub struct ClaimsView {
    pub username: Seq<char>,
    pub exp: usize,
}

impl View for Claims {
    type V = ClaimsView;

    open spec fn view(&self) -> ClaimsView {
        ClaimsView { username: self.username@, exp: self.exp }
    }
}

impl DeepView for Claims {
    type V = ClaimsView;

    open spec fn deep_view(&self) -> ClaimsView {
        self@
    }
}

impl Clone for Claims {
    fn clone(&self) -> (copy: Self)
        ensures
            copy == *self,
    {
        Claims { username: self.username.clone(), exp: self.exp }
    }
}

/// What a successful login is answered with.
#[derive(Debug, PartialEq, Eq)]
pub struct LoginResponse {
    pub token: String,
    pub expires_in: String,
}

/// What contracts say of a `LoginResponse`.
pub struct LoginResponseView {
    pub token: Seq<char>,
    pub expires_in: Seq<char>,
}

impl View for LoginResponse {
    type V = LoginResponseView;

    open spec fn view(&self) -> LoginResponseView {
        LoginResponseView { token: self.token@, expires_in: self.expires_in@ }
    }
}

impl DeepView for LoginResponse {
    type V = LoginResponseView;

    open spec fn deep_view(&self) -> LoginResponseView {
        self@
    }
}

/// The error of the `jsonwebtoken` crate, carried through and never looked
/// into.
#[verifier::external_type_specification]
#[verifier::external_body]
pub struct ExTokenError(jsonwebtoken::errors::Error);

/// The subject and expiry that `jsonwebtoken::decode` reads from `token`
/// under the HMAC key `secret`, with HS256 as the one accepted algorithm and
/// the expiry left unchecked; `None` where it returns an error or the claims
/// lack a text `username` or a whole, non-negative `exp`.
pub uninterp spec fn signed_claims(token: Seq<char>, secret: Seq<char>) -> Option<
    (Seq<char>, u64),
>;

/// The token that `jsonwebtoken::encode` makes of the claims `username` and
/// `exp` under the default header and the HMAC key `secret`, or `None` where
/// it returns an error.
pub uninterp spec fn signed_token(username: Seq<char>, exp: u64, secret: Seq<char>) -> Option<
    Seq<char>,
>;

/// The signature that `jsonwebtoken::crypto::sign` gives `message` with
/// HS256 under the HMAC key `secret`, in the base64 text of a token.
pub uninterp spec fn hs256_signature(message: Seq<char>, secret: Seq<char>) -> Seq<char>;

/// Whether `jsonwebtoken::decode_header` can read the header of `token` and
/// finds HS256 named in it as the algorithm.
pub uninterp spec fn names_hs256(token: Seq<char>) -> bool;

/// The text of a token whose last part is `signature` and whose parts before
/// it, dots included, are `message`.
pub open spec fn signed_text(message: Seq<char>, signature: Seq<char>) -> Seq<char> {
    message + seq!['.'] + signature
}

/// Whether what follows the last dot of `token` is the HS256 signature, under
/// `secret`, of what stands before that dot.
pub open spec fn well_signed(token: Seq<char>, secret: Seq<char>) -> bool {
    forall|message: Seq<char>, signature: Seq<char>|
        #[trigger] signed_text(message, signature) == token && !signature.contains('.')
            ==> signature == hs256_signature(message, secret)
}

/// Calls `jsonwebtoken::encode` with `Header::default()`, the claims
/// `username` and `exp` as a JSON object, and `EncodingKey::from_secret`.
/// The call depends on its arguments alone; the contract gives its result a
/// name and claims no more.
#[verifier::external_body]
fn encode_hs256(username: &str, exp: u64, secret: &str) -> (token: Result<
    String,
    jsonwebtoken::errors::Error,
>)
    ensures
        match token {
            Ok(t) => signed_token(username@, exp, secret@) == Some(t@),
            Err(_) => signed_token(username@, exp, secret@) is None,
        },
{
    let mut claims = serde_json::Map::new();
    claims.insert("username".to_string(), serde_json::Value::from(username));
    claims.insert("exp".to_string(), serde_json::Value::from(exp));
    let key = jsonwebtoken::EncodingKey::from_secret(secret.as_bytes());
    jsonwebtoken::encode(&jsonwebtoken::Header::default(), &claims, &key)
}

/// Calls `jsonwebtoken::decode` with `DecodingKey::from_secret` and
/// `Validation::new(Algorithm::HS256)` whose `validate_exp` is switched off,
/// and takes `username` and `exp` from the claims.
///
/// With the expiry unchecked the call reads no clock and depends on its
/// arguments alone, so its result has a name. One thing more is taken from
/// the crate's source: `decode` splits the token at its last dot and returns
/// an error unless the part after it equals, character by character, what
/// `crypto::sign` gives the part before it.
#[verifier::external_body]
fn decode_hs256(token: &str, secret: &str) -> (claims: Option<(String, u64)>)
    ensures
        claims.deep_view() == signed_claims(token@, secret@),
        claims is Some ==> forall|message: Seq<char>, signature: Seq<char>|
            #[trigger] signed_text(message, signature) == token@ && !signature.contains('.')
                ==> signature == hs256_signature(message, secret@),
{
    let mut checks = jsonwebtoken::Validation::new(jsonwebtoken::Algorithm::HS256);
    checks.validate_exp = false;
    let key = jsonwebtoken::DecodingKey::from_secret(secret.as_bytes());
    let data = jsonwebtoken::decode::<serde_json::Value>(token, &key, &checks).ok()?;
    let username = data.claims.get("username")?.as_str()?.to_string();
    let exp = data.claims.get("exp")?.as_u64()?;
    Some((username, exp))
}

/// Calls `jsonwebtoken::decode_header`, which reads the first part of a
/// token and checks no signature, and tells whether the algorithm that it
/// found is `Algorithm::HS256`; an error counts as another algorithm. The
/// call depends on its argument alone; the contract gives its result a name
/// and claims no more.
#[verifier::external_body]
fn header_names_hs256(token: &str) -> (named: bool)
    ensures
        named == names_hs256(token@),
{
    match jsonwebtoken::decode_header(token) {
        Ok(header) => matches!(header.alg, jsonwebtoken::Algorithm::HS256),
        Err(_) => false,
    }
}

/// The subject and expiry that `token` carries under `secret`: it has three
/// parts, its header names HS256 and no other algorithm, its signature
/// verifies and its claims can be read.
pub open spec fn verified_claims(token: Seq<char>, secret: Seq<char>) -> Option<(Seq<char>, u64)> {
    if occurrences(token, '.') == 2 && names_hs256(token) && well_signed(token, secret) {
        signed_claims(token, secret)
    } else {
        None
    }
}

/// The claims that are honored of what a token was read as, at the time
/// `now`: those whose expiry lies strictly ahead and fits the machine word.
pub open spec fn accepted(decoded: Option<(Seq<char>, u64)>, now: u64) -> Option<ClaimsView> {
    match decoded {
        Some((username, exp)) => if now < exp && exp <= usize::MAX {
            Some(ClaimsView { username, exp: exp as usize })
        } else {
            None
        },
        None => None,
    }
}

/// The claims that `token` is honored for under `secret` at the time `now`,
/// if any: it names HS256, its signature verifies, its claims can be read
/// and its expiry lies strictly ahead.
pub open spec fn honored(token: Seq<char>, secret: Seq<char>, now: u64) -> Option<ClaimsView> {
    accepted(verified_claims(token, secret), now)
}

/// Reads the subject and expiry of `token` under `secret`, whatever the time.
/// A text that is not made of three parts, or whose header names another
/// algorithm than HS256, is not looked at any further.
pub fn read_claims(token: &str, secret: &str) -> (claims: Option<(String, u64)>)
    ensures
        claims.deep_view() == verified_claims(token@, secret@),
{
    if occurs_times(token, '.', 2) && header_names_hs256(token) {
        decode_hs256(token, secret)
    } else {
        None
    }
}

/// Decides on the claims that a token was read as, at the time `now`: they
/// are honored while the expiry lies strictly ahead, and dropped otherwise.
pub fn accept(decoded: Option<(String, u64)>, now: &Timestamp) -> (claims: Option<Claims>)
    ensures
        claims.deep_view() == accepted(decoded.deep_view(), now.secs()),
{
    match decoded {
        Some((username, exp)) => {
            if now.seconds() < exp && exp <= usize::MAX as u64 {
                Some(Claims { username, exp: exp as usize })
            } else {
                None
            }
        },
        None => None,
    }
}

/// Validates `token` under `secret` at the time `now`.
///
/// Every failure (a malformed token, another algorithm, a signature that does
/// not verify, unreadable claims, an expiry that is not ahead) gives the same
/// `None`.
pub fn validate(token: &str, secret: &str, now: &Timestamp) -> (claims: Option<Claims>)
    ensures
        claims.deep_view() == honored(token@, secret@, now.secs()),
        claims matches Some(c) ==> now.secs() < c.exp,
{
    accept(read_claims(token, secret), now)
}

/// The expiry of a token issued at `secs`: 24 hours later, where that
/// still fits the machine word.
pub open spec fn expiry_of(secs: u64) -> Option<u64> {
    if secs + TOKEN_LIFETIME_SECS <= u64::MAX && secs + TOKEN_LIFETIME_SECS <= usize::MAX {
        Some((secs + TOKEN_LIFETIME_SECS) as u64)
    } else {
        None
    }
}

/// The response that carries `signed`, the token made for `subject` and
/// `exp`, where signing gave one and it reads back, under the same secret,
/// as just these claims; `None` otherwise, or where the expiry has no text.
pub open spec fn response_for(
    signed: Option<Seq<char>>,
    subject: Seq<char>,
    exp: u64,
    secret: Seq<char>,
    expiry_text: Option<Seq<char>>,
) -> Option<LoginResponseView> {
    match (signed, expiry_text) {
        (Some(token), Some(expires_in)) => if verified_claims(token, secret) == Some(
            (subject, exp),
        ) {
            Some(LoginResponseView { token, expires_in })
        } else {
            None
        },
        _ => None,
    }
}

/// What issuing a token to `subject` at the instant `secs`, `nanos` gives:
/// the token signed for the expiry 24 hours later, with that expiry as text;
/// `None` where the expiry cannot be held or shown, or no token that reads
/// back could be made.
pub open spec fn issued(subject: Seq<char>, secret: Seq<char>, secs: u64, nanos: u32) -> Option<
    LoginResponseView,
> {
    match expiry_of(secs) {
        Some(exp) => response_for(
            signed_token(subject, exp, secret),
            subject,
            exp,
            secret,
            shown(exp, nanos),
        ),
        None => None,
    }
}

/// Puts the response to a login together from the token that signing gave,
/// if any. A token is handed out only after it has been read back, under the
/// same secret, as the claims it was made for.
pub fn respond(signed: Option<String>, subject: &str, secret: &str, expiry: &Timestamp) -> (response:
    Option<LoginResponse>)
    ensures
        response.deep_view() == response_for(
            signed.deep_view(),
            subject@,
            expiry.secs(),
            secret@,
            Some(expiry.text()),
        ),
{
    match signed {
        Some(token) => match read_claims(token.as_str(), secret) {
            Some((username, exp)) => {
                if username == String::from_str(subject) && exp == expiry.seconds() {
                    Some(LoginResponse { token, expires_in: expiry.to_rfc3339() })
                } else {
                    None
                }
            },
            None => None,
        },
        None => None,
    }
}

/// Issues a token to `subject`, signed under `secret`, that expires 24 hours
/// after `now`.
///
/// A token that is issued is honored, for the subject and with that expiry,
/// at every time before the expiry and at none from the expiry on.
pub fn issue(subject: &str, secret: &str, now: &Timestamp) -> (response: Option<LoginResponse>)
    ensures
        response.deep_view() == issued(subject@, secret@, now.secs(), now.nanos()),
        response matches Some(r) ==> forall|at: u64|
            #[trigger] honored(r.token@, secret@, at) == if at < now.secs() + TOKEN_LIFETIME_SECS {
                Some(
                    ClaimsView {
                        username: subject@,
                        exp: (now.secs() + TOKEN_LIFETIME_SECS) as usize,
                    },
                )
            } else {
                None
            },
{
    let expiry = match now.plus_seconds(TOKEN_LIFETIME_SECS) {
        Some(e) => e,
        None => {
            return None;
        },
    };
    let exp: u64 = expiry.seconds();
    if exp > usize::MAX as u64 {
        return None;
    }
    let signed = match encode_hs256(subject, exp, secret) {
        Ok(token) => Some(token),
        Err(_) => None,
    };
    respond(signed, subject, secret, &expiry)
}

} // verus!
