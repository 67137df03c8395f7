//! Tokens that name a user.

use vstd::prelude::*;

verus! {

/// The secret that tokens are signed with.
pub const TOKEN_SECRET: &'static str = "your_secret_key";

/// The instant at which every token expires, in seconds since the epoch.
pub const TOKEN_EXPIRY: u64 = 10_000_000_000;

/// The token that `jsonwebtoken` makes of the claims `sub` and `exp`, in
/// that order, under its default header and signed with HMAC-SHA256 under
/// `secret`; `None` where it makes none.
pub uninterp spec fn hs256_token(subject: Seq<char>, expiry: u64, secret: Seq<char>) -> Option<
    Seq<char>,
>;

/// Calls `jsonwebtoken::encode` with `Header::default()`, the claims `sub`
/// and `exp` as a JSON object in that order, and
/// `EncodingKey::from_secret` of the secret's bytes. Trusted: the result is
/// the function `hs256_token` of the three arguments, which is to say that
/// the encoding reads nothing but them.
#[verifier::external_body]
fn sign_claims(subject: &str, expiry: u64, secret: &str) -> (token: Option<String>)
    ensures
        match token {
            Some(text) => hs256_token(subject@, expiry, secret@) == Some(text@),
            None => hs256_token(subject@, expiry, secret@) is None,
        },
{
    let mut claims = serde_json::Map::new();
    claims.insert(String::from("sub"), serde_json::Value::from(subject));
    claims.insert(String::from("exp"), serde_json::Value::from(expiry));
    let key = jsonwebtoken::EncodingKey::from_secret(secret.as_bytes());
    match jsonwebtoken::encode(&jsonwebtoken::Header::default(), &claims, &key) {
        Ok(text) => Some(text),
        Err(_) => None,
    }
}

/// A token for the user `user_id`: its subject is the user, it expires at
/// `TOKEN_EXPIRY`, and it is signed with `TOKEN_SECRET`.
pub fn create_token(user_id: &str) -> (token: Option<String>)
    ensures
        match token {
            Some(text) => hs256_token(user_id@, TOKEN_EXPIRY, TOKEN_SECRET@) == Some(text@),
            None => hs256_token(user_id@, TOKEN_EXPIRY, TOKEN_SECRET@) is None,
        },
{
    sign_claims(user_id, TOKEN_EXPIRY, TOKEN_SECRET)
}

} // verus!
