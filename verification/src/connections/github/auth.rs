//! The signed `state` that carries a user through the App installation on
//! GitHub and back: who started it and where to return, valid for fifteen
//! minutes.
use jsonwebtoken::{decode, encode, DecodingKey, EncodingKey, Header, Validation};
use vstd::prelude::*;

verus! {

/// How long a state token stays valid, in seconds.
pub const SETUP_TTL_SECONDS: i64 = 900;

/// The HS256 JSON Web Token whose claims are `user_id`, `redirect_to` and
/// the expiry `exp`, in that order, signed with `secret`.
pub uninterp spec fn state_token(user_id: Seq<char>, redirect_to: Seq<char>, exp: u64, secret: Seq<char>) -> Seq<char>;

/// The `user_id` and `redirect_to` claims of a JSON Web Token: the two
/// string values under those keys in its base64url-decoded JSON payload,
/// when both are there as strings.
pub uninterp spec fn token_claims(token: Seq<char>) -> Option<(Seq<char>, Seq<char>)>;

/// Whether a JSON Web Token is signed with `secret`: its header names HS256
/// and its signature is the HMAC-SHA256, under the secret's bytes, of its
/// header and payload parts.
pub uninterp spec fn hs256_signed(token: Seq<char>, secret: Seq<char>) -> bool;

/// `jsonwebtoken::encode` with the default (HS256) header over the claims
/// `user_id`, `redirect_to` and `exp`, keyed by the secret's bytes. What it
/// returns is named by `state_token`. Per the crate's source it succeeds
/// here: the key made by `EncodingKey::from_secret` is of the HMAC family
/// that HS256 asks for, serializing the header and a JSON object with
/// string keys cannot fail, and HMAC signing returns `Ok`. The token carries
/// the two claims as strings and is signed with the secret. The claims go
/// into the map in the order `user_id`, `redirect_to`, `exp`, and with
/// serde_json's `preserve_order` feature a map keeps that order, so the
/// payload's JSON object lists them in it.
#[verifier::external_body]
fn encode_state_token(user_id: &str, redirect_to: &str, exp: u64, secret: &str) -> (r: Result<String, String>)
    ensures
        r is Ok,
        r.unwrap()@ == state_token(user_id@, redirect_to@, exp, secret@),
        token_claims(r.unwrap()@) == Some((user_id@, redirect_to@)),
        hs256_signed(r.unwrap()@, secret@),
{
    let mut claims = serde_json::Map::new();
    claims.insert("user_id".to_string(), serde_json::Value::from(user_id));
    claims.insert("redirect_to".to_string(), serde_json::Value::from(redirect_to));
    claims.insert("exp".to_string(), serde_json::Value::from(exp));
    encode(&Header::default(), &claims, &EncodingKey::from_secret(secret.as_bytes())).map_err(|e| e.to_string())
}

/// `chrono::Utc::now().timestamp()`: the current Unix time in seconds. Time
/// moves, so only the range holds of every value: chrono's dates lie
/// within the years -262143 to 262142, whose seconds are less than 10^13
/// from the epoch.
#[verifier::external_body]
fn unix_now() -> (t: i64)
    ensures
        -10_000_000_000_000 <= t <= 10_000_000_000_000,
{
    chrono::Utc::now().timestamp()
}

/// The expiry of a state token issued at `now`, as the claim holds it
/// (the sum taken as an unsigned machine word).
pub open spec fn expiry_at(now: i64) -> u64 {
    (now + SETUP_TTL_SECONDS) as u64
}

/// The state token for `user_id` and `redirect_to`, issued at `now`: it
/// always succeeds, and the token carries the two claims and is signed with
/// the secret.
pub fn create_state_at(user_id: &str, redirect_to: &str, secret: &str, now: i64) -> (r: Result<String, String>)
    requires
        now <= i64::MAX - SETUP_TTL_SECONDS,
    ensures
        r matches Ok(t) && t@ == state_token(user_id@, redirect_to@, expiry_at(now), secret@),
        r matches Ok(t) ==> token_claims(t@) == Some((user_id@, redirect_to@)) && hs256_signed(t@, secret@),
{
    let exp = (now + SETUP_TTL_SECONDS) as u64;
    encode_state_token(user_id, redirect_to, exp, secret)
}

/// The state token for `user_id` and `redirect_to`, issued now and valid
/// for fifteen minutes: it always succeeds, and the token carries the two
/// claims and is signed with the secret.
pub fn create_state(user_id: &str, redirect_to: &str, secret: &str) -> (r: Result<String, String>)
    ensures
        r matches Ok(t) && exists|now: i64| t@ == state_token(user_id@, redirect_to@, expiry_at(now), secret@),
        r matches Ok(t) ==> token_claims(t@) == Some((user_id@, redirect_to@)) && hs256_signed(t@, secret@),
{
    let now = unix_now();
    create_state_at(user_id, redirect_to, secret, now)
}

/// `jsonwebtoken::decode` with the default validation (HS256, expiry
/// checked against the current time): the token's `user_id` and
/// `redirect_to` claims when its signature and expiry hold and both claims
/// are strings, else the error's message. Whether it succeeds depends on the
/// time, so that is not claimed; what it returns on success is the token's
/// claims, and it succeeds only for a token signed with the secret.
#[verifier::external_body]
fn decode_state_token(token: &str, secret: &str) -> (r: Result<(String, String), String>)
    ensures
        r matches Ok((u, d)) ==> token_claims(token@) == Some((u@, d@)) && hs256_signed(token@, secret@),
{
    let data = decode::<serde_json::Map<String, serde_json::Value>>(
        token,
        &DecodingKey::from_secret(secret.as_bytes()),
        &Validation::default(),
    ).map_err(|e| e.to_string())?;
    let mut claims = data.claims;
    match (claims.remove("user_id"), claims.remove("redirect_to")) {
        (Some(serde_json::Value::String(u)), Some(serde_json::Value::String(r))) => Ok((u, r)),
        _ => Err("missing field in state claims".to_string()),
    }
}

/// The user and return address carried by a state token that is signed
/// with `secret` and not yet expired; an error otherwise (whether a token
/// has expired depends on the clock, so success is not promised).
pub fn verify_state(token: &str, secret: &str) -> (r: Result<(String, String), String>)
    ensures
        r matches Ok((u, d)) ==> token_claims(token@) == Some((u@, d@)) && hs256_signed(token@, secret@),
{
    decode_state_token(token, secret)
}

/// What `verify_state` accepts of a token made by `create_state` is what it
/// was made with: the token carries the claims `user_id` and `redirect_to`
/// (as `create_state` ensures), so a user and return address that
/// `verify_state` hands back for it (which it ensures are the token's
/// claims) are exactly those two. Whether it accepts the token at all
/// depends on the clock.
pub proof fn lemma_verified_state_round_trip(
    token: Seq<char>,
    user_id: Seq<char>,
    redirect_to: Seq<char>,
    got_user: Seq<char>,
    got_redirect: Seq<char>,
)
    requires
        token_claims(token) == Some((user_id, redirect_to)),
        token_claims(token) == Some((got_user, got_redirect)),
    ensures
        got_user == user_id,
        got_redirect == redirect_to,
{
}

} // verus!
