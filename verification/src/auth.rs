use vstd::prelude::*;

use crate::error::AppError;
use crate::model::Claims;

verus! {

#[verifier::external_type_specification]
#[verifier::external_body]
pub struct ExJsonValue(serde_json::Value);

/// The JSON payload a token carries: what decoding deserializes from the
/// token's second segment. A function of the token's text alone.
pub uninterp spec fn jwt_payload_of(token: Seq<char>) -> serde_json::Value;

/// Whether the token's HS256 signature is valid under the pre-shared
/// `secret`: a function of the two texts alone. Expiry is a separate,
/// clock-dependent question.
pub uninterp spec fn hs256_sig_ok(token: Seq<char>, secret: Seq<char>) -> bool;

/// The string claim stored under `key` in the payload `v`: present exactly
/// when `v` is an object holding a JSON string there.
pub uninterp spec fn json_str_field(v: serde_json::Value, key: Seq<char>) -> Option<Seq<char>>;

/// The integer claim stored under `key` in the payload `v`: present exactly
/// when `v` is an object holding a non-negative JSON integer in range there.
pub uninterp spec fn json_u64_field(v: serde_json::Value, key: Seq<char>) -> Option<u64>;

/// Relies on jsonwebtoken::decode over HS256 with its default validation: it
/// succeeds only if the token's signature matches the pre-shared secret, and
/// what it then returns is the token's own payload. Whether an otherwise
/// valid token is accepted also depends on its required `exp` claim and the
/// machine's clock, so acceptance itself is not pinned; `verify_credential`
/// states what holds either way. Assumes a clock at or after the Unix epoch
/// (the validator panics on an earlier one).
#[verifier::external_body]
fn jwt_decode(token: &str, secret: &str) -> (r: Option<serde_json::Value>)
    ensures
        r matches Some(v) ==> v == jwt_payload_of(token@) && hs256_sig_ok(token@, secret@),
{
    let key = jsonwebtoken::DecodingKey::from_secret(secret.as_bytes());
    let validation = jsonwebtoken::Validation::new(jsonwebtoken::Algorithm::HS256);
    match jsonwebtoken::decode::<serde_json::Value>(token, &key, &validation) {
        Ok(data) => Some(data.claims),
        Err(_) => None,
    }
}

/// Relies on serde_json::Value::get and Value::as_str: the string claim
/// under `key`, exactly when the payload holds one there.
#[verifier::external_body]
fn get_str_field(v: &serde_json::Value, key: &str) -> (r: Option<String>)
    ensures
        json_str_field(*v, key@) == (match r {
            Some(s) => Some(s@),
            None => None::<Seq<char>>,
        }),
{
    match v.get(key) {
        Some(x) => x.as_str().map(|s| s.to_owned()),
        None => None,
    }
}

/// Relies on serde_json::Value::get and Value::as_u64: the integer claim
/// under `key`, exactly when the payload holds one there.
#[verifier::external_body]
fn get_u64_field(v: &serde_json::Value, key: &str) -> (r: Option<u64>)
    ensures
        json_u64_field(*v, key@) == r,
{
    match v.get(key) {
        Some(x) => x.as_u64(),
        None => None,
    }
}

/// Builds the library's claims from a decoded token payload: the subject,
/// name, email and role must be JSON strings and the two timestamps JSON
/// integers, each claim taken verbatim; a payload missing any of the six is
/// rejected.
fn claims_from_value(v: &serde_json::Value) -> (r: Option<Claims>)
    ensures
        match r {
            Some(c) => {
                &&& json_str_field(*v, "sub"@) == Some(c.sub@)
                &&& json_str_field(*v, "name"@) == Some(c.name@)
                &&& json_str_field(*v, "email"@) == Some(c.email@)
                &&& json_str_field(*v, "rol"@) == Some(c.rol@)
                &&& json_u64_field(*v, "iat"@) == Some(c.iat)
                &&& json_u64_field(*v, "exp"@) == Some(c.exp)
            },
            None => {
                ||| json_str_field(*v, "sub"@) is None
                ||| json_str_field(*v, "name"@) is None
                ||| json_str_field(*v, "email"@) is None
                ||| json_str_field(*v, "rol"@) is None
                ||| json_u64_field(*v, "iat"@) is None
                ||| json_u64_field(*v, "exp"@) is None
            },
        },
{
    let sub = match get_str_field(v, "sub") {
        Some(s) => s,
        None => {
            return None;
        },
    };
    let name = match get_str_field(v, "name") {
        Some(s) => s,
        None => {
            return None;
        },
    };
    let email = match get_str_field(v, "email") {
        Some(s) => s,
        None => {
            return None;
        },
    };
    let rol = match get_str_field(v, "rol") {
        Some(s) => s,
        None => {
            return None;
        },
    };
    let iat = match get_u64_field(v, "iat") {
        Some(n) => n,
        None => {
            return None;
        },
    };
    let exp = match get_u64_field(v, "exp") {
        Some(n) => n,
        None => {
            return None;
        },
    };
    Some(Claims { name, email, rol, sub, iat, exp })
}

/// Verifies a bearer credential: validates the signature and the expiry
/// against the pre-shared secret and extracts the caller's identity claims.
/// A success vouches that the signature matches the secret and that every
/// returned claim is the token's own, verbatim; every failure — bad
/// signature, expired token, malformed or missing claims — is
/// `Unauthorized`, so a caller that rejects the error never lets an
/// unverified identity reach a protected operation.
pub fn verify_credential(token: &str, secret: &str) -> (r: Result<Claims, AppError>)
    ensures
        !(r is Ok) ==> (r matches Err(AppError::Unauthorized(m)) && m@ == "Token JWT invalido"@),
        r matches Ok(c) ==> {
            let payload = jwt_payload_of(token@);
            &&& hs256_sig_ok(token@, secret@)
            &&& json_str_field(payload, "sub"@) == Some(c.sub@)
            &&& json_str_field(payload, "name"@) == Some(c.name@)
            &&& json_str_field(payload, "email"@) == Some(c.email@)
            &&& json_str_field(payload, "rol"@) == Some(c.rol@)
            &&& json_u64_field(payload, "iat"@) == Some(c.iat)
            &&& json_u64_field(payload, "exp"@) == Some(c.exp)
        },
{
    match jwt_decode(token, secret) {
        Some(v) => match claims_from_value(&v) {
            Some(c) => Ok(c),
            None => Err(AppError::Unauthorized("Token JWT invalido".to_owned())),
        },
        None => Err(AppError::Unauthorized("Token JWT invalido".to_owned())),
    }
}

} // verus!
