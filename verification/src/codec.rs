//! Token codec: signing and checking of session claims, built on the
//! `jsonwebtoken` crate with its default HS256 algorithm.

use vstd::prelude::*;
use crate::error::AppError;
use crate::model::{Claims, Role, role_name, role_text, str_eq};

verus! {

/// The signed token produced for the given claim fields and secret. The
/// result of `jsonwebtoken::encode`, named; with the default header the
/// token is a deterministic function of the claims and the secret.
pub uninterp spec fn jwt_text(
    sub: Seq<char>,
    role: Seq<char>,
    exp: int,
    user_id: int,
    secret: Seq<char>,
) -> Seq<char>;

/// Relies on `jsonwebtoken::encode` with the default HS256 header: the token
/// is base64 of the serialized header and claims joined with an HMAC, hence
/// deterministic in its arguments and never empty. It always succeeds: the
/// default header's algorithm family matches a secret key, the claims map of
/// plain strings and integers always serializes, and HMAC signing returns a
/// digest unconditionally.
#[verifier::external_body]
fn jwt_encode_parts(sub: &str, role: &str, exp: u64, user_id: i64, secret: &str) -> (r: Option<
    String,
>)
    ensures
        r is Some,
        r matches Some(t) ==> t@ == jwt_text(sub@, role@, exp as int, user_id as int, secret@)
            && t@.len() > 0,
{
    let mut claims = serde_json::Map::new();
    claims.insert("sub".to_string(), serde_json::Value::from(sub));
    claims.insert("role".to_string(), serde_json::Value::from(role));
    claims.insert("exp".to_string(), serde_json::Value::from(exp));
    claims.insert("user_id".to_string(), serde_json::Value::from(user_id));
    jsonwebtoken::encode(
        &jsonwebtoken::Header::default(),
        &serde_json::Value::Object(claims),
        &jsonwebtoken::EncodingKey::from_secret(secret.as_bytes()),
    )
        .ok()
}

/// Relies on `jsonwebtoken::decode` with default validation: the HMAC
/// signature and the embedded expiry are checked against the system clock,
/// so nothing stable is promised of the outcome. On success the claim
/// fields come back as plain values: subject, role name, expiry, user id.
#[verifier::external_body]
fn jwt_decode_parts(token: &str, secret: &str) -> (r: Option<(String, String, u64, i64)>) {
    let data = jsonwebtoken::decode::<serde_json::Value>(
        token,
        &jsonwebtoken::DecodingKey::from_secret(secret.as_bytes()),
        &jsonwebtoken::Validation::default(),
    ).ok()?;
    let sub = data.claims.get("sub")?.as_str()?.to_string();
    let role = data.claims.get("role")?.as_str()?.to_string();
    let exp = data.claims.get("exp")?.as_u64()?;
    let user_id = data.claims.get("user_id")?.as_i64()?;
    Some((sub, role, exp, user_id))
}

/// Signs the claims with the symmetric secret; signing never fails, and the
/// token is exactly the deterministic encoding of the claim fields.
pub fn encode_claims(claims: &Claims, secret: &str) -> (r: Result<String, AppError>)
    ensures
        r is Ok,
        r matches Ok(t) ==> t@ == jwt_text(
            claims.sub@,
            role_name(claims.role),
            claims.exp as int,
            claims.user_id as int,
            secret@,
        ) && t@.len() > 0,
{
    match jwt_encode_parts(claims.sub.as_str(), role_text(&claims.role), claims.exp, claims.user_id, secret) {
        Some(t) => Ok(t),
        None => Err(AppError::AuthError("error while signing token".to_string())),
    }
}

/// Checks a token's signature and expiry and hands back its claims. Any
/// signature, parse or expiry failure collapses into one generic error, so
/// the caller learns nothing about which check failed.
pub fn decode_claims(token: &str, secret: &str) -> (r: Result<Claims, AppError>)
    ensures
        r matches Err(e) ==> e matches AppError::AuthError(m) && m@ == "invalid token"@,
{
    let invalid = "invalid token";
    match jwt_decode_parts(token, secret) {
        Some((sub, role, exp, user_id)) => {
            let parsed_role = if str_eq(role.as_str(), "Admin") {
                Role::Admin
            } else if str_eq(role.as_str(), "User") {
                Role::User
            } else {
                return Err(AppError::AuthError(invalid.to_string()));
            };
            Ok(Claims { sub, role: parsed_role, exp, user_id })
        },
        None => Err(AppError::AuthError(invalid.to_string())),
    }
}

} // verus!
