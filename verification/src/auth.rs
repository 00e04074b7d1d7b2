//! Password hashes and the decisions of the administrator gate.

use vstd::prelude::*;
use crate::models::Claims;
use crate::text::{append_chars, append_str, chars_of, decimal, decimal_chars, has_prefix,
    same_chars, slice_chars, starts_with, string_of};

verus! {

/// The hash that a fresh `std::collections::hash_map::DefaultHasher` gives
/// for a string.
pub uninterp spec fn default_hash(text: Seq<char>) -> u64;

/// Hashes a string with std's `DefaultHasher`: a hasher made by
/// `DefaultHasher::new` is fed the string through `Hash::hash` and read with
/// `Hasher::finish`. Such a hasher has fixed keys, so equal strings give
/// equal hashes.
#[verifier::external_body]
fn hash_text(text: &str) -> (h: u64)
    ensures
        h == default_hash(text@),
{
    let mut hasher = std::collections::hash_map::DefaultHasher::new();
    std::hash::Hash::hash(text, &mut hasher);
    std::hash::Hasher::finish(&hasher)
}

/// The stored form of a password: `hash_`, then its hash in decimal.
pub open spec fn password_hash(password: Seq<char>) -> Seq<char> {
    "hash_"@ + decimal(default_hash(password) as nat)
}

/// Hashes a password to its stored form.
pub fn hash_password(password: &str) -> (hash: String)
    ensures
        hash@ == password_hash(password@),
{
    let h = hash_text(password);
    let digits = decimal_chars(h);
    let mut out: Vec<char> = Vec::new();
    append_str(&mut out, "hash_");
    append_chars(&mut out, digits.as_slice());
    string_of(out.as_slice())
}

/// Tells whether `hash` is the stored form of `password`.
pub fn verify_password(password: &str, hash: &str) -> (ok: bool)
    ensures
        ok == (hash@ == password_hash(password@)),
{
    let expected = hash_password(password);
    let e = chars_of(expected.as_str());
    let h = chars_of(hash);
    same_chars(h.as_slice(), e.as_slice())
}

/// The token of an authorization header: what follows `Bearer `.
pub open spec fn bearer_of(header: Seq<char>) -> Option<Seq<char>> {
    if starts_with(header, "Bearer "@) {
        Some(header.subrange("Bearer "@.len() as int, header.len() as int))
    } else {
        None
    }
}

/// Takes the token out of an authorization header, if it is a bearer header.
pub fn bearer_token(header: &str) -> (token: Option<String>)
    ensures
        match token {
            Some(t) => bearer_of(header@) == Some(t@),
            None => bearer_of(header@) is None,
        },
{
    let h = chars_of(header);
    let prefix = chars_of("Bearer ");
    if has_prefix(h.as_slice(), prefix.as_slice()) {
        let t = slice_chars(h.as_slice(), prefix.len(), h.len());
        Some(string_of(t.as_slice()))
    } else {
        None
    }
}

/// The number of seconds for which a token is valid: 24 hours.
pub const TOKEN_LIFETIME_SECS: i64 = 86400;

/// The expiry of a token issued at `now`, `None` where it is beyond the
/// range of the clock.
pub fn token_expiry(now: i64) -> (exp: Option<i64>)
    ensures
        match exp {
            Some(e) => e == now + TOKEN_LIFETIME_SECS,
            None => now + TOKEN_LIFETIME_SECS > i64::MAX,
        },
{
    now.checked_add(TOKEN_LIFETIME_SECS)
}

/// Tells whether a token that expires at `exp` has expired at `now`.
pub fn token_expired(exp: i64, now: i64) -> (expired: bool)
    ensures
        expired == (exp < now),
{
    exp < now
}

/// Why a request is kept from the administrative surface.
#[derive(Clone, Copy, Debug, PartialEq, Eq, Structural)]
pub enum AuthFailure {
    /// No valid token came with the request.
    Unauthorized,
    /// The token is valid but its role is not `admin`.
    Forbidden,
}

impl AuthFailure {
    /// The message that the caller is shown.
    pub fn message(&self) -> (m: String)
        ensures
            m@ == match *self {
                AuthFailure::Unauthorized => "Authentication required"@,
                AuthFailure::Forbidden => "Insufficient permissions"@,
            },
    {
        match self {
            AuthFailure::Unauthorized => String::from_str("Authentication required"),
            AuthFailure::Forbidden => String::from_str("Insufficient permissions"),
        }
    }
}

/// Decides whether verified claims, `None` where the token was missing or
/// invalid, open the administrative surface: they must carry the role
/// `admin`.
pub fn check_admin_claims(claims: Option<&Claims>) -> (r: Result<(), AuthFailure>)
    ensures
        match claims {
            None => r == Err::<(), AuthFailure>(AuthFailure::Unauthorized),
            Some(c) => if c.role@ == "admin"@ {
                r is Ok
            } else {
                r == Err::<(), AuthFailure>(AuthFailure::Forbidden)
            },
        },
{
    match claims {
        None => Err(AuthFailure::Unauthorized),
        Some(c) => {
            let role = chars_of(c.role.as_str());
            let admin = chars_of("admin");
            if same_chars(role.as_slice(), admin.as_slice()) {
                Ok(())
            } else {
                Err(AuthFailure::Forbidden)
            }
        },
    }
}

} // verus!
