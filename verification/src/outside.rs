//! Calls into the outside crates that decide things this library cannot
//! state in a few lines: e-mail and URL shape, calendar-date parsing, and
//! the password hash.  Each result that is a function of the arguments
//! alone is given a name, and the contracts of the rest of the library
//! speak of those names.

use vstd::prelude::*;

verus! {

/// Whether `s` is a valid e-mail address in the HTML5 sense.
pub uninterp spec fn is_email(s: Seq<char>) -> bool;

/// Whether `s` is a well-formed URL.
pub uninterp spec fn is_url(s: Seq<char>) -> bool;

/// Whether `s` parses as a `YYYY-MM-DD` calendar date.
pub uninterp spec fn is_date(s: Seq<char>) -> bool;

/// The PHC hash string produced for `password` under the fixed
/// application `salt` with the default algorithm and parameters.
pub uninterp spec fn hash_of(password: Seq<char>, salt: Seq<char>) -> Seq<char>;

/// Whether hashing `password` under `salt` succeeds: the salt must decode
/// as B64 of 4 to 64 bytes, and the hasher must accept both inputs.
pub uninterp spec fn hash_ok(password: Seq<char>, salt: Seq<char>) -> bool;

/// Whether `password` verifies against the PHC hash string `hash`.
pub uninterp spec fn verifies(password: Seq<char>, hash: Seq<char>) -> bool;

/// Relies on validator's `ValidateEmail` impl for `&str`: whether a string
/// is an e-mail address depends on its characters alone.
#[verifier::external_body]
pub(crate) fn check_email(s: &str) -> (r: bool)
    ensures
        r == is_email(s@),
{
    validator::ValidateEmail::validate_email(&s)
}

/// Relies on validator's `ValidateUrl` impl for `&str` (`url::Url::parse`
/// underneath): whether a string is a well-formed URL depends on its
/// characters alone.
#[verifier::external_body]
pub(crate) fn check_url(s: &str) -> (r: bool)
    ensures
        r == is_url(s@),
{
    validator::ValidateUrl::validate_url(&s)
}

/// Relies on chrono's `NaiveDate::parse_from_str` with format `%Y-%m-%d`:
/// whether the text parses as a calendar date depends on its characters
/// alone.
#[verifier::external_body]
pub(crate) fn check_date(s: &str) -> (r: bool)
    ensures
        r == is_date(s@),
{
    chrono::NaiveDate::parse_from_str(s, "%Y-%m-%d").is_ok()
}

/// Relies on argon2's `PasswordHasher::hash_password` with the default
/// algorithm and parameters, over a salt decoded by `SaltString::from_b64`:
/// both success and the produced PHC string depend on the password and the
/// salt alone, and by the `password_hash` API contract a freshly produced
/// hash verifies against the password it was made from.  The PHC string
/// opens with `$argon2id$v=19$` before the parameters, salt and digest,
/// so it is longer than 15 characters.
#[verifier::external_body]
pub(crate) fn hash_password(password: &str, salt: &str) -> (r: Option<String>)
    ensures
        r is Some <==> hash_ok(password@, salt@),
        r matches Some(h) ==> h@ == hash_of(password@, salt@) && h@.len() > 15 && verifies(
            password@,
            hash_of(password@, salt@),
        ),
{
    let salt = argon2::password_hash::SaltString::from_b64(salt).ok()?;
    let argon = argon2::Argon2::default();
    let hash = argon2::PasswordHasher::hash_password(&argon, password.as_bytes(), &salt).ok()?;
    Some(hash.to_string())
}

/// Relies on argon2's `PasswordVerifier::verify_password` against a PHC
/// string parsed by `PasswordHash::new`: acceptance depends on the password
/// and the stored hash text alone; a hash that does not parse accepts no
/// password.
#[verifier::external_body]
pub(crate) fn password_matches(password: &str, hash: &str) -> (r: bool)
    ensures
        r == verifies(password@, hash@),
{
    match argon2::password_hash::PasswordHash::new(hash) {
        Ok(parsed) => {
            let argon = argon2::Argon2::default();
            argon2::PasswordVerifier::verify_password(&argon, password.as_bytes(), &parsed).is_ok()
        },
        Err(_) => false,
    }
}

} // verus!
