//! The login flow's response computation.
//!
//! Credential validation itself is an external collaborator; this module
//! decides the response for each of its outcomes.  Success redirects
//! home.  Failure redirects back to the login form, carrying the error
//! message percent-encoded in the query string together with an
//! HMAC-SHA256 tag over that query string, so the form can verify that
//! the message really came from this server.

use vstd::prelude::*;
use vstd::string::StrSliceExecFns;
use vstd::string::StringSliceAdditionalSpecFns;
use vstd::string::StringExecFns;

use hmac::Mac;

use crate::response::{see_other, see_other_model, SavedResponse};
use crate::startup::HmacSecret;

verus! {

/// Why a login attempt failed.
pub enum LoginError {
    /// The submitted credentials were invalid; carries the cause's text.
    AuthError(String),
    /// Anything else went wrong; carries the cause's text.
    UnexpectedError(String),
}

/// The user-facing text of a login failure: a fixed message for bad
/// credentials, the cause's own text otherwise.
pub open spec fn login_error_text(e: &LoginError) -> Seq<char> {
    match e {
        LoginError::AuthError(_) => "Authentication Failed."@,
        LoginError::UnexpectedError(cause) => cause@,
    }
}

impl LoginError {
    /// The user-facing text of this failure.
    pub fn message(&self) -> (r: String)
        ensures
            r@ == login_error_text(self),
    {
        match self {
            LoginError::AuthError(_) => "Authentication Failed.".to_owned(),
            LoginError::UnexpectedError(cause) => cause.clone(),
        }
    }
}

/// The lower-case hex digit for a value below sixteen.
pub open spec fn hex_digit_lower(n: u8) -> char {
    if n < 10 {
        ((n + 48) as u8) as char  // '0'..='9'
    } else {
        ((n + 87) as u8) as char  // 'a'..='f'
    }
}

/// The lower-case hex spelling of a byte string: two digits per byte.
pub open spec fn hex_lower(bytes: Seq<u8>) -> Seq<char>
    decreases bytes.len(),
{
    if bytes.len() == 0 {
        Seq::empty()
    } else {
        hex_lower(bytes.drop_last()) + seq![
            hex_digit_lower(bytes.last() / 16),
            hex_digit_lower(bytes.last() % 16),
        ]
    }
}

/// One lower-case hex digit, as text.
fn hex_digit_str(n: u8) -> (r: &'static str)
    requires
        n < 16,
    ensures
        r@ =~= seq![hex_digit_lower(n)],
{
    proof {
        reveal_strlit("0");
        reveal_strlit("1");
        reveal_strlit("2");
        reveal_strlit("3");
        reveal_strlit("4");
        reveal_strlit("5");
        reveal_strlit("6");
        reveal_strlit("7");
        reveal_strlit("8");
        reveal_strlit("9");
        reveal_strlit("a");
        reveal_strlit("b");
        reveal_strlit("c");
        reveal_strlit("d");
        reveal_strlit("e");
        reveal_strlit("f");
    }
    match n {
        0 => "0",
        1 => "1",
        2 => "2",
        3 => "3",
        4 => "4",
        5 => "5",
        6 => "6",
        7 => "7",
        8 => "8",
        9 => "9",
        10 => "a",
        11 => "b",
        12 => "c",
        13 => "d",
        14 => "e",
        _ => "f",
    }
}

/// Spells a byte string in lower-case hex.
fn to_hex(bytes: &Vec<u8>) -> (r: String)
    ensures
        r@ == hex_lower(bytes@),
{
    let mut r = String::new();
    let mut i: usize = 0;
    while i < bytes.len()
        invariant
            i <= bytes@.len(),
            r@ =~= hex_lower(bytes@.take(i as int)),
        decreases bytes@.len() - i,
    {
        let b = bytes[i];
        r.append(hex_digit_str(b / 16));
        r.append(hex_digit_str(b % 16));
        proof {
            assert(bytes@.take(i + 1 as int).drop_last() =~= bytes@.take(i as int));
            assert(bytes@.take(i + 1 as int).last() == bytes@[i as int]);
            assert(r@ =~= hex_lower(bytes@.take(i + 1 as int)));
        }
        i += 1;
    }
    proof {
        assert(bytes@.take(bytes@.len() as int) =~= bytes@);
    }
    r
}

/// A byte that percent-encoding keeps verbatim: ASCII alphanumerics and
/// `-`, `.`, `_`, `~`.
pub open spec fn url_unreserved(b: u8) -> bool {
    ||| 48 <= b && b <= 57  // '0'..='9'
    ||| 65 <= b && b <= 90  // 'A'..='Z'
    ||| 97 <= b && b <= 122  // 'a'..='z'
    ||| b == 45  // '-'
    ||| b == 46  // '.'
    ||| b == 95  // '_'
    ||| b == 126  // '~'
}

/// The upper-case hex digit for a value below sixteen.
pub open spec fn hex_digit_upper(n: u8) -> char {
    if n < 10 {
        ((n + 48) as u8) as char  // '0'..='9'
    } else {
        ((n + 55) as u8) as char  // 'A'..='F'
    }
}

/// How percent-encoding writes one byte: verbatim when unreserved, else
/// `%` and two upper-case hex digits.
pub open spec fn url_encoded_byte(b: u8) -> Seq<char> {
    if url_unreserved(b) {
        seq![b as char]
    } else {
        seq!['%', hex_digit_upper(b / 16), hex_digit_upper(b % 16)]
    }
}

/// The percent-encoding of a byte string.
pub open spec fn url_encoded(bytes: Seq<u8>) -> Seq<char>
    decreases bytes.len(),
{
    if bytes.len() == 0 {
        Seq::empty()
    } else {
        url_encoded(bytes.drop_last()) + url_encoded_byte(bytes.last())
    }
}

/// Relies on `urlencoding::encode`: percent-encodes every byte of the
/// UTF-8 text except ASCII alphanumerics and `-`, `.`, `_`, `~`, writing
/// each escaped byte as `%` plus two upper-case hex digits.
#[verifier::external_body]
fn url_encode(s: &str) -> (r: String)
    ensures
        r@ == url_encoded(s.spec_bytes()),
{
    urlencoding::encode(s).into_owned()
}

/// The HMAC-SHA256 tag of a message under a key: a function of the two
/// alone.  Its value is stated nowhere in this crate; it is whatever the
/// outside implementation computes.
pub uninterp spec fn hmac_sha256(key: Seq<u8>, message: Seq<u8>) -> Seq<u8>;

/// Relies on `hmac::Hmac` over `sha2::Sha256` (`new_from_slice`,
/// `update`, `finalize`): the tag depends on the key and the message
/// alone and is 32 bytes long.  HMAC accepts keys of any length, so
/// `new_from_slice` cannot fail.
#[verifier::external_body]
fn hmac_sha256_tag(key: &[u8], message: &[u8]) -> (r: Vec<u8>)
    ensures
        r@ == hmac_sha256(key@, message@),
        r@.len() == 32,
{
    let mut mac = <hmac::Hmac<sha2::Sha256> as hmac::KeyInit>::new_from_slice(key)
        .expect("HMAC accepts keys of any length");
    mac.update(message);
    mac.finalize().into_bytes().to_vec()
}

/// The query string a failed login carries: the error message,
/// percent-encoded.
pub open spec fn error_query_model(message: Seq<char>) -> Seq<char> {
    "error="@ + url_encoded(vstd::utf8::encode_utf8(message))
}

/// The location a failed login redirects to: the login form, with the
/// error query string and its HMAC-SHA256 tag (under the given secret)
/// in lower-case hex.
pub open spec fn login_error_location_model(message: Seq<char>, secret: Seq<char>) -> Seq<char> {
    "/login?"@ + error_query_model(message) + "&tag="@ + hex_lower(
        hmac_sha256(
            vstd::utf8::encode_utf8(secret),
            vstd::utf8::encode_utf8(error_query_model(message)),
        ),
    )
}

/// Builds the redirect target for a failed login: the error message in
/// the query string, authenticated by an HMAC tag under the secret.
pub fn login_error_location(error: &LoginError, secret: &HmacSecret) -> (r: String)
    ensures
        r@ == login_error_location_model(login_error_text(error), secret.0@),
{
    let message = error.message();
    let encoded = url_encode(message.as_str());
    let mut query: String = "error=".to_owned();
    query.append(encoded.as_str());
    proof {
        assert(query@ == error_query_model(login_error_text(error)));
    }
    let tag = hmac_sha256_tag(secret.0.as_str().as_bytes(), query.as_str().as_bytes());
    let tag_hex = to_hex(&tag);
    let mut r: String = "/login?".to_owned();
    r.append(query.as_str());
    r.append("&tag=");
    r.append(tag_hex.as_str());
    proof {
        assert(r@ =~= login_error_location_model(login_error_text(error), secret.0@));
    }
    r
}

/// Decides the login flow's response for a credential-validation outcome
/// (validation itself is an external collaborator).  Success redirects
/// home; failure redirects back to the login form with the authenticated
/// error message.
pub fn login_response(outcome: &Result<u128, LoginError>, secret: &HmacSecret) -> (r:
    SavedResponse)
    ensures
        outcome is Ok ==> r@ == see_other_model("/"@),
        outcome matches Err(e) ==> r@ == see_other_model(
            login_error_location_model(login_error_text(e), secret.0@),
        ),
{
    match outcome {
        Ok(_) => see_other("/"),
        Err(e) => {
            let location = login_error_location(e, secret);
            see_other(location.as_str())
        },
    }
}

} // verus!
