use hmac::{KeyInit, Mac};
use sha2::Sha256;
use zero2prod::login::{login_error_location, login_response, LoginError};
use zero2prod::startup::HmacSecret;

fn expected_location(message: &str, secret: &str) -> String {
    let query = format!("error={}", urlencoding::encode(message));
    let mut mac = <hmac::Hmac<Sha256> as KeyInit>::new_from_slice(secret.as_bytes())
        .expect("any key length works");
    mac.update(query.as_bytes());
    let tag = mac.finalize().into_bytes();
    let mut tag_hex = String::new();
    for byte in tag.iter() {
        tag_hex.push_str(&format!("{:02x}", byte));
    }
    format!("/login?{}&tag={}", query, tag_hex)
}

#[test]
fn auth_error_message_is_fixed() {
    let e = LoginError::AuthError("user not found".to_owned());
    assert_eq!(e.message(), "Authentication Failed.");
}

#[test]
fn unexpected_error_message_carries_the_cause() {
    let e = LoginError::UnexpectedError("pool exhausted".to_owned());
    assert_eq!(e.message(), "pool exhausted");
}

#[test]
fn error_location_carries_encoded_message_and_tag() {
    let secret = HmacSecret("super-secret".to_owned());
    let e = LoginError::AuthError("whatever".to_owned());
    let location = login_error_location(&e, &secret);
    assert_eq!(location, expected_location("Authentication Failed.", "super-secret"));
    // the space and the question mark of a message are percent-encoded
    assert!(location.contains("error=Authentication%20Failed."));
}

#[test]
fn error_location_encodes_the_cause() {
    let secret = HmacSecret("super-secret".to_owned());
    let e = LoginError::UnexpectedError("boom? boom!".to_owned());
    let location = login_error_location(&e, &secret);
    assert_eq!(location, expected_location("boom? boom!", "super-secret"));
    assert!(location.contains("error=boom%3F%20boom%21"));
}

#[test]
fn different_secrets_give_different_tags() {
    let e = LoginError::AuthError("no".to_owned());
    let a = login_error_location(&e, &HmacSecret("first".to_owned()));
    let b = login_error_location(&e, &HmacSecret("second".to_owned()));
    assert_ne!(a, b);
    assert_eq!(a.split("&tag=").next(), b.split("&tag=").next());
}

#[test]
fn successful_login_redirects_home() {
    let secret = HmacSecret("super-secret".to_owned());
    let r = login_response(&Ok(42), &secret);
    assert_eq!(r.status, 303);
    assert_eq!(r.headers.len(), 1);
    assert_eq!(r.headers[0].name, "Location");
    assert_eq!(r.headers[0].value, "/".as_bytes());
    assert!(r.body.is_empty());
}

#[test]
fn failed_login_redirects_to_the_login_form() {
    let secret = HmacSecret("super-secret".to_owned());
    let e = LoginError::AuthError("bad password".to_owned());
    let expected = expected_location("Authentication Failed.", "super-secret");
    let r = login_response(&Err(e), &secret);
    assert_eq!(r.status, 303);
    assert_eq!(r.headers[0].name, "Location");
    assert_eq!(r.headers[0].value, expected.as_bytes());
}
