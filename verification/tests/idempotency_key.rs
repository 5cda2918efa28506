use zero2prod::idempotency::{IdempotencyKey, ValidationError, MAX_KEY_LENGTH};

#[test]
fn empty_key_is_rejected() {
    let r = IdempotencyKey::parse(String::new());
    assert_eq!(r.err(), Some(ValidationError::EmptyKey));
}

#[test]
fn key_of_maximum_length_is_accepted() {
    let raw: String = "a".repeat(MAX_KEY_LENGTH);
    let k = IdempotencyKey::parse(raw.clone()).expect("a 50-character key is accepted");
    assert_eq!(k.as_str(), raw.as_str());
}

#[test]
fn key_over_maximum_length_is_rejected() {
    let raw: String = "a".repeat(MAX_KEY_LENGTH + 1);
    let r = IdempotencyKey::parse(raw);
    assert_eq!(r.err(), Some(ValidationError::KeyTooLong));
}

#[test]
fn control_character_is_rejected() {
    let r = IdempotencyKey::parse("abc\u{7}def".to_owned());
    assert_eq!(r.err(), Some(ValidationError::ForbiddenKeyCharacter));
}

#[test]
fn space_is_rejected() {
    let r = IdempotencyKey::parse("abc def".to_owned());
    assert_eq!(r.err(), Some(ValidationError::ForbiddenKeyCharacter));
}

#[test]
fn allowed_punctuation_is_accepted() {
    let k = IdempotencyKey::parse("A-b_c.8~Z".to_owned()).expect("allowlisted punctuation");
    assert_eq!(k.as_str(), "A-b_c.8~Z");
}

#[test]
fn length_is_counted_in_characters() {
    // twenty-six two-byte characters: 52 bytes, but only 26 characters,
    // so the length check passes and the character check rejects
    let raw: String = "é".repeat(26);
    assert_eq!(raw.len(), 52);
    let r = IdempotencyKey::parse(raw);
    assert_eq!(r.err(), Some(ValidationError::ForbiddenKeyCharacter));
}
