use email_newsletter::idempotency::{IdempotencyKey, ValidationError};

#[test]
fn key_round_trips_its_text() {
    let key = IdempotencyKey::try_from("a1b2-c3".to_string()).unwrap();
    assert_eq!(key.as_ref(), "a1b2-c3");
    assert_eq!(key.into_string(), "a1b2-c3".to_string());
}

#[test]
fn key_keeps_surrounding_spaces() {
    let key = IdempotencyKey::try_from("  k  ".to_string()).unwrap();
    assert_eq!(key.as_ref(), "  k  ");
}

#[test]
fn empty_key_is_rejected() {
    let r = IdempotencyKey::try_from(String::new());
    assert_eq!(r.err(), Some(ValidationError::Empty));
}

#[test]
fn key_of_forty_nine_characters_is_accepted() {
    let raw = "x".repeat(49);
    let key = IdempotencyKey::try_from(raw.clone()).unwrap();
    assert_eq!(key.into_string(), raw);
}

#[test]
fn key_of_fifty_characters_is_rejected() {
    let r = IdempotencyKey::try_from("x".repeat(50));
    assert_eq!(r.err(), Some(ValidationError::TooLong));
}

#[test]
fn long_key_is_rejected() {
    let r = IdempotencyKey::try_from("y".repeat(500));
    assert_eq!(r.err(), Some(ValidationError::TooLong));
}

#[test]
fn key_length_counts_characters() {
    let raw = "é".repeat(49);
    assert!(IdempotencyKey::try_from(raw).is_ok());
    assert_eq!(IdempotencyKey::try_from("é".repeat(50)).err(), Some(ValidationError::TooLong));
}

#[test]
fn key_converts_back_into_its_string() {
    let key = IdempotencyKey::try_from("order-17".to_string()).unwrap();
    assert_eq!(String::from(key), "order-17".to_string());
}
