use cosmos::users::handlers::{
    acceptable, CreateUserData, EMAIL_PATTERN, MIN_PASSWORD_CHARS, USERNAME_PATTERN,
};

fn data(username: &str, email: &str, password: &str) -> CreateUserData {
    CreateUserData {
        username: username.to_string(),
        email: email.to_string(),
        password: password.to_string(),
    }
}

#[test]
fn username_of_one_character_fails() {
    assert!(!data("a", "a@example.com", "longenough").is_valid());
}

#[test]
fn username_of_two_characters_passes() {
    assert!(data("ab", "a@example.com", "longenough").is_valid());
}

#[test]
fn password_of_seven_characters_fails() {
    assert!(!data("alice", "alice@example.com", "1234567").is_valid());
}

#[test]
fn password_of_eight_characters_passes() {
    assert!(data("alice", "alice@example.com", "12345678").is_valid());
}

#[test]
fn password_is_counted_in_characters() {
    // seven characters, fourteen bytes
    assert!(!data("alice", "alice@example.com", "ééééééé").is_valid());
    // eight characters
    assert!(data("alice", "alice@example.com", "éééééééé").is_valid());
}

#[test]
fn empty_fields_fail() {
    assert!(!data("", "alice@example.com", "12345678").is_valid());
    assert!(!data("alice", "", "12345678").is_valid());
    assert!(!data("alice", "alice@example.com", "").is_valid());
}

#[test]
fn username_needs_two_word_characters_in_a_row() {
    assert!(data("a_", "a@example.com", "12345678").is_valid());
    assert!(data("_9", "a@example.com", "12345678").is_valid());
    assert!(!data("a-b", "a@example.com", "12345678").is_valid());
    assert!(!data("!!", "a@example.com", "12345678").is_valid());
    // the pattern is searched for, not anchored
    assert!(data("!!ab!!", "a@example.com", "12345678").is_valid());
}

#[test]
fn email_needs_local_part_domain_and_suffix() {
    assert!(data("alice", "a@b.c", "12345678").is_valid());
    assert!(!data("alice", "alice", "12345678").is_valid());
    assert!(!data("alice", "@example.com", "12345678").is_valid());
    assert!(!data("alice", "alice@", "12345678").is_valid());
    assert!(!data("alice", "alice@example", "12345678").is_valid());
    assert!(!data("alice", "alice@.com", "12345678").is_valid());
    assert!(!data("alice", "alice@example.", "12345678").is_valid());
}

#[test]
fn verdict_needs_all_three() {
    assert!(acceptable(Some(true), Some(true), 8));
    assert!(acceptable(Some(true), Some(true), 100));
    assert!(!acceptable(Some(true), Some(true), 7));
    assert!(!acceptable(Some(false), Some(true), 8));
    assert!(!acceptable(Some(true), Some(false), 8));
    assert!(!acceptable(None, Some(true), 8));
    assert!(!acceptable(Some(true), None, 8));
    assert!(!acceptable(None, None, 0));
}

#[test]
fn patterns_and_limit_are_as_documented() {
    assert_eq!(USERNAME_PATTERN, "[a-zA-Z0-9_]{2,}");
    assert_eq!(EMAIL_PATTERN, ".+@.+\\..+");
    assert_eq!(MIN_PASSWORD_CHARS, 8);
}

#[test]
fn patterns_compile_with_the_regex_crate() {
    assert!(regex::Regex::new(USERNAME_PATTERN).is_ok());
    assert!(regex::Regex::new(EMAIL_PATTERN).is_ok());
}
