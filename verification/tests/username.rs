use glide_core::validate_username;

#[test]
fn accepts_two_letters() {
    assert!(validate_username("ab"));
}

#[test]
fn accepts_dotted_name() {
    assert!(validate_username("a.b.c"));
}

#[test]
fn accepts_ten_digits() {
    assert!(validate_username("1234567890"));
}

#[test]
fn rejects_empty() {
    assert!(!validate_username(""));
}

#[test]
fn rejects_leading_dot() {
    assert!(!validate_username(".ab"));
}

#[test]
fn rejects_trailing_dot() {
    assert!(!validate_username("ab."));
}

#[test]
fn rejects_consecutive_dots() {
    assert!(!validate_username("a..b"));
}

#[test]
fn rejects_eleven_characters() {
    assert!(!validate_username("12345678901"));
}

#[test]
fn rejects_other_characters() {
    assert!(!validate_username("a b"));
    assert!(!validate_username("a@b"));
    assert!(!validate_username("a-b"));
}

#[test]
fn accepts_single_character() {
    assert!(validate_username("x"));
    assert!(validate_username("7"));
}
