use grsync::identity::normalize_identity;
use grsync::is_hex_string;

#[test]
fn accepts_lowercase_hex() {
    assert!(is_hex_string("0123456789abcdef0123456789abcdef"));
}

#[test]
fn accepts_uppercase_and_mixed_hex() {
    assert!(is_hex_string("0123456789ABCDEF0123456789ABCDEF"));
    assert!(is_hex_string("0123456789AbCdEf0123456789aBcDeF"));
}

#[test]
fn rejects_wrong_length() {
    assert!(!is_hex_string(""));
    assert!(!is_hex_string("0123456789abcdef0123456789abcde"));
    assert!(!is_hex_string("0123456789abcdef0123456789abcdef0"));
}

#[test]
fn rejects_non_hex_character() {
    assert!(!is_hex_string("g123456789abcdef0123456789abcdef"));
    assert!(!is_hex_string("0123456789abcdef0123456789abcde!"));
    assert!(!is_hex_string("not-a-valid-id"));
}

#[test]
fn normalize_lowercases() {
    let r = normalize_identity("0123456789ABCDEF0123456789ABCDEF");
    assert_eq!(r, Some(String::from("0123456789abcdef0123456789abcdef")));
}

#[test]
fn normalize_keeps_lowercase() {
    let r = normalize_identity("00000000000000000000000000000000");
    assert_eq!(r, Some(String::from("00000000000000000000000000000000")));
}

#[test]
fn normalize_rejects_malformed() {
    assert_eq!(normalize_identity("not-a-valid-id"), None);
    assert_eq!(normalize_identity("0123456789abcdef0123456789abcde"), None);
}
