use grsync::get_rating;
use grsync::get_rating_from_value;

#[test]
fn tier_to_code() {
    assert_eq!(get_rating(0), "g");
    assert_eq!(get_rating(1), "pg");
    assert_eq!(get_rating(2), "r");
    assert_eq!(get_rating(3), "x");
}

#[test]
fn unknown_tier_falls_back_to_most_restrictive() {
    assert_eq!(get_rating(4), "g");
    assert_eq!(get_rating(-1), "g");
}

#[test]
fn code_to_tier() {
    assert_eq!(get_rating_from_value(Some(String::from("g"))), 0);
    assert_eq!(get_rating_from_value(Some(String::from("pg"))), 1);
    assert_eq!(get_rating_from_value(Some(String::from("r"))), 2);
    assert_eq!(get_rating_from_value(Some(String::from("x"))), 3);
}

#[test]
fn unmapped_or_absent_code_gives_zero() {
    assert_eq!(get_rating_from_value(None), 0);
    assert_eq!(get_rating_from_value(Some(String::from("zz"))), 0);
    assert_eq!(get_rating_from_value(Some(String::from(""))), 0);
    assert_eq!(get_rating_from_value(Some(String::from("X"))), 0);
}
