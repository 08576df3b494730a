use user_store::validate::{
    is_strong_password, is_valid_email, validate_age, validate_phone_number, validate_username,
};

#[test]
fn email_shape_check() {
    assert!(is_valid_email("test@example.com"));
    assert!(!is_valid_email("no-at-sign.com"));
    assert!(!is_valid_email("no@dots"));
    assert!(!is_valid_email("a@b.c"));
    assert!(is_valid_email("ab@c.d"));
}

#[test]
fn strong_password_needs_all_classes() {
    assert!(is_strong_password("MyP@ssw0rd"));
    assert!(!is_strong_password("Sh0rt!a"));
    assert!(!is_strong_password("alllower1!"));
    assert!(!is_strong_password("ALLUPPER1!"));
    assert!(!is_strong_password("NoDigits!"));
    assert!(!is_strong_password("NoSpecial1"));
}

#[test]
fn age_bounds() {
    assert_eq!(validate_age(17), Err("Must be 18 or older"));
    assert_eq!(validate_age(0), Err("Must be 18 or older"));
    assert_eq!(validate_age(18), Ok(()));
    assert_eq!(validate_age(120), Ok(()));
    assert_eq!(validate_age(121), Err("Invalid age"));
}

#[test]
fn username_rules() {
    assert_eq!(validate_username("john_doe"), Ok(()));
    assert_eq!(validate_username("ab"), Err("Username must be at least 3 characters"));
    assert_eq!(
        validate_username("abcdefghijklmnopqrstu"),
        Err("Username must be less than 20 characters")
    );
    assert_eq!(
        validate_username("bad name!"),
        Err("Username can only contain letters, numbers, and underscores")
    );
}

#[test]
fn phone_number_digit_count() {
    assert!(validate_phone_number("(555) 123-4567"));
    assert!(validate_phone_number("5551234567"));
    assert!(validate_phone_number("1-555-123-4567"));
    assert!(!validate_phone_number("123"));
    assert!(!validate_phone_number("555123456789"));
}
