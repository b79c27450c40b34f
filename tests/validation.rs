use tetris_towers::validation::{validate_email, validate_password, validate_username, Validator};

#[test]
fn test_email_validation() {
    assert!(validate_email("test@example.com"));
    assert!(!validate_email("invalid-email"));
}

#[test]
fn test_validator() {
    let mut validator = Validator::new();
    validator
        .validate_min_length("username", "a", 3, None)
        .validate_max_length("email", "test@example.com", 10, None);

    assert!(validator.has_errors());
    assert_eq!(validator.get_errors().len(), 2);
}

#[test]
fn test_username_validation() {
    assert!(validate_username("user123"));
    assert!(!validate_username("a")); // Too short
    assert!(!validate_username("invalid@username")); // Invalid characters
}

#[test]
fn test_password_validation() {
    assert!(validate_password("Password123"));
    assert!(!validate_password("short")); // Too short
    assert!(!validate_password("password")); // No numbers
}

#[test]
fn password_rules() {
    assert!(!validate_password("12345678"));
    assert!(!validate_password("Passw0rd!"));
    assert!(validate_password("a1b2c3d4"));
}

#[test]
fn default_messages_and_lookup() {
    let mut v = Validator::new();
    v.validate_min_length("name", "ab", 3, None);
    v.validate_length_range("name", "ab", 3, 12, None);
    v.validate_max_length("bio", "abcdef", 5, Some("too long"));
    v.validate_not_empty("title", "  \t", None);
    v.validate_integer("age", "12x", None);
    v.validate_integer("year", "-2024", None);
    v.validate_email("mail", "nobody", None);
    v.validate_url("site", "www.example.com", None);
    v.validate_in_list("color", "mauve", &["red", "green"], None);
    v.validate_not_in_list("role", "root", &["root"], None);
    v.validate_equals("confirm", "a", "b", None);
    v.validate_not_equals("new", "x", "x", None);
    assert_eq!(
        v.get_field_errors("name").unwrap(),
        &vec![
            "Field must be at least 3 characters long".to_string(),
            "Field must be between 3 and 12 characters long".to_string()
        ]
    );
    assert_eq!(v.get_first_field_error("bio").unwrap(), "too long");
    assert_eq!(v.get_first_field_error("title").unwrap(), "Field cannot be empty");
    assert_eq!(v.get_first_field_error("age").unwrap(), "Field must be an integer");
    assert!(v.get_field_errors("year").is_none());
    assert_eq!(v.get_first_field_error("mail").unwrap(), "Field must be a valid email address");
    assert_eq!(v.get_first_field_error("site").unwrap(), "Field must be a valid URL");
    assert_eq!(v.get_first_field_error("color").unwrap(), "Field must be one of the allowed values");
    assert_eq!(v.get_first_field_error("role").unwrap(), "Field must not be one of the forbidden values");
    assert_eq!(v.get_first_field_error("confirm").unwrap(), "Fields do not match");
    assert_eq!(v.get_first_field_error("new").unwrap(), "Field must not be equal to the other field");
    let all = v.get_all_errors();
    assert_eq!(all.len(), 11);
    assert_eq!(all[0], "name: Field must be at least 3 characters long");
    v.add_error("name", "custom");
    assert_eq!(v.get_field_errors("name").unwrap().len(), 3);
    v.clear();
    assert!(!v.has_errors());
}

#[test]
fn passing_checks_record_nothing() {
    let mut v = Validator::new();
    v.validate_min_length("a", "abc", 3, None)
        .validate_max_length("a", "abc", 3, None)
        .validate_not_empty("a", "x", None)
        .validate_email("m", "a@b.c", None)
        .validate_url("u", "https://x", None)
        .validate_in_list("c", "red", &["red"], None);
    assert!(!v.has_errors());
}
