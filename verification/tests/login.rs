use primer::login_enum::LoginAction;
use primer::{login_enum, login_simple};

#[test]
fn test_enums() {
    assert_eq!(login_enum::login("admin", "password"), LoginAction::Admin);
    assert_eq!(login_enum::login("bob", "password"), LoginAction::User);
    assert_eq!(login_enum::login("admin", "wrong"), LoginAction::Denied);
    assert_eq!(login_enum::login("wrong", "password"), LoginAction::Denied);
}

#[test]
fn test_login() {
    assert!(login_simple::login("admin", "password"));
    assert!(!login_simple::login("admin", "wrong"));
    assert!(!login_simple::login("wrong", "password"));
}

#[test]
fn user_name_is_matched_without_regard_to_case() {
    assert!(login_simple::login("ADMIN", "password"));
    assert!(login_simple::login("Admin", "password"));
    assert_eq!(login_enum::login("ADMIN", "password"), LoginAction::Admin);
    assert_eq!(login_enum::login("BoB", "password"), LoginAction::User);
}

#[test]
fn password_is_matched_exactly() {
    assert!(!login_simple::login("admin", "PASSWORD"));
    assert!(!login_simple::login("admin", "Password"));
    assert!(!login_simple::login("admin", ""));
    assert_eq!(login_enum::login("admin", "PASSWORD"), LoginAction::Denied);
    assert_eq!(login_enum::login("bob", "Password"), LoginAction::Denied);
}

#[test]
fn lowered_names_are_taken_as_they_are() {
    assert!(login_simple::check_credentials("admin", "password"));
    assert!(!login_simple::check_credentials("ADMIN", "password"));
    assert!(!login_simple::check_credentials("bob", "password"));
    assert_eq!(login_enum::decide("admin", "password"), LoginAction::Admin);
    assert_eq!(login_enum::decide("bob", "password"), LoginAction::User);
    assert_eq!(login_enum::decide("ADMIN", "password"), LoginAction::Denied);
    assert_eq!(login_enum::decide("Bob", "password"), LoginAction::Denied);
    assert_eq!(login_enum::decide("", ""), LoginAction::Denied);
}

#[test]
fn surrounding_blanks_are_not_dropped() {
    assert!(!login_simple::login(" admin", "password"));
    assert!(!login_simple::login("admin", "password "));
    assert_eq!(login_enum::login("bob ", "password"), LoginAction::Denied);
}
