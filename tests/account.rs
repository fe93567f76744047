use smart_study::account::{login_decision, role_access, validate_registration, Access, User};
use smart_study::models::RegisterRequest;

fn request(username: &str, email: &str, password: &str) -> RegisterRequest {
    RegisterRequest { username: username.to_string(), email: email.to_string(), password: password.to_string() }
}

#[test]
fn new_user_is_unverified_student() {
    let u = User::new("ann".to_string(), "ann@example.com".to_string(), "hash".to_string());
    assert_eq!(u.id.len(), 36);
    assert_eq!(u.role, "student");
    assert!(!u.email_verified);
    assert!(u.profile_data.is_none());
    assert_eq!(u.created_at, u.updated_at);
    assert!(u.is_student() && !u.is_admin() && !u.is_teacher());
}

#[test]
fn user_ids_differ() {
    let a = User::new("a".to_string(), "a@x.io".to_string(), "h".to_string());
    let b = User::new("b".to_string(), "b@x.io".to_string(), "h".to_string());
    assert_ne!(a.id, b.id);
}

#[test]
fn role_checks() {
    let mut u = User::new("t".to_string(), "t@x.io".to_string(), "h".to_string());
    u.role = "teacher".to_string();
    assert!(u.is_teacher() && !u.is_student());
    u.role = "admin".to_string();
    assert!(u.is_admin());
}

#[test]
fn access_by_role() {
    assert_eq!(role_access(&None, "teacher"), Access::Unauthenticated);
    assert_eq!(role_access(&Some("teacher".to_string()), "teacher"), Access::Granted);
    assert_eq!(role_access(&Some("admin".to_string()), "teacher"), Access::Granted);
    assert_eq!(role_access(&Some("student".to_string()), "teacher"), Access::Forbidden);
}

#[test]
fn registration_checks_in_order() {
    assert!(validate_registration(&request("good_user", "g@example.com", "Passw0rd")).is_ok());
    assert_eq!(
        validate_registration(&request("x", "bad", "weak")),
        Err("Invalid email format".to_string())
    );
    assert_eq!(
        validate_registration(&request("x", "g@example.com", "weak")),
        Err("Username must be 3-20 characters and contain only letters, numbers, underscores, or hyphens".to_string())
    );
    assert_eq!(
        validate_registration(&request("good_user", "g@example.com", "weak")),
        Err("Password must be at least 8 characters long".to_string())
    );
}

#[test]
fn login_outcomes() {
    assert_eq!(login_decision(false, true), Err("Invalid username or password".to_string()));
    assert_eq!(
        login_decision(true, false),
        Err("Please verify your email before logging in".to_string())
    );
    assert_eq!(login_decision(true, true), Ok(()));
}
