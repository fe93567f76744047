use vstd::prelude::*;
use crate::models::RegisterRequest;
use crate::validation::{
    class_count, password_too_short_message, password_too_simple_message, regex_outcome, utf8_len,
    Validation, EMAIL_PATTERN, USERNAME_PATTERN,
};

verus! {

/// Relies on uuid::Uuid::new_v4 and its `Display`, the hyphenated form of
/// 36 characters.
#[verifier::external_body]
fn fresh_id() -> (r: String)
    ensures
        r@.len() == 36,
{
    uuid::Uuid::new_v4().to_string()
}

/// Relies on chrono::Utc::now and DateTime::timestamp: the current time in
/// seconds since the Unix epoch.
#[verifier::external_body]
fn now_seconds() -> (r: i64) {
    chrono::Utc::now().timestamp()
}

/// An account. Times are seconds since the Unix epoch, UTC.
#[derive(Debug, PartialEq, Eq)]
pub struct User {
    pub id: String,
    pub username: String,
    pub email: String,
    pub password_hash: String,
    /// `student`, `teacher` or `admin`.
    pub role: String,
    pub email_verified: bool,
    /// Profile settings as JSON text.
    pub profile_data: Option<String>,
    pub created_at: i64,
    pub updated_at: i64,
}

impl User {
    /// A new, unverified student account with a fresh id, created now.
    pub fn new(username: String, email: String, password_hash: String) -> (r: Self)
        ensures
            r.id@.len() == 36,
            r.username == username,
            r.email == email,
            r.password_hash == password_hash,
            r.role@ == "student"@,
            !r.email_verified,
            r.profile_data is None,
            r.created_at == r.updated_at,
    {
        let now = now_seconds();
        User {
            id: fresh_id(),
            username,
            email,
            password_hash,
            role: "student".to_string(),
            email_verified: false,
            profile_data: None,
            created_at: now,
            updated_at: now,
        }
    }

    pub fn is_admin(&self) -> (r: bool)
        ensures
            r == (self.role@ == "admin"@),
    {
        self.role == "admin".to_string()
    }

    pub fn is_teacher(&self) -> (r: bool)
        ensures
            r == (self.role@ == "teacher"@),
    {
        self.role == "teacher".to_string()
    }

    pub fn is_student(&self) -> (r: bool)
        ensures
            r == (self.role@ == "student"@),
    {
        self.role == "student".to_string()
    }
}

/// The outcome of a role check.
#[derive(Clone, Copy, PartialEq, Eq, Structural, Debug)]
pub enum Access {
    Granted,
    /// Signed in, but with another role.
    Forbidden,
    /// Not signed in.
    Unauthenticated,
}

/// Whether a caller whose session holds `role` may use what
/// `required_role` guards; administrators may use everything.
pub fn role_access(role: &Option<String>, required_role: &str) -> (r: Access)
    ensures
        role is None ==> r == Access::Unauthenticated,
        role matches Some(x) ==> (r == Access::Granted <==> (x@ == required_role@ || x@
            == "admin"@)),
        role matches Some(x) ==> (r == Access::Forbidden <==> !(x@ == required_role@ || x@
            == "admin"@)),
{
    match role {
        None => Access::Unauthenticated,
        Some(x) => {
            if *x == required_role.to_string() || *x == "admin".to_string() {
                Access::Granted
            } else {
                Access::Forbidden
            }
        },
    }
}

/// Checks a sign-up: the e-mail, then the username, then the password;
/// the first failure is reported.
pub fn validate_registration(request: &RegisterRequest) -> (r: Result<(), String>)
    ensures
        r is Ok <==> regex_outcome(EMAIL_PATTERN@, request.email@) == Some(true) && regex_outcome(
            USERNAME_PATTERN@,
            request.username@,
        ) == Some(true) && utf8_len(request.password@) >= 8 && class_count(request.password@) >= 3,
        r matches Err(m) ==> if regex_outcome(EMAIL_PATTERN@, request.email@) != Some(true) {
            m@ == "Invalid email format"@
        } else if regex_outcome(USERNAME_PATTERN@, request.username@) != Some(true) {
            m@
                == "Username must be 3-20 characters and contain only letters, numbers, underscores, or hyphens"@
        } else if utf8_len(request.password@) < 8 {
            m@ == password_too_short_message()
        } else {
            m@ == password_too_simple_message()
        },
{
    Validation::validate_email(request.email.as_str())?;
    Validation::validate_username(request.username.as_str())?;
    Validation::validate_password_strength(request.password.as_str())
}

/// Decides a sign-in once the password has been checked.
pub fn login_decision(credentials_valid: bool, email_verified: bool) -> (r: Result<(), String>)
    ensures
        r is Ok <==> credentials_valid && email_verified,
        r matches Err(m) ==> m@ == if !credentials_valid {
            "Invalid username or password"@
        } else {
            "Please verify your email before logging in"@
        },
{
    if !credentials_valid {
        Err("Invalid username or password".to_string())
    } else if !email_verified {
        Err("Please verify your email before logging in".to_string())
    } else {
        Ok(())
    }
}

} // verus!
