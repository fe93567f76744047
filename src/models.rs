use vstd::prelude::*;

verus! {

/// Credentials for signing in.
pub struct LoginRequest {
    pub username: String,
    pub password: String,
    /// Keep the session beyond the browser's lifetime.
    pub remember_me: bool,
}

/// Data for creating an account.
pub struct RegisterRequest {
    pub username: String,
    pub email: String,
    pub password: String,
}

/// What a successful sign-in or sign-up reports back.
pub struct AuthResponse {
    pub message: String,
    pub user_id: String,
    pub username: String,
    pub role: String,
    pub email_verified: bool,
}

/// Asks for a password-reset token to be sent to `email`.
pub struct PasswordResetRequest {
    pub email: String,
}

/// Sets a new password with a reset token.
pub struct PasswordResetConfirm {
    pub token: String,
    pub new_password: String,
}

} // verus!
