use vstd::prelude::*;
use argon2::password_hash::{PasswordHash, PasswordHasher, PasswordVerifier, SaltString};
use crate::error::APIError;

verus! {

/// The credentials a login request carries.
#[derive(Debug, PartialEq, Eq)]
pub struct LoginCredentials {
    pub username: String,
    pub password: String,
}

/// The debug knob of the search endpoints: with it set, the validated
/// query is echoed back instead of executed.
#[derive(Debug, Clone, Copy, PartialEq, Eq)]
pub struct DebugMode {
    pub debug: Option<bool>,
}

impl DebugMode {
    /// Whether the caller asked for the introspection path.
    pub fn enabled(&self) -> (r: bool)
        ensures
            r == (self.debug matches Some(true)),
    {
        match self.debug {
            Some(v) => v,
            None => false,
        }
    }
}

/// A plaintext password on its way to being hashed.
#[derive(Debug, PartialEq, Eq)]
pub struct UserPassword {
    pub password: String,
}

impl From<String> for UserPassword {
    fn from(value: String) -> (r: UserPassword) {
        UserPassword { password: value }
    }
}

impl vstd::std_specs::convert::FromSpecImpl<String> for UserPassword {
    open spec fn obeys_from_spec() -> bool {
        true
    }

    open spec fn from_spec(value: String) -> UserPassword {
        UserPassword { password: value }
    }
}

/// Whether `hash` parses as a well-formed password hash.  The name is
/// given meaning only through `UserPassword::verify_password`.
pub uninterp spec fn hash_parses(hash: Seq<char>) -> bool;

/// Whether `password` verifies against the stored `hash`.  The name is
/// given meaning only through `UserPassword::verify_password`.
pub uninterp spec fn password_matches(password: Seq<char>, hash: Seq<char>) -> bool;

/// The fault a failed password check reports: a mismatch against a
/// well-formed stored hash blames the credentials, anything else is an
/// internal fault.
pub open spec fn spec_password_check_error(hash: Seq<char>) -> APIError {
    if hash_parses(hash) {
        APIError::InvalidCredentials
    } else {
        APIError::ServerError
    }
}

impl UserPassword {
    /// Relies on argon2's PasswordHasher::hash_password with a salt
    /// drawn from the operating system: the salt is random, so the
    /// value itself cannot be pinned, but the produced hash embeds its
    /// own salt and parameters, parses back, and verifies the password
    /// it was made from.
    #[verifier::external_body]
    pub fn to_hash(&self) -> (r: Result<String, APIError>)
        ensures
            r matches Ok(h) ==> hash_parses(h@) && password_matches(self.password@, h@),
            r matches Err(e) ==> e == APIError::ServerError,
    {
        let salt = SaltString::generate(&mut argon2::password_hash::rand_core::OsRng);
        match argon2::Argon2::default().hash_password(self.password.as_bytes(), &salt) {
            Ok(hash) => Ok(hash.to_string()),
            Err(_) => Err(APIError::ServerError),
        }
    }

    /// Relies on argon2's PasswordHash::new, whose success depends on
    /// the stored hash alone, and Argon2::verify_password, whose
    /// outcome depends on the password and the hash alone: a password
    /// verifies if and only if both say so, a mismatch is an
    /// `InvalidCredentials` fault, and an unparsable stored hash an
    /// internal one.
    #[verifier::external_body]
    pub fn verify_password(user_input: &String, true_password: &str) -> (r: Result<(), APIError>)
        ensures
            r is Ok <==> (hash_parses(true_password@) && password_matches(
                user_input@,
                true_password@,
            )),
            r matches Err(e) ==> e == spec_password_check_error(true_password@),
    {
        let parsed_hash = match PasswordHash::new(true_password) {
            Ok(h) => h,
            Err(_) => {
                return Err(APIError::ServerError);
            },
        };
        match argon2::Argon2::default().verify_password(user_input.as_bytes(), &parsed_hash) {
            Ok(()) => Ok(()),
            Err(argon2::password_hash::Error::Password) => Err(APIError::InvalidCredentials),
            Err(_) => Err(APIError::ServerError),
        }
    }
}

/// The decision at the heart of a login: an unknown user or a wrong
/// password is an `InvalidCredentials` fault, an inactive account an
/// `InactiveUser` fault, and only an active account with a verified
/// password gets in.
pub fn authorize_login(
    user: Option<&crate::entitlement::User>,
    password: &String,
) -> (r: Result<(), APIError>)
    ensures
        r is Ok <==> (user matches Some(u) && u.active && hash_parses(u@.password)
            && password_matches(password@, u@.password)),
        user is None ==> r == Err::<(), APIError>(APIError::InvalidCredentials),
        (user matches Some(u) && !u.active) ==> r == Err::<(), APIError>(APIError::InactiveUser),
        user matches Some(u) ==> (u.active ==> (r matches Err(e) ==> e
            == spec_password_check_error(u@.password))),
    {
    match user {
        None => Err(APIError::InvalidCredentials),
        Some(u) => {
            if !u.active {
                return Err(APIError::InactiveUser);
            }
            match UserPassword::verify_password(password, u.password.as_str()) {
                Ok(()) => Ok(()),
                Err(e) => Err(e),
            }
        },
    }
}

/// Only an administrator may pass: the guard of every admin-only
/// route.
pub fn verify_admin(user: &crate::entitlement::User) -> (r: Result<(), APIError>)
    ensures
        r is Ok <==> user.is_superuser,
        r matches Err(e) ==> e == APIError::AdminOnlyResource,
{
    if !user.is_superuser {
        return Err(APIError::AdminOnlyResource);
    }
    Ok(())
}

} // verus!
