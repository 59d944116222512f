//! Users, their roles and the login/session payloads of the web API.

use crate::error::Error;
use argon2::PasswordVerifier;
use vstd::prelude::*;

verus! {

/// Credentials submitted to log in.
#[derive(Debug, Clone)]
pub struct LoginRequest {
    pub email: String,
    pub password: String,
}

/// The session a logged-in user holds: who they are and their role.
#[derive(Debug, Clone)]
pub struct SessionResponse {
    pub email: String,
    pub role: Role,
}

/// The role of a user. Administrators rank above plain users.
#[derive(Debug, Clone, Copy, PartialEq, Eq, Structural)]
pub enum Role {
    User,
    Admin,
}

/// The rank of a role in the order `User < Admin`.
pub open spec fn role_rank(r: Role) -> int {
    match r {
        Role::User => 0,
        Role::Admin => 1,
    }
}

impl Role {
    /// Whether this role ranks at least as high as `required`.
    pub fn at_least(&self, required: &Role) -> (r: bool)
        ensures
            r == (role_rank(*self) >= role_rank(*required)),
    {
        match (self, required) {
            (Role::User, Role::Admin) => false,
            _ => true,
        }
    }
}

impl Default for Role {
    /// New users are plain users.
    fn default() -> (r: Role)
        ensures
            r == Role::User,
    {
        Role::User
    }
}

/// A user's permission on one namespace.
#[derive(Debug, Clone)]
pub struct Permission {
    pub id: u64,
    pub user: u64,
    pub namespace: u64,
    pub can_delete_ns: bool,
}

/// A registered user.
#[derive(Debug, Clone)]
pub struct User {
    pub id: u64,
    pub email: String,
    pub role: Role,
}

/// Whether an Argon2 password hash (in PHC string form) accepts a
/// password, as the `argon2` crate decides it.
pub uninterp spec fn argon2_accepts(hash: Seq<char>, password: Seq<u8>) -> bool;

/// `PasswordHashString::new` on the stored hash followed by
/// `Argon2::default().verify_password`: whether the hash parses and the
/// password hashes, under the parameters and salt the hash records, to the
/// recorded output. A function of the hash and the password alone.
#[verifier::external_body]
fn verify_password(hash: &str, password: &[u8]) -> (r: bool)
    ensures
        r == argon2_accepts(hash@, password@),
{
    match argon2::password_hash::PasswordHashString::new(hash) {
        Ok(h) => argon2::Argon2::default().verify_password(password, &h.password_hash()).is_ok(),
        Err(_) => false,
    }
}

/// The stored login data of a user: their password hash and role.
/// Longest password Argon2 hashes, in bytes (`argon2::MAX_PWD_LEN`).
pub const MAX_SECRET_LEN: u64 = 0xFFFF_FFFFu64;

/// `Argon2::default().hash_password` of `secret` under a fresh random salt
/// (`SaltString::generate` with the operating system's generator), as its
/// PHC string. With the default parameters and a generated salt it fails
/// only for a secret longer than `MAX_PWD_LEN` bytes. The salt is random,
/// so the text itself is not determined; what is stated is that the hash
/// accepts the secret it was made from.
#[verifier::external_body]
fn hash_with_fresh_salt(secret: &[u8]) -> (r: Result<String, String>)
    ensures
        r is Ok <==> secret@.len() <= MAX_SECRET_LEN,
        r matches Ok(h) ==> argon2_accepts(h@, secret@),
{
    let salt = argon2::password_hash::SaltString::generate(&mut rand::rngs::OsRng);
    match argon2::PasswordHasher::hash_password(&argon2::Argon2::default(), secret, &salt) {
        Ok(h) => Ok(h.to_string()),
        Err(e) => Err(e.to_string()),
    }
}

/// The stored hash of a password or API secret: an Argon2 hash under a
/// fresh salt that accepts the secret (see [`argon2_accepts`]). Hashing
/// succeeds exactly for a secret of at most [`MAX_SECRET_LEN`] UTF-8 bytes;
/// a longer one is an internal error.
pub fn hash_secret(secret: &str) -> (r: Result<String, Error>)
    ensures
        r is Ok <==> vstd::utf8::encode_utf8(secret@).len() <= MAX_SECRET_LEN,
        r matches Ok(h) ==> argon2_accepts(h@, vstd::utf8::encode_utf8(secret@)),
        r matches Err(e) ==> e is InternalServerError,
{
    match hash_with_fresh_salt(secret.as_bytes()) {
        Ok(h) => Ok(h),
        Err(m) => Err(Error::internal(m)),
    }
}

#[derive(Debug, Clone)]
pub struct LoginData {
    pub hashed_pass: String,
    pub role: Role,
}

/// The answer to a login attempt with `form`, given the stored login data
/// of the user with that email, if any: an unknown email is reported as
/// such, a password the stored hash does not accept is unauthorized, and
/// otherwise the session names the user and their role.
pub fn login(form: LoginRequest, stored: Option<LoginData>) -> (r: Result<SessionResponse, Error>)
    ensures
        match stored {
            None => r matches Err(Error::UserNotFound { email }) && email@ == form.email@,
            Some(d) => if argon2_accepts(d.hashed_pass@, vstd::utf8::encode_utf8(form.password@)) {
                r matches Ok(s) && s.email@ == form.email@ && s.role == d.role
            } else {
                r matches Err(Error::Unauthorized)
            },
        },
{
    let data = match stored {
        None => {
            return Err(Error::UserNotFound { email: form.email });
        },
        Some(d) => d,
    };
    if !verify_password(data.hashed_pass.as_str(), form.password.as_str().as_bytes()) {
        return Err(Error::Unauthorized);
    }
    Ok(SessionResponse { email: form.email, role: data.role })
}

} // verus!
