use vstd::prelude::*;
use bcrypt::BcryptError;

verus! {

#[verifier::external_type_specification]
#[verifier::external_body]
pub struct ExBcryptError(BcryptError);

/// Whether a password matches a stored bcrypt hash; `None` where the hash
/// cannot be read as one.
pub uninterp spec fn bcrypt_verdict(password: Seq<char>, hash: Seq<char>) -> Option<bool>;

/// Relies on bcrypt::hash at bcrypt::DEFAULT_COST: a hash under a fresh random
/// salt, written in the 60-character `$2b$` form, which bcrypt::verify accepts
/// for the same password (it rehashes with the cost and salt read back).
#[verifier::external_body]
fn hash_password(password: &String) -> (r: Result<String, BcryptError>)
    ensures
        r matches Ok(h) ==> h@.len() == 60 && bcrypt_verdict(password@, h@) == Some(true),
{
    bcrypt::hash(password.as_bytes(), bcrypt::DEFAULT_COST)
}

/// Relies on bcrypt::verify: the verdict depends on the password and the hash
/// alone, and a hash that is not 60 characters long is refused.
#[verifier::external_body]
fn verify_password(password: &String, hash: &String) -> (r: Result<bool, BcryptError>)
    ensures
        match r {
            Ok(b) => bcrypt_verdict(password@, hash@) == Some(b),
            Err(_) => bcrypt_verdict(password@, hash@) is None,
        },
        hash@.len() != 60 ==> r is Err,
{
    bcrypt::verify(password.as_bytes(), hash.as_str())
}

/// An account ready to be stored: the password is kept only as its hash.
#[derive(Debug)]
pub struct Registration {
    pub username: String,
    pub email: String,
    pub password_hash: String,
}

/// Why an account could not be prepared.
#[derive(Clone, Copy, Debug, PartialEq, Eq, Structural)]
pub enum RegisterError {
    /// The username, the email or the password is empty.
    MissingFields,
    /// Hashing failed (no randomness for the salt).
    HashFailed,
}

/// What is on record for a username.
#[derive(Debug)]
pub struct StoredCredentials {
    pub user_id: String,
    pub password_hash: String,
}

/// Why a login was refused.
#[derive(Clone, Copy, Debug, PartialEq, Eq, Structural)]
pub enum LoginError {
    /// No such user, or the wrong password; the two are not told apart.
    InvalidCredentials,
    /// The stored hash could not be read.
    VerificationFailed,
}

/// Every field of a registration is given.
pub open spec fn registration_complete(username: Seq<char>, email: Seq<char>, password: Seq<char>) -> bool {
    username.len() > 0 && email.len() > 0 && password.len() > 0
}

/// Prepares an account: every field must be given, and the password is
/// replaced by a salted hash that verifies it.
pub fn prepare_registration(username: String, email: String, password: &String) -> (r: Result<Registration, RegisterError>)
    ensures
        (r == Err::<Registration, RegisterError>(RegisterError::MissingFields)) == !registration_complete(username@, email@, password@),
        r matches Ok(reg) ==> reg.username == username && reg.email == email && reg.password_hash@.len() == 60
            && bcrypt_verdict(password@, reg.password_hash@) == Some(true),
{
    if username.as_str().is_empty() || email.as_str().is_empty() || password.as_str().is_empty() {
        return Err(RegisterError::MissingFields);
    }
    match hash_password(password) {
        Ok(password_hash) => Ok(Registration { username, email, password_hash }),
        Err(_) => Err(RegisterError::HashFailed),
    }
}

/// The login outcome for a user on record, given the verdict on the password:
/// the user's id on a match, a refusal on a mismatch, a failure where the
/// stored hash could not be read.
pub fn decide_login(user_id: String, verdict: Option<bool>) -> (r: Result<String, LoginError>)
    ensures
        r == (match verdict {
            Some(true) => Ok(user_id),
            Some(false) => Err(LoginError::InvalidCredentials),
            None => Err(LoginError::VerificationFailed),
        }),
{
    match verdict {
        Some(true) => Ok(user_id),
        Some(false) => Err(LoginError::InvalidCredentials),
        None => Err(LoginError::VerificationFailed),
    }
}

/// Checks a password against what is on record for a username; `None` for an
/// unknown username, which is refused like a wrong password.
pub fn authenticate(found: Option<StoredCredentials>, password: &String) -> (r: Result<String, LoginError>)
    ensures
        match found {
            None => r == Err::<String, LoginError>(LoginError::InvalidCredentials),
            Some(c) => r == (match bcrypt_verdict(password@, c.password_hash@) {
                Some(true) => Ok(c.user_id),
                Some(false) => Err(LoginError::InvalidCredentials),
                None => Err(LoginError::VerificationFailed),
            }),
        },
{
    match found {
        None => Err(LoginError::InvalidCredentials),
        Some(c) => {
            let verdict = match verify_password(password, &c.password_hash) {
                Ok(b) => Some(b),
                Err(_) => None,
            };
            decide_login(c.user_id, verdict)
        },
    }
}

} // verus!
