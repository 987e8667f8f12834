//! Password hashing and verification with Argon2.
//!
//! The hashes are PHC strings as the `argon2` crate writes and reads them.
//! What that crate decides of a password and a hash is taken as given; what
//! this module makes of the decision is proved.

use argon2::password_hash::rand_core::{OsRng, RngCore};
use argon2::password_hash::{Error, PasswordHash, PasswordHasher, PasswordVerifier, SaltString};
use argon2::Argon2;
use vstd::prelude::*;

verus! {

/// Why hashing or verification failed.
#[derive(Debug)]
pub enum AuthError {
    /// The password is not the one that the hash was made from.
    Password,
    /// Any other failure, with the message that the `argon2` crate gives.
    Failed(String),
}

/// What the `argon2` crate made of a password and a stored hash.
#[derive(Debug)]
pub enum HashCheck {
    /// The hash was made from the password.
    Verified,
    /// The hash was read, and verification failed with the given error.
    Rejected(AuthError),
    /// The hash could not be read as a PHC string.
    Malformed(AuthError),
}

/// What the `argon2` crate makes of `password` and the stored `hash`: a
/// function of the two strings alone.
pub uninterp spec fn argon2_check(password: Seq<char>, hash: Seq<char>) -> HashCheck;

/// Reads `hash` with `PasswordHash::new` and verifies `password` against it
/// with `Argon2::default().verify_password`. The outcome depends on the two
/// strings alone; nothing more is claimed of it.
#[verifier::external_body]
fn check_hash(password: &str, hash: &str) -> (check: HashCheck)
    ensures
        check == argon2_check(password@, hash@),
{
    match PasswordHash::new(hash) {
        Err(Error::Password) => HashCheck::Malformed(AuthError::Password),
        Err(e) => HashCheck::Malformed(AuthError::Failed(e.to_string())),
        Ok(parsed) => match Argon2::default().verify_password(password.as_bytes(), &parsed) {
            Ok(()) => HashCheck::Verified,
            Err(Error::Password) => HashCheck::Rejected(AuthError::Password),
            Err(e) => HashCheck::Rejected(AuthError::Failed(e.to_string())),
        },
    }
}

/// The number of random bytes that a salt is made from: the length that the
/// `password-hash` crate recommends.
pub const SEED_LENGTH: usize = 16;

/// Fills `seed` with random bytes from the operating system, through
/// `OsRng::try_fill_bytes`. The bytes are random and the source may fail, so
/// nothing is claimed of the outcome.
#[verifier::external_body]
fn fill_random(seed: &mut [u8; 16]) -> Result<(), AuthError> {
    OsRng.try_fill_bytes(seed).map_err(|e| AuthError::Failed(e.to_string()))
}

/// The hash that the `argon2` crate makes of `password` under the salt that
/// is made of the bytes `seed`, or the error it fails with: a function of the
/// password and the bytes alone.
pub uninterp spec fn argon2_hash(password: Seq<char>, seed: Seq<u8>) -> Result<String, AuthError>;

/// Writes `seed` out as a salt with `SaltString::encode_b64` and hashes
/// `password` under it with `Argon2::default().hash_password`. The outcome
/// depends on the password and the seed alone; nothing more is claimed of
/// it.
#[verifier::external_body]
fn hash_with_seed(password: &str, seed: &[u8; 16]) -> (hashed: Result<String, AuthError>)
    ensures
        hashed == argon2_hash(password@, seed@),
{
    let hashed = SaltString::encode_b64(seed).and_then(
        |salt| Argon2::default().hash_password(password.as_bytes(), &salt).map(|h| h.to_string()),
    );
    match hashed {
        Ok(hash) => Ok(hash),
        Err(Error::Password) => Err(AuthError::Password),
        Err(e) => Err(AuthError::Failed(e.to_string())),
    }
}

/// What comes of hashing `password` once a seed was drawn: the error of the
/// draw where it failed, and else what the `argon2` crate makes of the
/// password and the seed.
pub open spec fn hash_outcome(
    password: Seq<char>,
    drawn: Result<(), AuthError>,
    seed: Seq<u8>,
) -> Result<String, AuthError> {
    match drawn {
        Ok(()) => argon2_hash(password, seed),
        Err(e) => Err(e),
    }
}

/// The answer to "is this the right password": yes when the hash was
/// verified, no when verification failed because the password is wrong, and
/// an error in every other case.
pub open spec fn verdict(check: HashCheck) -> Result<bool, AuthError> {
    match check {
        HashCheck::Verified => Ok(true),
        HashCheck::Rejected(AuthError::Password) => Ok(false),
        HashCheck::Rejected(e) => Err(e),
        HashCheck::Malformed(e) => Err(e),
    }
}

/// What a hash is worth once it was checked against the password it was
/// made from: the hash itself unless hashing or the check failed.
pub open spec fn confirmed(
    password: Seq<char>,
    hashed: Result<String, AuthError>,
) -> Result<String, AuthError> {
    match hashed {
        Ok(hash) => match verdict(argon2_check(password, hash@)) {
            Ok(_) => Ok(hash),
            Err(e) => Err(e),
        },
        Err(e) => Err(e),
    }
}

/// What was found when a user's stored hash was looked up.
#[derive(Debug)]
pub enum StoredHash {
    /// The user exists, and this is the stored hash.
    Found(String),
    /// There is no such user.
    Missing,
    /// The lookup itself failed.
    Unavailable,
}

/// Whether a user is let in: only with the right password, never when the
/// user is missing, and with the error `Password` whenever anything fails.
pub open spec fn admission(stored: StoredHash, password: Seq<char>) -> Result<bool, AuthError> {
    match stored {
        StoredHash::Found(hash) => match verdict(argon2_check(password, hash@)) {
            Ok(valid) => Ok(valid),
            Err(_) => Err(AuthError::Password),
        },
        StoredHash::Missing => Ok(false),
        StoredHash::Unavailable => Err(AuthError::Password),
    }
}

/// Hashes and verifies passwords.
#[derive(Debug)]
pub struct AuthenticationService;

impl AuthenticationService {
    /// A service. It holds no state.
    pub fn new() -> (service: Self)
        ensures
            service == AuthenticationService,
    {
        AuthenticationService
    }

    /// Hashes `password` under the salt made of `seed`, unless drawing the
    /// seed failed: then the error of the draw is handed on.
    pub fn hash_under(&self, password: &str, drawn: Result<(), AuthError>, seed: &[u8; 16]) -> (hash:
        Result<String, AuthError>)
        ensures
            hash == hash_outcome(password@, drawn, seed@),
    {
        match drawn {
            Ok(()) => hash_with_seed(password, seed),
            Err(e) => Err(e),
        }
    }

    /// Hashes `password` under a fresh random salt: a seed of `SEED_LENGTH`
    /// bytes is drawn from the operating system, and the result is what
    /// comes of hashing the password with that draw and that seed.
    pub fn hash_password(&self, password: &str) -> (hash: Result<String, AuthError>)
        ensures
            exists|drawn: Result<(), AuthError>, seed: Seq<u8>|
                seed.len() == SEED_LENGTH && hash == #[trigger] hash_outcome(
                    password@,
                    drawn,
                    seed,
                ),
    {
        let mut seed: [u8; 16] = [0u8; 16];
        let drawn = fill_random(&mut seed);
        let hash = self.hash_under(password, drawn, &seed);
        assert(seed@.len() == SEED_LENGTH && hash == hash_outcome(password@, drawn, seed@));
        hash
    }

    /// Turns the outcome of a check into an answer: see `verdict`.
    pub fn judge(&self, check: HashCheck) -> (answer: Result<bool, AuthError>)
        ensures
            answer == verdict(check),
    {
        match check {
            HashCheck::Verified => Ok(true),
            HashCheck::Rejected(AuthError::Password) => Ok(false),
            HashCheck::Rejected(e) => Err(e),
            HashCheck::Malformed(e) => Err(e),
        }
    }

    /// Tells whether `hash` was made from `password`.
    pub fn verify_password(&self, password: &str, hash: &str) -> (answer: Result<bool, AuthError>)
        ensures
            answer == verdict(argon2_check(password@, hash@)),
    {
        self.judge(check_hash(password, hash))
    }

    /// Checks a freshly made hash against the password it was made from,
    /// and hands the hash on unless hashing or the check failed. A hash that
    /// the check reads but does not verify is handed on as well.
    pub fn confirm(&self, password: &str, hashed: Result<String, AuthError>) -> (hash: Result<
        String,
        AuthError,
    >)
        ensures
            hash == confirmed(password@, hashed),
    {
        match hashed {
            Ok(hash) => match self.verify_password(password, hash.as_str()) {
                Ok(_) => Ok(hash),
                Err(e) => Err(e),
            },
            Err(e) => Err(e),
        }
    }

    /// Hashes `password` under a fresh random salt and checks the hash
    /// against it: the result is what the hash is worth once it was checked.
    /// A hash comes back exactly when the seed was drawn, the password was
    /// hashed, and the check read the hash without an error.
    pub fn hash_and_verify(&self, password: &str) -> (hash: Result<String, AuthError>)
        ensures
            exists|drawn: Result<(), AuthError>, seed: Seq<u8>|
                seed.len() == SEED_LENGTH && hash == confirmed(
                    password@,
                    #[trigger] hash_outcome(password@, drawn, seed),
                ),
            hash matches Ok(h) ==> verdict(argon2_check(password@, h@)) is Ok,
    {
        let hashed = self.hash_password(password);
        self.confirm(password, hashed)
    }

    /// Decides whether a user is let in, from what the lookup of the stored
    /// hash gave and the password that was offered.
    pub fn authenticate_user(&self, stored: StoredHash, password: &str) -> (answer: Result<
        bool,
        AuthError,
    >)
        ensures
            answer == admission(stored, password@),
    {
        match stored {
            StoredHash::Found(hash) => match self.verify_password(password, hash.as_str()) {
                Ok(valid) => Ok(valid),
                Err(_) => Err(AuthError::Password),
            },
            StoredHash::Missing => Ok(false),
            StoredHash::Unavailable => Err(AuthError::Password),
        }
    }
}

} // verus!
