//! Password records: what is stored in place of a password, and the check of
//! a password against it.
//!
//! A record is a PHC string of Argon2 with the crate's default parameters:
//! it names the algorithm, its version and costs, the salt and the hash, so
//! that it can be checked with nothing else at hand.

use argon2::password_hash::rand_core::OsRng;
use argon2::password_hash::{PasswordHash, PasswordHasher, PasswordVerifier, SaltString};
use argon2::Argon2;
use vstd::prelude::*;

verus! {

/// Why a password was not accepted, or a record not made.
#[derive(Clone, Copy, Debug, PartialEq, Eq, Structural)]
pub enum Error {
    /// The record is sound and the password is not the one it was made from.
    Mismatch,
    /// The record cannot be read: it is damaged, not contradicted.
    Malformed,
    /// The hashing backend refused to make a record.
    Internal,
}

/// How Argon2 judges a password against a record.
#[derive(Clone, Copy, Debug, PartialEq, Eq, Structural)]
pub enum Verdict {
    /// The record parses and the password hashes to what it holds.
    Accepted,
    /// The backend answered with its `Password` error.
    Rejected,
    /// The backend answered with any other error.
    Unreadable,
}

/// The record that `Argon2::default()` makes of `password` under `salt`, or
/// none where it refuses the salt or the password.
pub uninterp spec fn argon2_record(password: Seq<u8>, salt: Seq<char>) -> Option<Seq<char>>;

/// The verdict of `Argon2::default()` on `password` against what
/// `PasswordHash::new` reads from `record`.
pub uninterp spec fn argon2_verdict(password: Seq<u8>, record: Seq<char>) -> Verdict;

/// What checking `password` against `record` comes to.
pub open spec fn verify_outcome(password: Seq<u8>, record: Seq<char>) -> Result<(), Error> {
    match argon2_verdict(password, record) {
        Verdict::Accepted => Ok(()),
        Verdict::Rejected => Err(Error::Mismatch),
        Verdict::Unreadable => Err(Error::Malformed),
    }
}

/// `record` is sound: no password finds it malformed.
pub open spec fn readable(record: Seq<char>) -> bool {
    forall|password: Seq<u8>| #[trigger] argon2_verdict(password, record) != Verdict::Unreadable
}

/// `record` names `salt`: no password has this record under another salt.
pub open spec fn salted_with(record: Seq<char>, salt: Seq<char>) -> bool {
    forall|password: Seq<u8>, other: Seq<char>| #[trigger]
        argon2_record(password, other) == Some(record) ==> other == salt
}

/// `outcome` is what hashing `password` under `salt` comes to, and a record
/// in it accepts `password`, names `salt` and is sound.
pub open spec fn hashed_under(
    password: Seq<u8>,
    salt: Seq<char>,
    outcome: Result<String, Error>,
) -> bool {
    match outcome {
        Ok(record) => {
            &&& argon2_record(password, salt) == Some(record@)
            &&& verify_outcome(password, record@) == Ok::<(), Error>(())
            &&& readable(record@)
            &&& salted_with(record@, salt)
        },
        Err(e) => e == Error::Internal && argon2_record(password, salt) is None,
    }
}

/// Calls `SaltString::generate` with the operating system's random source
/// and hands the salt out as text.
///
/// Trusted, with nothing claimed: no two draws need agree.
#[verifier::external_body]
fn fresh_salt() -> String {
    SaltString::generate(&mut OsRng).as_str().to_owned()
}

/// Reads `salt` with `SaltString::from_b64` and calls
/// `PasswordHasher::hash_password` on `Argon2::default()`.
///
/// Trusted: whether a record comes, and which, rests on password and salt
/// alone. A record that comes is accepted for the password it was made
/// from, since the check hashes again with the salt and costs the record
/// names; it parses and names sound costs, so that no password finds it
/// unreadable; and it spells its salt out between two `$`, so that no other
/// salt gives the same record. The backend's error is dropped: every one of
/// them means that no record was made.
#[verifier::external_body]
fn derive(password: &[u8], salt: &str) -> (r: Option<String>)
    ensures
        match r {
            Some(record) => argon2_record(password@, salt@) == Some(record@),
            None => argon2_record(password@, salt@) is None,
        },
        r matches Some(record) ==> argon2_verdict(password@, record@) == Verdict::Accepted,
        r matches Some(record) ==> readable(record@),
        r matches Some(record) ==> salted_with(record@, salt@),
{
    let salt = SaltString::from_b64(salt).ok()?;
    let hash = Argon2::default().hash_password(password, &salt).ok()?;
    Some(hash.to_string())
}

/// Reads `record` with `PasswordHash::new` and calls
/// `PasswordVerifier::verify_password` on `Argon2::default()`.
///
/// Trusted: the verdict rests on password and record alone. The backend's
/// errors are told apart here, since their type is closed to the verifier.
#[verifier::external_body]
fn judge(password: &[u8], record: &str) -> (r: Verdict)
    ensures
        r == argon2_verdict(password@, record@),
{
    let checked = match PasswordHash::new(record) {
        Ok(hash) => Argon2::default().verify_password(password, &hash),
        Err(e) => Err(e),
    };
    match checked {
        Ok(()) => Verdict::Accepted,
        Err(argon2::password_hash::Error::Password) => Verdict::Rejected,
        Err(_) => Verdict::Unreadable,
    }
}

/// Makes the record of `password` under `salt`.
///
/// A record that comes accepts `password`, and finds any other password
/// matching or mismatched, never malformed. Records made under two salts
/// are two records.
pub fn hash_password_with_salt(password: &[u8], salt: &str) -> (r: Result<String, Error>)
    ensures
        hashed_under(password@, salt@, r),
{
    match derive(password, salt) {
        Some(record) => Ok(record),
        None => Err(Error::Internal),
    }
}

/// Makes a record of `password` under a salt drawn for this call.
pub fn hash_password(password: &[u8]) -> (r: Result<String, Error>)
    ensures
        exists|salt: Seq<char>| #[trigger] hashed_under(password@, salt, r),
{
    let salt = fresh_salt();
    let r = hash_password_with_salt(password, salt.as_str());
    proof {
        assert(hashed_under(password@, salt@, r));
    }
    r
}

/// Two records made under different salts differ, whatever the passwords.
pub proof fn law_salts_part_records(
    first: Seq<u8>,
    first_salt: Seq<char>,
    first_outcome: Result<String, Error>,
    second: Seq<u8>,
    second_salt: Seq<char>,
    second_outcome: Result<String, Error>,
)
    requires
        hashed_under(first, first_salt, first_outcome),
        hashed_under(second, second_salt, second_outcome),
        first_salt != second_salt,
    ensures
        first_outcome matches Ok(a) ==> (second_outcome matches Ok(b) ==> a@ != b@),
{
}

/// A record made from one password answers another with a mismatch, unless
/// the backend takes the other password for the first.
pub proof fn law_other_password_mismatches(
    password: Seq<u8>,
    salt: Seq<char>,
    outcome: Result<String, Error>,
    other: Seq<u8>,
)
    requires
        hashed_under(password, salt, outcome),
        outcome is Ok,
        argon2_verdict(other, outcome->Ok_0@) != Verdict::Accepted,
    ensures
        verify_outcome(other, outcome->Ok_0@) == Err::<(), Error>(Error::Mismatch),
{
    assert(argon2_verdict(other, outcome->Ok_0@) != Verdict::Unreadable);
}

/// Checks `password` against `record`.
pub fn verify_password(password: &[u8], record: &str) -> (r: Result<(), Error>)
    ensures
        r == verify_outcome(password@, record@),
{
    match judge(password, record) {
        Verdict::Accepted => Ok(()),
        Verdict::Rejected => Err(Error::Mismatch),
        Verdict::Unreadable => Err(Error::Malformed),
    }
}

} // verus!
