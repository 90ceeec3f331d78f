//! Credential and one-time-code utilities: password hashing and
//! verification, generation of the six-digit email verification code, and
//! the exact comparisons the verification workflow performs.

use vstd::prelude::*;
use crate::codec::spec_decimal;
use crate::codec::to_decimal_string;

verus! {

/// The verdict of Argon2 password verification: whether `password` matches
/// the PHC-formatted `hash`. The verdict is a function of the two strings
/// alone; the algorithm itself is left unstated and only this name relates
/// hashing to checking.
pub uninterp spec fn verifies(password: Seq<char>, hash: Seq<char>) -> bool;

/// Relies on `argon2::Argon2::hash_password` (through the `PasswordHasher`
/// trait) with a salt freshly drawn from the operating system: the returned
/// PHC string embeds algorithm, parameters and salt, and verifying the same
/// password against it succeeds. With the default parameters and a
/// generated salt the hash call itself cannot fail.
#[verifier::external_body]
pub fn hash_password(password: String) -> (r: String)
    requires
        password@.len() < 0x10000000,
    ensures
        verifies(password@, r@),
{
    let salt = argon2::password_hash::SaltString::generate(&mut rand_core::OsRng);
    let hasher = argon2::Argon2::default();
    let hash = argon2::PasswordHasher::hash_password(&hasher, password.as_bytes(), &salt)
        .unwrap()
        .to_string();
    hash
}

/// Relies on `argon2::Argon2::verify_password` (through the
/// `PasswordVerifier` trait): parses `db_password` as a PHC string and
/// checks `inputted_password` against it. A malformed hash or a mismatch
/// yields `false`; nothing panics.
#[verifier::external_body]
pub fn compare_password(inputted_password: &str, db_password: &str) -> (r: bool)
    ensures
        r == verifies(inputted_password@, db_password@),
{
    let parse_hash = argon2::PasswordHash::new(db_password);
    if let Ok(hash) = parse_hash {
        argon2::PasswordVerifier::verify_password(
            &argon2::Argon2::default(),
            inputted_password.as_bytes(),
            &hash,
        )
            .is_ok()
    } else {
        false
    }
}

/// Relies on `rand::Rng::random_range` over `100_000..1_000_000`: the draw
/// lies in that range; nothing more is promised of a random value.
#[verifier::external_body]
fn random_code_value() -> (r: u32)
    ensures
        100000 <= r < 1000000,
{
    let mut rng = rand::rng();
    rand::Rng::random_range(&mut rng, 100_000..1_000_000)
}

/// What a verification code looks like: the decimal rendering of some
/// value in the six-digit range.
pub open spec fn is_verification_code(s: Seq<char>) -> bool {
    exists|n: u32| 100000 <= n < 1000000 && s == spec_decimal(n as nat)
}

/// Draws a fresh verification code: the decimal rendering of a random value
/// in `100000..=999999`, hence always six digit characters.
pub fn generate_code() -> (r: String)
    ensures
        is_verification_code(r@),
        r@.len() == 6,
        forall|i: int| 0 <= i < r@.len() ==> 48 <= #[trigger] r@[i] as u32 <= 57,
{
    let n = random_code_value();
    let s = to_decimal_string(n);
    proof {
        crate::codec::lemma_decimal_six_digits(n as nat);
        crate::codec::lemma_decimal_all_digits(n as nat);
    }
    s
}

/// Exact comparison of a submitted code against the stored one.
pub fn check_code(code_user: &String, code_db: String) -> (r: bool)
    ensures
        r == (code_db@ == code_user@),
{
    if code_db.eq(code_user) {
        return true;
    }
    false
}

/// Exact comparison of a candidate email against the stored one, used to
/// decide whether a profile edit keeps the address unchanged.
pub fn compare_email(inputted_email: &String, stored_email: &String) -> (r: bool)
    ensures
        r == (inputted_email@ == stored_email@),
{
    inputted_email.eq(stored_email)
}

} // verus!
