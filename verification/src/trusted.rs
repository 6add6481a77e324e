//! The calls that leave this crate: password hashing, fresh identifiers and
//! the clock. Their contracts are taken on trust from the crates they call.

use crate::store::{Id, Timestamp};
use vstd::prelude::*;

verus! {

/// Whether `pwhash::bcrypt::verify` finds that `hash` corresponds to
/// `password`.
pub uninterp spec fn bcrypt_accepts(password: Seq<char>, hash: Seq<char>) -> bool;

/// Every character is printable ASCII, U+0020 to U+007E, as the characters
/// of a bcrypt hash are.
pub open spec fn printable_ascii(s: Seq<char>) -> bool {
    forall|i: int| 0 <= i < s.len() ==> ' ' <= s[i] && s[i] <= '~'
}

#[verifier::external_type_specification]
#[verifier::external_body]
pub struct ExBcryptError(pwhash::error::Error);

/// `pwhash::bcrypt::hash`: hashes a password under a random salt with the
/// default cost. The salt differs from call to call, so of the string only
/// this is said: it corresponds to the password, and it is made of `$`,
/// digits and the letters of the crate's Base64 alphabet, all of them
/// printable ASCII. It fails where the system's random number generator
/// cannot be used.
#[verifier::external_body]
pub(crate) fn bcrypt_hash(clear_password: &str) -> (r: Result<String, pwhash::error::Error>)
    ensures
        r matches Ok(h) ==> bcrypt_accepts(clear_password@, h@) && printable_ascii(h@),
{
    pwhash::bcrypt::hash(clear_password)
}

/// `pwhash::bcrypt::verify`: whether the hash corresponds to the password.
/// The answer depends on the two strings alone; a string that is no bcrypt
/// hash corresponds to no password. The time it takes doubles with each step
/// of the cost that the hash string names.
///
/// The salt decoder of the crate subtracts 0x20 from each character and looks
/// the difference up in a table of 96 entries: a character below U+0020 makes
/// the subtraction overflow, and U+0080 is looked up past the table's end. The
/// precondition leaves both out.
#[verifier::external_body]
pub(crate) fn bcrypt_verify(clear_password: &str, hash: &str) -> (r: bool)
    requires
        printable_ascii(hash@),
    ensures
        r == bcrypt_accepts(clear_password@, hash@),
{
    pwhash::bcrypt::verify(clear_password, hash)
}

/// `uuid::Uuid::new_v4` and `Uuid::as_u128`: the bits of a random UUID.
/// Nothing is promised of them.
#[verifier::external_body]
pub(crate) fn random_id() -> Id {
    uuid::Uuid::new_v4().as_u128()
}

/// `chrono::Utc::now` and `DateTime::timestamp_micros`: the current time in
/// microseconds since the Unix epoch. Nothing is promised of it.
#[verifier::external_body]
pub(crate) fn current_time() -> Timestamp {
    chrono::Utc::now().timestamp_micros()
}

} // verus!
