use argon2::password_hash::{PasswordHasher, SaltString};
use argon2::Argon2;
use vstd::prelude::*;

verus! {

/// The PHC string of the Argon2id hash (default parameters) of a password's
/// UTF-8 bytes with the given salt.
pub uninterp spec fn argon2id_phc(password: Seq<char>, salt: Seq<u8>) -> Seq<char>;

/// How every Argon2id PHC string begins.
pub open spec fn argon2id_tag() -> Seq<char> {
    seq!['$', 'a', 'r', 'g', 'o', 'n', '2', 'i', 'd', '$']
}

/// Relies on argon2's `SaltString::encode_b64` and `Argon2::default()` with
/// `PasswordHasher::hash_password`, rendered by `PasswordHash`'s `Display`:
/// the hash is a function of password and salt, and its PHC string starts
/// with `$argon2id$`. A salt of 8 to 48 bytes (48 bytes fill the 64
/// characters a PHC salt may have) and a password of at most `u32::MAX` bytes
/// always succeed; a shorter salt can make `SaltString` panic, so it is
/// excluded.
#[verifier::external_body]
pub(crate) fn argon2id_hash(password: &str, salt: &[u8]) -> (r: Option<String>)
    requires
        8 <= salt@.len() <= 48,
        password.len() <= 0xFFFF_FFFF,
    ensures
        r is Some,
        r matches Some(h) ==> h@ == argon2id_phc(password@, salt@),
        r matches Some(h) ==> h@.len() >= 10 && h@.subrange(0, 10) == argon2id_tag(),
{
    let salt = SaltString::encode_b64(salt).ok()?;
    Argon2::default().hash_password(password.as_bytes(), &salt).ok().map(|h| h.to_string())
}

} // verus!
