//! The digest that stands for a password.
//!
//! Rooms store, and peers attach, not a password but its digest. Both sides
//! compute it in the same way, with the same salt, so that equal passwords
//! give equal digests and the host can compare what it is sent with what it
//! holds.

use crate::schema::opt_text;
use vstd::prelude::*;

verus! {

/// The salt of every digest, in the alphabet that the hashing crate wants.
pub const PASSWORD_SALT: &'static str = "c3VwZXJzZWNyZXRzYWx0";

/// What Argon2, with the crate's default parameters, makes of a password and
/// a salt: the digest in its textual form, or `None` where the crate reports
/// an error.
pub uninterp spec fn argon2_digest(passwd: Seq<char>, salt: Seq<char>) -> Option<Seq<char>>;

/// Calls `argon2::Argon2::default().hash_password` on the bytes of `passwd`
/// with the salt that `password_hash::Salt::from_b64` reads from `salt`, and
/// returns the text of the `hash` field of what comes back. Nothing is
/// claimed of the digest but that it is the one the crate computes for these
/// two arguments; a salt or a password that the crate refuses gives `None`.
#[verifier::external_body]
fn argon2_hash(passwd: &str, salt: &str) -> (digest: Option<String>)
    ensures
        opt_text(digest) == argon2_digest(passwd@, salt@),
{
    let salt = argon2::password_hash::Salt::from_b64(salt).ok()?;
    let hasher = argon2::Argon2::default();
    let hash = argon2::PasswordHasher::hash_password(&hasher, passwd.as_bytes(), salt).ok()?;
    hash.hash.map(|output| output.to_string())
}

/// The digest of `passwd`, or `None` where it cannot be computed.
pub fn hash_passwd(passwd: &str) -> (digest: Option<String>)
    ensures
        opt_text(digest) == argon2_digest(passwd@, PASSWORD_SALT@),
{
    argon2_hash(passwd, PASSWORD_SALT)
}

/// The credential of a room to be created, or of a peer about to join:
/// nothing where there is no password, else the password's digest.
/// `Err(())` says that a password was given and its digest could not be
/// computed.
pub fn credential(plain: Option<&str>) -> (r: Result<Option<String>, ()>)
    ensures
        match plain {
            None => r == Ok::<Option<String>, ()>(None),
            Some(p) => match argon2_digest(p@, PASSWORD_SALT@) {
                Some(d) => r is Ok && opt_text(r.unwrap()) == Some(d),
                None => r is Err,
            },
        },
{
    match plain {
        None => Ok(None),
        Some(p) => match hash_passwd(p) {
            Some(d) => Ok(Some(d)),
            None => Err(()),
        },
    }
}

} // verus!
