//! Salted one-way hashing of passwords, and checking a password against
//! a stored hash.

use crate::error::ResponseError;
use rand::{Rng, SeedableRng};
use vstd::prelude::*;

verus! {

/// `argon2::Error`, carried through unread.
#[verifier::external_type_specification]
#[verifier::external_body]
pub struct ExArgonError(argon2::Error);

/// `rand_chacha::ChaCha20Rng`, the generator that salts are drawn from.
#[verifier::external_type_specification]
#[verifier::external_body]
pub struct ExChaCha20Rng(rand_chacha::ChaCha20Rng);

/// `rand::Error`, carried through unread.
#[verifier::external_type_specification]
#[verifier::external_body]
pub struct ExRandError(rand::Error);

/// The number of random bytes in a salt.
pub const SALT_LEN: usize = 64;

/// The variants of Argon2.
#[derive(Clone, Copy, Debug, PartialEq, Eq, Structural)]
pub enum Variant {
    /// Data-dependent memory access.
    Argon2d,
    /// Data-independent memory access.
    Argon2i,
    /// The hybrid of the two, which this service hashes with.
    Argon2id,
}

/// The encoded hash of `password` under `salt` with the variant `variant`
/// and the hashing library's default cost parameters; `None` where the
/// library refuses the input.
pub uninterp spec fn argon2_encoding(password: Seq<u8>, salt: Seq<u8>, variant: Variant) -> Option<
    Seq<char>,
>;

/// Whether `password` matches the encoded hash `encoded`; `None` where
/// `encoded` is not a well-formed encoded hash, or the hashing library
/// refuses what it holds or the password.
pub uninterp spec fn argon2_verification(encoded: Seq<char>, password: Seq<u8>) -> Option<bool>;

/// Whether `encoded` is an encoded hash under the salt `salt` and under
/// no other: an encoded hash holds its salt.
pub open spec fn embeds_salt(encoded: Seq<char>, salt: Seq<u8>) -> bool {
    forall|password: Seq<u8>, other: Seq<u8>, variant: Variant|
        #[trigger] argon2_encoding(password, other, variant) == Some(encoded) ==> other == salt
}

/// Calls `argon2::hash_encoded` with the default configuration but for
/// the variant. The result is the named encoding of the arguments. The
/// library accepts a password of up to 2^32 - 1 bytes with a salt of 8 to
/// 2^32 - 1 bytes, a hash it has encoded verifies against the password
/// it was made from, and the encoded hash holds the salt, in base64, as
/// one of its fields, so that it is the encoding under no other salt.
#[verifier::external_body]
fn hash_encoded(password: &[u8], salt: &[u8], variant: Variant) -> (r: Result<
    String,
    argon2::Error,
>)
    ensures
        r is Ok <==> argon2_encoding(password@, salt@, variant) is Some,
        r is Ok ==> Some(r->Ok_0@) == argon2_encoding(password@, salt@, variant),
        password@.len() <= u32::MAX && 8 <= salt@.len() <= u32::MAX ==> r is Ok,
        r is Ok ==> argon2_verification(r->Ok_0@, password@) == Some(true),
        r is Ok ==> embeds_salt(r->Ok_0@, salt@),
{
    let mut config = argon2::Config::default();
    config.variant = match variant {
        Variant::Argon2d => argon2::Variant::Argon2d,
        Variant::Argon2i => argon2::Variant::Argon2i,
        Variant::Argon2id => argon2::Variant::Argon2id,
    };
    argon2::hash_encoded(password, salt, &config)
}

/// `argon2::verify_encoded`: the result is the named verification of the
/// two arguments, an error where that is `None`.
pub assume_specification[ argon2::verify_encoded ](encoded: &str, pwd: &[u8]) -> (r: Result<
    bool,
    argon2::Error,
>)
    ensures
        r is Ok <==> argon2_verification(encoded@, pwd@) is Some,
        r is Ok ==> Some(r->Ok_0) == argon2_verification(encoded@, pwd@),
;

/// `ChaCha20Rng::from_rng` on `OsRng`: a generator seeded by the
/// operating system, or the error of an operating system that has no
/// entropy to give. Nothing is known of what the generator will yield.
#[verifier::external_body]
fn rng_from_os() -> Result<rand_chacha::ChaCha20Rng, rand::Error> {
    rand_chacha::ChaCha20Rng::from_rng(rand::rngs::OsRng)
}

/// `Rng::fill` on an array of salt bytes: every byte is overwritten with
/// one drawn from `rng`.
#[verifier::external_body]
fn fill_salt(rng: &mut rand_chacha::ChaCha20Rng, salt: &mut [u8; SALT_LEN]) {
    rng.fill(salt)
}

/// What hashing `password` under `salt` comes to: the encoded hash, or the
/// hashing error.
pub open spec fn hashed(
    password: Seq<char>,
    salt: Seq<u8>,
    r: Result<String, ResponseError>,
) -> bool {
    match argon2_encoding(vstd::utf8::encode_utf8(password), salt, Variant::Argon2id) {
        Some(encoded) => r is Ok && r->Ok_0@ == encoded,
        None => r is Err && r->Err_0@ is Argon,
    }
}

/// The encoded Argon2id hash of `password` under `salt`.
pub fn hash_with_salt(password: &str, salt: &[u8]) -> (r: Result<String, ResponseError>)
    ensures
        hashed(password@, salt@, r),
        r is Ok ==> argon2_verification(r->Ok_0@, vstd::utf8::encode_utf8(password@)) == Some(
            true,
        ),
        r is Ok ==> embeds_salt(r->Ok_0@, salt@),
        vstd::utf8::encode_utf8(password@).len() <= u32::MAX && 8 <= salt@.len() <= u32::MAX
            ==> r is Ok,
{
    match hash_encoded(password.as_bytes(), salt, Variant::Argon2id) {
        Ok(encoded) => Ok(encoded),
        Err(e) => Err(ResponseError::from(e)),
    }
}

/// Two hashes under two salts are two hashes, whatever was hashed.
pub proof fn lemma_two_salts_give_two_hashes(
    first: Seq<char>,
    second: Seq<char>,
    password: Seq<u8>,
    salt: Seq<u8>,
    other_password: Seq<u8>,
    other_salt: Seq<u8>,
)
    requires
        argon2_encoding(password, salt, Variant::Argon2id) == Some(first),
        argon2_encoding(other_password, other_salt, Variant::Argon2id) == Some(second),
        embeds_salt(first, salt),
        salt != other_salt,
    ensures
        first != second,
{
}

/// Whether `encoded` is the Argon2id hash of `password` under some salt of
/// `SALT_LEN` bytes, which it holds.
pub open spec fn is_salted_hash(encoded: Seq<char>, password: Seq<char>) -> bool {
    exists|salt: Seq<u8>|
        salt.len() == SALT_LEN && #[trigger] argon2_encoding(
            vstd::utf8::encode_utf8(password),
            salt,
            Variant::Argon2id,
        ) == Some(encoded) && embeds_salt(encoded, salt)
}

/// A salt drawn from the generator `seeded`, or the failure to seed it as
/// a hashing error.
pub fn salt_from(seeded: Result<rand_chacha::ChaCha20Rng, rand::Error>) -> (r: Result<
    [u8; SALT_LEN],
    ResponseError,
>)
    ensures
        r is Ok <==> seeded is Ok,
        r is Err ==> r->Err_0@ is Argon,
{
    match seeded {
        Ok(rng) => {
            let mut rng = rng;
            let mut salt: [u8; SALT_LEN] = [0; SALT_LEN];
            fill_salt(&mut rng, &mut salt);
            Ok(salt)
        },
        Err(e) => Err(ResponseError::Argon(e.to_string())),
    }
}

/// A fresh random salt, from a generator that the operating system
/// seeds. Where the operating system gives no entropy, the result is a
/// hashing error.
pub fn fresh_salt() -> (r: Result<[u8; SALT_LEN], ResponseError>)
    ensures
        r is Err ==> r->Err_0@ is Argon,
{
    salt_from(rng_from_os())
}

/// The encoded Argon2id hash of `password` under a fresh random salt of
/// `SALT_LEN` bytes. Where the operating system gives no entropy for the
/// salt, the result is a hashing error.
pub fn hash(password: &str) -> (r: Result<String, ResponseError>)
    ensures
        r is Ok ==> is_salted_hash(r->Ok_0@, password@),
        r is Ok ==> argon2_verification(r->Ok_0@, vstd::utf8::encode_utf8(password@)) == Some(
            true,
        ),
        r is Err ==> r->Err_0@ is Argon,
{
    match fresh_salt() {
        Ok(salt) => {
            let r = hash_with_salt(password, salt.as_slice());
            assert(hashed(password@, salt@, r));
            r
        },
        Err(e) => Err(e),
    }
}

/// Whether `candidate` is the password that `encoded` was made from.
pub fn verify(encoded: &str, candidate: &str) -> (r: Result<bool, ResponseError>)
    ensures
        match argon2_verification(encoded@, vstd::utf8::encode_utf8(candidate@)) {
            Some(matches) => r is Ok && r->Ok_0 == matches,
            None => r is Err && r->Err_0@ is Argon,
        },
{
    match argon2::verify_encoded(encoded, candidate.as_bytes()) {
        Ok(matches) => Ok(matches),
        Err(e) => Err(ResponseError::from(e)),
    }
}

} // verus!
