//! The library's calls into `rand`, `hex`, `sha2`, `sodiumoxide` and `uuid`.
//!
//! Nothing in this file is proved: each function states what its outside call
//! is relied on to do, and the rest of the library is verified against that.

use crate::encoding::{hex_of, is_uuid_v4, unhex, uuid_of};
use rand::Rng;
use sha2::{Digest, Sha256};
use vstd::prelude::*;

verus! {

/// Length in bytes of an Ed25519 secret key, seed and public key together.
pub const SIGN_SECRET_KEY_BYTES: usize = 64;

/// Length in bytes of an Ed25519 public key.
pub const SIGN_PUBLIC_KEY_BYTES: usize = 32;

/// Length in bytes of an Ed25519 signature.
pub const SIGNATURE_BYTES: usize = 64;

/// Length in bytes of either half of a Curve25519 key pair.
pub const BOX_KEY_BYTES: usize = 32;

/// The SHA-256 digest of a byte string.
pub uninterp spec fn sha256(data: Seq<u8>) -> Seq<u8>;

/// The Ed25519 signed message: the signature under secret key `sk`, then `m`.
pub uninterp spec fn signed_message(m: Seq<u8>, sk: Seq<u8>) -> Seq<u8>;

/// The Ed25519 public key that belongs to a 32-byte seed.
pub uninterp spec fn sign_public_key(seed: Seq<u8>) -> Seq<u8>;

/// The Curve25519 public key that belongs to secret key `sk`.
pub uninterp spec fn box_public_key(sk: Seq<u8>) -> Seq<u8>;

/// The error of `hex::decode`.
#[verifier::external_type_specification]
#[verifier::external_body]
pub struct ExFromHexError(hex::FromHexError);

/// The error of `uuid::Uuid::parse_str`.
#[verifier::external_type_specification]
#[verifier::external_body]
pub struct ExUuidError(uuid::Error);

/// `rand::Rng::gen_range` on the thread's generator and an inclusive range: a
/// number in that range. Nothing is claimed of which one.
#[verifier::external_body]
pub(crate) fn random_between(low: u64, high: u64) -> (r: u64)
    requires
        low <= high,
    ensures
        low <= r <= high,
{
    rand::thread_rng().gen_range(low..=high)
}

/// `rand::Rng::gen` on the thread's generator, for a `usize`. Nothing is
/// claimed of the number.
#[verifier::external_body]
pub(crate) fn random_usize() -> (r: usize) {
    rand::thread_rng().gen::<usize>()
}

/// `rand::Rng::gen` on the thread's generator, for a byte. Nothing is claimed
/// of the byte.
#[verifier::external_body]
pub(crate) fn random_byte() -> (r: u8) {
    rand::thread_rng().gen::<u8>()
}

/// `hex::encode`: two lower-case digits for each byte.
#[verifier::external_body]
pub(crate) fn hex_encode(data: &[u8]) -> (r: String)
    ensures
        r@ == hex_of(data@),
{
    hex::encode(data)
}

/// `hex::decode`: the bytes of a text of pairs of hexadecimal digits of either
/// case, and an error for any other text.
#[verifier::external_body]
pub(crate) fn hex_decode(s: &str) -> (r: Result<Vec<u8>, hex::FromHexError>)
    ensures
        match unhex(s@) {
            Some(bytes) => r matches Ok(v) && v@ == bytes,
            None => r is Err,
        },
{
    hex::decode(s)
}

/// `sha2::Sha256` fed with `a` and then `b`: the 32-byte digest of `a` followed
/// by `b`. What the digest is, is left to its name.
#[verifier::external_body]
pub(crate) fn sha256_digest(a: &[u8], b: &[u8]) -> (r: Vec<u8>)
    ensures
        r@ == sha256(a@ + b@),
        r@.len() == 32,
{
    let mut hasher = Sha256::new();
    hasher.update(a);
    hasher.update(b);
    hasher.finalize().to_vec()
}

/// `sodiumoxide::init`, which makes the key generators safe to call from
/// several threads. Nothing is claimed of whether it succeeds.
#[verifier::external_body]
pub(crate) fn sodium_init() -> (r: bool) {
    sodiumoxide::init().is_ok()
}

/// `sodiumoxide::crypto::sign::gen_keypair`: a fresh public key and secret key.
/// The secret key is a 32-byte seed and the public key that belongs to it.
/// Nothing is claimed of which seed.
#[verifier::external_body]
pub(crate) fn sign_keypair() -> (r: (Vec<u8>, Vec<u8>))
    ensures
        r.0@.len() == SIGN_PUBLIC_KEY_BYTES,
        r.1@.len() == SIGN_SECRET_KEY_BYTES,
        r.0@ == sign_public_key(r.1@.take(32)),
        r.1@.skip(32) == r.0@,
{
    let (pk, sk) = sodiumoxide::crypto::sign::gen_keypair();
    (pk.0.to_vec(), sk.0.to_vec())
}

/// `sodiumoxide::crypto::sign::sign`: a 64-byte signature followed by the
/// message, a function of message and key alone. The message must leave room
/// for the signature in one allocation.
#[verifier::external_body]
pub(crate) fn sign_message(m: &[u8], sk: &[u8]) -> (r: Vec<u8>)
    requires
        sk@.len() == SIGN_SECRET_KEY_BYTES,
        m@.len() + SIGNATURE_BYTES <= isize::MAX,
    ensures
        r@ == signed_message(m@, sk@),
        r@.len() == m@.len() + SIGNATURE_BYTES,
        r@.skip(64) == m@,
{
    let mut key = [0u8; sodiumoxide::crypto::sign::SECRETKEYBYTES];
    key.copy_from_slice(sk);
    sodiumoxide::crypto::sign::sign(m, &sodiumoxide::crypto::sign::SecretKey(key))
}

/// `sodiumoxide::crypto::box_::gen_keypair`: a fresh secret key and the public
/// key that belongs to it. Nothing is claimed of which ones.
#[verifier::external_body]
pub(crate) fn box_keypair() -> (r: (Vec<u8>, Vec<u8>))
    ensures
        r.0@ == box_public_key(r.1@),
        r.0@.len() == BOX_KEY_BYTES,
        r.1@.len() == BOX_KEY_BYTES,
{
    let (pk, sk) = sodiumoxide::crypto::box_::gen_keypair();
    (pk.0.to_vec(), sk.0.to_vec())
}

/// `uuid::Uuid::new_v4` and its `to_string`: a random UUID in lower-case
/// hyphenated form. Nothing is claimed of its random digits.
#[verifier::external_body]
pub(crate) fn uuid_v4() -> (r: String)
    ensures
        is_uuid_v4(r@),
{
    uuid::Uuid::new_v4().to_string()
}

/// `uuid::Uuid::parse_str` and `as_bytes`: the sixteen bytes of a text in one
/// of the forms of a UUID, and an error for any other text.
#[verifier::external_body]
pub(crate) fn uuid_parse(s: &str) -> (r: Result<Vec<u8>, uuid::Error>)
    ensures
        match uuid_of(s@) {
            Some(bytes) => r matches Ok(v) && v@ == bytes,
            None => r is Err,
        },
{
    match uuid::Uuid::parse_str(s) {
        Ok(u) => Ok(u.as_bytes().to_vec()),
        Err(e) => Err(e),
    }
}

} // verus!
