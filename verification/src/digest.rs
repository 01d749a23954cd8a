use vstd::prelude::*;
use sha2::Digest;
use ripemd::Digest as RipemdDigest;

verus! {

/// What the SHA-256 digest of a byte string is: a function of the input
/// bytes alone, the same in every process and on every machine.
pub uninterp spec fn sha256_of(data: Seq<u8>) -> Seq<u8>;

/// What the RIPEMD-160 digest of a byte string is.
pub uninterp spec fn ripemd160_of(data: Seq<u8>) -> Seq<u8>;

/// Relies on sha2's Sha256: the 32-byte digest of the input.
#[verifier::external_body]
fn sha256_digest(key: &Vec<u8>) -> (r: Vec<u8>)
    ensures
        r@ == sha256_of(key@),
        r@.len() == 32,
{
    let mut hasher = sha2::Sha256::new();
    hasher.update(key.as_slice());
    hasher.finalize().to_vec()
}

/// Relies on ripemd's Ripemd160 — the maintained RustCrypto successor of the
/// retired ripemd160 crate, computing the same function: the 20-byte digest
/// of the input.
#[verifier::external_body]
fn ripemd160_digest(key: &Vec<u8>) -> (r: Vec<u8>)
    ensures
        r@ == ripemd160_of(key@),
        r@.len() == 20,
{
    let mut hasher = ripemd::Ripemd160::new();
    hasher.update(key.as_slice());
    hasher.finalize().to_vec()
}

/// The SHA-256 digest of a byte string.
pub fn sha256(key: Vec<u8>) -> (r: Vec<u8>)
    ensures
        r@ == sha256_of(key@),
        r@.len() == 32,
{
    sha256_digest(&key)
}

/// The RIPEMD-160 digest of a byte string.
pub fn ripemd160(key: Vec<u8>) -> (r: Vec<u8>)
    ensures
        r@ == ripemd160_of(key@),
        r@.len() == 20,
{
    ripemd160_digest(&key)
}

} // verus!
