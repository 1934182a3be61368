//! The deterministic consistent-hash bucketing function.
//!
//! A user's hash key and a salt are concatenated, digested with SHA-1, and the
//! last four digest bytes, read big-endian, give the bucket after reduction
//! modulo the bucket count.  The construction is a compatibility contract:
//! `salt_hash("key", "salt", 10000)` must be exactly `2647`.

use sha1::Digest;
use vstd::prelude::*;

verus! {

/// The SHA-1 digest of the key's bytes followed by the salt's bytes.
pub uninterp spec fn sha1_concat(key: Seq<char>, salt: Seq<char>) -> Seq<u8>;

/// Relies on `sha1::Sha1` (`update`, `finalize`): the SHA-1 digest of the
/// key's bytes followed by the salt's bytes.  The digest is 20 bytes long and
/// depends on the two strings alone.
#[verifier::external_body]
fn sha1_of_concat(key: &str, salt: &str) -> (r: Vec<u8>)
    ensures
        r@ == sha1_concat(key@, salt@),
        r@.len() == 20,
{
    let mut h = sha1::Sha1::new();
    h.update(key.as_bytes());
    h.update(salt.as_bytes());
    h.finalize().to_vec()
}

/// Four bytes read as a big-endian 32-bit integer.
pub open spec fn be_u32_of(b: Seq<u8>) -> int {
    b[0] * 0x1000000 + b[1] * 0x10000 + b[2] * 0x100 + b[3]
}

/// The bucket assigned to a hash key under a salt: the last four bytes of the
/// SHA-1 digest of their concatenation, big-endian, modulo the bucket count.
pub open spec fn spec_salt_hash(key: Seq<char>, salt: Seq<char>, bucket_size: u64) -> int {
    be_u32_of(sha1_concat(key, salt).subrange(16, 20)) % (bucket_size as int)
}

/// Hashes `key` and `salt` into a bucket in `[0, bucket_size)`.
pub fn salt_hash(key: &str, salt: &str, bucket_size: u64) -> (r: u32)
    requires
        1 <= bucket_size <= u32::MAX,
    ensures
        r == spec_salt_hash(key@, salt@, bucket_size),
        r < bucket_size,
{
    let digest = sha1_of_concat(key, salt);
    let b0 = digest[16] as u32;
    let b1 = digest[17] as u32;
    let b2 = digest[18] as u32;
    let b3 = digest[19] as u32;
    let value = b0 * 0x1000000 + b1 * 0x10000 + b2 * 0x100 + b3;
    proof {
        let tail = sha1_concat(key@, salt@).subrange(16, 20);
        assert(tail[0] == digest@[16]);
        assert(tail[1] == digest@[17]);
        assert(tail[2] == digest@[18]);
        assert(tail[3] == digest@[19]);
    }
    value % (bucket_size as u32)
}

} // verus!
