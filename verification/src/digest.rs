//! Disk-cache file naming.
//!
//! A cached thumbnail is stored under a fixed-length file name derived from
//! the source path and the requested size: the lower-case hexadecimal
//! SHA-256 digest of the UTF-8 string `"{path}:{size}"`, with a fixed
//! `.jpg` suffix regardless of the encoded format.

use vstd::prelude::*;
use vstd::string::StringExecFns;
use vstd::utf8::encode_utf8;
use sha2::Digest;

use crate::text::{dec_digits, hex_digits, lemma_hex_digits_len, push_decimal, push_hex};

verus! {

/// The SHA-256 digest of a byte string. Left uninterpreted: the digest is a
/// function of the input bytes alone, and its value is the business of the
/// hash library, not of this crate.
pub uninterp spec fn sha256_of(data: Seq<u8>) -> Seq<u8>;

/// Relies on sha2's `Sha256` through `Digest::digest`: the SHA-256 digest of
/// the input, always 32 bytes, determined by the input bytes alone.
#[verifier::external_body]
fn sha256(data: &[u8]) -> (r: Vec<u8>)
    ensures
        r@ == sha256_of(data@),
        r@.len() == 32,
{
    sha2::Sha256::digest(data).to_vec()
}

/// The string that is hashed to name a cache file: `"{path}:{size}"`.
pub open spec fn spec_hash_key(path: Seq<char>, size: u32) -> Seq<char> {
    path + seq![':'] + dec_digits(size as nat)
}

/// The disk-cache file name for a `(path, size)` request.
pub open spec fn spec_disk_cache_filename(path: Seq<char>, size: u32) -> Seq<char> {
    hex_digits(sha256_of(encode_utf8(spec_hash_key(path, size)))) + ".jpg"@
}

/// Computes the disk-cache file name: the hex SHA-256 digest of
/// `"{path}:{size}"` followed by `.jpg` — always 68 characters, 64 hex
/// digits and the suffix.
pub fn disk_cache_filename(image_path: &String, size: u32) -> (r: String)
    ensures
        r@ == spec_disk_cache_filename(image_path@, size),
        r@.len() == 68,
{
    let mut key = image_path.clone();
    key.append(":");
    push_decimal(&mut key, size);
    proof {
        reveal_strlit(":");
        assert(key@ =~= spec_hash_key(image_path@, size));
    }
    let digest = sha256(key.as_str().as_bytes());
    let mut name = String::new();
    push_hex(&mut name, &digest);
    name.append(".jpg");
    proof {
        assert(name@ =~= spec_disk_cache_filename(image_path@, size));
        lemma_hex_digits_len(digest@);
        reveal_strlit(".jpg");
    }
    name
}

} // verus!
