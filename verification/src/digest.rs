//! SHA-256 digests, written in hexadecimal.

use vstd::prelude::*;
use vstd::string::*;

use crate::text;

verus! {

/// What `Sha256::digest` returns for some bytes.
pub uninterp spec fn sha256(data: Seq<u8>) -> Seq<u8>;

/// A hexadecimal digit.
pub open spec fn hex_digit(n: int) -> char {
    if n < 10 {
        ('0' as int + n) as char
    } else {
        ('a' as int + n - 10) as char
    }
}

/// Bytes in hexadecimal: two digits for each, in lower case.
pub open spec fn hex_text(data: Seq<u8>) -> Seq<char> {
    Seq::new(
        2 * data.len(),
        |i: int|
            if i % 2 == 0 {
                hex_digit(data[i / 2] as int / 16)
            } else {
                hex_digit(data[i / 2] as int % 16)
            },
    )
}

/// The digest of some bytes, in hexadecimal.
pub open spec fn sha256_text(data: Seq<u8>) -> Seq<char> {
    hex_text(sha256(data))
}

/// Calls `Sha256::digest` of the `sha2` crate. Claimed of it: the digest
/// depends on the bytes alone and takes 32 bytes.
#[verifier::external_body]
fn sha256_digest(data: &[u8]) -> (r: Vec<u8>)
    ensures
        r@ == sha256(data@),
        r@.len() == 32,
{
    <sha2::Sha256 as sha2::Digest>::digest(data).to_vec()
}

/// Calls `hex::encode`. Claimed of it: two lower-case hexadecimal digits for
/// each byte, the high half first.
#[verifier::external_body]
fn hex_encode(data: &Vec<u8>) -> (r: String)
    ensures
        r@ == hex_text(data@),
{
    hex::encode(data)
}

/// The digest of some bytes, in hexadecimal.
pub fn sha256_hex(data: &[u8]) -> (r: String)
    ensures
        r@ == sha256_text(data@),
        r@.len() == 64,
{
    let d = sha256_digest(data);
    hex_encode(&d)
}

/// Some bytes do not have the digest that they should have.
#[derive(Debug)]
pub struct ShaMismatch {
    pub expected: String,
    pub got: String,
}

/// Compare a digest, in hexadecimal, with the expected one.
pub fn compare_sha(got: String, expected: &str) -> (r: Result<(), ShaMismatch>)
    ensures
        r is Ok <==> got@ == expected@,
        r matches Err(e) ==> e.expected@ == expected@ && e.got@ == got@,
{
    if text::same(got.as_str(), expected) {
        Ok(())
    } else {
        Err(ShaMismatch { expected: expected.to_owned(), got })
    }
}

/// Check that downloaded bytes have the expected digest.
pub fn check_sha(data: &[u8], expected: &str) -> (r: Result<(), ShaMismatch>)
    ensures
        r is Ok <==> sha256_text(data@) == expected@,
        r matches Err(e) ==> e.expected@ == expected@ && e.got@ == sha256_text(data@),
{
    compare_sha(sha256_hex(data), expected)
}

impl ShaMismatch {
    /// The message for the user about a download.
    pub fn message(&self, url: &str) -> (r: String)
        ensures
            r@ == "sha256 mismatch for "@ + url@ + ": expected "@ + self.expected@ + ", got "@
                + self.got@,
    {
        "sha256 mismatch for ".to_owned().concat(url).concat(": expected ").concat(
            self.expected.as_str(),
        ).concat(", got ").concat(self.got.as_str())
    }
}

} // verus!
