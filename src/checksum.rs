//! The digest that names chunks and vouches for whole files.
use vstd::prelude::*;

use crate::codec::{encode_hex, hex_of};
use crate::errors::{Error, Mismatch, Result};

verus! {

/// The SHA-256 digest of a byte sequence.
pub uninterp spec fn sha256_of(b: Seq<u8>) -> Seq<u8>;

/// Relies on sha2's Sha256: the digest of exactly the bytes given, whose
/// output size is 32 bytes.
#[verifier::external_body]
fn sha256(bytes: &[u8]) -> (r: Vec<u8>)
    ensures
        r@ == sha256_of(bytes@),
        r@.len() == 32,
{
    <sha2::Sha256 as sha2::Digest>::digest(bytes).to_vec()
}

/// The digest of `bytes`.
pub fn checksum(bytes: &[u8]) -> (r: Vec<u8>)
    ensures
        r@ == sha256_of(bytes@),
        r@.len() == 32,
{
    sha256(bytes)
}

pub fn bytes_equal(a: &[u8], b: &[u8]) -> (r: bool)
    ensures
        r == (a@ == b@),
{
    if a.len() != b.len() {
        return false;
    }
    let mut i: usize = 0;
    while i < a.len()
        invariant
            i <= a@.len(),
            a@.len() == b@.len(),
            a@.take(i as int) == b@.take(i as int),
        decreases a@.len() - i,
    {
        if a[i] != b[i] {
            assert(a@.take(i as int + 1)[i as int] != b@.take(i as int + 1)[i as int]);
            assert(a@ != b@) by {
                assert(a@[i as int] != b@[i as int]);
            }
            return false;
        }
        assert(a@.take(i as int + 1) =~= b@.take(i as int + 1)) by {
            assert(a@.take(i as int + 1) =~= a@.take(i as int).push(a@[i as int]));
            assert(b@.take(i as int + 1) =~= b@.take(i as int).push(b@[i as int]));
        }
        i = i + 1;
    }
    assert(a@ =~= a@.take(i as int));
    assert(b@ =~= b@.take(i as int));
    true
}

/// The error that a digest `actual` gives where `expected` was recorded.
pub open spec fn mismatch_error(e: Error, expected: Seq<u8>, actual: Seq<u8>) -> bool {
    &&& e matches Error::ChecksumMismatch(m)
    &&& m.expected@ == hex_of(expected)
    &&& m.actual@ == hex_of(actual)
}

/// Compares a computed digest with the one expected of it.
pub fn compare_digest(actual: &[u8], expected: &[u8]) -> (r: Result<()>)
    ensures
        r is Ok <==> actual@ == expected@,
        r matches Err(e) ==> mismatch_error(e, expected@, actual@),
{
    if bytes_equal(actual, expected) {
        Ok(())
    } else {
        Err(
            Error::ChecksumMismatch(
                Mismatch { expected: encode_hex(expected), actual: encode_hex(actual) },
            ),
        )
    }
}

/// Checks that `bytes` have the digest `expected`.
pub fn validate_checksum(bytes: &[u8], expected: &[u8]) -> (r: Result<()>)
    ensures
        r is Ok <==> sha256_of(bytes@) == expected@,
        r matches Err(e) ==> mismatch_error(e, expected@, sha256_of(bytes@)),
{
    let actual = checksum(bytes);
    compare_digest(actual.as_slice(), expected)
}

} // verus!
