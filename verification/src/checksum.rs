//! The content checksum: the SHA-256 digest of a file's bytes, written as
//! lowercase hexadecimal digits.
//!
//! The checksum identifies the content of a file, whatever its name or place.
//! Two files have the same checksum exactly when they have the same digest.

use sha2::{Digest, Sha256};
use vstd::prelude::*;
use crate::text::string_of;

verus! {

/// The SHA-256 digest of a sequence of bytes, as the `sha2` crate computes it.
pub uninterp spec fn sha256(data: Seq<u8>) -> Seq<u8>;

/// Calls `sha2::Sha256::digest` and hands the digest out as a vector. The
/// digest depends on the bytes alone, and SHA-256 digests are 32 bytes long.
#[verifier::external_body]
fn sha256_digest(data: &[u8]) -> (digest: Vec<u8>)
    ensures
        digest@ == sha256(data@),
        digest@.len() == 32,
{
    Sha256::digest(data).to_vec()
}

/// The sixteen lowercase hexadecimal digits, in order of their value.
pub open spec fn hex_digits() -> Seq<char> {
    seq!['0', '1', '2', '3', '4', '5', '6', '7', '8', '9', 'a', 'b', 'c', 'd', 'e', 'f']
}

/// `bytes` written in lowercase hexadecimal: two digits for each byte, the
/// high four bits first.
pub open spec fn hex_lower(bytes: Seq<u8>) -> Seq<char> {
    Seq::new(
        2 * bytes.len(),
        |i: int|
            if i % 2 == 0 {
                hex_digits()[bytes[i / 2] as int / 16]
            } else {
                hex_digits()[bytes[i / 2] as int % 16]
            },
    )
}

/// The checksum of a file with the given bytes.
pub open spec fn checksum_of(data: Seq<u8>) -> Seq<char> {
    hex_lower(sha256(data))
}

fn hex_digit(value: u8) -> (digit: char)
    requires
        value < 16,
    ensures
        digit == hex_digits()[value as int],
{
    if value < 10 {
        (48u8 + value) as char
    } else {
        (87u8 + value) as char
    }
}

/// Writes `bytes` in lowercase hexadecimal.
pub fn to_hex(bytes: &[u8]) -> (hex: String)
    ensures
        hex@ == hex_lower(bytes@),
{
    let mut out: Vec<char> = Vec::new();
    let mut i: usize = 0;
    while i < bytes.len()
        invariant
            i <= bytes.len(),
            out@ == hex_lower(bytes@).take(2 * i),
        decreases bytes.len() - i,
    {
        let b = bytes[i];
        out.push(hex_digit(b / 16));
        out.push(hex_digit(b % 16));
        i += 1;
    }
    string_of(&out)
}

/// Computes the checksum of a file from its bytes: the SHA-256 digest, as 64
/// lowercase hexadecimal digits.
pub fn compute_checksum(data: &[u8]) -> (checksum: String)
    ensures
        checksum@ == checksum_of(data@),
        checksum@.len() == 64,
{
    let digest = sha256_digest(data);
    to_hex(digest.as_slice())
}

/// Different values have different hexadecimal digits.
proof fn lemma_hex_digits_differ(x: int, y: int)
    requires
        0 <= x < 16,
        0 <= y < 16,
        hex_digits()[x] == hex_digits()[y],
    ensures
        x == y,
{
}

/// Two sequences of bytes that are written alike in hexadecimal are equal.
pub proof fn lemma_hex_lower_is_injective(a: Seq<u8>, b: Seq<u8>)
    requires
        hex_lower(a) == hex_lower(b),
    ensures
        a == b,
{
    assert(hex_lower(a).len() == 2 * a.len());
    assert(hex_lower(b).len() == 2 * b.len());
    assert forall|k: int| 0 <= k < a.len() implies a[k] == b[k] by {
        let high = hex_lower(a)[2 * k];
        let low = hex_lower(a)[2 * k + 1];
        assert(high == hex_lower(b)[2 * k]);
        assert(low == hex_lower(b)[2 * k + 1]);
        assert(high == hex_digits()[a[k] as int / 16]);
        assert(high == hex_digits()[b[k] as int / 16]);
        assert(low == hex_digits()[a[k] as int % 16]);
        assert(low == hex_digits()[b[k] as int % 16]);
        lemma_hex_digits_differ(a[k] as int / 16, b[k] as int / 16);
        lemma_hex_digits_differ(a[k] as int % 16, b[k] as int % 16);
    }
    assert(a =~= b);
}

/// The checksum is a function of the bytes alone, and two files have the
/// same checksum exactly when they have the same digest.
pub proof fn lemma_checksum_follows_digest(a: Seq<u8>, b: Seq<u8>)
    ensures
        a == b ==> checksum_of(a) == checksum_of(b),
        checksum_of(a) == checksum_of(b) <==> sha256(a) == sha256(b),
{
    if checksum_of(a) == checksum_of(b) {
        lemma_hex_lower_is_injective(sha256(a), sha256(b));
    }
}

/// Every character of a checksum is a lowercase hexadecimal digit.
pub proof fn lemma_checksum_is_lower_hex(data: Seq<u8>)
    ensures
        forall|i: int|
            0 <= i < checksum_of(data).len() ==> hex_digits().contains(
                #[trigger] checksum_of(data)[i],
            ),
{
    let digest = sha256(data);
    assert forall|i: int| 0 <= i < checksum_of(data).len() implies hex_digits().contains(
        #[trigger] checksum_of(data)[i],
    ) by {
        let b = digest[i / 2] as int;
        if i % 2 == 0 {
            assert(checksum_of(data)[i] == hex_digits()[b / 16]);
        } else {
            assert(checksum_of(data)[i] == hex_digits()[b % 16]);
        }
    }
}

} // verus!
