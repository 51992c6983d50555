//! SHA-256 digests and their lowercase hexadecimal rendering.
use vstd::prelude::*;

verus! {

/// What `sha2::Sha256::digest` returns for `data`.
pub uninterp spec fn sha256_digest(data: Seq<u8>) -> Seq<u8>;

/// SHA-256 of `data`.
///
/// Calls `sha2::Sha256::digest`. The contract names the digest of exactly
/// these bytes and states its documented length of 32 bytes; the digest
/// function itself is not specified here.
#[verifier::external_body]
pub(crate) fn sha256(data: &[u8]) -> (r: Vec<u8>)
    ensures
        r@ == sha256_digest(data@),
        r@.len() == 32,
{
    <sha2::Sha256 as sha2::Digest>::digest(data).to_vec()
}

/// The lowercase hexadecimal digit for a value below 16.
pub open spec fn hex_digit(n: int) -> char {
    if n < 10 {
        (48 + n) as char
    } else {
        (87 + n) as char
    }
}

/// Lowercase hexadecimal rendering of bytes, two digits per byte (`{:x}`).
pub open spec fn hex_lower(bytes: Seq<u8>) -> Seq<char> {
    Seq::new(
        2 * bytes.len(),
        |i: int|
            if i % 2 == 0 {
                hex_digit(bytes[i / 2] as int / 16)
            } else {
                hex_digit(bytes[i / 2] as int % 16)
            },
    )
}

pub fn hex_digit_char(n: u8) -> (c: char)
    requires
        n < 16,
    ensures
        c == hex_digit(n as int),
{
    if n < 10 {
        (48u8 + n) as char
    } else {
        (87u8 + n) as char
    }
}

pub fn hex_encode(bytes: &[u8]) -> (r: Vec<char>)
    requires
        bytes@.len() < 0x4000_0000,
    ensures
        r@ == hex_lower(bytes@),
{
    let mut out: Vec<char> = Vec::new();
    let mut i: usize = 0;
    while i < bytes.len()
        invariant
            bytes@.len() < 0x4000_0000,
            i <= bytes.len(),
            out@.len() == 2 * i,
            forall|k: int| 0 <= k < 2 * i ==> #[trigger] out@[k] == hex_lower(bytes@)[k],
        decreases bytes.len() - i,
    {
        let b = bytes[i];
        out.push(hex_digit_char(b / 16));
        out.push(hex_digit_char(b % 16));
        proof {
            assert(out@[2 * i as int] == hex_lower(bytes@)[2 * i as int]);
            assert(out@[2 * i + 1] == hex_lower(bytes@)[2 * i + 1]);
        }
        i = i + 1;
    }
    assert(out@ =~= hex_lower(bytes@));
    out
}

} // verus!
