//! The 16-bit hash prefix that buckets records by video id: computed from the
//! SHA-256 digest of the id, or recovered from the dataset's own
//! `hashedVideoID` column by reading its first four hex digits.

use vstd::prelude::*;
use sha2::Digest;

verus! {

use vstd::string::StringSliceAdditionalSpecFns;

/// What SHA-256 returns for a byte sequence; only named, never restated.
pub uninterp spec fn sha256_of(bytes: Seq<u8>) -> Seq<u8>;

/// The first sixteen bits of the SHA-256 digest, as a bucket index.
pub open spec fn hash_prefix_of(bytes: Seq<u8>) -> int {
    256 * (sha256_of(bytes)[0] as int) + (sha256_of(bytes)[1] as int)
}

/// Relies on sha2's Sha256: a 32-byte digest that is a function of the input
/// bytes alone.
#[verifier::external_body]
pub fn sha256(s: &str) -> (r: Vec<u8>)
    ensures
        r@ == sha256_of(s.spec_bytes()),
        r@.len() == 32,
{
    let mut hasher = sha2::Sha256::new();
    hasher.update(s.as_bytes());
    hasher.finalize().to_vec()
}

/// The bucket index of a video id, from its SHA-256 digest.
pub fn compute_hashprefix(s: &str) -> (r: u16)
    ensures
        r as int == hash_prefix_of(s.spec_bytes()),
{
    let digest = sha256(s);
    (digest[0] as u16) * 256 + (digest[1] as u16)
}

/// ASCII hex digit (both cases).
pub open spec fn is_hex_digit(b: u8) -> bool {
    (48 <= b <= 57) || (97 <= b <= 102) || (65 <= b <= 70)
}

pub open spec fn hex_val(b: u8) -> int {
    if 48 <= b <= 57 {
        b - 48
    } else if 97 <= b <= 102 {
        b - 87
    } else {
        b - 55
    }
}

/// The value of the first four characters read as hex nibbles. `None` when
/// there are fewer than four characters or one of them is not a hex digit.
pub open spec fn prefix16_value(b: Seq<u8>) -> Option<int> {
    if b.len() < 4 {
        None
    } else if is_hex_digit(b[0]) && is_hex_digit(b[1]) && is_hex_digit(b[2]) && is_hex_digit(
        b[3],
    ) {
        Some(4096 * hex_val(b[0]) + 256 * hex_val(b[1]) + 16 * hex_val(b[2]) + hex_val(b[3]))
    } else {
        None
    }
}

fn hex_digit(b: u8) -> (r: Option<u16>)
    ensures
        match r {
            Some(v) => is_hex_digit(b) && v as int == hex_val(b),
            None => !is_hex_digit(b),
        },
{
    if 48 <= b && b <= 57 {
        Some((b - 48) as u16)
    } else if 97 <= b && b <= 102 {
        Some((b - 87) as u16)
    } else if 65 <= b && b <= 70 {
        Some((b - 55) as u16)
    } else {
        None
    }
}

/// Read the bucket index a row's `hashedVideoID` column claims: the value of
/// its first four hex characters.
pub fn parse_hashprefix(s: &str) -> (r: Option<u16>)
    ensures
        match r {
            Some(v) => prefix16_value(s.spec_bytes()) == Some(v as int),
            None => prefix16_value(s.spec_bytes()) is None,
        },
{
    let b = s.as_bytes();
    if b.len() < 4 {
        return None;
    }
    match (hex_digit(b[0]), hex_digit(b[1]), hex_digit(b[2]), hex_digit(b[3])) {
        (Some(d0), Some(d1), Some(d2), Some(d3)) => Some(4096 * d0 + 256 * d1 + 16 * d2 + d3),
        _ => None,
    }
}

} // verus!
