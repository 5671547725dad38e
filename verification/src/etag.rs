//! The conditional-read layer: a snapshot's version token is the decimal
//! rendering of its last-updated counter, and a request carrying the same
//! token is short-circuited.

use vstd::prelude::*;

verus! {

use crate::text::{push_char, str_eq};

pub open spec fn digit_char(d: int) -> char {
    (48 + d) as u8 as char
}

/// Decimal digits of a non-negative number, most significant first.
pub open spec fn dec_digits(n: int) -> Seq<char>
    decreases n,
{
    if n < 10 {
        seq![digit_char(if n < 0 {
            0
        } else {
            n % 10
        })]
    } else {
        dec_digits(n / 10).push(digit_char(n % 10))
    }
}

/// The canonical decimal rendering of a version counter.
pub open spec fn spec_etag(n: int) -> Seq<char> {
    if n < 0 {
        seq!['-'] + dec_digits(-n)
    } else {
        dec_digits(n)
    }
}

fn push_u64_digits(s: &mut String, n: u64)
    ensures
        final(s)@ == old(s)@ + dec_digits(n as int),
    decreases n,
{
    if n < 10 {
        push_char(s, (48 + n as u8) as char);
        proof {
            assert(final(s)@ =~= old(s)@ + dec_digits(n as int));
        }
    } else {
        push_u64_digits(s, n / 10);
        push_char(s, (48 + (n % 10) as u8) as char);
        proof {
            assert(final(s)@ =~= old(s)@ + dec_digits(n as int));
        }
    }
}

/// The version token for a last-updated counter.
pub fn etag_of(last_updated: i64) -> (r: String)
    ensures
        r@ == spec_etag(last_updated as int),
{
    let mut s = String::new();
    if last_updated < 0 {
        push_char(&mut s, '-');
        let magnitude: u64 = if last_updated == i64::MIN {
            0x8000_0000_0000_0000u64
        } else {
            (-last_updated) as u64
        };
        push_u64_digits(&mut s, magnitude);
        proof {
            assert(s@ =~= spec_etag(last_updated as int));
        }
    } else {
        push_u64_digits(&mut s, last_updated as u64);
        proof {
            assert(s@ =~= spec_etag(last_updated as int));
        }
    }
    s
}

/// Whether a conditional request's token matches the current version: the
/// short-circuit test of the conditional-read layer.
pub fn etag_matches(last_updated: i64, header: &str) -> (r: bool)
    ensures
        r == (header@ == spec_etag(last_updated as int)),
{
    let current = etag_of(last_updated);
    str_eq(header, current.as_str())
}

} // verus!
