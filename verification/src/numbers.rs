//! Verified parsing of the numeric CSV fields: decimal integers, and decimal
//! fractions read as a fixed-point count of microseconds (the in-memory model
//! of the dataset's fractional seconds).

use vstd::prelude::*;

verus! {

use vstd::string::StringSliceAdditionalSpecFns;

/// ASCII digit.
pub open spec fn is_digit_byte(b: u8) -> bool {
    48 <= b <= 57
}

pub open spec fn digit_val(b: u8) -> int {
    b - 48
}

/// Value of a run of decimal digits, read left to right onto an accumulator;
/// `None` when a non-digit appears.
pub open spec fn digits_scan(b: Seq<u8>, acc: int) -> Option<int>
    decreases b.len(),
{
    if b.len() == 0 {
        Some(acc)
    } else if is_digit_byte(b[0]) {
        digits_scan(b.drop_first(), acc * 10 + digit_val(b[0]))
    } else {
        None
    }
}

/// Value of an optionally signed, non-empty run of decimal digits.
pub open spec fn int_value(b: Seq<u8>) -> Option<int> {
    if b.len() == 0 {
        None
    } else if b[0] == 43 || b[0] == 45 {  // '+' or '-'
        if b.len() == 1 {
            None
        } else {
            match digits_scan(b.drop_first(), 0) {
                Some(v) => Some(if b[0] == 45 { -v } else { v }),
                None => None,
            }
        }
    } else {
        digits_scan(b, 0)
    }
}

pub open spec fn pow10(k: nat) -> int
    decreases k,
{
    if k == 0 {
        1
    } else {
        10 * pow10((k - 1) as nat)
    }
}

/// Value of a digit run read as the first six places after a decimal point,
/// in microseconds; digits beyond the sixth only need to be well formed.
pub open spec fn frac6_scan(b: Seq<u8>, k: nat) -> Option<int>
    decreases b.len(),
{
    if b.len() == 0 {
        Some(0)
    } else if !is_digit_byte(b[0]) {
        None
    } else if k == 0 {
        match frac6_scan(b.drop_first(), 0) {
            Some(_) => Some(0),
            None => None,
        }
    } else {
        match frac6_scan(b.drop_first(), (k - 1) as nat) {
            Some(v) => Some(digit_val(b[0]) * pow10((k - 1) as nat) + v),
            None => None,
        }
    }
}

/// The unsigned part of a decimal numeral `digits [ '.' digits ]`, in
/// microseconds; `seen` records whether a digit was already read, since the
/// numeral must hold at least one digit on some side of the point.
pub open spec fn micros_scan(b: Seq<u8>, acc: int, seen: bool) -> Option<int>
    decreases b.len(),
{
    if b.len() == 0 {
        if seen {
            Some(acc * 1000000)
        } else {
            None
        }
    } else if is_digit_byte(b[0]) {
        micros_scan(b.drop_first(), acc * 10 + digit_val(b[0]), true)
    } else if b[0] == 46 {  // '.'
        if !seen && b.len() == 1 {
            None
        } else {
            match frac6_scan(b.drop_first(), 6) {
                Some(f) => Some(acc * 1000000 + f),
                None => None,
            }
        }
    } else {
        None
    }
}

/// Value of an optionally signed decimal numeral, in microseconds.
pub open spec fn micros_value(b: Seq<u8>) -> Option<int> {
    if b.len() == 0 {
        None
    } else if b[0] == 43 || b[0] == 45 {  // '+' or '-'
        match micros_scan(b.drop_first(), 0, false) {
            Some(v) => Some(if b[0] == 45 { -v } else { v }),
            None => None,
        }
    } else {
        micros_scan(b, 0, false)
    }
}

/// What `parse_i64` owes: the numeral's value when it exists and fits.
pub open spec fn spec_parse_i64(b: Seq<u8>) -> Option<i64> {
    match int_value(b) {
        Some(v) => if -0x7fff_ffff_ffff_ffff <= v <= 0x7fff_ffff_ffff_ffff {
            Some(v as i64)
        } else {
            None
        },
        None => None,
    }
}

pub open spec fn spec_parse_i8(b: Seq<u8>) -> Option<i8> {
    match int_value(b) {
        Some(v) => if -128 <= v <= 127 {
            Some(v as i8)
        } else {
            None
        },
        None => None,
    }
}

pub open spec fn spec_parse_i16(b: Seq<u8>) -> Option<i16> {
    match int_value(b) {
        Some(v) => if -0x8000 <= v <= 0x7fff {
            Some(v as i16)
        } else {
            None
        },
        None => None,
    }
}

pub open spec fn spec_parse_micros(b: Seq<u8>) -> Option<i64> {
    match micros_value(b) {
        Some(v) => if -0x7fff_ffff_ffff_ffff <= v <= 0x7fff_ffff_ffff_ffff {
            Some(v as i64)
        } else {
            None
        },
        None => None,
    }
}

/// Reading further digits never shrinks the accumulated value.
proof fn lemma_digits_scan_lower(b: Seq<u8>, acc: int)
    requires
        acc >= 0,
    ensures
        match digits_scan(b, acc) {
            Some(v) => v >= acc,
            None => true,
        },
    decreases b.len(),
{
    if b.len() > 0 && is_digit_byte(b[0]) {
        lemma_digits_scan_lower(b.drop_first(), acc * 10 + digit_val(b[0]));
    }
}

/// The fractional digits are worth less than one second.
proof fn lemma_frac6_scan_bounds(b: Seq<u8>, k: nat)
    requires
        k <= 6,
    ensures
        match frac6_scan(b, k) {
            Some(v) => 0 <= v < pow10(k),
            None => true,
        },
    decreases b.len(),
{
    lemma_pow10_pos(k);
    if b.len() > 0 && is_digit_byte(b[0]) {
        if k == 0 {
            lemma_frac6_scan_bounds(b.drop_first(), 0);
        } else {
            lemma_frac6_scan_bounds(b.drop_first(), (k - 1) as nat);
            lemma_pow10_pos((k - 1) as nat);
            let p = pow10((k - 1) as nat);
            let d = digit_val(b[0]);
            assert(pow10(k) == 10 * p);
            assert(0 <= d * p && d * p <= 9 * p) by (nonlinear_arith)
                requires
                    0 <= d <= 9,
                    p >= 1,
            ;
            match frac6_scan(b.drop_first(), (k - 1) as nat) {
                Some(v) => {
                    assert(frac6_scan(b, k) == Some(d * p + v));
                },
                None => {
                    assert(frac6_scan(b, k) is None);
                },
            }
        }
    }
}

proof fn lemma_pow10_pos(k: nat)
    ensures
        pow10(k) >= 1,
    decreases k,
{
    if k > 0 {
        lemma_pow10_pos((k - 1) as nat);
    }
}

/// Reading further characters never shrinks the accumulated microsecond value.
proof fn lemma_micros_scan_lower(b: Seq<u8>, acc: int, seen: bool)
    requires
        acc >= 0,
    ensures
        match micros_scan(b, acc, seen) {
            Some(v) => v >= acc * 1000000,
            None => true,
        },
    decreases b.len(),
{
    if b.len() > 0 {
        if is_digit_byte(b[0]) {
            lemma_micros_scan_lower(b.drop_first(), acc * 10 + digit_val(b[0]), true);
        } else if b[0] == 46 {
            lemma_frac6_scan_bounds(b.drop_first(), 6);
        }
    }
}

/// Parse an optionally signed decimal integer, within the symmetric `i64`
/// range; mirrors `int_value` exactly.
proof fn lemma_pow10_vals()
    ensures
        pow10(0) == 1,
        pow10(1) == 10,
        pow10(2) == 100,
        pow10(3) == 1000,
        pow10(4) == 10000,
        pow10(5) == 100000,
        pow10(6) == 1000000,
{
    assert(pow10(0) == 1);
    assert(pow10(1) == 10);
    assert(pow10(2) == 100);
    assert(pow10(3) == 1000);
    assert(pow10(4) == 10000);
    assert(pow10(5) == 100000);
    assert(pow10(6) == 1000000);
}

/// The value reached by reading the digit run after an optional sign.
spec fn int_body(b: Seq<u8>) -> Option<int> {
    if b.len() > 0 && (b[0] == 43 || b[0] == 45) {
        digits_scan(b.drop_first(), 0)
    } else {
        digits_scan(b, 0)
    }
}

/// The microsecond value reached after an optional sign.
spec fn micros_body(b: Seq<u8>) -> Option<int> {
    if b.len() > 0 && (b[0] == 43 || b[0] == 45) {
        micros_scan(b.drop_first(), 0, false)
    } else {
        micros_scan(b, 0, false)
    }
}

/// Parse an optionally signed decimal integer, within the symmetric `i64`
/// range; mirrors `int_value` exactly.
pub fn parse_i64(s: &str) -> (r: Option<i64>)
    ensures
        r == spec_parse_i64(s.spec_bytes()),
{
    let b = s.as_bytes();
    if b.len() == 0 {
        return None;
    }
    let neg = b[0] == 45;
    let start: usize = if b[0] == 43 || b[0] == 45 {
        1
    } else {
        0
    };
    if start == 1 && b.len() == 1 {
        return None;
    }
    proof {
        assert(b@.skip(1) =~= b@.drop_first());
        assert(b@.skip(0) =~= b@);
    }
    let mut i: usize = start;
    let mut acc: i64 = 0;
    while i < b.len()
        invariant
            b@ == s.spec_bytes(),
            b@.len() > 1 || start == 0,
            b@.len() > 0,
            start == (if b@[0] == 43 || b@[0] == 45 {
                1int
            } else {
                0int
            }),
            start <= i <= b@.len(),
            0 <= acc <= 0x7fff_ffff_ffff_ffff,
            digits_scan(b@.skip(i as int), acc as int) == int_body(b@),
        decreases b@.len() - i,
    {
        let c = b[i];
        proof {
            assert(b@.skip(i as int)[0] == c);
            assert(b@.skip(i as int).drop_first() =~= b@.skip(i + 1));
        }
        if c < 48 || c > 57 {
            return None;
        }
        let d = c - 48;
        if acc > (0x7fff_ffff_ffff_ffff - d as i64) / 10 {
            proof {
                assert(acc as int * 10 + d as int > 0x7fff_ffff_ffff_ffff) by (nonlinear_arith)
                    requires
                        acc as int > (0x7fff_ffff_ffff_ffff - d as int) / 10,
                        0 <= d as int <= 9,
                        acc as int >= 0,
                ;
                lemma_digits_scan_lower(b@.skip(i + 1), acc as int * 10 + d as int);
            }
            return None;
        }
        acc = acc * 10 + d as i64;
        i = i + 1;
    }
    proof {
        assert(b@.skip(b@.len() as int) =~= Seq::<u8>::empty());
    }
    if neg {
        Some(-acc)
    } else {
        Some(acc)
    }
}

pub fn parse_i8(s: &str) -> (r: Option<i8>)
    ensures
        r == spec_parse_i8(s.spec_bytes()),
{
    match parse_i64(s) {
        Some(v) => if -128 <= v && v <= 127 {
            Some(v as i8)
        } else {
            None
        },
        None => None,
    }
}

pub fn parse_i16(s: &str) -> (r: Option<i16>)
    ensures
        r == spec_parse_i16(s.spec_bytes()),
{
    match parse_i64(s) {
        Some(v) => if -0x8000 <= v && v <= 0x7fff {
            Some(v as i16)
        } else {
            None
        },
        None => None,
    }
}

/// Parse an optionally signed decimal numeral into microseconds, truncating
/// fraction digits beyond the sixth; mirrors `micros_value` exactly.
pub fn parse_micros(s: &str) -> (r: Option<i64>)
    ensures
        r == spec_parse_micros(s.spec_bytes()),
{
    let b = s.as_bytes();
    if b.len() == 0 {
        return None;
    }
    let neg = b[0] == 45;
    let start: usize = if b[0] == 43 || b[0] == 45 {
        1
    } else {
        0
    };
    proof {
        assert(b@.skip(1) =~= b@.drop_first());
        assert(b@.skip(0) =~= b@);
    }
    let mut i: usize = start;
    let mut acc: i64 = 0;
    let mut seen = false;
    while i < b.len()
        invariant
            b@ == s.spec_bytes(),
            neg == (b@[0] == 45),
            b@.len() > 0,
            start == (if b@[0] == 43 || b@[0] == 45 {
                1int
            } else {
                0int
            }),
            start <= i <= b@.len(),
            0 <= acc <= 9_223_372_036_854i64,
            micros_scan(b@.skip(i as int), acc as int, seen) == micros_body(b@),
        decreases b@.len() - i,
    {
        let c = b[i];
        proof {
            assert(b@.skip(i as int)[0] == c);
            assert(b@.skip(i as int).drop_first() =~= b@.skip(i + 1));
        }
        if 48 <= c && c <= 57 {
            let d = c - 48;
            if acc > (9_223_372_036_854i64 - d as i64) / 10 {
                proof {
                    assert(acc as int * 10 + d as int > 9_223_372_036_854) by (nonlinear_arith)
                        requires
                            acc as int > (9_223_372_036_854 - d as int) / 10,
                            0 <= d as int <= 9,
                            acc as int >= 0,
                    ;
                    lemma_micros_scan_lower(b@.skip(i + 1), acc as int * 10 + d as int, true);
                }
                return None;
            }
            acc = acc * 10 + d as i64;
            seen = true;
            i = i + 1;
        } else if c == 46 {
            if !seen && i + 1 == b.len() {
                return None;
            }
            match parse_frac6(b, i + 1) {
                Some(f) => {
                    let wide: i128 = acc as i128 * 1000000 + f as i128;
                    if wide > 0x7fff_ffff_ffff_ffff {
                        return None;
                    }
                    let v = wide as i64;
                    if neg {
                        return Some(-v);
                    } else {
                        return Some(v);
                    }
                },
                None => {
                    return None;
                },
            }
        } else {
            return None;
        }
    }
    proof {
        assert(b@.skip(b@.len() as int) =~= Seq::<u8>::empty());
    }
    if !seen {
        return None;
    }
    let v = acc * 1000000;
    if neg {
        Some(-v)
    } else {
        Some(v)
    }
}

/// Read the fraction digits starting at `from` as microseconds.
fn parse_frac6(b: &[u8], from: usize) -> (r: Option<i64>)
    requires
        from <= b@.len(),
    ensures
        match r {
            Some(f) => frac6_scan(b@.skip(from as int), 6) == Some(f as int) && 0 <= f < 1000000,
            None => frac6_scan(b@.skip(from as int), 6) is None,
        },
{
    proof {
        lemma_pow10_vals();
        lemma_frac6_scan_bounds(b@.skip(from as int), 6);
    }
    let mut i: usize = from;
    let mut f: i64 = 0;
    let mut k: u32 = 6;
    while i < b.len()
        invariant
            from <= i <= b@.len(),
            k <= 6,
            0 <= f <= pow10(6) - pow10(k as nat),
            pow10(6) == 1000000,
            1 <= pow10(k as nat) <= 1000000,
            match frac6_scan(b@.skip(i as int), k as nat) {
                Some(v) => frac6_scan(b@.skip(from as int), 6) == Some(f + v) && 0 <= v < pow10(
                    k as nat,
                ),
                None => frac6_scan(b@.skip(from as int), 6) is None,
            },
        decreases b@.len() - i,
    {
        let c = b[i];
        proof {
            assert(b@.skip(i as int)[0] == c);
            assert(b@.skip(i as int).drop_first() =~= b@.skip(i + 1));
        }
        if c < 48 || c > 57 {
            return None;
        }
        let d = c - 48;
        proof {
            lemma_pow10_vals();
            lemma_frac6_scan_bounds(b@.skip(i + 1), if k == 0 {
                0nat
            } else {
                (k - 1) as nat
            });
        }
        if k > 0 {
            let w = pow10_exec(k - 1);
            proof {
                assert(pow10(k as nat) == 10 * pow10((k - 1) as nat));
                assert(0 <= d as int * w as int && d as int * w as int <= 9 * w as int)
                    by (nonlinear_arith)
                    requires
                        0 <= d as int <= 9,
                        w as int >= 1,
                ;
            }
            f = f + d as i64 * w;
            k = k - 1;
        }
        i = i + 1;
    }
    proof {
        assert(b@.skip(b@.len() as int) =~= Seq::<u8>::empty());
    }
    Some(f)
}

fn pow10_exec(k: u32) -> (r: i64)
    requires
        k <= 6,
    ensures
        r == pow10(k as nat),
        1 <= r <= 1000000,
{
    proof {
        lemma_pow10_vals();
    }
    if k == 0 {
        1
    } else if k == 1 {
        10
    } else if k == 2 {
        100
    } else if k == 3 {
        1000
    } else if k == 4 {
        10000
    } else if k == 5 {
        100000
    } else {
        1000000
    }
}

} // verus!
