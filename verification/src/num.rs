//! Verified formatting of integers as decimal and upper-case hexadecimal
//! strings, and parsing of signed decimal integers.

use vstd::prelude::*;
use crate::text::from_chars;

verus! {

pub open spec fn dec_digit(d: int) -> char {
    if d == 0 { '0' } else if d == 1 { '1' } else if d == 2 { '2' } else if d == 3 { '3' }
    else if d == 4 { '4' } else if d == 5 { '5' } else if d == 6 { '6' } else if d == 7 { '7' }
    else if d == 8 { '8' } else { '9' }
}

pub open spec fn hex_digit_upper(d: int) -> char {
    if d < 10 { dec_digit(d) } else if d == 10 { 'A' } else if d == 11 { 'B' }
    else if d == 12 { 'C' } else if d == 13 { 'D' } else if d == 14 { 'E' } else { 'F' }
}

/// The decimal digits of `n`, most significant first, as `{}` prints them.
pub open spec fn dec_chars(n: nat) -> Seq<char>
    decreases n,
{
    if n < 10 { seq![dec_digit(n as int)] } else { dec_chars(n / 10).push(dec_digit((n % 10) as int)) }
}

/// The upper-case hexadecimal digits of `n`, as `{:X}` prints them.
pub open spec fn hex_chars_upper(n: nat) -> Seq<char>
    decreases n,
{
    if n < 16 { seq![hex_digit_upper(n as int)] } else {
        hex_chars_upper(n / 16).push(hex_digit_upper((n % 16) as int))
    }
}

fn dec_digit_exec(d: u64) -> (c: char)
    requires
        d < 10,
    ensures
        c == dec_digit(d as int),
{
    if d == 0 { '0' } else if d == 1 { '1' } else if d == 2 { '2' } else if d == 3 { '3' }
    else if d == 4 { '4' } else if d == 5 { '5' } else if d == 6 { '6' } else if d == 7 { '7' }
    else if d == 8 { '8' } else { '9' }
}

fn hex_digit_exec(d: u64) -> (c: char)
    requires
        d < 16,
    ensures
        c == hex_digit_upper(d as int),
{
    if d < 10 { dec_digit_exec(d) } else if d == 10 { 'A' } else if d == 11 { 'B' }
    else if d == 12 { 'C' } else if d == 13 { 'D' } else if d == 14 { 'E' } else { 'F' }
}

fn dec_chars_exec(n: u64) -> (v: Vec<char>)
    ensures
        v@ == dec_chars(n as nat),
    decreases n,
{
    if n < 10 {
        let mut v: Vec<char> = Vec::new();
        v.push(dec_digit_exec(n));
        proof {
            assert(v@ =~= dec_chars(n as nat));
        }
        v
    } else {
        let mut v = dec_chars_exec(n / 10);
        v.push(dec_digit_exec(n % 10));
        v
    }
}

fn hex_chars_exec(n: u64) -> (v: Vec<char>)
    ensures
        v@ == hex_chars_upper(n as nat),
    decreases n,
{
    if n < 16 {
        let mut v: Vec<char> = Vec::new();
        v.push(hex_digit_exec(n));
        proof {
            assert(v@ =~= hex_chars_upper(n as nat));
        }
        v
    } else {
        let mut v = hex_chars_exec(n / 16);
        v.push(hex_digit_exec(n % 16));
        v
    }
}

/// `n` printed in decimal.
pub fn fmt_dec(n: u64) -> (s: String)
    ensures
        s@ == dec_chars(n as nat),
{
    let v = dec_chars_exec(n);
    from_chars(&v)
}

/// `n` printed in upper-case hexadecimal, without a prefix.
pub fn fmt_hex_upper(n: u64) -> (s: String)
    ensures
        s@ == hex_chars_upper(n as nat),
{
    let v = hex_chars_exec(n);
    from_chars(&v)
}

pub open spec fn is_dec_digit(c: char) -> bool {
    '0' <= c && c <= '9'
}

pub open spec fn all_dec_digits(s: Seq<char>) -> bool {
    forall|i: int| 0 <= i < s.len() ==> is_dec_digit(#[trigger] s[i])
}

/// The value of a string of decimal digits, most significant first.
pub open spec fn dec_value(s: Seq<char>) -> int
    decreases s.len(),
{
    if s.len() == 0 { 0 } else { dec_value(s.drop_last()) * 10 + (s.last() as u32 - 48) }
}

/// The digits of a decimal literal after its optional sign.
pub open spec fn sign_split(s: Seq<char>) -> (bool, Seq<char>) {
    if s.len() > 0 && (s[0] == '-' || s[0] == '+') { (s[0] == '-', s.skip(1)) } else { (false, s) }
}

/// What `str::parse::<i64>()` combined with `unwrap_or(0)` yields: the value
/// of a well-formed in-range signed decimal literal, and `0` otherwise.
pub open spec fn spec_parse_i64_or_zero(s: Seq<char>) -> i64 {
    let (neg, ds) = sign_split(s);
    if ds.len() > 0 && all_dec_digits(ds) {
        if neg && -dec_value(ds) >= i64::MIN { (-dec_value(ds)) as i64 }
        else if !neg && dec_value(ds) <= i64::MAX { dec_value(ds) as i64 }
        else { 0 }
    } else {
        0
    }
}

/// Parse a signed decimal integer, yielding `0` for anything that is not a
/// well-formed in-range literal.
pub fn parse_i64_or_zero(s: &Vec<char>) -> (r: i64)
    ensures
        r == spec_parse_i64_or_zero(s@),
{
    let mut i: usize = 0;
    let mut neg = false;
    if s.len() > 0 && (s[0] == '-' || s[0] == '+') {
        neg = s[0] == '-';
        i = 1;
    }
    let ghost ds = sign_split(s@).1;
    proof {
        assert(neg == sign_split(s@).0);
        assert(ds =~= s@.skip(i as int));
    }
    if i >= s.len() {
        return 0;
    }
    let mut acc: u64 = 0;
    let mut too_big = false;
    let start: usize = i;
    while i < s.len()
        invariant
            start <= i <= s.len(),
            start < s.len(),
            neg == sign_split(s@).0,
            ds == sign_split(s@).1,
            ds =~= s@.skip(start as int),
            all_dec_digits(s@.subrange(start as int, i as int)),
            !too_big ==> acc <= 0x8000_0000_0000_0000u64 && acc as int == dec_value(
                s@.subrange(start as int, i as int),
            ),
            too_big ==> dec_value(s@.subrange(start as int, i as int)) > 0x8000_0000_0000_0000,
        decreases s.len() - i,
    {
        let c = s[i];
        if !('0' <= c && c <= '9') {
            proof {
                let k: int = i as int - start as int;
                assert(ds[k] == s@[i as int]);
                assert(!is_dec_digit(ds[k]));
                assert(!all_dec_digits(ds));
            }
            return 0;
        }
        let d = c as u32 - 48;
        proof {
            assert(s@.subrange(start as int, i as int + 1).drop_last() =~= s@.subrange(
                start as int,
                i as int,
            ));
            assert(s@.subrange(start as int, i as int + 1).last() == c);
        }
        if !too_big {
            if acc > 0xCCC_CCCC_CCCC_CCCCu64 {
                // acc * 10 would exceed the i64 range for certain
                too_big = true;
            } else {
                acc = acc * 10 + d as u64;
                if acc > 0x8000_0000_0000_0000u64 {
                    too_big = true;
                }
            }
        }
        i = i + 1;
    }
    proof {
        assert(s@.subrange(start as int, s@.len() as int) =~= ds);
        assert(all_dec_digits(ds));
        assert(ds.len() > 0);
    }
    if too_big {
        return 0;
    }
    if neg {
        if acc == 0x8000_0000_0000_0000u64 {
            i64::MIN
        } else {
            -(acc as i64)
        }
    } else {
        if acc <= 0x7FFF_FFFF_FFFF_FFFFu64 {
            acc as i64
        } else {
            0
        }
    }
}

} // verus!
