//! Small verified building blocks for the status strings the dispatcher
//! composes: appending to a `String`, whole-string comparison, and decimal
//! rendering of the integers that appear in status lines.

use vstd::prelude::*;

verus! {

/// Relies on `String::push_str` of std: appends the characters of `s` to `dst`.
#[verifier::external_body]
pub(crate) fn push_str(dst: &mut String, s: &str)
    ensures
        final(dst)@ == old(dst)@ + s@,
{
    dst.push_str(s);
}

/// Relies on `String::push` of std: appends the single character `c` to `dst`.
#[verifier::external_body]
pub(crate) fn push_char(dst: &mut String, c: char)
    ensures
        final(dst)@ == old(dst)@.push(c),
{
    dst.push(c);
}

/// Character-for-character equality of two string slices.
pub fn str_eq(a: &str, b: &str) -> (r: bool)
    ensures
        r == (a@ == b@),
{
    let sa: String = a.to_owned();
    let sb: String = b.to_owned();
    sa == sb
}

/// The character for one decimal digit.
pub open spec fn spec_digit(d: int) -> char
    recommends
        0 <= d < 10,
{
    ((d + 48) as u8) as char
}

/// The decimal rendering of a non-negative integer, most significant digit first.
pub open spec fn spec_decimal(n: int) -> Seq<char>
    recommends
        n >= 0,
    decreases n,
{
    if n < 10 {
        seq![spec_digit(n)]
    } else {
        spec_decimal(n / 10).push(spec_digit(n % 10))
    }
}

/// The decimal rendering of a signed integer: a leading minus sign when negative.
pub open spec fn spec_decimal_signed(n: int) -> Seq<char> {
    if n < 0 {
        seq!['-'] + spec_decimal(-n)
    } else {
        spec_decimal(n)
    }
}

/// Appends the decimal rendering of `n` to `dst`.
pub fn push_decimal(dst: &mut String, n: u64)
    ensures
        final(dst)@ == old(dst)@ + spec_decimal(n as int),
    decreases n,
{
    if n >= 10 {
        push_decimal(dst, n / 10);
        let d: u8 = (n % 10) as u8;
        push_char(dst, (d + 48) as char);
        proof {
            assert(dst@ =~= old(dst)@ + spec_decimal(n as int));
        }
    } else {
        let d: u8 = n as u8;
        push_char(dst, (d + 48) as char);
        proof {
            assert(dst@ =~= old(dst)@ + spec_decimal(n as int));
        }
    }
}

/// Appends the decimal rendering of `n`, with a minus sign when negative.
pub fn push_decimal_signed(dst: &mut String, n: i64)
    ensures
        final(dst)@ == old(dst)@ + spec_decimal_signed(n as int),
{
    if n < 0 {
        push_char(dst, '-');
        let wide: i128 = -(n as i128);
        let m: u64 = wide as u64;
        push_decimal(dst, m);
        proof {
            assert(dst@ =~= old(dst)@ + spec_decimal_signed(n as int));
        }
    } else {
        push_decimal(dst, n as u64);
    }
}

} // verus!
