//! Decimal and hexadecimal numerals.

use crate::sink::all_ascii;
use vstd::prelude::*;

verus! {

/// The ASCII digit for a value below 16, lower case.
pub open spec fn digit_byte(d: nat) -> u8 {
    if d < 10 {
        ('0' as u8 + d) as u8
    } else {
        ('a' as u8 + (d - 10)) as u8
    }
}

/// The decimal numeral of `n`, most significant digit first, without
/// leading zeros.
pub open spec fn decimal(n: nat) -> Seq<u8>
    decreases n,
{
    if n < 10 {
        seq![digit_byte(n)]
    } else {
        decimal(n / 10).push(digit_byte(n % 10))
    }
}

/// The lower-case hexadecimal numeral of `n`, most significant digit first,
/// without leading zeros.
pub open spec fn hexadecimal(n: nat) -> Seq<u8>
    decreases n,
{
    if n < 16 {
        seq![digit_byte(n)]
    } else {
        hexadecimal(n / 16).push(digit_byte(n % 16))
    }
}

/// Appends the decimal numeral of `v` to `buf`.
pub fn push_decimal(v: u64, buf: &mut Vec<u8>)
    requires
        all_ascii(old(buf)@),
    ensures
        final(buf)@ == old(buf)@ + decimal(v as nat),
        all_ascii(final(buf)@),
    decreases v,
{
    if v >= 10 {
        push_decimal(v / 10, buf);
    }
    let d: u8 = (v % 10) as u8;
    let b: u8 = '0' as u8 + d;
    buf.push(b);
    proof {
        if v >= 10 {
            assert(buf@ =~= old(buf)@ + decimal((v / 10) as nat).push(b));
        } else {
            assert(buf@ =~= old(buf)@ + seq![b]);
        }
    }
}

/// Appends the lower-case hexadecimal numeral of `v` to `buf`.
pub fn push_hexadecimal(v: u64, buf: &mut Vec<u8>)
    requires
        all_ascii(old(buf)@),
    ensures
        final(buf)@ == old(buf)@ + hexadecimal(v as nat),
        all_ascii(final(buf)@),
    decreases v,
{
    if v >= 16 {
        push_hexadecimal(v / 16, buf);
    }
    let d: u8 = (v % 16) as u8;
    let b: u8 = if d < 10 {
        '0' as u8 + d
    } else {
        'a' as u8 + (d - 10)
    };
    buf.push(b);
    proof {
        if v >= 16 {
            assert(buf@ =~= old(buf)@ + hexadecimal((v / 16) as nat).push(b));
        } else {
            assert(buf@ =~= old(buf)@ + seq![b]);
        }
    }
}

/// The decimal numeral of `v`.
pub fn decimal_of(v: u64) -> (r: Vec<u8>)
    ensures
        r@ == decimal(v as nat),
        all_ascii(r@),
{
    let mut buf: Vec<u8> = Vec::new();
    push_decimal(v, &mut buf);
    assert(buf@ =~= decimal(v as nat));
    buf
}

/// The lower-case hexadecimal numeral of `v`.
pub fn hexadecimal_of(v: u64) -> (r: Vec<u8>)
    ensures
        r@ == hexadecimal(v as nat),
        all_ascii(r@),
{
    let mut buf: Vec<u8> = Vec::new();
    push_hexadecimal(v, &mut buf);
    assert(buf@ =~= hexadecimal(v as nat));
    buf
}

} // verus!
