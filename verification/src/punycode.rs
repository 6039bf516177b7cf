//! Punycode, as identifiers of the v0 scheme carry it: an ASCII part and a
//! run of base-36 digits that says where which other characters go.
//!
//! All arithmetic is carried out in 64 bits; a number that does not fit makes
//! the identifier undecodable.

use crate::sink::ascii_chars;
use vstd::prelude::*;

verus! {

/// An identifier longer than this many characters is not decoded.
pub const SMALL_PUNYCODE_LEN: usize = 128;

/// Whether `x` fits in 64 bits.
pub open spec fn fits(x: int) -> bool {
    x <= u64::MAX
}

/// Whether `v` is a Unicode scalar value.
pub open spec fn is_scalar_value(v: int) -> bool {
    0 <= v <= 0xD7FF || 0xE000 <= v <= 0x10FFFF
}

/// Value of a Punycode digit: `a-z` are 0 to 25, `0-9` are 26 to 35.
pub open spec fn puny_digit(b: u8) -> Option<nat> {
    if ('a' as u8) <= b <= ('z' as u8) {
        Some((b - ('a' as u8)) as nat)
    } else if ('0' as u8) <= b <= ('9' as u8) {
        Some((26 + (b - ('0' as u8))) as nat)
    } else {
        None
    }
}

/// The threshold of the digit at weight position `k` under `bias`.
pub open spec fn threshold(k: nat, bias: nat) -> nat {
    if k <= bias + 1 {
        1
    } else if k >= bias + 26 {
        26
    } else {
        (k - bias) as nat
    }
}

/// One variable-length number, continued at `pos` with the value `delta`,
/// the weight `w` and the weight position `k`: the number and the position
/// behind its last digit.
pub open spec fn puny_delta(p: Seq<u8>, pos: nat, bias: nat, delta: nat, w: nat, k: nat) -> Option<
    (nat, nat),
>
    decreases p.len() - pos,
{
    if pos >= p.len() {
        None
    } else {
        let t = threshold(k + 36, bias);
        match puny_digit(p[pos as int]) {
            None => None,
            Some(d) => if !fits((delta + d * w) as int) {
                None
            } else if d < t {
                Some((delta + d * w, pos + 1))
            } else if !fits(w * (36 - t)) {
                None
            } else {
                puny_delta(p, pos + 1, bias, delta + d * w, (w * (36 - t)) as nat, k + 36)
            },
        }
    }
}

/// Scales `delta` down until it is small, counting 36 per division in `k`.
pub open spec fn adapt_scale(delta: nat, k: nat) -> (nat, nat)
    decreases delta,
{
    if delta > 455 {
        adapt_scale(delta / 35, k + 36)
    } else {
        (delta, k)
    }
}

/// The bias for the next number, after a number `delta` was read into a
/// string that now has `len` characters.
pub open spec fn adapt(delta: nat, len: nat, first: bool) -> nat {
    let d1 = if first {
        delta / 700
    } else {
        delta / 2
    };
    let d2 = d1 + d1 / len;
    let (d3, k) = adapt_scale(d2, 0);
    k + (36 * d3) / (d3 + 38)
}

/// Decodes the numbers from `pos` on, each inserting one character into `out`.
pub open spec fn puny_steps(
    p: Seq<u8>,
    pos: nat,
    out: Seq<char>,
    i: nat,
    n: nat,
    bias: nat,
    first: bool,
) -> Option<Seq<char>>
    decreases p.len() - pos,
{
    match puny_delta(p, pos, bias, 0, 1, 0) {
        None => None,
        Some((delta, pos1)) => {
            let len = out.len() + 1;
            let i1 = i + delta;
            let n1 = n + i1 / len;
            let i2 = i1 % len;
            if !fits(i1 as int) || !fits(n1 as int) || !is_scalar_value(n1 as int) || out.len()
                >= SMALL_PUNYCODE_LEN {
                None
            } else {
                let out1 = out.insert(i2 as int, n1 as char);
                if pos1 >= p.len() {
                    Some(out1)
                } else if pos1 > pos {
                    puny_steps(p, pos1, out1, i2 + 1, n1 as nat, adapt(delta, len, first), false)
                } else {
                    None
                }
            }
        },
    }
}

/// The characters of an identifier with the ASCII part `ascii` and the
/// Punycode part `puny`, if it can be decoded.
pub open spec fn puny_decode(ascii: Seq<u8>, puny: Seq<u8>) -> Option<Seq<char>> {
    if puny.len() == 0 || ascii.len() > SMALL_PUNYCODE_LEN {
        None
    } else {
        puny_steps(puny, 0, ascii_chars(ascii), 0, 0x80, 72, true)
    }
}

/// `char::from_u32`: the character with the scalar value `v`, or `None` where
/// `v` is a surrogate or beyond the last code point.
#[verifier::external_body]
pub(crate) fn char_from_u32(v: u32) -> (r: Option<char>)
    ensures
        is_scalar_value(v as int) ==> r == Some(v as char),
        !is_scalar_value(v as int) ==> r is None,
{
    char::from_u32(v)
}

/// The value of a Punycode digit.
pub fn puny_digit_of(b: u8) -> (r: Option<u8>)
    ensures
        r is Some <==> puny_digit(b) is Some,
        r is Some ==> r.unwrap() as nat == puny_digit(b).unwrap() && r.unwrap() < 36,
{
    if b >= 'a' as u8 && b <= 'z' as u8 {
        Some(b - ('a' as u8))
    } else if b >= '0' as u8 && b <= '9' as u8 {
        Some(26 + (b - ('0' as u8)))
    } else {
        None
    }
}

/// The threshold of the digit at weight position `k` under `bias`.
pub fn threshold_of(k: u128, bias: u128) -> (t: u64)
    requires
        bias + 26 <= u128::MAX,
    ensures
        t as nat == threshold(k as nat, bias as nat),
        1 <= t <= 26,
{
    if k <= bias + 1 {
        1
    } else if k >= bias + 26 {
        26
    } else {
        (k - bias) as u64
    }
}

/// Reads one variable-length number from `sym[start..end]` at offset `pos`.
pub fn read_delta(sym: &[u8], start: usize, end: usize, pos: usize, bias: u128) -> (r: Option<
    (u64, usize),
>)
    requires
        start <= end <= sym@.len(),
        pos <= end - start,
        bias + 26 <= u128::MAX,
    ensures
        match r {
            Some((d, p)) => puny_delta(
                sym@.subrange(start as int, end as int),
                pos as nat,
                bias as nat,
                0,
                1,
                0,
            ) == Some((d as nat, p as nat)) && pos < p <= end - start,
            None => puny_delta(
                sym@.subrange(start as int, end as int),
                pos as nat,
                bias as nat,
                0,
                1,
                0,
            ) is None,
        },
{
    let ghost p = sym@.subrange(start as int, end as int);
    let n: usize = end - start;
    let mut delta: u64 = 0;
    let mut w: u64 = 1;
    let mut k: u128 = 0;
    let mut j: usize = pos;
    while j < n
        invariant
            start <= end <= sym@.len(),
            n == end - start,
            p == sym@.subrange(start as int, end as int),
            pos <= j <= n,
            k == 36 * (j - pos),
            bias + 26 <= u128::MAX,
            puny_delta(p, j as nat, bias as nat, delta as nat, w as nat, k as nat) == puny_delta(
                p,
                pos as nat,
                bias as nat,
                0,
                1,
                0,
            ),
        decreases n - j,
    {
        let t: u64 = threshold_of(k + 36, bias);
        let b: u8 = sym[start + j];
        assert(p[j as int] == b);
        let d: u64 = match puny_digit_of(b) {
            None => {
                return None;
            },
            Some(d) => d as u64,
        };
        assert(d * w <= 35 * w) by (nonlinear_arith)
            requires
                d <= 35,
                w >= 0,
        ;
        let sum: u128 = delta as u128 + (d as u128) * (w as u128);
        if sum > u64::MAX as u128 {
            return None;
        }
        if d < t {
            return Some((sum as u64, j + 1));
        }
        assert(w * (36 - t) <= 35 * w) by (nonlinear_arith)
            requires
                1 <= t <= 26,
                w >= 0,
        ;
        let scaled: u128 = (w as u128) * ((36 - t) as u128);
        if scaled > u64::MAX as u128 {
            return None;
        }
        delta = sum as u64;
        w = scaled as u64;
        k = k + 36;
        j = j + 1;
    }
    None
}

/// The bias for the next number.
pub fn adapt_of(delta: u64, len: u64, first: bool) -> (r: u128)
    requires
        len >= 1,
    ensures
        r as nat == adapt(delta as nat, len as nat, first),
        r + 26 <= u128::MAX,
{
    let d1: u64 = if first {
        delta / 700
    } else {
        delta / 2
    };
    let d2: u64 = d1 + d1 / len;
    let mut d: u64 = d2;
    let mut k: u128 = 0;
    while d > 455
        invariant
            adapt_scale(d as nat, k as nat) == adapt_scale(d2 as nat, 0),
            k + 36 * d <= 36 * d2,
        decreases d,
    {
        d = d / 35;
        k = k + 36;
    }
    k + ((36 * d) / (d + 38)) as u128
}

/// Decodes the identifier whose ASCII part is `sym[a0..a1]` and whose
/// Punycode part is `sym[p0..p1]`.
pub fn punycode_decode(sym: &[u8], a0: usize, a1: usize, p0: usize, p1: usize) -> (r: Option<
    Vec<char>,
>)
    requires
        a0 <= a1 <= sym@.len(),
        p0 <= p1 <= sym@.len(),
    ensures
        match r {
            Some(v) => puny_decode(
                sym@.subrange(a0 as int, a1 as int),
                sym@.subrange(p0 as int, p1 as int),
            ) == Some(v@),
            None => puny_decode(
                sym@.subrange(a0 as int, a1 as int),
                sym@.subrange(p0 as int, p1 as int),
            ) is None,
        },
{
    let ghost ascii = sym@.subrange(a0 as int, a1 as int);
    let ghost p = sym@.subrange(p0 as int, p1 as int);
    if p1 == p0 || a1 - a0 > SMALL_PUNYCODE_LEN {
        return None;
    }
    let mut out: Vec<char> = Vec::new();
    let mut a: usize = a0;
    while a < a1
        invariant
            a0 <= a <= a1 <= sym@.len(),
            out@ == ascii_chars(sym@.subrange(a0 as int, a as int)),
        decreases a1 - a,
    {
        out.push(sym[a] as char);
        a = a + 1;
        assert(out@ =~= ascii_chars(sym@.subrange(a0 as int, a as int)));
    }
    let n_puny: usize = p1 - p0;
    let mut pos: usize = 0;
    let mut i: u64 = 0;
    let mut n: u64 = 0x80;
    let mut bias: u128 = 72;
    let mut first: bool = true;
    loop
        invariant
            p0 <= p1 <= sym@.len(),
            n_puny == p1 - p0,
            p == sym@.subrange(p0 as int, p1 as int),
            ascii == sym@.subrange(a0 as int, a1 as int),
            pos < n_puny,
            out@.len() <= SMALL_PUNYCODE_LEN,
            i <= out@.len(),
            bias + 26 <= u128::MAX,
            puny_steps(p, pos as nat, out@, i as nat, n as nat, bias as nat, first) == puny_decode(
                ascii,
                p,
            ),
        decreases n_puny - pos,
    {
        let (delta, pos1) = match read_delta(sym, p0, p1, pos, bias) {
            None => {
                return None;
            },
            Some(x) => x,
        };
        if out.len() >= SMALL_PUNYCODE_LEN {
            return None;
        }
        let len: u64 = out.len() as u64 + 1;
        if delta > u64::MAX - i {
            return None;
        }
        let i1: u64 = i + delta;
        let q: u64 = i1 / len;
        if q > u64::MAX - n {
            return None;
        }
        let n1: u64 = n + q;
        let i2: u64 = i1 % len;
        if n1 > u32::MAX as u64 {
            return None;
        }
        let c: char = match char_from_u32(n1 as u32) {
            None => {
                return None;
            },
            Some(c) => c,
        };
        out.insert(i2 as usize, c);
        if pos1 >= n_puny {
            return Some(out);
        }
        bias = adapt_of(delta, len, first);
        first = false;
        i = i2 + 1;
        n = n1;
        pos = pos1;
    }
}

} // verus!
