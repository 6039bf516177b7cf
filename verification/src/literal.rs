//! Constant values of the v0 scheme: numbers, characters and strings spelled
//! in hexadecimal, and how a character is written inside quotes.

use crate::printer::{Printer, State};
use crate::sink::Text;
use vstd::prelude::*;
use vstd::std_specs::iter::IteratorSpec;
use vstd::string::StringSliceAdditionalSpecFns;
use vstd::utf8::{decode_utf8, encode_utf8_decode_utf8, valid_utf8};

verus! {

/// Value of a hex digit; a byte that is none counts as zero.
pub open spec fn hex_digit_value(b: u8) -> nat {
    if ('0' as u8) <= b <= ('9' as u8) {
        (b - ('0' as u8)) as nat
    } else if ('a' as u8) <= b <= ('f' as u8) {
        (10 + (b - ('a' as u8))) as nat
    } else {
        0
    }
}

/// The number that hex digits spell, most significant digit first.
pub open spec fn hex_number(digits: Seq<u8>) -> nat
    decreases digits.len(),
{
    if digits.len() == 0 {
        0
    } else {
        hex_number(digits.drop_last()) * 16 + hex_digit_value(digits.last())
    }
}

/// The first position in `start..end` that does not hold `0`, or `end`.
pub open spec fn first_nonzero(sym: Seq<u8>, start: nat, end: nat) -> nat
    decreases end - start,
{
    if start < end && start < sym.len() && sym[start as int] == '0' as u8 {
        first_nonzero(sym, start + 1, end)
    } else {
        start
    }
}

/// The number spelled by the hex digits `sym[start..end]`, unless it needs
/// more than sixteen digits after its leading zeros.
pub open spec fn hex_value(sym: Seq<u8>, start: nat, end: nat) -> Option<nat> {
    let s = first_nonzero(sym, start, end);
    if end - s > 16 {
        None
    } else {
        Some(hex_number(sym.subrange(s as int, end as int)))
    }
}

/// The bytes that pairs of hex digits spell.
pub open spec fn hex_bytes(digits: Seq<u8>) -> Seq<u8> {
    Seq::new(
        digits.len() / 2,
        |i: int| (hex_digit_value(digits[2 * i]) * 16 + hex_digit_value(digits[2 * i + 1])) as u8,
    )
}

/// The characters of a string constant spelled by the hex digits
/// `sym[start..end]`: the digits pair up to bytes, and the bytes are UTF-8.
pub open spec fn str_chars(sym: Seq<u8>, start: nat, end: nat) -> Option<Seq<char>> {
    let digits = sym.subrange(start as int, end as int);
    if digits.len() % 2 != 0 || !valid_utf8(hex_bytes(digits)) {
        None
    } else {
        Some(decode_utf8(hex_bytes(digits)))
    }
}

/// What `char::escape_debug` yields for a character.
pub uninterp spec fn escape_debug_chars(c: char) -> Seq<char>;

/// `char::escape_debug`: the characters that stand for `c` in debug output.
#[verifier::external_body]
pub(crate) fn escape_debug(c: char) -> (r: Vec<char>)
    ensures
        r@ == escape_debug_chars(c),
{
    c.escape_debug().collect()
}

/// `core::str::from_utf8`: the string that the bytes encode, if they are
/// valid UTF-8.
#[verifier::external_body]
pub(crate) fn str_from_utf8(bytes: &[u8]) -> (r: Option<&str>)
    ensures
        r is Some <==> valid_utf8(bytes@),
        r is Some ==> r.unwrap().spec_bytes() == bytes@,
{
    match core::str::from_utf8(bytes) {
        Ok(s) => Some(s),
        Err(_) => None,
    }
}

/// Writes characters one by one, each as a chunk of its own.
pub open spec fn put_chars(t: Text, cs: Seq<char>) -> Text
    decreases cs.len(),
{
    if cs.len() == 0 {
        t
    } else {
        put_chars(t.put_char(cs[0]), cs.drop_first())
    }
}

/// Writes one character of a quoted literal: a quote of the other kind as it
/// is, anything else escaped.
pub open spec fn put_escaped(t: Text, quote: char, c: char) -> Text {
    if (quote == '\'' && c == '"') || (quote == '"' && c == '\'') {
        t.put_char(c)
    } else {
        put_chars(t, escape_debug_chars(c))
    }
}

/// Writes the characters of a quoted literal.
pub open spec fn put_literal(t: Text, quote: char, cs: Seq<char>) -> Text
    decreases cs.len(),
{
    if cs.len() == 0 {
        t
    } else {
        put_literal(put_escaped(t, quote, cs[0]), quote, cs.drop_first())
    }
}

/// Writes a literal between two quotes, unless the walk only checks.
pub open spec fn print_quoted(s: State, quote: char, cs: Seq<char>) -> State {
    if s.printing {
        State { out: put_literal(s.out.put_char(quote), quote, cs).put_char(quote), ..s }
    } else {
        s
    }
}

/// Writes characters one by one, unless the walk only checks.
pub open spec fn print_chars(s: State, cs: Seq<char>) -> State {
    if s.printing {
        State { out: put_chars(s.out, cs), ..s }
    } else {
        s
    }
}

/// Sixteen to the power of `n`.
pub open spec fn pow16(n: nat) -> nat
    decreases n,
{
    if n == 0 {
        1
    } else {
        16 * pow16((n - 1) as nat)
    }
}

/// Hex digits spell a number below sixteen to the power of their count.
pub proof fn lemma_hex_number_bound(digits: Seq<u8>)
    ensures
        hex_number(digits) < pow16(digits.len()),
    decreases digits.len(),
{
    if digits.len() > 0 {
        lemma_hex_number_bound(digits.drop_last());
    }
}

/// Powers of sixteen grow with the exponent.
pub proof fn lemma_pow16_monotone(a: nat, b: nat)
    requires
        a <= b,
    ensures
        pow16(a) <= pow16(b),
    decreases b,
{
    if a < b {
        lemma_pow16_monotone(a, (b - 1) as nat);
    }
}

/// The value of a hex digit; a byte that is none counts as zero.
pub fn hex_digit_of(b: u8) -> (r: u8)
    ensures
        r as nat == hex_digit_value(b),
        r < 16,
{
    if b >= '0' as u8 && b <= '9' as u8 {
        b - ('0' as u8)
    } else if b >= 'a' as u8 && b <= 'f' as u8 {
        10 + (b - ('a' as u8))
    } else {
        0
    }
}

/// The number spelled by the hex digits `sym[start..end]`.
pub fn hex_value_of(sym: &[u8], start: usize, end: usize) -> (r: Option<u64>)
    requires
        start <= end <= sym@.len(),
    ensures
        match r {
            Some(v) => hex_value(sym@, start as nat, end as nat) == Some(v as nat),
            None => hex_value(sym@, start as nat, end as nat) is None,
        },
{
    let mut s: usize = start;
    while s < end && sym[s] == '0' as u8
        invariant
            start <= s <= end <= sym@.len(),
            first_nonzero(sym@, s as nat, end as nat) == first_nonzero(
                sym@,
                start as nat,
                end as nat,
            ),
        decreases end - s,
    {
        s = s + 1;
    }
    if end - s > 16 {
        return None;
    }
    let mut v: u64 = 0;
    let mut i: usize = s;
    while i < end
        invariant
            s <= i <= end <= sym@.len(),
            end - s <= 16,
            v as nat == hex_number(sym@.subrange(s as int, i as int)),
        decreases end - i,
    {
        let d: u8 = hex_digit_of(sym[i]);
        proof {
            let next = sym@.subrange(s as int, i + 1);
            assert(next.drop_last() =~= sym@.subrange(s as int, i as int));
            assert(next.last() == sym@[i as int]);
            lemma_hex_number_bound(next);
            lemma_pow16_monotone(next.len(), 16);
            reveal_with_fuel(pow16, 17);
            assert(pow16(16) == 0x1_0000_0000_0000_0000);
        }
        v = v * 16 + d as u64;
        i = i + 1;
    }
    Some(v)
}

/// The characters of a string constant spelled by the hex digits
/// `sym[start..end]`.
pub fn str_chars_of(sym: &[u8], start: usize, end: usize) -> (r: Option<Vec<char>>)
    requires
        start <= end <= sym@.len(),
    ensures
        match r {
            Some(v) => str_chars(sym@, start as nat, end as nat) == Some(v@),
            None => str_chars(sym@, start as nat, end as nat) is None,
        },
{
    let ghost digits = sym@.subrange(start as int, end as int);
    if (end - start) % 2 != 0 {
        return None;
    }
    let count: usize = (end - start) / 2;
    let mut bytes: Vec<u8> = Vec::new();
    let mut i: usize = 0;
    while i < count
        invariant
            start <= end <= sym@.len(),
            count == (end - start) / 2,
            digits == sym@.subrange(start as int, end as int),
            i <= count,
            bytes@ == hex_bytes(digits).subrange(0, i as int),
        decreases count - i,
    {
        let hi: u8 = hex_digit_of(sym[start + 2 * i]);
        let lo: u8 = hex_digit_of(sym[start + 2 * i + 1]);
        bytes.push(hi * 16 + lo);
        i = i + 1;
        assert(bytes@ =~= hex_bytes(digits).subrange(0, i as int));
    }
    assert(bytes@ =~= hex_bytes(digits));
    let text: &str = match str_from_utf8(bytes.as_slice()) {
        None => {
            return None;
        },
        Some(s) => s,
    };
    proof {
        encode_utf8_decode_utf8(text@);
    }
    assert(str_chars(sym@, start as nat, end as nat) == Some(text@));
    let mut chars: Vec<char> = Vec::new();
    let mut it = text.chars();
    loop
        invariant
            str_chars(sym@, start as nat, end as nat) == Some(text@),
            it.obeys_prophetic_iter_laws(),
            it.decrease() is Some,
            chars@ + it.remaining() == text@,
        decreases it.decrease()->0,
    {
        let ghost before = it.remaining();
        match it.next() {
            Some(c) => {
                chars.push(c);
                assert(chars@ + it.remaining() =~= chars@.drop_last() + before);
            },
            None => {
                assert(chars@ + it.remaining() =~= chars@);
                return Some(chars);
            },
        }
    }
}

impl Printer {
    /// Writes characters one by one.
    pub fn print_chars(&mut self, cs: &Vec<char>)
        requires
            old(self).out.wf(),
        ensures
            final(self)@ == print_chars(old(self)@, cs@),
            final(self).out.wf(),
            old(self)@.leads_to(final(self)@),
            final(self).next == old(self).next,
            final(self).err == old(self).err,
            final(self).bound == old(self).bound,
    {
        if !self.printing {
            return ;
        }
        let mut i: usize = 0;
        assert(cs@.subrange(0, cs@.len() as int) =~= cs@);
        while i < cs.len()
            invariant
                i <= cs@.len(),
                self.out.wf(),
                self.printing,
                self.next == old(self).next,
                self.err == old(self).err,
                self.bound == old(self).bound,
                old(self)@.leads_to(self@),
                put_chars(self.out@, cs@.subrange(i as int, cs@.len() as int)) == put_chars(
                    old(self).out@,
                    cs@,
                ),
            decreases cs@.len() - i,
        {
            assert(cs@.subrange(i as int, cs@.len() as int).drop_first() =~= cs@.subrange(
                i + 1,
                cs@.len() as int,
            ));
            self.print_char(cs[i]);
            i = i + 1;
        }
    }

    /// Writes one character of a quoted literal.
    pub fn print_escaped(&mut self, quote: char, c: char)
        requires
            old(self).out.wf(),
            old(self).printing,
        ensures
            final(self).out@ == put_escaped(old(self).out@, quote, c),
            final(self).out.wf(),
            old(self)@.leads_to(final(self)@),
            final(self).next == old(self).next,
            final(self).err == old(self).err,
            final(self).bound == old(self).bound,
    {
        if (quote == '\'' && c == '"') || (quote == '"' && c == '\'') {
            self.print_char(c);
        } else {
            let escaped: Vec<char> = escape_debug(c);
            self.print_chars(&escaped);
        }
    }

    /// Writes a literal between two quotes.
    pub fn print_quoted(&mut self, quote: char, cs: &Vec<char>)
        requires
            old(self).out.wf(),
        ensures
            final(self)@ == print_quoted(old(self)@, quote, cs@),
            final(self).out.wf(),
            old(self)@.leads_to(final(self)@),
            final(self).next == old(self).next,
            final(self).err == old(self).err,
            final(self).bound == old(self).bound,
    {
        if !self.printing {
            return ;
        }
        self.print_char(quote);
        let ghost opened = self.out@;
        let mut i: usize = 0;
        assert(cs@.subrange(0, cs@.len() as int) =~= cs@);
        while i < cs.len()
            invariant
                i <= cs@.len(),
                self.out.wf(),
                self.printing,
                self.next == old(self).next,
                self.err == old(self).err,
                self.bound == old(self).bound,
                old(self)@.leads_to(self@),
                put_literal(self.out@, quote, cs@.subrange(i as int, cs@.len() as int))
                    == put_literal(opened, quote, cs@),
            decreases cs@.len() - i,
        {
            assert(cs@.subrange(i as int, cs@.len() as int).drop_first() =~= cs@.subrange(
                i + 1,
                cs@.len() as int,
            ));
            self.print_escaped(quote, cs[i]);
            i = i + 1;
        }
        self.print_char(quote);
    }
}

} // verus!
