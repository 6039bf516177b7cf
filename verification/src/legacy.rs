//! The legacy scheme: `_ZN`, length-prefixed path elements, and `E`.
//!
//! Inside an element `..` stands for `::`, `$SP$`, `$BP$`, `$RF$`, `$LT$`,
//! `$GT$`, `$LP$`, `$RP$` and `$C$` stand for punctuation, and `$u…$` stands
//! for the character with that hexadecimal scalar value. An escape that is
//! none of these ends the decoding of its element: it and what follows it
//! are written as they are.

use crate::cursor::{
    decimal_run, digit_10_of, digit_10_value, is_lower_hex, lemma_decimal_run_grows, lower_hex,
};
use crate::literal::{hex_value, hex_value_of};
use crate::printer::{Input, Source};
use crate::punycode::{char_from_u32, is_scalar_value};
use crate::sink::{Sink, Text};
use vstd::prelude::*;

verus! {

/// Whether `b` is one of `0-9`, `a-f`, `A-F`.
pub open spec fn is_hex_digit(b: u8) -> bool {
    ('0' as u8) <= b <= ('9' as u8) || ('a' as u8) <= b <= ('f' as u8) || ('A' as u8) <= b <= (
    'F' as u8)
}

/// Whether `v` is the scalar value of a control character.
pub open spec fn is_control(v: nat) -> bool {
    v <= 0x1f || 0x7f <= v <= 0x9f
}

/// The elements of a legacy name from `pos` on, up to the closing `E`:
/// their number, counted on from `count`, and the position behind the `E`.
/// Each element is a decimal length and that many bytes.
pub open spec fn legacy_scan(sym: Seq<u8>, pos: nat, count: nat) -> Option<(nat, nat)>
    decreases sym.len() - pos,
{
    if pos >= sym.len() {
        None
    } else if sym[pos as int] == 'E' as u8 {
        Some((count, pos + 1))
    } else if digit_10_value(sym[pos as int]) is None {
        None
    } else {
        let (len, p) = decimal_run(sym, pos, 0);
        if p + len >= sym.len() || p <= pos {
            None
        } else {
            legacy_scan(sym, p + len, count + 1)
        }
    }
}

/// Whether the bytes behind the prefix are a legacy name: ASCII, with at
/// least one element and a closing `E`. The result is the number of
/// elements and the position behind the `E`.
pub open spec fn recognise(sym: Seq<u8>) -> Option<(nat, nat)> {
    if !crate::sink::all_ascii(sym) {
        None
    } else {
        match legacy_scan(sym, 0, 0) {
            Some((count, end)) => if count > 0 {
                Some((count, end))
            } else {
                None
            },
            None => None,
        }
    }
}

/// Whether `sym[start..end]` has the shape of a hash: `h` and then hex
/// digits only.
pub open spec fn is_hash(sym: Seq<u8>, start: nat, end: nat) -> bool {
    &&& start < end <= sym.len()
    &&& sym[start as int] == 'h' as u8
    &&& forall|i: int| start < i < end ==> is_hex_digit(#[trigger] sym[i])
}

/// The first position in `pos..end` that holds `b`.
pub open spec fn find_byte(sym: Seq<u8>, pos: nat, end: nat, b: u8) -> Option<nat>
    decreases end - pos,
{
    if pos >= end || pos >= sym.len() {
        None
    } else if sym[pos as int] == b {
        Some(pos)
    } else {
        find_byte(sym, pos + 1, end, b)
    }
}

/// The first position in `pos..end` that holds `$` or `.`, or `end`.
pub open spec fn find_special(sym: Seq<u8>, pos: nat, end: nat) -> nat
    decreases end - pos,
{
    if pos >= end || pos >= sym.len() {
        pos
    } else if sym[pos as int] == '$' as u8 || sym[pos as int] == '.' as u8 {
        pos
    } else {
        find_special(sym, pos + 1, end)
    }
}

/// The punctuation that a named escape stands for.
pub open spec fn named_escape(esc: Seq<u8>) -> Option<char> {
    if esc.len() == 1 && esc[0] == 'C' as u8 {
        Some(',')
    } else if esc.len() != 2 {
        None
    } else if esc[0] == 'S' as u8 && esc[1] == 'P' as u8 {
        Some('@')
    } else if esc[0] == 'B' as u8 && esc[1] == 'P' as u8 {
        Some('*')
    } else if esc[0] == 'R' as u8 && esc[1] == 'F' as u8 {
        Some('&')
    } else if esc[0] == 'L' as u8 && esc[1] == 'T' as u8 {
        Some('<')
    } else if esc[0] == 'G' as u8 && esc[1] == 'T' as u8 {
        Some('>')
    } else if esc[0] == 'L' as u8 && esc[1] == 'P' as u8 {
        Some('(')
    } else if esc[0] == 'R' as u8 && esc[1] == 'P' as u8 {
        Some(')')
    } else {
        None
    }
}

/// The character that the escape `sym[start..end]` of the form `u…` stands
/// for: its digits are lower-case hex, at least one, and spell the scalar
/// value of a character that is no control character.
pub open spec fn unicode_escape(sym: Seq<u8>, start: nat, end: nat) -> Option<char> {
    if start + 1 < end <= sym.len() && sym[start as int] == 'u' as u8 && (forall|i: int|
        start < i < end ==> is_lower_hex(#[trigger] sym[i])) {
        match hex_value(sym, start + 1, end) {
            Some(v) => if is_scalar_value(v as int) && !is_control(v) {
                Some(v as char)
            } else {
                None
            },
            None => None,
        }
    } else {
        None
    }
}

/// The character that the escape `sym[start..end]` stands for.
pub open spec fn escape(sym: Seq<u8>, start: nat, end: nat) -> Option<char> {
    match named_escape(sym.subrange(start as int, end as int)) {
        Some(c) => Some(c),
        None => unicode_escape(sym, start, end),
    }
}

/// Writes the element `sym[pos..end]` with its escapes undone.
pub open spec fn unescape(sym: Seq<u8>, t: Text, pos: nat, end: nat) -> Text
    decreases end - pos,
{
    if pos >= end || end > sym.len() {
        t.put_ascii(Seq::empty())
    } else if sym[pos as int] == '.' as u8 {
        if pos + 1 < end && sym[(pos + 1) as int] == '.' as u8 {
            unescape(sym, t.put("::"@), pos + 2, end)
        } else {
            unescape(sym, t.put("."@), pos + 1, end)
        }
    } else if sym[pos as int] == '$' as u8 {
        match find_byte(sym, pos + 1, end, '$' as u8) {
            Some(close) => match escape(sym, pos + 1, close) {
                Some(c) => if pos < close < end {
                    unescape(sym, t.put_char(c), close + 1, end)
                } else {
                    t
                },
                None => t.put_ascii(sym.subrange(pos as int, end as int)),
            },
            None => t.put_ascii(sym.subrange(pos as int, end as int)),
        }
    } else {
        let stop = find_special(sym, pos, end);
        if pos < stop < end {
            unescape(sym, t.put_ascii(sym.subrange(pos as int, stop as int)), stop, end)
        } else {
            t.put_ascii(sym.subrange(pos as int, end as int))
        }
    }
}

/// Writes the elements of a legacy name from the `index`-th of `total` on,
/// which begins at `pos`, with `::` between them. In the terse style a last
/// element that has the shape of a hash is left out.
pub open spec fn elements(g: Input, t: Text, pos: nat, index: nat, total: nat) -> Text
    decreases total - index,
{
    if index >= total {
        t
    } else {
        let (len, start) = decimal_run(g.sym, pos, 0);
        let end = start + len;
        if g.alt && index + 1 == total && is_hash(g.sym, start, end) {
            t
        } else {
            let a = if index != 0 {
                t.put("::"@)
            } else {
                t
            };
            let from = if start + 2 <= end <= g.sym.len() && g.sym[start as int] == '_' as u8
                && g.sym[(start + 1) as int] == '$' as u8 {
                start + 1
            } else {
                start
            };
            elements(g, unescape(g.sym, a, from, end), end, index + 1, total)
        }
    }
}

/// The text of a legacy name of `total` elements.
pub open spec fn rendering(g: Input, total: nat) -> Text {
    elements(g, Text::empty(), 0, 0, total)
}

/// Whether `long` begins with `short`.
pub open spec fn begins_with(long: Seq<char>, short: Seq<char>) -> bool {
    short.len() <= long.len() && long.subrange(0, short.len() as int) == short
}

/// A text only grows by what is put into it.
pub proof fn lemma_put_extends(t: Text, chunk: Seq<char>)
    ensures
        begins_with(t.put(chunk).chars, t.chars),
{
    assert((t.chars + chunk).subrange(0, t.chars.len() as int) =~= t.chars);
    assert(t.chars.subrange(0, t.chars.len() as int) =~= t.chars);
}

/// What begins with a text that begins with another begins with that one.
pub proof fn lemma_begins_with_chain(a: Seq<char>, b: Seq<char>, c: Seq<char>)
    requires
        begins_with(b, a),
        begins_with(c, b),
    ensures
        begins_with(c, a),
{
    assert(c.subrange(0, a.len() as int) =~= c.subrange(0, b.len() as int).subrange(
        0,
        a.len() as int,
    ));
}

/// Writing an element only adds to the text.
pub proof fn lemma_unescape_extends(sym: Seq<u8>, t: Text, pos: nat, end: nat)
    ensures
        begins_with(unescape(sym, t, pos, end).chars, t.chars),
    decreases end - pos,
{
    if pos >= end || end > sym.len() {
        lemma_put_extends(t, crate::sink::ascii_chars(Seq::empty()));
    } else if sym[pos as int] == '.' as u8 {
        if pos + 1 < end && sym[(pos + 1) as int] == '.' as u8 {
            lemma_put_extends(t, "::"@);
            lemma_unescape_extends(sym, t.put("::"@), pos + 2, end);
            lemma_begins_with_chain(
                t.chars,
                t.put("::"@).chars,
                unescape(sym, t, pos, end).chars,
            );
        } else {
            lemma_put_extends(t, "."@);
            lemma_unescape_extends(sym, t.put("."@), pos + 1, end);
            lemma_begins_with_chain(t.chars, t.put("."@).chars, unescape(sym, t, pos, end).chars);
        }
    } else if sym[pos as int] == '$' as u8 {
        lemma_put_extends(t, crate::sink::ascii_chars(sym.subrange(pos as int, end as int)));
        match find_byte(sym, pos + 1, end, '$' as u8) {
            Some(close) => match escape(sym, pos + 1, close) {
                Some(c) => {
                    lemma_put_extends(t, seq![c]);
                    if pos < close < end {
                        lemma_unescape_extends(sym, t.put_char(c), close + 1, end);
                        lemma_begins_with_chain(
                            t.chars,
                            t.put_char(c).chars,
                            unescape(sym, t, pos, end).chars,
                        );
                    } else {
                        assert(t.chars.subrange(0, t.chars.len() as int) =~= t.chars);
                    }
                },
                None => {},
            },
            None => {},
        }
    } else {
        let stop = find_special(sym, pos, end);
        if pos < stop < end {
            let a = t.put_ascii(sym.subrange(pos as int, stop as int));
            lemma_put_extends(t, crate::sink::ascii_chars(sym.subrange(pos as int, stop as int)));
            lemma_unescape_extends(sym, a, stop, end);
            lemma_begins_with_chain(t.chars, a.chars, unescape(sym, t, pos, end).chars);
        } else {
            lemma_put_extends(t, crate::sink::ascii_chars(sym.subrange(pos as int, end as int)));
        }
    }
}

/// The terse text of the elements of a legacy name is the beginning of
/// their verbose text: the styles differ by a last element that has the
/// shape of a hash, and by nothing else.
pub proof fn lemma_terse_begins_verbose(sym: Seq<u8>, t: Text, pos: nat, index: nat, total: nat)
    ensures
        begins_with(
            elements(Input { sym, alt: false }, t, pos, index, total).chars,
            elements(Input { sym, alt: true }, t, pos, index, total).chars,
        ),
    decreases total - index,
{
    let terse = Input { sym, alt: true };
    let verbose = Input { sym, alt: false };
    if index >= total {
        assert(t.chars.subrange(0, t.chars.len() as int) =~= t.chars);
    } else {
        let (len, start) = decimal_run(sym, pos, 0);
        let end = start + len;
        let a = if index != 0 {
            t.put("::"@)
        } else {
            t
        };
        let from = if start + 2 <= end <= sym.len() && sym[start as int] == '_' as u8 && sym[(
        start + 1) as int] == '$' as u8 {
            start + 1
        } else {
            start
        };
        let b = unescape(sym, a, from as nat, end);
        if index + 1 == total && is_hash(sym, start, end) {
            lemma_put_extends(t, "::"@);
            assert(begins_with(a.chars, t.chars)) by {
                assert(t.chars.subrange(0, t.chars.len() as int) =~= t.chars);
            }
            lemma_unescape_extends(sym, a, from as nat, end);
            lemma_begins_with_chain(t.chars, a.chars, b.chars);
            assert(elements(verbose, b, end, index + 1, total) == b);
        } else {
            lemma_terse_begins_verbose(sym, b, end, index + 1, total);
        }
    }
}

/// The terse text of a legacy name is the beginning of its verbose text.
pub proof fn lemma_terse_rendering_begins_verbose(sym: Seq<u8>, total: nat)
    ensures
        begins_with(
            rendering(Input { sym, alt: false }, total).chars,
            rendering(Input { sym, alt: true }, total).chars,
        ),
{
    lemma_terse_begins_verbose(sym, Text::empty(), 0, 0, total);
}

/// The elements counted by a scan lie in the symbol, one behind the other.
pub open spec fn holds_elements(sym: Seq<u8>, pos: nat, total: nat) -> bool
    decreases total,
{
    if total == 0 {
        pos <= sym.len()
    } else {
        let (len, start) = decimal_run(sym, pos, 0);
        pos < start && start + len < sym.len() && holds_elements(
            sym,
            start + len,
            (total - 1) as nat,
        )
    }
}

/// A scan that counts `total` elements from `pos` on leaves them where
/// `holds_elements` says.
pub proof fn lemma_scan_holds(sym: Seq<u8>, pos: nat, count: nat)
    requires
        legacy_scan(sym, pos, count) is Some,
    ensures
        legacy_scan(sym, pos, count).unwrap().0 >= count,
        legacy_scan(sym, pos, count).unwrap().1 <= sym.len(),
        legacy_scan(sym, pos, count).unwrap().1 > pos,
        holds_elements(sym, pos, (legacy_scan(sym, pos, count).unwrap().0 - count) as nat),
    decreases sym.len() - pos,
{
    if sym[pos as int] != 'E' as u8 {
        let (len, p) = decimal_run(sym, pos, 0);
        lemma_scan_holds(sym, p + len, count + 1);
    }
}

/// The elements that `holds_elements` speaks of can be taken one by one.
pub proof fn lemma_holds_next(sym: Seq<u8>, pos: nat, total: nat)
    requires
        holds_elements(sym, pos, total),
        total > 0,
    ensures
        pos < decimal_run(sym, pos, 0).1,
        decimal_run(sym, pos, 0).1 + decimal_run(sym, pos, 0).0 < sym.len(),
        holds_elements(
            sym,
            decimal_run(sym, pos, 0).1 + decimal_run(sym, pos, 0).0,
            (total - 1) as nat,
        ),
{
}

/// Reads a run of decimal digits at `pos`. A number beyond the symbol's
/// length is reported as `None`.
pub fn read_decimal(sym: &[u8], pos: usize) -> (r: Option<(usize, usize)>)
    requires
        pos <= sym@.len(),
    ensures
        match r {
            Some((len, p)) => decimal_run(sym@, pos as nat, 0) == (len as nat, p as nat) && pos
                <= p <= sym@.len() && len <= sym@.len(),
            None => decimal_run(sym@, pos as nat, 0).0 > sym@.len(),
        },
{
    let n: usize = sym.len();
    let mut len: usize = 0;
    let mut p: usize = pos;
    while p < n && digit_10_of(sym[p]).is_some()
        invariant
            n == sym@.len(),
            pos <= p <= n,
            len <= n,
            decimal_run(sym@, p as nat, len as nat) == decimal_run(sym@, pos as nat, 0),
        decreases n - p,
    {
        let d: usize = digit_10_of(sym[p]).unwrap() as usize;
        if len > n / 10 || d > n - len * 10 {
            proof {
                lemma_decimal_run_grows(sym@, (p + 1) as nat, (len * 10 + d) as nat);
            }
            return None;
        }
        len = len * 10 + d;
        p = p + 1;
    }
    Some((len, p))
}

/// Counts the elements of a legacy name and finds the end of it.
pub fn scan(sym: &[u8]) -> (r: Option<(usize, usize)>)
    ensures
        match r {
            Some((count, end)) => legacy_scan(sym@, 0, 0) == Some((count as nat, end as nat))
                && end <= sym@.len() && count <= end,
            None => legacy_scan(sym@, 0, 0) is None,
        },
{
    let n: usize = sym.len();
    let mut pos: usize = 0;
    let mut count: usize = 0;
    while pos < n
        invariant
            n == sym@.len(),
            pos <= n,
            count <= pos,
            legacy_scan(sym@, pos as nat, count as nat) == legacy_scan(sym@, 0, 0),
        decreases n - pos,
    {
        if sym[pos] == 'E' as u8 {
            return Some((count, pos + 1));
        }
        if digit_10_of(sym[pos]).is_none() {
            return None;
        }
        let (len, p) = match read_decimal(sym, pos) {
            Some(x) => x,
            None => {
                return None;
            },
        };
        if len >= n - p || p <= pos {
            return None;
        }
        pos = p + len;
        count = count + 1;
    }
    None
}

/// Whether `b` is a hex digit of either case.
pub fn hex_digit(b: u8) -> (r: bool)
    ensures
        r == is_hex_digit(b),
{
    (b >= '0' as u8 && b <= '9' as u8) || (b >= 'a' as u8 && b <= 'f' as u8) || (b >= 'A' as u8
        && b <= 'F' as u8)
}

/// Whether `sym[start..end]` has the shape of a hash.
pub fn hash_shaped(sym: &[u8], start: usize, end: usize) -> (r: bool)
    requires
        start <= end <= sym@.len(),
    ensures
        r == is_hash(sym@, start as nat, end as nat),
{
    if start >= end || sym[start] != 'h' as u8 {
        return false;
    }
    let mut i: usize = start + 1;
    while i < end
        invariant
            start < i <= end <= sym@.len(),
            forall|j: int| start < j < i ==> is_hex_digit(#[trigger] sym@[j]),
        decreases end - i,
    {
        if !hex_digit(sym[i]) {
            return false;
        }
        i = i + 1;
    }
    true
}

/// Finds the first `b` in `sym[pos..end]`.
pub fn find_byte_in(sym: &[u8], pos: usize, end: usize, b: u8) -> (r: Option<usize>)
    requires
        pos <= end <= sym@.len(),
    ensures
        match r {
            Some(i) => find_byte(sym@, pos as nat, end as nat, b) == Some(i as nat) && pos <= i
                < end,
            None => find_byte(sym@, pos as nat, end as nat, b) is None,
        },
{
    let mut i: usize = pos;
    while i < end
        invariant
            pos <= i <= end <= sym@.len(),
            find_byte(sym@, i as nat, end as nat, b) == find_byte(sym@, pos as nat, end as nat, b),
        decreases end - i,
    {
        if sym[i] == b {
            return Some(i);
        }
        i = i + 1;
    }
    None
}

/// Finds the first `$` or `.` in `sym[pos..end]`, or `end`.
pub fn find_special_in(sym: &[u8], pos: usize, end: usize) -> (r: usize)
    requires
        pos <= end <= sym@.len(),
    ensures
        r as nat == find_special(sym@, pos as nat, end as nat),
        pos <= r <= end,
{
    let mut i: usize = pos;
    while i < end
        invariant
            pos <= i <= end <= sym@.len(),
            find_special(sym@, i as nat, end as nat) == find_special(
                sym@,
                pos as nat,
                end as nat,
            ),
        decreases end - i,
    {
        if sym[i] == '$' as u8 || sym[i] == '.' as u8 {
            return i;
        }
        i = i + 1;
    }
    i
}

/// The punctuation that the named escape `sym[start..end]` stands for.
pub fn named_escape_of(sym: &[u8], start: usize, end: usize) -> (r: Option<char>)
    requires
        start <= end <= sym@.len(),
    ensures
        r == named_escape(sym@.subrange(start as int, end as int)),
{
    let n: usize = end - start;
    if n == 1 {
        if sym[start] == 'C' as u8 {
            Some(',')
        } else {
            None
        }
    } else if n != 2 {
        None
    } else {
        let a: char = sym[start] as char;
        let b: char = sym[start + 1] as char;
        if a == 'S' && b == 'P' {
            Some('@')
        } else if a == 'B' && b == 'P' {
            Some('*')
        } else if a == 'R' && b == 'F' {
            Some('&')
        } else if a == 'L' && b == 'T' {
            Some('<')
        } else if a == 'G' && b == 'T' {
            Some('>')
        } else if a == 'L' && b == 'P' {
            Some('(')
        } else if a == 'R' && b == 'P' {
            Some(')')
        } else {
            None
        }
    }
}

/// The character that the escape `sym[start..end]` of the form `u…` stands for.
pub fn unicode_escape_of(sym: &[u8], start: usize, end: usize) -> (r: Option<char>)
    requires
        start <= end <= sym@.len(),
    ensures
        r == unicode_escape(sym@, start as nat, end as nat),
{
    if end - start < 2 || sym[start] != 'u' as u8 {
        return None;
    }
    let mut i: usize = start + 1;
    while i < end
        invariant
            start < i <= end <= sym@.len(),
            forall|j: int| start < j < i ==> is_lower_hex(#[trigger] sym@[j]),
        decreases end - i,
    {
        if !lower_hex(sym[i]) {
            return None;
        }
        i = i + 1;
    }
    match hex_value_of(sym, start + 1, end) {
        Some(v) => {
            if v > u32::MAX as u64 {
                return None;
            }
            if v <= 0x1f || (0x7f <= v && v <= 0x9f) {
                return None;
            }
            char_from_u32(v as u32)
        },
        None => None,
    }
}

/// The character that the escape `sym[start..end]` stands for.
pub fn escape_of(sym: &[u8], start: usize, end: usize) -> (r: Option<char>)
    requires
        start <= end <= sym@.len(),
    ensures
        r == escape(sym@, start as nat, end as nat),
{
    match named_escape_of(sym, start, end) {
        Some(c) => Some(c),
        None => unicode_escape_of(sym, start, end),
    }
}

/// Writes the element `sym[pos..end]` with its escapes undone.
pub fn write_unescaped(out: &mut Sink, sym: &[u8], pos: usize, end: usize)
    requires
        old(out).wf(),
        pos <= end <= sym@.len(),
        crate::sink::all_ascii(sym@),
    ensures
        final(out).wf(),
        final(out)@ == unescape(sym@, old(out)@, pos as nat, end as nat),
{
    let mut p: usize = pos;
    loop
        invariant
            pos <= p <= end <= sym@.len(),
            crate::sink::all_ascii(sym@),
            out.wf(),
            unescape(sym@, out@, p as nat, end as nat) == unescape(
                sym@,
                old(out)@,
                pos as nat,
                end as nat,
            ),
        decreases end - p,
    {
        if p >= end {
            assert(sym@.subrange(p as int, p as int) =~= Seq::<u8>::empty());
            out.write_ascii(sym, p, p);
            return ;
        }
        let b: u8 = sym[p];
        if b == '.' as u8 {
            if p + 1 < end && sym[p + 1] == '.' as u8 {
                out.write_str("::");
                p = p + 2;
            } else {
                out.write_str(".");
                p = p + 1;
            }
        } else if b == '$' as u8 {
            match find_byte_in(sym, p + 1, end, '$' as u8) {
                Some(close) => match escape_of(sym, p + 1, close) {
                    Some(c) => {
                        out.write_char(c);
                        p = close + 1;
                    },
                    None => {
                        out.write_ascii(sym, p, end);
                        return ;
                    },
                },
                None => {
                    out.write_ascii(sym, p, end);
                    return ;
                },
            }
        } else {
            let stop: usize = find_special_in(sym, p, end);
            if p < stop && stop < end {
                out.write_ascii(sym, p, stop);
                p = stop;
            } else {
                out.write_ascii(sym, p, end);
                return ;
            }
        }
    }
}

/// Writes a legacy name of `total` elements.
pub fn write_elements(out: &mut Sink, src: &Source, total: usize)
    requires
        old(out).wf(),
        src.wf(),
        holds_elements(src@.sym, 0, total as nat),
    ensures
        final(out).wf(),
        final(out)@ == elements(src@, old(out)@, 0, 0, total as nat),
{
    let sym: &[u8] = src.bytes;
    let n: usize = sym.len();
    let mut pos: usize = 0;
    let mut index: usize = 0;
    while index < total
        invariant
            n == sym@.len(),
            out.wf(),
            src.wf(),
            sym@ == src@.sym,
            index <= total,
            pos <= sym@.len(),
            holds_elements(sym@, pos as nat, (total - index) as nat),
            elements(src@, out@, pos as nat, index as nat, total as nat) == elements(
                src@,
                old(out)@,
                0,
                0,
                total as nat,
            ),
        decreases total - index,
    {
        proof {
            lemma_holds_next(sym@, pos as nat, (total - index) as nat);
        }
        let (len, start) = match read_decimal(sym, pos) {
            Some(x) => x,
            None => {
                return ;
            },
        };
        let end: usize = start + len;
        if src.alternate && index + 1 == total && hash_shaped(sym, start, end) {
            return ;
        }
        if index != 0 {
            out.write_str("::");
        }
        let from: usize = if end - start >= 2 && sym[start] == '_' as u8 && sym[start + 1]
            == '$' as u8 {
            start + 1
        } else {
            start
        };
        write_unescaped(out, sym, from, end);
        pos = end;
        index = index + 1;
    }
}

} // verus!
