//! Reading the primitive tokens of the v0 grammar from a byte string.
//!
//! Each reader is a pure function of the symbol and a position. It yields what
//! it read together with the position behind it, or nothing where the bytes at
//! that position are not such a token.

use vstd::prelude::*;

verus! {

/// The byte at `pos`, if there is one.
pub open spec fn peek(sym: Seq<u8>, pos: nat) -> Option<u8> {
    if pos < sym.len() {
        Some(sym[pos as int])
    } else {
        None
    }
}

/// Whether the byte at `pos` is `b`.
pub open spec fn at(sym: Seq<u8>, pos: nat, b: char) -> bool {
    pos < sym.len() && sym[pos as int] == b as u8
}

/// Value of a decimal digit.
pub open spec fn digit_10_value(b: u8) -> Option<nat> {
    if ('0' as u8) <= b <= ('9' as u8) {
        Some((b - ('0' as u8)) as nat)
    } else {
        None
    }
}

/// Value of a base-62 digit: `0-9`, then `a-z`, then `A-Z`.
pub open spec fn digit_62_value(b: u8) -> Option<nat> {
    if ('0' as u8) <= b <= ('9' as u8) {
        Some((b - ('0' as u8)) as nat)
    } else if ('a' as u8) <= b <= ('z' as u8) {
        Some((10 + (b - ('a' as u8))) as nat)
    } else if ('A' as u8) <= b <= ('Z' as u8) {
        Some((36 + (b - ('A' as u8))) as nat)
    } else {
        None
    }
}

/// Whether `b` is one of `0-9a-f`.
pub open spec fn is_lower_hex(b: u8) -> bool {
    ('0' as u8) <= b <= ('9' as u8) || ('a' as u8) <= b <= ('f' as u8)
}

/// Whether `b` is one of `A-Z`.
pub open spec fn is_upper(b: u8) -> bool {
    ('A' as u8) <= b <= ('Z' as u8)
}

/// Whether `b` is one of `a-z`.
pub open spec fn is_lower(b: u8) -> bool {
    ('a' as u8) <= b <= ('z' as u8)
}

/// A value read from the symbol and the position behind it, over machine integers.
pub open spec fn lift(r: Option<(u64, usize)>) -> Option<(nat, nat)> {
    match r {
        Some((v, p)) => Some((v as nat, p as nat)),
        None => None,
    }
}

/// The digits of a base-62 number up to the closing `_`, continued from the
/// value `acc` read so far. The number stands for its value plus one and has
/// to fit in 64 bits.
pub open spec fn base62_tail(sym: Seq<u8>, pos: nat, acc: nat) -> Option<(nat, nat)>
    decreases sym.len() - pos,
{
    if pos >= sym.len() {
        None
    } else if sym[pos as int] == '_' as u8 {
        if acc + 1 <= u64::MAX {
            Some((acc + 1, pos + 1))
        } else {
            None
        }
    } else {
        match digit_62_value(sym[pos as int]) {
            Some(d) => if acc * 62 + d <= u64::MAX {
                base62_tail(sym, pos + 1, acc * 62 + d)
            } else {
                None
            },
            None => None,
        }
    }
}

/// A base-62 integer: a lone `_` is zero, digits followed by `_` are the
/// number they spell plus one.
pub open spec fn integer_62(sym: Seq<u8>, pos: nat) -> Option<(nat, nat)> {
    if at(sym, pos, '_') {
        Some((0, pos + 1))
    } else {
        base62_tail(sym, pos, 0)
    }
}

/// An optional base-62 integer introduced by `tag`: zero where the tag is
/// absent, one more than the integer otherwise.
pub open spec fn opt_integer_62(sym: Seq<u8>, pos: nat, tag: char) -> Option<(nat, nat)> {
    if at(sym, pos, tag) {
        match integer_62(sym, pos + 1) {
            Some((v, p)) => if v + 1 <= u64::MAX {
                Some((v + 1, p))
            } else {
                None
            },
            None => None,
        }
    } else {
        Some((0, pos))
    }
}

/// A namespace byte: an upper-case letter names a special namespace, a
/// lower-case letter an unspecified one.
pub open spec fn namespace(sym: Seq<u8>, pos: nat) -> Option<(Option<u8>, nat)> {
    match peek(sym, pos) {
        Some(b) => if is_upper(b) {
            Some((Some(b), pos + 1))
        } else if is_lower(b) {
            Some((None, pos + 1))
        } else {
            None
        },
        None => None,
    }
}

/// The position of the `_` that closes a run of lower-case hex digits.
pub open spec fn hex_run_end(sym: Seq<u8>, pos: nat) -> Option<nat>
    decreases sym.len() - pos,
{
    if pos >= sym.len() {
        None
    } else if sym[pos as int] == '_' as u8 {
        Some(pos)
    } else if is_lower_hex(sym[pos as int]) {
        hex_run_end(sym, pos + 1)
    } else {
        None
    }
}

/// A run of decimal digits continued from the value `acc`: the number read
/// and the position of the first byte that is no digit.
pub open spec fn decimal_run(sym: Seq<u8>, pos: nat, acc: nat) -> (nat, nat)
    decreases sym.len() - pos,
{
    if pos < sym.len() && digit_10_value(sym[pos as int]) is Some {
        decimal_run(sym, pos + 1, acc * 10 + digit_10_value(sym[pos as int]).unwrap())
    } else {
        (acc, pos)
    }
}

/// The length prefix of an identifier: a single `0`, or a decimal number
/// without leading zero.
pub open spec fn ident_len(sym: Seq<u8>, pos: nat) -> Option<(nat, nat)> {
    match peek(sym, pos) {
        Some(b) => match digit_10_value(b) {
            Some(d) => if d == 0 {
                Some((0, pos + 1))
            } else {
                Some(decimal_run(sym, pos + 1, d))
            },
            None => None,
        },
        None => None,
    }
}

/// The last position in `start..end` that holds `_`.
pub open spec fn last_underscore(sym: Seq<u8>, start: nat, end: nat) -> Option<nat>
    decreases end,
{
    if end <= start || end > sym.len() {
        None
    } else if sym[end - 1] == '_' as u8 {
        Some((end - 1) as nat)
    } else {
        last_underscore(sym, start, (end - 1) as nat)
    }
}

/// Where an identifier lies in the symbol: its ASCII part and its Punycode
/// part, each as a half-open range of positions.
pub struct IdentSpan {
    /// Where the ASCII part begins.
    pub ascii_start: nat,
    /// Where the ASCII part ends.
    pub ascii_end: nat,
    /// Where the Punycode part begins.
    pub puny_start: nat,
    /// Where the Punycode part ends.
    pub puny_end: nat,
}

/// An identifier: an optional `u` for Punycode, the length, an optional `_`,
/// and that many bytes. A Punycode identifier is split at its last `_` and
/// needs a non-empty Punycode part.
pub open spec fn ident(sym: Seq<u8>, pos: nat) -> Option<(IdentSpan, nat)> {
    let is_punycode = at(sym, pos, 'u');
    let p1 = if is_punycode {
        pos + 1
    } else {
        pos
    };
    match ident_len(sym, p1 as nat) {
        None => None,
        Some((len, p2)) => {
            let start = if at(sym, p2, '_') {
                p2 + 1
            } else {
                p2
            };
            let end = start + len;
            if end > sym.len() {
                None
            } else if !is_punycode {
                Some(
                    (
                        IdentSpan {
                            ascii_start: start as nat,
                            ascii_end: end as nat,
                            puny_start: end as nat,
                            puny_end: end as nat,
                        },
                        end as nat,
                    ),
                )
            } else {
                match last_underscore(sym, start as nat, end as nat) {
                    Some(i) => if i + 1 == end {
                        None
                    } else {
                        Some(
                            (
                                IdentSpan {
                                    ascii_start: start as nat,
                                    ascii_end: i,
                                    puny_start: i + 1,
                                    puny_end: end as nat,
                                },
                                end as nat,
                            ),
                        )
                    },
                    None => if start == end {
                        None
                    } else {
                        Some(
                            (
                                IdentSpan {
                                    ascii_start: start as nat,
                                    ascii_end: start as nat,
                                    puny_start: start as nat,
                                    puny_end: end as nat,
                                },
                                end as nat,
                            ),
                        )
                    },
                }
            }
        },
    }
}

impl IdentSpan {
    /// Whether the identifier has neither an ASCII nor a Punycode part.
    pub open spec fn is_empty(self) -> bool {
        self.ascii_start == self.ascii_end && self.puny_start == self.puny_end
    }

    /// The ranges lie in a symbol of `len` bytes, one behind the other.
    pub open spec fn within(self, len: nat) -> bool {
        self.ascii_start <= self.ascii_end <= self.puny_start <= self.puny_end <= len
    }
}

/// An identifier's place in the symbol, over machine integers.
#[derive(Clone, Copy)]
pub struct Ident {
    /// Where the ASCII part begins.
    pub ascii_start: usize,
    /// Where the ASCII part ends.
    pub ascii_end: usize,
    /// Where the Punycode part begins.
    pub puny_start: usize,
    /// Where the Punycode part ends.
    pub puny_end: usize,
}

impl View for Ident {
    type V = IdentSpan;

    open spec fn view(&self) -> IdentSpan {
        IdentSpan {
            ascii_start: self.ascii_start as nat,
            ascii_end: self.ascii_end as nat,
            puny_start: self.puny_start as nat,
            puny_end: self.puny_end as nat,
        }
    }
}

impl Ident {
    /// Whether the identifier has neither an ASCII nor a Punycode part.
    pub fn is_empty(&self) -> (r: bool)
        ensures
            r == self@.is_empty(),
    {
        self.ascii_start == self.ascii_end && self.puny_start == self.puny_end
    }
}

/// The byte at `pos`, if there is one.
pub fn peek_at(sym: &[u8], pos: usize) -> (r: Option<u8>)
    ensures
        r == peek(sym@, pos as nat),
        r is Some ==> pos < sym@.len() <= usize::MAX,
{
    if pos < sym.len() {
        Some(sym[pos])
    } else {
        None
    }
}

/// Whether the ASCII character `b` stands at `pos`.
pub fn is_at(sym: &[u8], pos: usize, b: char) -> (r: bool)
    requires
        (b as u32) < 0x80,
    ensures
        r == at(sym@, pos as nat, b),
        r ==> pos < sym@.len() <= usize::MAX,
{
    pos < sym.len() && sym[pos] == b as u8
}

/// The value of a decimal digit.
pub fn digit_10_of(b: u8) -> (r: Option<u8>)
    ensures
        r is Some <==> digit_10_value(b) is Some,
        r is Some ==> r.unwrap() as nat == digit_10_value(b).unwrap() && r.unwrap() < 10,
{
    if b >= '0' as u8 && b <= '9' as u8 {
        Some(b - ('0' as u8))
    } else {
        None
    }
}

/// The value of a base-62 digit.
pub fn digit_62_of(b: u8) -> (r: Option<u8>)
    ensures
        r is Some <==> digit_62_value(b) is Some,
        r is Some ==> r.unwrap() as nat == digit_62_value(b).unwrap() && r.unwrap() < 62,
{
    let c: char = b as char;
    match c {
        '0'..='9' => Some(b - ('0' as u8)),
        'a'..='z' => Some(10 + (b - ('a' as u8))),
        'A'..='Z' => Some(36 + (b - ('A' as u8))),
        _ => None,
    }
}

/// Whether `b` is one of `0-9a-f`.
pub fn lower_hex(b: u8) -> (r: bool)
    ensures
        r == is_lower_hex(b),
{
    (b >= '0' as u8 && b <= '9' as u8) || (b >= 'a' as u8 && b <= 'f' as u8)
}

/// Whether `b` is one of `A-Z`.
pub fn upper(b: u8) -> (r: bool)
    ensures
        r == is_upper(b),
{
    b >= 'A' as u8 && b <= 'Z' as u8
}

/// Whether `b` is one of `a-z`.
pub fn lower(b: u8) -> (r: bool)
    ensures
        r == is_lower(b),
{
    b >= 'a' as u8 && b <= 'z' as u8
}

/// Reads a base-62 integer at `pos`.
pub fn read_integer_62(sym: &[u8], pos: usize) -> (r: Option<(u64, usize)>)
    requires
        pos <= sym@.len(),
    ensures
        lift(r) == integer_62(sym@, pos as nat),
        r is Some ==> pos < r.unwrap().1 <= sym@.len(),
{
    if is_at(sym, pos, '_') {
        return Some((0, pos + 1));
    }
    let mut x: u64 = 0;
    let mut i: usize = pos;
    while i < sym.len()
        invariant
            pos <= i <= sym@.len(),
            base62_tail(sym@, i as nat, x as nat) == integer_62(sym@, pos as nat),
        decreases sym@.len() - i,
    {
        let b: u8 = sym[i];
        if b == '_' as u8 {
            if x == u64::MAX {
                return None;
            }
            return Some((x + 1, i + 1));
        }
        match digit_62_of(b) {
            None => {
                return None;
            },
            Some(d) => {
                if x > (u64::MAX - d as u64) / 62 {
                    return None;
                }
                x = x * 62 + d as u64;
                i = i + 1;
            },
        }
    }
    None
}

/// Reads an optional base-62 integer introduced by `tag` at `pos`.
pub fn read_opt_integer_62(sym: &[u8], pos: usize, tag: char) -> (r: Option<(u64, usize)>)
    requires
        (tag as u32) < 0x80,
        pos <= sym@.len(),
    ensures
        lift(r) == opt_integer_62(sym@, pos as nat, tag),
        r is Some ==> pos <= r.unwrap().1 <= sym@.len(),
{
    if !is_at(sym, pos, tag) {
        return Some((0, pos));
    }
    match read_integer_62(sym, pos + 1) {
        None => None,
        Some((v, p)) => {
            if v == u64::MAX {
                None
            } else {
                Some((v + 1, p))
            }
        },
    }
}

/// Reads a namespace byte at `pos`.
pub fn read_namespace(sym: &[u8], pos: usize) -> (r: Option<(Option<u8>, usize)>)
    requires
        pos <= sym@.len(),
    ensures
        match r {
            Some((ns, p)) => namespace(sym@, pos as nat) == Some((ns, p as nat)) && p == pos + 1
                && p <= sym@.len(),
            None => namespace(sym@, pos as nat) is None,
        },
{
    match peek_at(sym, pos) {
        None => None,
        Some(b) => {
            if upper(b) {
                Some((Some(b), pos + 1))
            } else if lower(b) {
                Some((None, pos + 1))
            } else {
                None
            }
        },
    }
}

/// Finds the `_` that closes a run of lower-case hex digits starting at `pos`.
pub fn read_hex_run(sym: &[u8], pos: usize) -> (r: Option<usize>)
    requires
        pos <= sym@.len(),
    ensures
        match r {
            Some(e) => hex_run_end(sym@, pos as nat) == Some(e as nat) && pos <= e < sym@.len()
                <= usize::MAX,
            None => hex_run_end(sym@, pos as nat) is None,
        },
{
    let mut i: usize = pos;
    while i < sym.len()
        invariant
            pos <= i <= sym@.len(),
            hex_run_end(sym@, i as nat) == hex_run_end(sym@, pos as nat),
        decreases sym@.len() - i,
    {
        let b: u8 = sym[i];
        if b == '_' as u8 {
            return Some(i);
        }
        if !lower_hex(b) {
            return None;
        }
        i = i + 1;
    }
    None
}

/// A run of digits never spells less than what was read before it.
pub proof fn lemma_decimal_run_grows(sym: Seq<u8>, pos: nat, acc: nat)
    ensures
        decimal_run(sym, pos, acc).0 >= acc,
        pos <= decimal_run(sym, pos, acc).1,
        pos <= sym.len() ==> decimal_run(sym, pos, acc).1 <= sym.len(),
    decreases sym.len() - pos,
{
    if pos < sym.len() && digit_10_value(sym[pos as int]) is Some {
        lemma_decimal_run_grows(
            sym,
            pos + 1,
            acc * 10 + digit_10_value(sym[pos as int]).unwrap(),
        );
    }
}

/// Reads the length prefix of an identifier. A length beyond the symbol's own
/// is reported as `None` in the first component: no identifier can be that long.
pub fn read_ident_len(sym: &[u8], pos: usize) -> (r: Option<(Option<usize>, usize)>)
    requires
        pos <= sym@.len(),
    ensures
        match r {
            None => ident_len(sym@, pos as nat) is None,
            Some((Some(n), p)) => ident_len(sym@, pos as nat) == Some((n as nat, p as nat)) && pos
                < p <= sym@.len() && n <= sym@.len(),
            Some((None, _)) => ident_len(sym@, pos as nat) is Some && ident_len(
                sym@,
                pos as nat,
            ).unwrap().0 > sym@.len(),
        },
{
    let first: u8 = match peek_at(sym, pos) {
        None => {
            return None;
        },
        Some(b) => b,
    };
    let d0: u8 = match digit_10_of(first) {
        None => {
            return None;
        },
        Some(d) => d,
    };
    if d0 == 0 {
        return Some((Some(0), pos + 1));
    }
    if d0 as usize > sym.len() {
        proof {
            lemma_decimal_run_grows(sym@, (pos + 1) as nat, d0 as nat);
        }
        return Some((None, pos));
    }
    let mut len: usize = d0 as usize;
    let mut i: usize = pos + 1;
    while i < sym.len()
        invariant
            pos < i <= sym@.len(),
            len <= sym@.len(),
            decimal_run(sym@, i as nat, len as nat) == ident_len(sym@, pos as nat).unwrap(),
            ident_len(sym@, pos as nat) is Some,
        decreases sym@.len() - i,
    {
        match digit_10_of(sym[i]) {
            None => {
                return Some((Some(len), i));
            },
            Some(d) => {
                proof {
                    lemma_decimal_run_grows(sym@, (i + 1) as nat, (len * 10 + d) as nat);
                }
                if len > sym.len() / 10 || d as usize > sym.len() - len * 10 {
                    return Some((None, i));
                }
                len = len * 10 + d as usize;
                i = i + 1;
            },
        }
    }
    Some((Some(len), i))
}

/// Finds the last `_` in `sym[start..end]`.
pub fn find_last_underscore(sym: &[u8], start: usize, end: usize) -> (r: Option<usize>)
    requires
        start <= end <= sym@.len(),
    ensures
        match r {
            Some(i) => last_underscore(sym@, start as nat, end as nat) == Some(i as nat) && start
                <= i < end,
            None => last_underscore(sym@, start as nat, end as nat) is None,
        },
{
    let mut e: usize = end;
    while e > start
        invariant
            start <= e <= end <= sym@.len(),
            last_underscore(sym@, start as nat, e as nat) == last_underscore(
                sym@,
                start as nat,
                end as nat,
            ),
        decreases e,
    {
        if sym[e - 1] == '_' as u8 {
            return Some(e - 1);
        }
        e = e - 1;
    }
    None
}

/// Reads an identifier at `pos`.
pub fn read_ident(sym: &[u8], pos: usize) -> (r: Option<(Ident, usize)>)
    requires
        pos <= sym@.len(),
    ensures
        match r {
            Some((id, p)) => ident(sym@, pos as nat) == Some((id@, p as nat)) && pos < p
                <= sym@.len() && id@.within(sym@.len()),
            None => ident(sym@, pos as nat) is None,
        },
{
    let is_punycode: bool = is_at(sym, pos, 'u');
    let p1: usize = if is_punycode {
        pos + 1
    } else {
        pos
    };
    let (len, p2) = match read_ident_len(sym, p1) {
        None => {
            return None;
        },
        Some((None, _)) => {
            return None;
        },
        Some((Some(n), p)) => (n, p),
    };
    let start: usize = if is_at(sym, p2, '_') {
        p2 + 1
    } else {
        p2
    };
    if len > sym.len() - start {
        return None;
    }
    let end: usize = start + len;
    if !is_punycode {
        return Some(
            (Ident { ascii_start: start, ascii_end: end, puny_start: end, puny_end: end }, end),
        );
    }
    match find_last_underscore(sym, start, end) {
        Some(i) => {
            if i + 1 == end {
                None
            } else {
                Some(
                    (
                        Ident { ascii_start: start, ascii_end: i, puny_start: i + 1, puny_end: end },
                        end,
                    ),
                )
            }
        },
        None => {
            if start == end {
                None
            } else {
                Some(
                    (
                        Ident {
                            ascii_start: start,
                            ascii_end: start,
                            puny_start: start,
                            puny_end: end,
                        },
                        end,
                    ),
                )
            }
        },
    }
}

} // verus!
