//! The state of a walk over a v0 symbol: a reading position, an error flag
//! and the text written so far.

use crate::cursor::{
    at, hex_run_end, ident, integer_62, is_at, namespace, opt_integer_62, peek, peek_at,
    read_hex_run, read_ident, read_integer_62, read_namespace, read_opt_integer_62, Ident,
};
use crate::digits::{decimal, decimal_of, hexadecimal, hexadecimal_of};
use crate::sink::{all_ascii, Sink, Text};
use vstd::prelude::*;

verus! {

/// Deepest nesting that is followed before a symbol is given up.
pub const MAX_DEPTH: u32 = 500;

/// What is being demangled: the bytes behind the prefix, and the style of
/// rendering.
pub struct Input {
    /// The bytes of the name, behind its prefix.
    pub sym: Seq<u8>,
    /// The terse style: hashes and type suffixes are left out.
    pub alt: bool,
}

/// Mathematical state of a walk.
pub struct State {
    /// Position of the next byte to read.
    pub next: nat,
    /// Set once the symbol was found malformed; nothing is read afterwards.
    pub err: bool,
    /// Whether text is written; while unset the walk only checks the grammar.
    pub printing: bool,
    /// The text written so far.
    pub out: Text,
    /// Number of lifetimes bound by the binders around the current position.
    pub bound: nat,
}

/// The byte at the position, as a token.
pub open spec fn next_byte(sym: Seq<u8>, pos: nat) -> Option<(u8, nat)> {
    match peek(sym, pos) {
        Some(b) => Some((b, pos + 1)),
        None => None,
    }
}

/// A run of lower-case hex digits closed by `_`, as a token: the range of the
/// digits.
pub open spec fn hex_nibbles(sym: Seq<u8>, pos: nat) -> Option<((nat, nat), nat)> {
    match hex_run_end(sym, pos) {
        Some(e) => Some(((pos, e), e + 1)),
        None => None,
    }
}

impl State {
    /// The state in which a walk starts.
    pub open spec fn start(printing: bool) -> State {
        State { next: 0, err: false, printing, out: Text::empty(), bound: 0 }
    }

    /// Bytes of the symbol that are still unread.
    pub open spec fn remaining(self, sym: Seq<u8>) -> nat {
        if self.next <= sym.len() {
            (sym.len() - self.next) as nat
        } else {
            0
        }
    }

    /// Writes a chunk, unless the walk only checks.
    pub open spec fn print(self, chunk: Seq<char>) -> State {
        if self.printing {
            State { out: self.out.put(chunk), ..self }
        } else {
            self
        }
    }

    /// Writes one character, unless the walk only checks.
    pub open spec fn print_char(self, c: char) -> State {
        if self.printing {
            State { out: self.out.put_char(c), ..self }
        } else {
            self
        }
    }

    /// Writes ASCII bytes as one chunk, unless the walk only checks.
    pub open spec fn print_ascii(self, bytes: Seq<u8>) -> State {
        if self.printing {
            State { out: self.out.put_ascii(bytes), ..self }
        } else {
            self
        }
    }

    /// Writes a number in decimal.
    pub open spec fn print_decimal(self, n: nat) -> State {
        self.print_ascii(decimal(n))
    }

    /// Writes a number in lower-case hexadecimal.
    pub open spec fn print_hexadecimal(self, n: nat) -> State {
        self.print_ascii(hexadecimal(n))
    }

    /// Marks the symbol as malformed, and says so in the text.
    pub open spec fn invalid(self) -> State {
        State { err: true, ..self.print("{invalid syntax}"@) }
    }

    /// Marks the symbol as nested too deeply, and says so in the text.
    pub open spec fn too_deep(self) -> State {
        State { err: true, ..self.print("{recursion limit reached}"@) }
    }

    /// Takes a token that a reader found at the current position. Where the
    /// text is full nothing happens; after an earlier error only `?` is
    /// written; where the reader found no token the symbol is marked malformed.
    /// In all three cases no value comes back.
    pub open spec fn settle<T>(self, token: Option<(T, nat)>) -> (State, Option<T>) {
        if self.out.failed {
            (self, None)
        } else if self.err {
            (self.print("?"@), None)
        } else {
            match token {
                Some((v, p)) => (State { next: p, ..self }, Some(v)),
                None => (self.invalid(), None),
            }
        }
    }

    /// Steps over the byte `b` if it is next and nothing has gone wrong.
    pub open spec fn eat(self, sym: Seq<u8>, b: char) -> (State, bool) {
        if !self.out.failed && !self.err && at(sym, self.next, b) {
            (State { next: self.next + 1, ..self }, true)
        } else {
            (self, false)
        }
    }

    /// Goes one level deeper from `depth`, if the limit allows it.
    pub open spec fn enter(self, depth: nat) -> (State, bool) {
        if self.out.failed {
            (self, false)
        } else if self.err {
            (self.print("?"@), false)
        } else if depth + 1 > MAX_DEPTH {
            (self.too_deep(), false)
        } else {
            (self, true)
        }
    }

    /// What every step of a walk keeps: the mode, the bytes already written
    /// and, unless the text is full, the number of bound lifetimes.
    pub open spec fn leads_to(self, post: State) -> bool {
        &&& post.printing == self.printing
        &&& post.out.used() >= self.out.used()
        &&& (!post.out.failed ==> post.bound == self.bound)
        &&& (self.out.failed ==> post.out == self.out)
        &&& (self.err ==> post.err)
    }

    /// Unless something went wrong, `post` has read further than this state.
    pub open spec fn moved(self, post: State) -> bool {
        !post.err && !post.out.failed ==> self.next < post.next
    }

    /// Unless something went wrong, `post` has not gone back behind this state.
    pub open spec fn not_back(self, post: State) -> bool {
        !post.err && !post.out.failed ==> self.next <= post.next
    }
}

/// The symbol being demangled and the style of rendering.
pub struct Source<'a> {
    /// The bytes of the name, behind its prefix.
    pub bytes: &'a [u8],
    /// The terse style: hashes and type suffixes are left out.
    pub alternate: bool,
}

impl<'a> View for Source<'a> {
    type V = Input;

    open spec fn view(&self) -> Input {
        Input { sym: self.bytes@, alt: self.alternate }
    }
}

impl<'a> Source<'a> {
    /// A mangled symbol holds ASCII only.
    pub open spec fn wf(&self) -> bool {
        all_ascii(self.bytes@)
    }
}

/// State of a walk over a symbol.
pub struct Printer {
    /// Position of the next byte to read.
    pub next: usize,
    /// Set once the symbol was found malformed.
    pub err: bool,
    /// Whether text is written.
    pub printing: bool,
    /// The text written so far.
    pub out: Sink,
    /// Number of lifetimes bound by the binders around the current position.
    pub bound: u32,
}

impl View for Printer {
    type V = State;

    open spec fn view(&self) -> State {
        State {
            next: self.next as nat,
            err: self.err,
            printing: self.printing,
            out: self.out@,
            bound: self.bound as nat,
        }
    }
}

impl Printer {
    /// The position lies in the symbol, the text is within its limit, and
    /// every bound lifetime has cost at least one byte of text.
    pub open spec fn wf(&self, src: &Source) -> bool {
        &&& src.wf()
        &&& self.next <= src.bytes@.len()
        &&& self.out.wf()
        &&& (!self.out.failed ==> self.bound <= self.out.used)
    }

    /// This printer is in the state `expected`, well formed, and came from
    /// `pre` by steps of a walk.
    pub open spec fn stepped(&self, src: &Source, pre: Printer, expected: State) -> bool {
        &&& self@ == expected
        &&& self.wf(src)
        &&& pre@.leads_to(self@)
    }

    /// A printer at the start of a symbol, with nothing written.
    pub fn new(printing: bool) -> (r: Printer)
        ensures
            r@ == State::start(printing),
            r.out.wf(),
            r.next == 0,
    {
        Printer { next: 0, err: false, printing, out: Sink::new(), bound: 0 }
    }

    /// Writes a string as one chunk, unless the walk only checks.
    pub fn print(&mut self, s: &str)
        requires
            old(self).out.wf(),
        ensures
            final(self)@ == old(self)@.print(s@),
            final(self).out.wf(),
            old(self)@.leads_to(final(self)@),
            final(self).next == old(self).next,
            final(self).err == old(self).err,
            final(self).bound == old(self).bound,
    {
        if self.printing {
            self.out.write_str(s);
        }
    }

    /// Writes one character, unless the walk only checks.
    pub fn print_char(&mut self, c: char)
        requires
            old(self).out.wf(),
        ensures
            final(self)@ == old(self)@.print_char(c),
            final(self).out.wf(),
            old(self)@.leads_to(final(self)@),
            final(self).next == old(self).next,
            final(self).err == old(self).err,
            final(self).bound == old(self).bound,
            old(self).printing && !final(self).out.failed ==> final(self).out.used > old(self).out.used,
    {
        proof {
            crate::sink::lemma_char_width(c);
        }
        if self.printing {
            self.out.write_char(c);
        }
    }

    /// Writes `bytes[from..to]` as one chunk, unless the walk only checks.
    pub fn print_ascii(&mut self, bytes: &[u8], from: usize, to: usize)
        requires
            old(self).out.wf(),
            from <= to <= bytes@.len(),
            all_ascii(bytes@),
        ensures
            final(self)@ == old(self)@.print_ascii(bytes@.subrange(from as int, to as int)),
            final(self).out.wf(),
            old(self)@.leads_to(final(self)@),
            final(self).next == old(self).next,
            final(self).err == old(self).err,
            final(self).bound == old(self).bound,
    {
        if self.printing {
            self.out.write_ascii(bytes, from, to);
        }
    }

    /// Writes a number in decimal.
    pub fn print_decimal(&mut self, v: u64)
        requires
            old(self).out.wf(),
        ensures
            final(self)@ == old(self)@.print_decimal(v as nat),
            final(self).out.wf(),
            old(self)@.leads_to(final(self)@),
            final(self).next == old(self).next,
            final(self).err == old(self).err,
            final(self).bound == old(self).bound,
    {
        if self.printing {
            let digits: Vec<u8> = decimal_of(v);
            assert(digits@.subrange(0, digits@.len() as int) =~= digits@);
            self.out.write_ascii(digits.as_slice(), 0, digits.len());
        }
    }

    /// Writes a number in lower-case hexadecimal.
    pub fn print_hexadecimal(&mut self, v: u64)
        requires
            old(self).out.wf(),
        ensures
            final(self)@ == old(self)@.print_hexadecimal(v as nat),
            final(self).out.wf(),
            old(self)@.leads_to(final(self)@),
            final(self).next == old(self).next,
            final(self).err == old(self).err,
            final(self).bound == old(self).bound,
    {
        if self.printing {
            let digits: Vec<u8> = hexadecimal_of(v);
            assert(digits@.subrange(0, digits@.len() as int) =~= digits@);
            self.out.write_ascii(digits.as_slice(), 0, digits.len());
        }
    }

    /// Marks the symbol as malformed, and says so in the text.
    pub fn invalid(&mut self)
        requires
            old(self).out.wf(),
        ensures
            final(self)@ == old(self)@.invalid(),
            final(self).out.wf(),
            old(self)@.leads_to(final(self)@),
            final(self).next == old(self).next,
            final(self).bound == old(self).bound,
    {
        self.print("{invalid syntax}");
        self.err = true;
    }

    /// Marks the symbol as nested too deeply, and says so in the text.
    pub fn too_deep(&mut self)
        requires
            old(self).out.wf(),
        ensures
            final(self)@ == old(self)@.too_deep(),
            final(self).out.wf(),
            old(self)@.leads_to(final(self)@),
            final(self).next == old(self).next,
            final(self).bound == old(self).bound,
    {
        self.print("{recursion limit reached}");
        self.err = true;
    }

    /// Whether a token may be read; after an earlier error writes `?`.
    pub fn ready(&mut self) -> (ok: bool)
        requires
            old(self).out.wf(),
        ensures
            ok == (!old(self).out.failed && !old(self).err),
            ok ==> *final(self) == *old(self),
            !ok ==> final(self)@ == old(self)@.settle::<u8>(None).0,
            final(self).out.wf(),
            old(self)@.leads_to(final(self)@),
            final(self).next == old(self).next,
            final(self).bound == old(self).bound,
    {
        if self.out.failed {
            false
        } else if self.err {
            self.print("?");
            false
        } else {
            true
        }
    }

    /// Steps over the byte `b` if it is next and nothing has gone wrong.
    pub fn eat(&mut self, src: &Source, b: char) -> (r: bool)
        requires
            old(self).wf(src),
            (b as u32) < 0x80,
        ensures
            (final(self)@, r) == old(self)@.eat(src@.sym, b),
            final(self).wf(src),
            old(self)@.leads_to(final(self)@),
            final(self).out == old(self).out,
            r ==> final(self).next == old(self).next + 1 && !final(self).err && !final(self).out.failed,
            !r ==> *final(self) == *old(self),
    {
        if !self.out.failed && !self.err && is_at(src.bytes, self.next, b) {
            self.next = self.next + 1;
            true
        } else {
            false
        }
    }

    /// Goes one level deeper from `depth`, if the limit allows it.
    pub fn enter(&mut self, depth: u32) -> (ok: bool)
        requires
            old(self).out.wf(),
        ensures
            (final(self)@, ok) == old(self)@.enter(depth as nat),
            ok ==> *final(self) == *old(self) && depth < MAX_DEPTH && !final(self).err && !final(self).out.failed,
            final(self).out.wf(),
            old(self)@.leads_to(final(self)@),
            final(self).next == old(self).next,
            final(self).bound == old(self).bound,
    {
        if !self.ready() {
            false
        } else if depth >= MAX_DEPTH {
            self.too_deep();
            false
        } else {
            true
        }
    }

    /// Takes the next byte of the symbol.
    pub fn take_byte(&mut self, src: &Source) -> (r: Option<u8>)
        requires
            old(self).wf(src),
        ensures
            (final(self)@, r) == old(self)@.settle(next_byte(src@.sym, old(self)@.next)),
            final(self).wf(src),
            old(self)@.leads_to(final(self)@),
            r is Some ==> final(self).next == old(self).next + 1 && !final(self).err && !final(self).out.failed && final(self).out == old(self).out,
    {
        if !self.ready() {
            return None;
        }
        match peek_at(src.bytes, self.next) {
            Some(b) => {
                self.next = self.next + 1;
                Some(b)
            },
            None => {
                self.invalid();
                None
            },
        }
    }

    /// Takes a base-62 integer.
    pub fn take_integer_62(&mut self, src: &Source) -> (r: Option<u64>)
        requires
            old(self).wf(src),
        ensures
            match old(self)@.settle(integer_62(src@.sym, old(self)@.next)) {
                (s, Some(v)) => final(self)@ == s && r == Some(v as u64) && v <= u64::MAX,
                (s, None) => final(self)@ == s && r is None,
            },
            final(self).wf(src),
            old(self)@.leads_to(final(self)@),
            r is Some ==> final(self).next > old(self).next && !final(self).err && !final(self).out.failed && final(self).out == old(self).out,
    {
        if !self.ready() {
            return None;
        }
        match read_integer_62(src.bytes, self.next) {
            Some((v, p)) => {
                self.next = p;
                Some(v)
            },
            None => {
                self.invalid();
                None
            },
        }
    }

    /// Takes an optional base-62 integer introduced by `tag`.
    pub fn take_opt_integer_62(&mut self, src: &Source, tag: char) -> (r: Option<u64>)
        requires
            old(self).wf(src),
            (tag as u32) < 0x80,
        ensures
            match old(self)@.settle(opt_integer_62(src@.sym, old(self)@.next, tag)) {
                (s, Some(v)) => final(self)@ == s && r == Some(v as u64) && v <= u64::MAX,
                (s, None) => final(self)@ == s && r is None,
            },
            final(self).wf(src),
            old(self)@.leads_to(final(self)@),
            r is Some ==> final(self).next >= old(self).next && !final(self).err && !final(self).out.failed && final(self).out == old(self).out,
    {
        if !self.ready() {
            return None;
        }
        match read_opt_integer_62(src.bytes, self.next, tag) {
            Some((v, p)) => {
                self.next = p;
                Some(v)
            },
            None => {
                self.invalid();
                None
            },
        }
    }

    /// Takes a namespace byte.
    pub fn take_namespace(&mut self, src: &Source) -> (r: Option<Option<u8>>)
        requires
            old(self).wf(src),
        ensures
            (final(self)@, r) == old(self)@.settle(namespace(src@.sym, old(self)@.next)),
            final(self).wf(src),
            old(self)@.leads_to(final(self)@),
            r is Some ==> final(self).next > old(self).next && !final(self).err && !final(self).out.failed && final(self).out == old(self).out,
    {
        if !self.ready() {
            return None;
        }
        match read_namespace(src.bytes, self.next) {
            Some((ns, p)) => {
                self.next = p;
                Some(ns)
            },
            None => {
                self.invalid();
                None
            },
        }
    }

    /// Takes an identifier.
    pub fn take_ident(&mut self, src: &Source) -> (r: Option<Ident>)
        requires
            old(self).wf(src),
        ensures
            match old(self)@.settle(ident(src@.sym, old(self)@.next)) {
                (s, Some(v)) => final(self)@ == s && r is Some && r.unwrap()@ == v && v.within(
                    src@.sym.len(),
                ),
                (s, None) => final(self)@ == s && r is None,
            },
            final(self).wf(src),
            old(self)@.leads_to(final(self)@),
            r is Some ==> final(self).next > old(self).next && !final(self).err && !final(self).out.failed && final(self).out == old(self).out,
    {
        if !self.ready() {
            return None;
        }
        match read_ident(src.bytes, self.next) {
            Some((id, p)) => {
                self.next = p;
                Some(id)
            },
            None => {
                self.invalid();
                None
            },
        }
    }

    /// Reads a run of hex digits closed by `_`; yields the range of the digits.
    pub fn take_hex(&mut self, src: &Source) -> (r: Option<(usize, usize)>)
        requires
            old(self).wf(src),
        ensures
            match old(self)@.settle(hex_nibbles(src@.sym, old(self)@.next)) {
                (s, Some(v)) => final(self)@ == s && r == Some((v.0 as usize, v.1 as usize))
                    && v.0 <= v.1 < src@.sym.len(),
                (s, None) => final(self)@ == s && r is None,
            },
            final(self).wf(src),
            old(self)@.leads_to(final(self)@),
            r is Some ==> final(self).next > old(self).next && !final(self).err && !final(self).out.failed && final(self).out == old(self).out,
    {
        if !self.ready() {
            return None;
        }
        let start: usize = self.next;
        match read_hex_run(src.bytes, start) {
            Some(e) => {
                self.next = e + 1;
                Some((start, e))
            },
            None => {
                self.invalid();
                None
            },
        }
    }
}

} // verus!
