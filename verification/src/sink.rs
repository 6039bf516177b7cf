//! A text buffer that refuses to grow past a fixed number of UTF-8 bytes.

use vstd::prelude::*;
use vstd::string::StringExecFns;
use vstd::utf8::{char_is_scalar, encode_utf8, is_ascii_chars_encode_utf8};

verus! {

/// Ceiling on the number of UTF-8 bytes a rendering may hold.
pub const MAX_SIZE: usize = 1_000_000;

/// Number of bytes that `chars` occupies when encoded as UTF-8.
pub open spec fn byte_len(chars: Seq<char>) -> nat {
    encode_utf8(chars).len()
}

/// Number of bytes that one character occupies when encoded as UTF-8.
pub open spec fn char_width(c: char) -> nat {
    if (c as u32) < 0x80 {
        1
    } else if (c as u32) < 0x800 {
        2
    } else if (c as u32) < 0x10000 {
        3
    } else {
        4
    }
}

/// The characters that stand for the bytes of an ASCII byte string.
pub open spec fn ascii_chars(bytes: Seq<u8>) -> Seq<char> {
    Seq::new(bytes.len(), |i: int| bytes[i] as char)
}

/// Every byte is below 0x80.
pub open spec fn all_ascii(bytes: Seq<u8>) -> bool {
    forall|i: int| 0 <= i < bytes.len() ==> bytes[i] < 0x80
}

/// Mathematical content of a [`Sink`].
pub struct Text {
    /// Characters accepted so far.
    pub chars: Seq<char>,
    /// Set once a write was refused; nothing is accepted afterwards.
    pub failed: bool,
}

impl Text {
    /// The empty text.
    pub open spec fn empty() -> Text {
        Text { chars: Seq::empty(), failed: false }
    }

    /// UTF-8 bytes accepted so far.
    pub open spec fn used(self) -> nat {
        byte_len(self.chars)
    }

    /// The text is within the limit.
    pub open spec fn wf(self) -> bool {
        self.used() <= MAX_SIZE
    }

    /// Appends `chunk` as a whole if it still fits, and fails otherwise.
    /// A failed text stays as it is.
    pub open spec fn put(self, chunk: Seq<char>) -> Text {
        if self.failed {
            self
        } else if self.used() + byte_len(chunk) > MAX_SIZE {
            Text { failed: true, ..self }
        } else {
            Text { chars: self.chars + chunk, failed: false }
        }
    }

    /// Appends one character.
    pub open spec fn put_char(self, c: char) -> Text {
        self.put(seq![c])
    }

    /// Appends the characters of an ASCII byte string as one chunk.
    pub open spec fn put_ascii(self, bytes: Seq<u8>) -> Text {
        self.put(ascii_chars(bytes))
    }
}

/// The bytes of two texts in a row are those of the first and those of the
/// second.
pub proof fn lemma_byte_len_add(a: Seq<char>, b: Seq<char>)
    ensures
        byte_len(a + b) == byte_len(a) + byte_len(b),
    decreases a.len(),
{
    if a.len() == 0 {
        assert(a + b =~= b);
    } else {
        assert((a + b).drop_first() =~= a.drop_first() + b);
        lemma_byte_len_add(a.drop_first(), b);
    }
}

/// A character alone takes as many bytes as its width says.
pub proof fn lemma_char_width(c: char)
    ensures
        byte_len(seq![c]) == char_width(c),
        1 <= char_width(c) <= 4,
{
    char_is_scalar(c);
    assert(seq![c].drop_first() =~= Seq::<char>::empty());
    reveal_with_fuel(encode_utf8, 2);
}

/// ASCII bytes stand for as many characters, of one byte each.
pub proof fn lemma_ascii_width(bytes: Seq<u8>)
    requires
        all_ascii(bytes),
    ensures
        byte_len(ascii_chars(bytes)) == bytes.len(),
{
    is_ascii_chars_encode_utf8(ascii_chars(bytes));
}

/// Size-limited output buffer.
pub struct Sink {
    /// The text accepted so far.
    pub buf: String,
    /// Its length in UTF-8 bytes.
    pub used: usize,
    /// Set once a write was refused.
    pub failed: bool,
}

impl View for Sink {
    type V = Text;

    open spec fn view(&self) -> Text {
        Text { chars: self.buf@, failed: self.failed }
    }
}

/// `String::push`: appends one character to the end of the string.
#[verifier::external_body]
pub(crate) fn string_push(s: &mut String, c: char)
    ensures
        final(s)@ == old(s)@.push(c),
{
    s.push(c);
}

impl Sink {
    /// The buffer counts its bytes, and never holds more than [`MAX_SIZE`].
    pub open spec fn wf(&self) -> bool {
        self.used == self@.used() && self@.wf()
    }

    /// An empty buffer.
    pub fn new() -> (r: Sink)
        ensures
            r@ == Text::empty(),
            r.wf(),
    {
        proof {
            reveal_with_fuel(encode_utf8, 1);
        }
        Sink { buf: String::new(), used: 0, failed: false }
    }

    /// Writes a string as one chunk.
    pub fn write_str(&mut self, s: &str)
        requires
            old(self).wf(),
        ensures
            final(self).wf(),
            final(self)@ == old(self)@.put(s@),
            final(self).used >= old(self).used,
    {
        if self.failed {
            return ;
        }
        let n: usize = s.as_bytes().len();
        if n > MAX_SIZE - self.used {
            self.failed = true;
            return ;
        }
        proof {
            lemma_byte_len_add(self.buf@, s@);
        }
        self.buf.append(s);
        self.used = self.used + n;
    }

    /// Writes one character as one chunk.
    pub fn write_char(&mut self, c: char)
        requires
            old(self).wf(),
        ensures
            final(self).wf(),
            final(self)@ == old(self)@.put_char(c),
            final(self).used >= old(self).used,
            !final(self).failed ==> final(self).used > old(self).used,
    {
        if self.failed {
            return ;
        }
        let v: u32 = c as u32;
        let n: usize = if v < 0x80 {
            1
        } else if v < 0x800 {
            2
        } else if v < 0x10000 {
            3
        } else {
            4
        };
        proof {
            lemma_char_width(c);
            lemma_byte_len_add(self.buf@, seq![c]);
        }
        if n > MAX_SIZE - self.used {
            self.failed = true;
            return ;
        }
        string_push(&mut self.buf, c);
        self.used = self.used + n;
        assert(self.buf@ =~= old(self).buf@ + seq![c]);
    }

    /// Writes the bytes `bytes[from..to]`, all ASCII, as one chunk.
    pub fn write_ascii(&mut self, bytes: &[u8], from: usize, to: usize)
        requires
            old(self).wf(),
            from <= to <= bytes@.len(),
            all_ascii(bytes@),
        ensures
            final(self).wf(),
            final(self)@ == old(self)@.put_ascii(bytes@.subrange(from as int, to as int)),
            final(self).used >= old(self).used,
    {
        if self.failed {
            return ;
        }
        let n: usize = to - from;
        proof {
            assert forall|i: int| 0 <= i < to - from implies bytes@.subrange(
                from as int,
                to as int,
            )[i] < 0x80 by {}
            lemma_ascii_width(bytes@.subrange(from as int, to as int));
            lemma_byte_len_add(self.buf@, ascii_chars(bytes@.subrange(from as int, to as int)));
        }
        if n > MAX_SIZE - self.used {
            self.failed = true;
            return ;
        }
        let ghost start = self.buf@;
        let mut i: usize = from;
        while i < to
            invariant
                from <= i <= to <= bytes@.len(),
                self.used == old(self).used,
                self.failed == old(self).failed,
                self.buf@ == start + ascii_chars(bytes@.subrange(from as int, i as int)),
            decreases to - i,
        {
            let b: u8 = bytes[i];
            string_push(&mut self.buf, b as char);
            i = i + 1;
            assert(ascii_chars(bytes@.subrange(from as int, i as int)) =~= ascii_chars(
                bytes@.subrange(from as int, i - 1),
            ).push(b as char));
        }
        self.used = self.used + n;
    }
}

} // verus!
