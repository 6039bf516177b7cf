//! Recognising a symbol name and rendering it.
//!
//! A name is taken apart in three steps. A trailing `.llvm.` marker with its
//! hexadecimal tag is cut off. What is left has to be a legacy name or a v0
//! name behind one of their prefixes. Behind the name only a suffix of
//! printable characters that begins with `.` may stand; it is kept and
//! written after the text of the name. A name that fails any of this is not
//! mangled, and is rendered as it came.

use crate::grammar;
use crate::legacy;
use crate::printer::{Input, Printer, Source};
use crate::sink::{
    all_ascii, ascii_chars, byte_len, lemma_ascii_width, lemma_byte_len_add, Sink, Text,
    MAX_SIZE,
};
use vstd::prelude::*;
use vstd::slice::slice_subrange;
use vstd::string::{StringExecFns, StringSliceAdditionalSpecFns};
use vstd::utf8::encode_utf8;

verus! {

/// The two mangling schemes.
#[derive(Clone, Copy, PartialEq, Eq, Debug)]
pub enum Style {
    /// `_ZN…E`.
    Legacy,
    /// `_R…`.
    V0,
}

/// How a mangled name lies in its bytes.
pub struct Shape {
    /// The scheme of the name.
    pub style: Style,
    /// Where the name begins, behind its prefix.
    pub start: nat,
    /// Number of path elements of a legacy name; zero for a v0 name.
    pub elements: nat,
    /// Where the suffix begins.
    pub suffix: nat,
    /// Where the suffix ends and the `.llvm.` marker, if any, begins.
    pub end: nat,
}

/// Whether `.llvm.` stands at `pos`.
pub open spec fn is_llvm_at(b: Seq<u8>, pos: nat) -> bool {
    &&& pos + 6 <= b.len()
    &&& b[pos as int] == '.' as u8
    &&& b[(pos + 1) as int] == 'l' as u8
    &&& b[(pos + 2) as int] == 'l' as u8
    &&& b[(pos + 3) as int] == 'v' as u8
    &&& b[(pos + 4) as int] == 'm' as u8
    &&& b[(pos + 5) as int] == '.' as u8
}

/// The first position at or behind `pos` where `.llvm.` stands.
pub open spec fn find_llvm(b: Seq<u8>, pos: nat) -> Option<nat>
    decreases b.len() - pos,
{
    if pos + 6 > b.len() {
        None
    } else if is_llvm_at(b, pos) {
        Some(pos)
    } else {
        find_llvm(b, pos + 1)
    }
}

/// Whether `b` may stand in the tag behind `.llvm.`: `A-F`, `0-9` or `@`.
pub open spec fn is_llvm_tag_byte(b: u8) -> bool {
    ('A' as u8) <= b <= ('F' as u8) || ('0' as u8) <= b <= ('9' as u8) || b == '@' as u8
}

/// Where the name ends: at the first `.llvm.`, if only tag bytes follow
/// it, and at the end of the bytes otherwise.
pub open spec fn symbol_end(b: Seq<u8>) -> nat {
    match find_llvm(b, 0) {
        Some(i) => if forall|j: int| i + 6 <= j < b.len() ==> is_llvm_tag_byte(#[trigger] b[j]) {
            i
        } else {
            b.len()
        },
        None => b.len(),
    }
}

/// Whether `b` is printable ASCII other than a space: a letter, a digit or
/// punctuation.
pub open spec fn is_symbol_byte(b: u8) -> bool {
    0x21 <= b <= 0x7e
}

/// Whether a suffix may follow a name: it begins with `.` and holds
/// printable characters only.
pub open spec fn suffix_ok(suffix: Seq<u8>) -> bool {
    &&& suffix.len() > 0
    &&& suffix[0] == '.' as u8
    &&& forall|j: int| 0 <= j < suffix.len() ==> is_symbol_byte(#[trigger] suffix[j])
}

/// The length of the prefix of a legacy name: `_ZN`, `ZN` or `__ZN`.
pub open spec fn legacy_prefix(body: Seq<u8>) -> Option<nat> {
    if body.len() >= 3 && body[0] == '_' as u8 && body[1] == 'Z' as u8 && body[2] == 'N' as u8 {
        Some(3)
    } else if body.len() >= 2 && body[0] == 'Z' as u8 && body[1] == 'N' as u8 {
        Some(2)
    } else if body.len() >= 4 && body[0] == '_' as u8 && body[1] == '_' as u8 && body[2]
        == 'Z' as u8 && body[3] == 'N' as u8 {
        Some(4)
    } else {
        None
    }
}

/// The length of the prefix of a v0 name: `_R`, `R` or `__R`, each with
/// something behind it.
pub open spec fn v0_prefix(body: Seq<u8>) -> Option<nat> {
    if body.len() > 2 && body[0] == '_' as u8 && body[1] == 'R' as u8 {
        Some(2)
    } else if body.len() > 1 && body[0] == 'R' as u8 {
        Some(1)
    } else if body.len() > 3 && body[0] == '_' as u8 && body[1] == '_' as u8 && body[2]
        == 'R' as u8 {
        Some(3)
    } else {
        None
    }
}

/// The legacy name in `b[..end]`, if there is one.
pub open spec fn legacy_shape(b: Seq<u8>, end: nat) -> Option<Shape> {
    match legacy_prefix(b.subrange(0, end as int)) {
        Some(p) => match legacy::recognise(b.subrange(p as int, end as int)) {
            Some((count, behind)) => Some(
                Shape { style: Style::Legacy, start: p, elements: count, suffix: p + behind, end },
            ),
            None => None,
        },
        None => None,
    }
}

/// The v0 name in `b[..end]`, if there is one.
pub open spec fn v0_shape(b: Seq<u8>, end: nat) -> Option<Shape> {
    match v0_prefix(b.subrange(0, end as int)) {
        Some(p) => match grammar::recognise(b.subrange(p as int, end as int)) {
            Some(behind) => Some(
                Shape { style: Style::V0, start: p, elements: 0, suffix: p + behind, end },
            ),
            None => None,
        },
        None => None,
    }
}

/// The mangled name that the bytes hold, if they hold one: a legacy name or
/// else a v0 name, with nothing behind it but an acceptable suffix.
pub open spec fn parse(b: Seq<u8>) -> Option<Shape> {
    let end = symbol_end(b);
    let found = match legacy_shape(b, end) {
        Some(shape) => Some(shape),
        None => v0_shape(b, end),
    };
    match found {
        Some(shape) => if shape.suffix == end || (shape.suffix <= end && suffix_ok(
            b.subrange(shape.suffix as int, end as int),
        )) {
            Some(shape)
        } else {
            None
        },
        None => None,
    }
}

/// The characters of a text, with a note behind them where the text is cut
/// off at the size limit.
pub open spec fn finish(t: Text) -> Seq<char> {
    if t.failed {
        t.chars + "{size limit reached}"@
    } else {
        t.chars
    }
}

/// The text of the mangled name of the given shape in `b`, without suffix.
pub open spec fn name_text(b: Seq<u8>, shape: Shape, alt: bool) -> Text {
    let g = Input { sym: b.subrange(shape.start as int, shape.end as int), alt };
    match shape.style {
        Style::Legacy => legacy::rendering(g, shape.elements),
        Style::V0 => grammar::rendering(g),
    }
}

/// Whether a string is a mangled name.
pub open spec fn is_mangled(input: Seq<char>) -> bool {
    parse(encode_utf8(input)) is Some
}

/// What a string is rendered as: a mangled name as the text of the name
/// followed by its suffix, anything else as itself. `alt` asks for the
/// terse style.
pub open spec fn rendered(input: Seq<char>, alt: bool) -> Seq<char> {
    let b = encode_utf8(input);
    match parse(b) {
        Some(shape) => finish(name_text(b, shape, alt)) + ascii_chars(
            b.subrange(shape.suffix as int, shape.end as int),
        ),
        None => input,
    }
}

/// How a mangled name lies in its bytes, over machine integers.
#[derive(Clone, Copy)]
pub struct Form {
    /// The scheme of the name.
    pub style: Style,
    /// Where the name begins, behind its prefix.
    pub start: usize,
    /// Number of path elements of a legacy name; zero for a v0 name.
    pub elements: usize,
    /// Where the suffix begins.
    pub suffix: usize,
    /// Where the suffix ends.
    pub end: usize,
}

impl View for Form {
    type V = Shape;

    open spec fn view(&self) -> Shape {
        Shape {
            style: self.style,
            start: self.start as nat,
            elements: self.elements as nat,
            suffix: self.suffix as nat,
            end: self.end as nat,
        }
    }
}

/// The view of an optional form.
pub open spec fn shape_of(form: Option<Form>) -> Option<Shape> {
    match form {
        Some(f) => Some(f@),
        None => None,
    }
}

/// A symbol name that has been looked at: it can be rendered in either
/// style.
pub struct Demangle<'a> {
    input: &'a str,
    form: Option<Form>,
}

/// The error of [`try_demangle`]: the string is not a mangled name.
#[derive(Clone, Copy, PartialEq, Eq, Debug)]
pub struct NotMangled;

/// Whether `.llvm.` stands at `pos`.
pub fn is_llvm_at_pos(b: &[u8], pos: usize) -> (r: bool)
    requires
        pos <= b@.len(),
    ensures
        r == is_llvm_at(b@, pos as nat),
{
    b.len() - pos >= 6 && b[pos] == '.' as u8 && b[pos + 1] == 'l' as u8 && b[pos + 2]
        == 'l' as u8 && b[pos + 3] == 'v' as u8 && b[pos + 4] == 'm' as u8 && b[pos + 5]
        == '.' as u8
}

/// Whether `b` may stand in the tag behind `.llvm.`.
pub fn llvm_tag_byte(b: u8) -> (r: bool)
    ensures
        r == is_llvm_tag_byte(b),
{
    (b >= 'A' as u8 && b <= 'F' as u8) || (b >= '0' as u8 && b <= '9' as u8) || b == '@' as u8
}

/// Finds where the name ends.
pub fn symbol_end_of(b: &[u8]) -> (r: usize)
    ensures
        r as nat == symbol_end(b@),
        r <= b@.len(),
{
    let n: usize = b.len();
    let mut i: usize = 0;
    while n - i >= 6
        invariant
            n == b@.len(),
            i <= n,
            find_llvm(b@, i as nat) == find_llvm(b@, 0),
        decreases n - i,
    {
        if is_llvm_at_pos(b, i) {
            let mut j: usize = i + 6;
            while j < n
                invariant
                    n == b@.len(),
                    i + 6 <= j <= n,
                    find_llvm(b@, 0) == Some(i as nat),
                    forall|k: int| i + 6 <= k < j ==> is_llvm_tag_byte(#[trigger] b@[k]),
                decreases n - j,
            {
                if !llvm_tag_byte(b[j]) {
                    assert(!is_llvm_tag_byte(b@[j as int]));
                    return n;
                }
                j = j + 1;
            }
            return i;
        }
        i = i + 1;
    }
    n
}

/// Whether every byte is ASCII.
pub fn is_all_ascii(b: &[u8]) -> (r: bool)
    ensures
        r == all_ascii(b@),
{
    let mut i: usize = 0;
    while i < b.len()
        invariant
            i <= b@.len(),
            forall|k: int| 0 <= k < i ==> b@[k] < 0x80,
        decreases b@.len() - i,
    {
        if b[i] >= 0x80 {
            return false;
        }
        i = i + 1;
    }
    true
}

/// Whether a suffix may follow a name.
pub fn suffix_ok_of(suffix: &[u8]) -> (r: bool)
    ensures
        r == suffix_ok(suffix@),
{
    if suffix.len() == 0 || suffix[0] != '.' as u8 {
        return false;
    }
    let mut i: usize = 0;
    while i < suffix.len()
        invariant
            i <= suffix@.len(),
            forall|k: int| 0 <= k < i ==> is_symbol_byte(#[trigger] suffix@[k]),
        decreases suffix@.len() - i,
    {
        if suffix[i] < 0x21 || suffix[i] > 0x7e {
            return false;
        }
        i = i + 1;
    }
    true
}

/// The length of the prefix of a legacy name.
pub fn legacy_prefix_of(body: &[u8]) -> (r: Option<usize>)
    ensures
        match r {
            Some(p) => legacy_prefix(body@) == Some(p as nat) && p <= body@.len(),
            None => legacy_prefix(body@) is None,
        },
{
    let n: usize = body.len();
    if n >= 3 && body[0] == '_' as u8 && body[1] == 'Z' as u8 && body[2] == 'N' as u8 {
        Some(3)
    } else if n >= 2 && body[0] == 'Z' as u8 && body[1] == 'N' as u8 {
        Some(2)
    } else if n >= 4 && body[0] == '_' as u8 && body[1] == '_' as u8 && body[2] == 'Z' as u8
        && body[3] == 'N' as u8 {
        Some(4)
    } else {
        None
    }
}

/// The length of the prefix of a v0 name.
pub fn v0_prefix_of(body: &[u8]) -> (r: Option<usize>)
    ensures
        match r {
            Some(p) => v0_prefix(body@) == Some(p as nat) && p < body@.len(),
            None => v0_prefix(body@) is None,
        },
{
    let n: usize = body.len();
    if n > 2 && body[0] == '_' as u8 && body[1] == 'R' as u8 {
        Some(2)
    } else if n > 1 && body[0] == 'R' as u8 {
        Some(1)
    } else if n > 3 && body[0] == '_' as u8 && body[1] == '_' as u8 && body[2] == 'R' as u8 {
        Some(3)
    } else {
        None
    }
}

/// Looks for a legacy name in `b[..end]`.
pub fn legacy_form(b: &[u8], end: usize) -> (r: Option<Form>)
    requires
        end <= b@.len(),
    ensures
        shape_of(r) == legacy_shape(b@, end as nat),
        r is Some ==> r.unwrap().start <= r.unwrap().suffix <= end,
{
    let body: &[u8] = slice_subrange(b, 0, end);
    let p: usize = match legacy_prefix_of(body) {
        Some(p) => p,
        None => {
            return None;
        },
    };
    let inner: &[u8] = slice_subrange(b, p, end);
    if !is_all_ascii(inner) {
        return None;
    }
    match legacy::scan(inner) {
        Some((count, behind)) => {
            if count == 0 {
                None
            } else {
                Some(
                    Form {
                        style: Style::Legacy,
                        start: p,
                        elements: count,
                        suffix: p + behind,
                        end,
                    },
                )
            }
        },
        None => None,
    }
}

/// Walks the paths of a v0 name without writing them.
pub fn v0_recognise(sym: &[u8]) -> (r: Option<usize>)
    ensures
        match r {
            Some(behind) => grammar::recognise(sym@) == Some(behind as nat) && behind
                <= sym@.len(),
            None => grammar::recognise(sym@) is None,
        },
{
    if sym.len() == 0 || !crate::cursor::upper(sym[0]) || !is_all_ascii(sym) {
        return None;
    }
    let src: Source = Source { bytes: sym, alternate: false };
    let mut p: Printer = Printer::new(false);
    p.print_path(&src, 0, false);
    if p.err {
        return None;
    }
    match crate::cursor::peek_at(sym, p.next) {
        Some(b) => {
            if crate::cursor::upper(b) {
                p.print_path(&src, 0, false);
                if p.err {
                    return None;
                }
            }
        },
        None => {},
    }
    Some(p.next)
}

/// Looks for a v0 name in `b[..end]`.
pub fn v0_form(b: &[u8], end: usize) -> (r: Option<Form>)
    requires
        end <= b@.len(),
    ensures
        shape_of(r) == v0_shape(b@, end as nat),
        r is Some ==> r.unwrap().start <= r.unwrap().suffix <= end,
{
    let body: &[u8] = slice_subrange(b, 0, end);
    let p: usize = match v0_prefix_of(body) {
        Some(p) => p,
        None => {
            return None;
        },
    };
    let inner: &[u8] = slice_subrange(b, p, end);
    match v0_recognise(inner) {
        Some(behind) => Some(
            Form { style: Style::V0, start: p, elements: 0, suffix: p + behind, end },
        ),
        None => None,
    }
}

/// Looks for a mangled name in the bytes.
pub fn parse_bytes(b: &[u8]) -> (r: Option<Form>)
    ensures
        shape_of(r) == parse(b@),
        r is Some ==> r.unwrap().start <= r.unwrap().suffix <= r.unwrap().end <= b@.len(),
{
    let end: usize = symbol_end_of(b);
    let found: Option<Form> = match legacy_form(b, end) {
        Some(f) => Some(f),
        None => v0_form(b, end),
    };
    match found {
        Some(f) => {
            if f.suffix == end || suffix_ok_of(slice_subrange(b, f.suffix, end)) {
                Some(f)
            } else {
                None
            }
        },
        None => None,
    }
}

/// Writes the text of the mangled name of the given form, without suffix.
pub fn write_name(b: &[u8], form: Form, alternate: bool) -> (out: Sink)
    requires
        shape_of(Some(form)) == parse(b@),
        form.start <= form.suffix <= form.end <= b@.len(),
    ensures
        out@ == name_text(b@, form@, alternate),
        out.wf(),
{
    let inner: &[u8] = slice_subrange(b, form.start, form.end);
    let src: Source = Source { bytes: inner, alternate };
    match form.style {
        Style::Legacy => {
            proof {
                legacy::lemma_scan_holds(inner@, 0, 0);
            }
            let mut out: Sink = Sink::new();
            legacy::write_elements(&mut out, &src, form.elements);
            out
        },
        Style::V0 => {
            let mut p: Printer = Printer::new(true);
            p.print_path(&src, 0, true);
            p.out
        },
    }
}

impl<'a> Demangle<'a> {
    /// The string that was looked at.
    pub closed spec fn input(&self) -> Seq<char> {
        self.input@
    }

    /// What was found in the string is what it holds.
    pub closed spec fn wf(&self) -> bool {
        &&& shape_of(self.form) == parse(self.input.spec_bytes())
        &&& self.form is Some ==> self.form.unwrap().start <= self.form.unwrap().suffix
            <= self.form.unwrap().end <= self.input.spec_bytes().len()
    }

    /// The string that was looked at.
    pub fn as_str(&self) -> (r: &'a str)
        ensures
            r@ == self.input(),
    {
        self.input
    }

    /// Whether the string is a mangled name.
    pub fn is_mangled(&self) -> (r: bool)
        requires
            self.wf(),
        ensures
            r == is_mangled(self.input()),
    {
        self.form.is_some()
    }

    /// Renders the string; `alternate` asks for the terse style, which
    /// leaves out hashes and the types of constants. The text of a name ends
    /// at the size limit, with a note; the suffix comes on top of that.
    pub fn render(&self, alternate: bool) -> (r: String)
        requires
            self.wf(),
        ensures
            r@ == rendered(self.input(), alternate),
            byte_len(r@) <= MAX_SIZE + byte_len("{size limit reached}"@) + byte_len(
                self.input(),
            ),
    {
        let b: &[u8] = self.input.as_bytes();
        match self.form {
            None => self.input.to_owned(),
            Some(form) => {
                let out: Sink = write_name(b, form, alternate);
                let failed: bool = out.failed;
                let mut text: String = out.buf;
                proof {
                    lemma_byte_len_add(text@, "{size limit reached}"@);
                }
                if failed {
                    text.append("{size limit reached}");
                }
                let ghost head = text@;
                let ghost suffix = b@.subrange(form.suffix as int, form.end as int);
                proof {
                    assert(all_ascii(b@.subrange(form.start as int, form.end as int)));
                    assert forall|i: int| 0 <= i < suffix.len() implies suffix[i] < 0x80 by {
                        assert(suffix[i] == b@.subrange(form.start as int, form.end as int)[i
                            + form.suffix - form.start]);
                    }
                    lemma_ascii_width(suffix);
                    lemma_byte_len_add(head, ascii_chars(suffix));
                }
                let mut i: usize = form.suffix;
                while i < form.end
                    invariant
                        form.suffix <= i <= form.end <= b@.len(),
                        text@ == head + ascii_chars(b@.subrange(form.suffix as int, i as int)),
                    decreases form.end - i,
                {
                    crate::sink::string_push(&mut text, b[i] as char);
                    i = i + 1;
                    assert(text@ =~= head + ascii_chars(
                        b@.subrange(form.suffix as int, i as int),
                    ));
                }
                text
            },
        }
    }

    /// Renders the string in the verbose style.
    pub fn to_string(&self) -> (r: String)
        requires
            self.wf(),
        ensures
            r@ == rendered(self.input(), false),
            byte_len(r@) <= MAX_SIZE + byte_len("{size limit reached}"@) + byte_len(
                self.input(),
            ),
    {
        self.render(false)
    }

    /// Renders the string in the terse style.
    pub fn to_string_alternate(&self) -> (r: String)
        requires
            self.wf(),
        ensures
            r@ == rendered(self.input(), true),
            byte_len(r@) <= MAX_SIZE + byte_len("{size limit reached}"@) + byte_len(
                self.input(),
            ),
    {
        self.render(true)
    }
}

/// Looks at a string. Whatever it holds, the result can be rendered: a
/// string that is no mangled name is rendered as itself.
pub fn demangle<'a>(s: &'a str) -> (r: Demangle<'a>)
    ensures
        r.wf(),
        r.input() == s@,
{
    Demangle { input: s, form: parse_bytes(s.as_bytes()) }
}

/// Looks at a string and fails unless it is a mangled name.
pub fn try_demangle<'a>(s: &'a str) -> (r: Result<Demangle<'a>, NotMangled>)
    ensures
        r is Ok <==> is_mangled(s@),
        r is Ok ==> r.unwrap().wf() && r.unwrap().input() == s@,
{
    let d: Demangle<'a> = demangle(s);
    if d.is_mangled() {
        Ok(d)
    } else {
        Err(NotMangled)
    }
}

/// Renders a string as a caller across a language boundary asks for it:
/// `flags` zero selects the terse style, anything else the verbose one.
/// There is no answer for the empty string.
pub fn demangle_with_flags(s: &str, flags: i32) -> (r: Option<String>)
    ensures
        s@.len() == 0 ==> r is None,
        s@.len() > 0 ==> r is Some && r.unwrap()@ == rendered(s@, flags == 0),
{
    if s.is_empty() {
        None
    } else {
        Some(demangle(s).render(flags == 0))
    }
}

/// A string that is no mangled name is rendered as itself, in either style.
pub proof fn lemma_unmangled_round_trip(x: Seq<char>, alt: bool)
    requires
        !is_mangled(x),
    ensures
        rendered(x, alt) == x,
{
}

/// Where `.llvm.` is found, it stands there.
pub proof fn lemma_find_llvm(b: Seq<u8>, pos: nat)
    ensures
        find_llvm(b, pos) is Some ==> pos <= find_llvm(b, pos).unwrap() && is_llvm_at(
            b,
            find_llvm(b, pos).unwrap(),
        ),
    decreases b.len() - pos,
{
    if pos + 6 <= b.len() && !is_llvm_at(b, pos) {
        lemma_find_llvm(b, pos + 1);
    }
}

/// Bytes that hold a mangled name are ASCII throughout: the prefix, the
/// name, its suffix and the `.llvm.` marker with its tag.
pub proof fn lemma_mangled_bytes_are_ascii(b: Seq<u8>)
    requires
        parse(b) is Some,
    ensures
        all_ascii(b),
{
    let end = symbol_end(b);
    let shape = parse(b).unwrap();
    let body = b.subrange(0, end as int);
    let inner = b.subrange(shape.start as int, end as int);
    lemma_find_llvm(b, 0);
    assert(all_ascii(inner));
    assert forall|i: int| 0 <= i < b.len() implies b[i] < 0x80 by {
        if i < shape.start {
            assert(body[i] == b[i]);
        } else if i < end {
            assert(inner[i - shape.start] == b[i]);
        } else if i < end + 6 {
        } else {
            assert(is_llvm_tag_byte(b[i]));
        }
    }
}

/// A string that is a mangled name holds ASCII only; a string with any other
/// character is never taken for one.
pub proof fn lemma_mangled_is_ascii(x: Seq<char>)
    requires
        is_mangled(x),
    ensures
        all_ascii(encode_utf8(x)),
{
    lemma_mangled_bytes_are_ascii(encode_utf8(x));
}

/// Rendering is a function of the string and the style: two renderings of
/// one string in one style are the same text.
pub proof fn lemma_rendering_is_deterministic(
    x: Seq<char>,
    y: Seq<char>,
    alt: bool,
    first: Seq<char>,
    second: Seq<char>,
)
    requires
        x == y,
        first == rendered(x, alt),
        second == rendered(y, alt),
    ensures
        first == second,
{
}

} // verus!
