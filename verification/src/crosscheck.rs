//! Holding a rendering against that of the `rustc-demangle` crate.

use vstd::prelude::*;
use vstd::string::StringSliceAdditionalSpecFns;
use vstd::utf8::encode_utf8;

verus! {

/// What `rustc-demangle` renders a string as in its verbose style (`{}`), or
/// `None` where it does not take the string for a mangled name.
pub uninterp spec fn theirs_verbose(s: Seq<char>) -> Option<Seq<char>>;

/// What `rustc-demangle` renders a string as in its terse style (`{:#}`), or
/// `None` where it does not take the string for a mangled name.
pub uninterp spec fn theirs_terse(s: Seq<char>) -> Option<Seq<char>>;

/// The view of an optional string.
pub open spec fn text_of(s: Option<String>) -> Option<Seq<char>> {
    match s {
        Some(t) => Some(t@),
        None => None,
    }
}

/// `rustc_demangle::try_demangle`, and `Display` for its `Demangle` with the
/// plain format: the verbose rendering of a mangled name, nothing for any
/// other string.
#[verifier::external_body]
pub(crate) fn render_theirs_verbose(s: &str) -> (r: Option<String>)
    ensures
        text_of(r) == theirs_verbose(s@),
{
    match rustc_demangle::try_demangle(s) {
        Ok(d) => Some(format!("{}", d)),
        Err(_) => None,
    }
}

/// `rustc_demangle::try_demangle`, and `Display` for its `Demangle` with the
/// alternate format: the terse rendering of a mangled name, nothing for any
/// other string.
#[verifier::external_body]
pub(crate) fn render_theirs_terse(s: &str) -> (r: Option<String>)
    ensures
        text_of(r) == theirs_terse(s@),
{
    match rustc_demangle::try_demangle(s) {
        Ok(d) => Some(format!("{:#}", d)),
        Err(_) => None,
    }
}

/// How two implementations compare on one name.
#[derive(Clone, Copy, PartialEq, Eq, Debug)]
pub enum Verdict {
    /// Both styles are rendered alike, and without a `?`.
    Agree,
    /// `rustc-demangle` does not take the string for a mangled name.
    NotMangled,
    /// The terse rendering of `rustc-demangle` holds a `?`.
    TerseUnprintable,
    /// The terse renderings differ.
    TerseDiffers,
    /// The verbose rendering of `rustc-demangle` holds a `?`.
    VerboseUnprintable,
    /// The verbose renderings differ.
    VerboseDiffers,
}

/// Whether the UTF-8 bytes of a text hold a `?`.
pub open spec fn has_question_mark(text: Seq<char>) -> bool {
    exists|i: int| 0 <= i < encode_utf8(text).len() && #[trigger] encode_utf8(text)[i] == '?' as u8
}

/// The verdict on one name: the terse style is looked at first, then the
/// verbose one; in each a `?` in the rendering of `rustc-demangle` counts
/// before a difference.
pub open spec fn verdict(
    ours_terse: Seq<char>,
    ours_verbose: Seq<char>,
    terse: Option<Seq<char>>,
    verbose: Option<Seq<char>>,
) -> Verdict {
    match (terse, verbose) {
        (Some(t), Some(v)) => if has_question_mark(t) {
            Verdict::TerseUnprintable
        } else if t != ours_terse {
            Verdict::TerseDiffers
        } else if has_question_mark(v) {
            Verdict::VerboseUnprintable
        } else if v != ours_verbose {
            Verdict::VerboseDiffers
        } else {
            Verdict::Agree
        },
        _ => Verdict::NotMangled,
    }
}

/// Whether the text holds a `?`.
pub fn holds_question_mark(text: &str) -> (r: bool)
    ensures
        r == has_question_mark(text@),
{
    let b: &[u8] = text.as_bytes();
    let mut i: usize = 0;
    while i < b.len()
        invariant
            i <= b@.len(),
            b@ == encode_utf8(text@),
            forall|j: int| 0 <= j < i ==> b@[j] != '?' as u8,
        decreases b@.len() - i,
    {
        if b[i] == '?' as u8 {
            return true;
        }
        i = i + 1;
    }
    false
}

/// Compares the renderings of one name by this crate, or by another
/// implementation under test, with those of `rustc-demangle`.
pub fn judge(
    ours_terse: &String,
    ours_verbose: &String,
    terse: &Option<String>,
    verbose: &Option<String>,
) -> (r: Verdict)
    ensures
        r == verdict(ours_terse@, ours_verbose@, text_of(*terse), text_of(*verbose)),
{
    match (terse, verbose) {
        (Some(t), Some(v)) => {
            if holds_question_mark(t.as_str()) {
                Verdict::TerseUnprintable
            } else if !(*t == *ours_terse) {
                Verdict::TerseDiffers
            } else if holds_question_mark(v.as_str()) {
                Verdict::VerboseUnprintable
            } else if !(*v == *ours_verbose) {
                Verdict::VerboseDiffers
            } else {
                Verdict::Agree
            }
        },
        _ => Verdict::NotMangled,
    }
}

/// Renders one name with this crate and with `rustc-demangle`, and compares.
pub fn check_variant(mangling: &str) -> (r: Verdict)
    ensures
        r == verdict(
            crate::symbol::rendered(mangling@, true),
            crate::symbol::rendered(mangling@, false),
            theirs_terse(mangling@),
            theirs_verbose(mangling@),
        ),
{
    let d = crate::symbol::demangle(mangling);
    let ours_terse: String = d.render(true);
    let ours_verbose: String = d.render(false);
    let terse: Option<String> = render_theirs_terse(mangling);
    let verbose: Option<String> = render_theirs_verbose(mangling);
    judge(&ours_terse, &ours_verbose, &terse, &verbose)
}

} // verus!
