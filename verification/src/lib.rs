//! Strips comments, and optionally the blank lines left behind, from source
//! text written in one of several lexical dialects (shell-like, C-like,
//! XML-like).
//!
//! Each dialect scanner walks the input once, character by character, driving
//! a finite-state machine, and emits the comment regions as half-open spans
//! of character positions.  The span remover validates such a set of spans
//! against the buffer and deletes the spanned characters, keeping every other
//! character in its original order.

pub mod blank;
pub mod c;
pub mod remove;
pub mod shell;
pub mod xml;

use vstd::prelude::*;

verus! {

/// A half-open interval `[from, to)` of character positions in one specific
/// text buffer, marking a region to delete.
#[derive(Debug, Clone, Copy, PartialEq, Eq, Structural)]
pub struct CommentMatch {
    pub from: usize,
    pub to: usize,
}

/// Whether a scanner is outside a comment, tentatively inside one whose
/// start may yet be retracted (a leading `#` that could open a shebang, a
/// lone `/` or `<`), or definitely inside one, with the start position in
/// the latter two cases.
#[derive(Debug, Clone, Copy, PartialEq, Eq, Structural)]
pub enum CommentState {
    NotInComment,
    MaybeInComment(usize),
    InComment(usize),
}

/// The comment syntax that a scan should recognise.
#[derive(Debug, Clone, Copy, PartialEq, Eq, Structural)]
pub enum CommentStyle {
    C,
    Shell,
    Xml,
}

/// Why a set of spans was rejected by the span remover.
#[derive(Debug, Clone, Copy, PartialEq, Eq, Structural)]
pub enum RemovalError {
    /// Some span reaches past the end of the buffer.
    OutOfRange,
    /// Two spans share at least one character position.
    Overlapping,
}

/// Why a whole strip run failed.  Neither case can arise from the scanners
/// and the remover of this crate, whose contracts rule both out; the type
/// mirrors the interface so that callers see every declared failure mode.
#[derive(Debug, Clone, Copy, PartialEq, Eq, Structural)]
pub enum StripError {
    /// A scanner reported an inconsistent automaton state.
    Parse,
    /// The span remover rejected the scanned spans.
    Removal(RemovalError),
}

/// The comment spans of `s` under the chosen dialect.
pub open spec fn spec_scan(s: Seq<char>, style: CommentStyle) -> Seq<CommentMatch> {
    match style {
        CommentStyle::C => c::spec_find_comments(s),
        CommentStyle::Shell => shell::spec_find_comments(s),
        CommentStyle::Xml => xml::spec_find_comments(s),
    }
}

/// Scans `input` once with the scanner of the chosen dialect.
pub fn scan(input: &str, style: CommentStyle) -> (r: Result<Vec<CommentMatch>, &'static str>)
    ensures
        r matches Ok(found) && found@ == spec_scan(input@, style),
        input@.len() <= usize::MAX,
{
    match style {
        CommentStyle::C => c::find_comments(input),
        CommentStyle::Shell => shell::find_comments(input),
        CommentStyle::Xml => xml::find_comments(input),
    }
}

/// Scans `input` once for blank-only lines, typically after comment removal.
pub fn scan_blank_lines(input: &str) -> (r: Result<Vec<CommentMatch>, &'static str>)
    ensures
        r matches Ok(found) && found@ == blank::spec_find_blank_lines(input@),
        input@.len() <= usize::MAX,
{
    blank::find_blank_lines(input)
}

/// The text that a whole strip run produces: the dialect's comment spans
/// deleted, then, when asked, the blank-line spans of the intermediate text.
pub open spec fn spec_strip_comments(
    s: Seq<char>,
    style: CommentStyle,
    remove_blank_lines: bool,
) -> Seq<char> {
    let stripped = remove::sieve(s, spec_scan(s, style), 0);
    if remove_blank_lines {
        remove::sieve(stripped, blank::spec_find_blank_lines(stripped), 0)
    } else {
        stripped
    }
}

/// Strips the comments of the chosen dialect from `input`, and, when
/// `remove_blank_lines` is set, afterwards every line of the result that
/// holds only horizontal whitespace.
///
/// The run cannot fail: the scanners accept every input and emit spans that
/// the remover always accepts.
pub fn strip_comments(
    input: String,
    style: CommentStyle,
    remove_blank_lines: bool,
) -> (r: Result<String, StripError>)
    ensures
        r matches Ok(out) && out@ == spec_strip_comments(input@, style, remove_blank_lines),
{
    let spans = match scan(input.as_str(), style) {
        Ok(spans) => spans,
        Err(_) => {
            return Err(StripError::Parse);
        },
    };
    proof {
        match style {
            CommentStyle::C => c::lemma_find_comments_spans_ok(input@),
            CommentStyle::Shell => shell::lemma_find_comments_spans_ok(input@),
            CommentStyle::Xml => xml::lemma_find_comments_spans_ok(input@),
        }
    }
    let stripped = match remove::remove(input, spans) {
        Ok(text) => text,
        Err(e) => {
            return Err(StripError::Removal(e));
        },
    };
    if !remove_blank_lines {
        return Ok(stripped);
    }
    let blank_spans = match scan_blank_lines(stripped.as_str()) {
        Ok(spans) => spans,
        Err(_) => {
            return Err(StripError::Parse);
        },
    };
    proof {
        blank::lemma_find_blank_lines_spans_ok(stripped@);
    }
    match remove::remove(stripped, blank_spans) {
        Ok(text) => Ok(text),
        Err(e) => Err(StripError::Removal(e)),
    }
}

/// Text in which the chosen dialect finds no comment and no line consists
/// solely of horizontal whitespace comes out of a whole strip run unchanged.
pub proof fn lemma_strip_comments_round_trip(
    s: Seq<char>,
    style: CommentStyle,
    remove_blank_lines: bool,
)
    requires
        s.len() <= usize::MAX,
        spec_scan(s, style).len() == 0,
        !blank::has_blank_line(s),
    ensures
        spec_strip_comments(s, style, remove_blank_lines) == s,
{
    assert(spec_scan(s, style) =~= Seq::<CommentMatch>::empty());
    remove::lemma_remove_nothing(s);
    blank::lemma_no_blank_lines_no_spans(s);
    assert(blank::spec_find_blank_lines(s) =~= Seq::<CommentMatch>::empty());
}

/// The shell round trip from the text alone: an input without any `#` and
/// without any line of only horizontal whitespace passes comment removal and
/// blank-line removal unchanged.
pub proof fn lemma_shell_strip_is_identity(s: Seq<char>, remove_blank_lines: bool)
    requires
        s.len() <= usize::MAX,
        forall|p: int| 0 <= p < s.len() ==> s[p] != '#',
        !blank::has_blank_line(s),
    ensures
        spec_strip_comments(s, CommentStyle::Shell, remove_blank_lines) == s,
{
    shell::lemma_no_delimiter_no_comments(s);
    lemma_strip_comments_round_trip(s, CommentStyle::Shell, remove_blank_lines);
}

} // verus!
