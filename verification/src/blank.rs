//! The blank-line scanner: finds every line whose content is only horizontal
//! whitespace (possibly empty) and emits one span per such line, covering the
//! line and its terminating newline, so that removal deletes the whole line.
//! A final blank line with no trailing newline is covered up to end of input.

use vstd::prelude::*;
use crate::CommentMatch;
use crate::remove::spans_disjoint;
use crate::remove::spans_in_range;
use crate::remove::spans_sorted;
use crate::remove::spans_well_formed;

verus! {

/// Whether the current line has held only horizontal whitespace so far.
#[derive(Debug, Clone, Copy, PartialEq, Eq, Structural)]
pub enum LineState {
    Blank,
    NonBlank,
    End,
}

/// What the consumed character means for the line being tracked.
#[derive(Debug, Clone, Copy, PartialEq, Eq, Structural)]
pub enum LineAction {
    Nothing,
    /// A newline closed a line that was blank throughout: emit it, newline
    /// included, and start the next line.
    BlankLineEnds,
    /// A newline closed a line with content: just start the next line.
    LineReset,
    /// End of input on a blank line: emit it if it is not empty.
    BlankLineEndsInput,
}

/// A character counts as horizontal whitespace within a line.
pub open spec fn spec_is_horizontal_space(c: char) -> bool {
    c == ' ' || c == '\t'
}

/// The transition function of the blank-line automaton.
pub open spec fn spec_line_transition(
    from: LineState,
    current_char: Option<char>,
) -> (LineState, LineAction) {
    match current_char {
        Some(c) => match from {
            LineState::Blank => if c == '\n' {
                (LineState::Blank, LineAction::BlankLineEnds)
            } else if spec_is_horizontal_space(c) {
                (LineState::Blank, LineAction::Nothing)
            } else {
                (LineState::NonBlank, LineAction::Nothing)
            },
            LineState::NonBlank => if c == '\n' {
                (LineState::Blank, LineAction::LineReset)
            } else {
                (LineState::NonBlank, LineAction::Nothing)
            },
            LineState::End => (LineState::End, LineAction::Nothing),
        },
        None => match from {
            LineState::Blank => (LineState::End, LineAction::BlankLineEndsInput),
            _ => (LineState::End, LineAction::Nothing),
        },
    }
}

/// Computes one automaton step.
fn line_transition(from: LineState, current_char: Option<char>) -> (r: (LineState, LineAction))
    ensures
        r == spec_line_transition(from, current_char),
{
    match current_char {
        Some(c) => match from {
            LineState::Blank => match c {
                '\n' => (LineState::Blank, LineAction::BlankLineEnds),
                ' ' | '\t' => (LineState::Blank, LineAction::Nothing),
                _ => (LineState::NonBlank, LineAction::Nothing),
            },
            LineState::NonBlank => match c {
                '\n' => (LineState::Blank, LineAction::LineReset),
                _ => (LineState::NonBlank, LineAction::Nothing),
            },
            LineState::End => (LineState::End, LineAction::Nothing),
        },
        None => match from {
            LineState::Blank => (LineState::End, LineAction::BlankLineEndsInput),
            _ => (LineState::End, LineAction::Nothing),
        },
    }
}

/// Applies an action to the tracked line start and the spans found so far;
/// `pos` is the position of the character that caused the action.
pub open spec fn spec_apply_line_action(
    line_start: usize,
    ms: Seq<CommentMatch>,
    action: LineAction,
    pos: usize,
) -> (usize, Seq<CommentMatch>) {
    match action {
        LineAction::Nothing => (line_start, ms),
        LineAction::BlankLineEnds => (
            (pos + 1) as usize,
            ms.push(CommentMatch { from: line_start, to: (pos + 1) as usize }),
        ),
        LineAction::LineReset => ((pos + 1) as usize, ms),
        LineAction::BlankLineEndsInput => if line_start < pos {
            (line_start, ms.push(CommentMatch { from: line_start, to: pos }))
        } else {
            (line_start, ms)
        },
    }
}

/// The scanner's whole configuration after `i` steps: steps `1` to `s.len()`
/// consume the characters in order, step `s.len() + 1` consumes end of input.
pub open spec fn blank_scan_at(s: Seq<char>, i: int) -> (LineState, usize, Seq<CommentMatch>)
    decreases i,
{
    if i <= 0 {
        (LineState::Blank, 0usize, Seq::empty())
    } else {
        let prev = blank_scan_at(s, i - 1);
        let c = if i - 1 < s.len() {
            Some(s[i - 1])
        } else {
            None
        };
        let stepped = spec_line_transition(prev.0, c);
        let applied = spec_apply_line_action(prev.1, prev.2, stepped.1, (i - 1) as usize);
        (stepped.0, applied.0, applied.1)
    }
}

/// The blank-line spans of `s`.
pub open spec fn spec_find_blank_lines(s: Seq<char>) -> Seq<CommentMatch> {
    blank_scan_at(s, s.len() as int + 1).2
}

/// The bookkeeping facts that every prefix of a blank-line scan maintains.
pub open spec fn blank_accounting(
    s: Seq<char>,
    line_start: usize,
    ms: Seq<CommentMatch>,
    i: int,
) -> bool {
    &&& line_start <= i
    &&& line_start <= s.len()
    &&& forall|k: int| 0 <= k < ms.len()
        ==> (#[trigger] ms[k]).from <= ms[k].to && ms[k].to <= i && ms[k].to <= s.len()
    &&& forall|k1: int, k2: int|
        0 <= k1 < k2 < ms.len() ==> ms[k1].to <= ms[k2].from
}

proof fn lemma_blank_scan_at_accounting(s: Seq<char>, i: int)
    requires
        s.len() <= usize::MAX,
        0 <= i <= s.len() + 1,
    ensures
        blank_accounting(s, blank_scan_at(s, i).1, blank_scan_at(s, i).2, i),
        i <= s.len() ==> forall|k: int| 0 <= k < blank_scan_at(s, i).2.len()
            ==> (#[trigger] blank_scan_at(s, i).2[k]).to <= blank_scan_at(s, i).1,
    decreases i,
{
    if i > 0 {
        lemma_blank_scan_at_accounting(s, i - 1);
        let prev = blank_scan_at(s, i - 1);
        let cur = blank_scan_at(s, i);
        assert forall|k1: int, k2: int| 0 <= k1 < k2 < cur.2.len() implies
            cur.2[k1].to <= cur.2[k2].from by {
            assert(cur.2[k1] == prev.2[k1]);
            assert(prev.2[k1].to <= prev.1);
            if k2 < prev.2.len() {
                assert(cur.2[k2] == prev.2[k2]);
            }
        }
        assert forall|k: int| i <= s.len() && 0 <= k < cur.2.len() implies
            (#[trigger] cur.2[k]).to <= cur.1 by {
            if k < prev.2.len() {
                assert(cur.2[k] == prev.2[k]);
                assert(prev.2[k].to <= prev.1);
            }
        }
    }
}

/// The spans a blank-line scan emits are well formed, lie within the input,
/// are sorted by start position, and no two of them overlap.
pub proof fn lemma_find_blank_lines_spans_ok(s: Seq<char>)
    requires
        s.len() <= usize::MAX,
    ensures
        spans_well_formed(spec_find_blank_lines(s)),
        spans_in_range(spec_find_blank_lines(s), s.len()),
        spans_sorted(spec_find_blank_lines(s)),
        spans_disjoint(spec_find_blank_lines(s)),
{
    lemma_blank_scan_at_accounting(s, s.len() as int + 1);
    let ms = spec_find_blank_lines(s);
    assert forall|i: int, j: int| 0 <= i < j < ms.len() implies
        crate::remove::span_le(ms[i], ms[j]) && !crate::remove::spans_overlap(ms[i], ms[j]) by {
        assert(ms[i].to <= ms[j].from);
    }
}

/// Finds the blank-only lines of `input` as spans of character positions,
/// each covering the line's content together with its newline.
///
/// The scan makes one pass and cannot fail on any input; the error side of
/// the result only mirrors the interface the dialect scanners share.
pub fn find_blank_lines(input: &str) -> (r: Result<Vec<CommentMatch>, &'static str>)
    ensures
        r matches Ok(found) && found@ == spec_find_blank_lines(input@),
        input@.len() <= usize::MAX,
{
    let len = input.unicode_len();
    let mut matches: Vec<CommentMatch> = Vec::new();
    let mut current_state = LineState::Blank;
    let mut line_start: usize = 0;
    let mut position: usize = 0;
    while position < len
        invariant
            position <= len,
            len == input@.len(),
            current_state == blank_scan_at(input@, position as int).0,
            line_start == blank_scan_at(input@, position as int).1,
            matches@ == blank_scan_at(input@, position as int).2,
        decreases len - position,
    {
        let current_char = input.get_char(position);
        let (next_state, action) = line_transition(current_state, Some(current_char));
        match action {
            LineAction::Nothing => {},
            LineAction::BlankLineEnds => {
                matches.push(CommentMatch { from: line_start, to: position + 1 });
                line_start = position + 1;
            },
            LineAction::LineReset => {
                line_start = position + 1;
            },
            LineAction::BlankLineEndsInput => {},
        }
        current_state = next_state;
        position += 1;
    }
    let (_final_state, action) = line_transition(current_state, None);
    match action {
        LineAction::Nothing => {},
        LineAction::BlankLineEnds => {
            matches.push(CommentMatch { from: line_start, to: position + 1 });
            line_start = position + 1;
        },
        LineAction::LineReset => {
            line_start = position + 1;
        },
        LineAction::BlankLineEndsInput => {
            if line_start < position {
                matches.push(CommentMatch { from: line_start, to: position });
            }
        },
    }
    Ok(matches)
}


/// Every position of the span holds horizontal whitespace or a newline: a
/// blank-line span never covers other content.
pub open spec fn whitespace_span(s: Seq<char>, m: CommentMatch) -> bool {
    forall|p: int| m.from <= p < m.to && 0 <= p < s.len()
        ==> spec_is_horizontal_space(#[trigger] s[p]) || s[p] == '\n'
}

proof fn lemma_blank_scan_at_whitespace(s: Seq<char>, i: int)
    requires
        s.len() <= usize::MAX,
        0 <= i <= s.len() + 1,
    ensures
        forall|k: int| 0 <= k < blank_scan_at(s, i).2.len()
            ==> whitespace_span(s, #[trigger] blank_scan_at(s, i).2[k]),
        blank_scan_at(s, i).0 == LineState::Blank && i <= s.len()
            ==> forall|p: int| blank_scan_at(s, i).1 <= p < i
                ==> spec_is_horizontal_space(#[trigger] s[p]),
    decreases i,
{
    if i > 0 {
        lemma_blank_scan_at_whitespace(s, i - 1);
        let prev = blank_scan_at(s, i - 1);
        let cur = blank_scan_at(s, i);
        assert forall|k: int| 0 <= k < cur.2.len() implies
            whitespace_span(s, #[trigger] cur.2[k]) by {
            if k < prev.2.len() {
                assert(cur.2[k] == prev.2[k]);
            } else {
                assert forall|p: int| cur.2[k].from <= p < cur.2[k].to && 0 <= p < s.len()
                    implies spec_is_horizontal_space(#[trigger] s[p]) || s[p] == '\n' by {
                    if p < i - 1 {
                        assert(prev.1 <= p < i - 1);
                    }
                }
            }
        }
    }
}

/// No blank-line span ever covers content: every covered character is a
/// space, a tab, or the line's newline.
pub proof fn lemma_blank_spans_cover_only_whitespace(s: Seq<char>)
    requires
        s.len() <= usize::MAX,
    ensures
        forall|k: int| 0 <= k < spec_find_blank_lines(s).len()
            ==> whitespace_span(s, #[trigger] spec_find_blank_lines(s)[k]),
{
    lemma_blank_scan_at_whitespace(s, s.len() as int + 1);
}


/// `[start, end)` is a whole blank line of `s`: it begins the text or
/// follows a newline, runs to a newline or to end of input, and holds only
/// horizontal whitespace.  The empty tail behind a final newline is no line.
pub open spec fn blank_line_at(s: Seq<char>, start: int, end: int) -> bool {
    &&& 0 <= start <= end <= s.len()
    &&& (start == 0 || s[start - 1] == '\n')
    &&& (end == s.len() || s[end] == '\n')
    &&& !(start == end && end == s.len())
    &&& forall|p: int| start <= p < end ==> spec_is_horizontal_space(#[trigger] s[p])
}

/// Some line of `s` consists solely of horizontal whitespace.
pub open spec fn has_blank_line(s: Seq<char>) -> bool {
    exists|start: int, end: int| blank_line_at(s, start, end)
}

proof fn lemma_no_blank_line_scan(s: Seq<char>, i: int)
    requires
        s.len() <= usize::MAX,
        0 <= i <= s.len() + 1,
        !has_blank_line(s),
    ensures
        blank_scan_at(s, i).2.len() == 0,
        blank_scan_at(s, i).1 == 0 || s[blank_scan_at(s, i).1 - 1] == '\n',
        blank_scan_at(s, i).1 <= i,
        blank_scan_at(s, i).1 <= s.len(),
    decreases i,
{
    if i > 0 {
        lemma_no_blank_line_scan(s, i - 1);
        lemma_blank_scan_at_whitespace(s, i - 1);
        let prev = blank_scan_at(s, i - 1);
        let ls = prev.1 as int;
        if i - 1 < s.len() {
            if prev.0 == LineState::Blank && s[i - 1] == '\n' {
                assert(blank_line_at(s, ls, i - 1));
                assert(false);
            }
        } else {
            if prev.0 == LineState::Blank && ls < i - 1 {
                assert(blank_line_at(s, ls, s.len() as int));
                assert(false);
            }
        }
    }
}

/// Text in which no line consists solely of horizontal whitespace gets no
/// blank-line spans: the textual condition implies the scanner's silence.
pub proof fn lemma_no_blank_lines_no_spans(s: Seq<char>)
    requires
        s.len() <= usize::MAX,
        !has_blank_line(s),
    ensures
        spec_find_blank_lines(s).len() == 0,
{
    lemma_no_blank_line_scan(s, s.len() as int + 1);
}

} // verus!


