//! The shell-dialect scanner: finds `#` line comments, scanning through
//! single- and double-quoted strings, and treats a leading `#!` shebang line
//! as code rather than comment.  A `#` later on a shebang line still starts
//! an ordinary comment.

use vstd::prelude::*;
use crate::CommentMatch;
use crate::CommentState;
use crate::remove::spans_disjoint;
use crate::remove::spans_in_range;
use crate::remove::spans_sorted;
use crate::remove::spans_well_formed;

verus! {

/// The automaton state of the shell scanner between two characters.
#[derive(Debug, Clone, Copy, PartialEq, Eq, Structural)]
pub enum ParseState {
    Start,
    Normal,
    ShebangOrComment,
    Shebang,
    Comment,
    StringDoubleQuotes,
    StringDoubleQuotesEscaped,
    StringSingleQuotes,
    StringSingleQuotesEscaped,
    End,
}

/// What the consumed character means for the span being tracked.
#[derive(Debug, Clone, Copy, PartialEq, Eq, Structural)]
pub enum ParseAction {
    Nothing,
    CommentStarts,
    CommentEnds,
    ShebangOrCommentStart,
    ShebangFound,
}

/// The transition function of the shell automaton: one state and one
/// character (`None` for end of input) give the next state and an action.
pub open spec fn spec_state_transition(
    from: ParseState,
    current_char: Option<char>,
) -> (ParseState, ParseAction) {
    match current_char {
        Some(c) => match from {
            ParseState::Start => if c == '#' {
                (ParseState::ShebangOrComment, ParseAction::ShebangOrCommentStart)
            } else if c == '"' {
                (ParseState::StringDoubleQuotes, ParseAction::Nothing)
            } else if c == '\'' {
                (ParseState::StringSingleQuotes, ParseAction::Nothing)
            } else {
                (ParseState::Normal, ParseAction::Nothing)
            },
            ParseState::Normal => if c == '#' {
                (ParseState::Comment, ParseAction::CommentStarts)
            } else if c == '"' {
                (ParseState::StringDoubleQuotes, ParseAction::Nothing)
            } else if c == '\'' {
                (ParseState::StringSingleQuotes, ParseAction::Nothing)
            } else {
                (ParseState::Normal, ParseAction::Nothing)
            },
            ParseState::ShebangOrComment => if c == '!' {
                (ParseState::Shebang, ParseAction::ShebangFound)
            } else if c == '\n' {
                (ParseState::Normal, ParseAction::CommentEnds)
            } else {
                (ParseState::Comment, ParseAction::Nothing)
            },
            ParseState::Shebang => if c == '\n' {
                (ParseState::Normal, ParseAction::Nothing)
            } else if c == '#' {
                (ParseState::Comment, ParseAction::CommentStarts)
            } else if c == '"' {
                (ParseState::StringDoubleQuotes, ParseAction::Nothing)
            } else if c == '\'' {
                (ParseState::StringSingleQuotes, ParseAction::Nothing)
            } else {
                (ParseState::Shebang, ParseAction::Nothing)
            },
            ParseState::Comment => if c == '\n' {
                (ParseState::Normal, ParseAction::CommentEnds)
            } else {
                (ParseState::Comment, ParseAction::Nothing)
            },
            ParseState::StringDoubleQuotes => if c == '"' {
                (ParseState::Normal, ParseAction::Nothing)
            } else if c == '\\' {
                (ParseState::StringDoubleQuotesEscaped, ParseAction::Nothing)
            } else {
                (ParseState::StringDoubleQuotes, ParseAction::Nothing)
            },
            ParseState::StringDoubleQuotesEscaped => (
                ParseState::StringDoubleQuotes,
                ParseAction::Nothing,
            ),
            ParseState::StringSingleQuotes => if c == '\'' {
                (ParseState::Normal, ParseAction::Nothing)
            } else if c == '\\' {
                (ParseState::StringSingleQuotesEscaped, ParseAction::Nothing)
            } else {
                (ParseState::StringSingleQuotes, ParseAction::Nothing)
            },
            ParseState::StringSingleQuotesEscaped => (
                ParseState::StringSingleQuotes,
                ParseAction::Nothing,
            ),
            ParseState::End => (ParseState::End, ParseAction::Nothing),
        },
        None => match from {
            ParseState::Comment => (ParseState::End, ParseAction::CommentEnds),
            ParseState::ShebangOrComment => (ParseState::End, ParseAction::ShebangFound),
            _ => (ParseState::End, ParseAction::Nothing),
        },
    }
}

/// Computes one automaton step.
pub fn state_transition(
    from: ParseState,
    current_char: Option<char>,
) -> (r: (ParseState, ParseAction))
    ensures
        r == spec_state_transition(from, current_char),
{
    match current_char {
        Some(c) => match from {
            ParseState::Start => match c {
                '#' => (ParseState::ShebangOrComment, ParseAction::ShebangOrCommentStart),
                '"' => (ParseState::StringDoubleQuotes, ParseAction::Nothing),
                '\'' => (ParseState::StringSingleQuotes, ParseAction::Nothing),
                _ => (ParseState::Normal, ParseAction::Nothing),
            },
            ParseState::Normal => match c {
                '#' => (ParseState::Comment, ParseAction::CommentStarts),
                '"' => (ParseState::StringDoubleQuotes, ParseAction::Nothing),
                '\'' => (ParseState::StringSingleQuotes, ParseAction::Nothing),
                _ => (ParseState::Normal, ParseAction::Nothing),
            },
            ParseState::ShebangOrComment => match c {
                '!' => (ParseState::Shebang, ParseAction::ShebangFound),
                '\n' => (ParseState::Normal, ParseAction::CommentEnds),
                _ => (ParseState::Comment, ParseAction::Nothing),
            },
            ParseState::Shebang => match c {
                '\n' => (ParseState::Normal, ParseAction::Nothing),
                '#' => (ParseState::Comment, ParseAction::CommentStarts),
                '"' => (ParseState::StringDoubleQuotes, ParseAction::Nothing),
                '\'' => (ParseState::StringSingleQuotes, ParseAction::Nothing),
                _ => (ParseState::Shebang, ParseAction::Nothing),
            },
            ParseState::Comment => match c {
                '\n' => (ParseState::Normal, ParseAction::CommentEnds),
                _ => (ParseState::Comment, ParseAction::Nothing),
            },
            ParseState::StringDoubleQuotes => match c {
                '"' => (ParseState::Normal, ParseAction::Nothing),
                '\\' => (ParseState::StringDoubleQuotesEscaped, ParseAction::Nothing),
                _ => (ParseState::StringDoubleQuotes, ParseAction::Nothing),
            },
            ParseState::StringDoubleQuotesEscaped => (
                ParseState::StringDoubleQuotes,
                ParseAction::Nothing,
            ),
            ParseState::StringSingleQuotes => match c {
                '\'' => (ParseState::Normal, ParseAction::Nothing),
                '\\' => (ParseState::StringSingleQuotesEscaped, ParseAction::Nothing),
                _ => (ParseState::StringSingleQuotes, ParseAction::Nothing),
            },
            ParseState::StringSingleQuotesEscaped => (
                ParseState::StringSingleQuotes,
                ParseAction::Nothing,
            ),
            ParseState::End => (ParseState::End, ParseAction::Nothing),
        },
        None => match from {
            ParseState::Comment => (ParseState::End, ParseAction::CommentEnds),
            ParseState::ShebangOrComment => (ParseState::End, ParseAction::ShebangFound),
            _ => (ParseState::End, ParseAction::Nothing),
        },
    }
}

/// Applies an action to the tracked span and the spans found so far; `pos`
/// is the position of the character that caused the action.
pub open spec fn spec_apply_action(
    cs: CommentState,
    ms: Seq<CommentMatch>,
    action: ParseAction,
    pos: usize,
) -> (CommentState, Seq<CommentMatch>) {
    match action {
        ParseAction::Nothing => (cs, ms),
        ParseAction::CommentStarts => (CommentState::InComment(pos), ms),
        ParseAction::ShebangOrCommentStart => (CommentState::MaybeInComment(pos), ms),
        ParseAction::ShebangFound => (CommentState::NotInComment, ms),
        ParseAction::CommentEnds => match cs {
            CommentState::NotInComment => (cs, ms),
            CommentState::MaybeInComment(from) => (
                CommentState::NotInComment,
                ms.push(CommentMatch { from, to: pos }),
            ),
            CommentState::InComment(from) => (
                CommentState::NotInComment,
                ms.push(CommentMatch { from, to: pos }),
            ),
        },
    }
}

/// The scanner's whole configuration after `i` steps: steps `1` to `s.len()`
/// consume the characters in order, step `s.len() + 1` consumes end of input.
pub open spec fn scan_at(s: Seq<char>, i: int) -> (ParseState, CommentState, Seq<CommentMatch>)
    decreases i,
{
    if i <= 0 {
        (ParseState::Start, CommentState::NotInComment, Seq::empty())
    } else {
        let prev = scan_at(s, i - 1);
        let c = if i - 1 < s.len() {
            Some(s[i - 1])
        } else {
            None
        };
        let stepped = spec_state_transition(prev.0, c);
        let applied = spec_apply_action(prev.1, prev.2, stepped.1, (i - 1) as usize);
        (stepped.0, applied.0, applied.1)
    }
}

/// The comment spans of `s` under the shell dialect.
pub open spec fn spec_find_comments(s: Seq<char>) -> Seq<CommentMatch> {
    scan_at(s, s.len() as int + 1).2
}

/// Whenever the automaton state says "inside a comment", a start position is
/// being tracked, so a comment-end action always finds one.
pub open spec fn tracking_ok(st: ParseState, cs: CommentState) -> bool {
    &&& st == ParseState::Comment ==> !(cs is NotInComment)
    &&& st == ParseState::ShebangOrComment ==> cs is MaybeInComment
}

proof fn lemma_scan_at_tracking(s: Seq<char>, i: int)
    ensures
        tracking_ok(scan_at(s, i).0, scan_at(s, i).1),
    decreases i,
{
    if i > 0 {
        lemma_scan_at_tracking(s, i - 1);
    }
}

/// The bookkeeping facts that every prefix of a scan maintains: spans found
/// so far are well formed, end before the next unread position, and come in
/// order without sharing positions; a tracked start lies after all of them.
pub open spec fn scan_accounting(cs: CommentState, ms: Seq<CommentMatch>, i: int) -> bool {
    &&& forall|k: int| 0 <= k < ms.len()
        ==> (#[trigger] ms[k]).from <= ms[k].to && ms[k].to < i
    &&& forall|k1: int, k2: int|
        0 <= k1 < k2 < ms.len() ==> ms[k1].to <= ms[k2].from
    &&& match cs {
        CommentState::NotInComment => true,
        CommentState::MaybeInComment(f) => f < i
            && forall|k: int| 0 <= k < ms.len() ==> (#[trigger] ms[k]).to <= f,
        CommentState::InComment(f) => f < i
            && forall|k: int| 0 <= k < ms.len() ==> (#[trigger] ms[k]).to <= f,
    }
}

proof fn lemma_scan_at_accounting(s: Seq<char>, i: int)
    requires
        s.len() <= usize::MAX,
        i <= s.len() + 1,
    ensures
        scan_accounting(scan_at(s, i).1, scan_at(s, i).2, i),
    decreases i,
{
    if i > 0 {
        lemma_scan_at_accounting(s, i - 1);
    }
}

/// The spans a shell scan emits are well formed, lie within the input, are
/// sorted by start position, and no two of them overlap.
pub proof fn lemma_find_comments_spans_ok(s: Seq<char>)
    requires
        s.len() <= usize::MAX,
    ensures
        spans_well_formed(spec_find_comments(s)),
        spans_in_range(spec_find_comments(s), s.len()),
        spans_sorted(spec_find_comments(s)),
        spans_disjoint(spec_find_comments(s)),
{
    lemma_scan_at_accounting(s, s.len() as int + 1);
    let ms = spec_find_comments(s);
    assert forall|i: int, j: int| 0 <= i < j < ms.len() implies
        crate::remove::span_le(ms[i], ms[j]) && !crate::remove::spans_overlap(ms[i], ms[j]) by {
        assert(ms[i].to <= ms[j].from);
    }
}

/// Finds the shell comments of `input` as spans of character positions.
///
/// The scan makes one pass, cannot fail on any input, and returns exactly
/// the spans of the specification automaton; the error branch only guards
/// against an inconsistent automaton state, which cannot arise.
pub fn find_comments(input: &str) -> (r: Result<Vec<CommentMatch>, &'static str>)
    ensures
        r matches Ok(found) && found@ == spec_find_comments(input@),
        input@.len() <= usize::MAX,
{
    let len = input.unicode_len();
    let mut matches: Vec<CommentMatch> = Vec::new();
    let mut current_state = ParseState::Start;
    let mut comment_state = CommentState::NotInComment;
    let mut position: usize = 0;
    while position < len
        invariant
            position <= len,
            len == input@.len(),
            current_state == scan_at(input@, position as int).0,
            comment_state == scan_at(input@, position as int).1,
            matches@ == scan_at(input@, position as int).2,
        decreases len - position,
    {
        let current_char = input.get_char(position);
        let (next_state, action) = state_transition(current_state, Some(current_char));
        match action {
            ParseAction::Nothing => {},
            ParseAction::CommentStarts => {
                comment_state = CommentState::InComment(position);
            },
            ParseAction::ShebangOrCommentStart => {
                comment_state = CommentState::MaybeInComment(position);
            },
            ParseAction::ShebangFound => {
                comment_state = CommentState::NotInComment;
            },
            ParseAction::CommentEnds => {
                match comment_state {
                    CommentState::NotInComment => {
                        proof {
                            lemma_scan_at_tracking(input@, position as int);
                        }
                        return Err("shell style parse error");
                    },
                    CommentState::MaybeInComment(from) => {
                        matches.push(CommentMatch { from, to: position });
                        comment_state = CommentState::NotInComment;
                    },
                    CommentState::InComment(from) => {
                        matches.push(CommentMatch { from, to: position });
                        comment_state = CommentState::NotInComment;
                    },
                }
            },
        }
        current_state = next_state;
        position += 1;
    }
    let (_final_state, action) = state_transition(current_state, None);
    match action {
        ParseAction::Nothing => {},
        ParseAction::CommentStarts => {
            comment_state = CommentState::InComment(position);
        },
        ParseAction::ShebangOrCommentStart => {
            comment_state = CommentState::MaybeInComment(position);
        },
        ParseAction::ShebangFound => {
            comment_state = CommentState::NotInComment;
        },
        ParseAction::CommentEnds => {
            match comment_state {
                CommentState::NotInComment => {
                    proof {
                        lemma_scan_at_tracking(input@, position as int);
                    }
                    return Err("shell style parse error");
                },
                CommentState::MaybeInComment(from) => {
                    matches.push(CommentMatch { from, to: position });
                },
                CommentState::InComment(from) => {
                    matches.push(CommentMatch { from, to: position });
                },
            }
        },
    }
    Ok(matches)
}


/// States from which no `#` has opened anything comment-like.
pub open spec fn delimiter_free_state(st: ParseState) -> bool {
    st != ParseState::Comment && st != ParseState::ShebangOrComment
        && st != ParseState::Shebang
}

proof fn lemma_no_delimiter_scan(s: Seq<char>, i: int)
    requires
        forall|p: int| 0 <= p < s.len() ==> s[p] != '#',
    ensures
        scan_at(s, i).2.len() == 0,
        scan_at(s, i).1 == CommentState::NotInComment,
        delimiter_free_state(scan_at(s, i).0),
    decreases i,
{
    if i > 0 {
        lemma_no_delimiter_scan(s, i - 1);
        if 0 <= i - 1 < s.len() {
            assert(s[i - 1] != '#');
        }
    }
}

/// An input without the `#` delimiter yields no comment spans.
pub proof fn lemma_no_delimiter_no_comments(s: Seq<char>)
    requires
        forall|p: int| 0 <= p < s.len() ==> s[p] != '#',
    ensures
        spec_find_comments(s).len() == 0,
{
    lemma_no_delimiter_scan(s, s.len() as int + 1);
}

/// A span start is sound: it sits on a `#`, and the automaton stood outside
/// every string literal there, in one of the states `Start`, `Normal` or
/// `Shebang`.  No comment span ever begins inside a string region.
pub open spec fn sound_span_start(s: Seq<char>, p: usize) -> bool {
    &&& p < s.len()
    &&& s[p as int] == '#'
    &&& {
        let st = scan_at(s, p as int).0;
        st == ParseState::Start || st == ParseState::Normal || st == ParseState::Shebang
    }
}

proof fn lemma_scan_at_sound_starts(s: Seq<char>, i: int)
    requires
        s.len() <= usize::MAX,
        0 <= i <= s.len() + 1,
    ensures
        forall|k: int| 0 <= k < scan_at(s, i).2.len()
            ==> sound_span_start(s, (#[trigger] scan_at(s, i).2[k]).from),
        match scan_at(s, i).1 {
            CommentState::NotInComment => true,
            CommentState::MaybeInComment(f) => sound_span_start(s, f),
            CommentState::InComment(f) => sound_span_start(s, f),
        },
    decreases i,
{
    if i > 0 {
        lemma_scan_at_sound_starts(s, i - 1);
        let prev = scan_at(s, i - 1);
        let cur = scan_at(s, i);
        assert forall|k: int| 0 <= k < cur.2.len() implies
            sound_span_start(s, (#[trigger] cur.2[k]).from) by {
            if k < prev.2.len() {
                assert(cur.2[k] == prev.2[k]);
            }
        }
    }
}

/// Every span of a shell scan starts on a `#` seen outside every string
/// literal: in automaton terms, in state `Start`, `Normal` or `Shebang`.
pub proof fn lemma_spans_start_outside_strings(s: Seq<char>)
    requires
        s.len() <= usize::MAX,
    ensures
        forall|k: int| 0 <= k < spec_find_comments(s).len()
            ==> sound_span_start(s, (#[trigger] spec_find_comments(s)[k]).from),
{
    lemma_scan_at_sound_starts(s, s.len() as int + 1);
}

/// End of input closes a comment that is still open: the scan then ends
/// with a final span reaching exactly to the input's length.
pub proof fn lemma_end_of_input_closes_comment(s: Seq<char>)
    requires
        s.len() <= usize::MAX,
        scan_at(s, s.len() as int).0 == ParseState::Comment,
    ensures
        spec_find_comments(s).len() > 0,
        spec_find_comments(s).last().to == s.len(),
{
    lemma_scan_at_tracking(s, s.len() as int);
}

/// End of input while only tentatively in a comment (the input ends right
/// after a leading `#`) discards the tentative region: no span is added.
pub proof fn lemma_end_of_input_discards_tentative(s: Seq<char>)
    requires
        scan_at(s, s.len() as int).0 == ParseState::ShebangOrComment,
    ensures
        spec_find_comments(s) == scan_at(s, s.len() as int).2,
{
}


/// The span is a whole comment tail of its line: it is not empty, it ends at
/// end of input or on a newline, and no newline lies strictly inside it — so
/// its end is the first newline after its start, or the input's length.
pub open spec fn span_ends_at_line_end(s: Seq<char>, m: CommentMatch) -> bool {
    &&& m.from < m.to
    &&& m.to == s.len() || (m.to < s.len() && s[m.to as int] == '\n')
    &&& forall|p: int| m.from < p < m.to ==> (#[trigger] s[p]) != '\n'
}

proof fn lemma_scan_at_line_ends(s: Seq<char>, i: int)
    requires
        s.len() <= usize::MAX,
        0 <= i <= s.len() + 1,
    ensures
        forall|k: int| 0 <= k < scan_at(s, i).2.len()
            ==> span_ends_at_line_end(s, #[trigger] scan_at(s, i).2[k]),
        match scan_at(s, i).1 {
            CommentState::NotInComment => true,
            CommentState::MaybeInComment(f) => (scan_at(s, i).0 == ParseState::ShebangOrComment
                || scan_at(s, i).0 == ParseState::Comment)
                && forall|p: int| f < p < i && p < s.len() ==> (#[trigger] s[p]) != '\n',
            CommentState::InComment(f) => scan_at(s, i).0 == ParseState::Comment
                && forall|p: int| f < p < i && p < s.len() ==> (#[trigger] s[p]) != '\n',
        },
    decreases i,
{
    if i > 0 {
        lemma_scan_at_line_ends(s, i - 1);
        lemma_scan_at_accounting(s, i - 1);
        let prev = scan_at(s, i - 1);
        let cur = scan_at(s, i);
        assert forall|k: int| 0 <= k < cur.2.len() implies
            span_ends_at_line_end(s, #[trigger] cur.2[k]) by {
            if k < prev.2.len() {
                assert(cur.2[k] == prev.2[k]);
            }
        }
    }
}

/// Every span of a shell scan covers one comment in full: from its `#` up to
/// the first newline after it, or up to end of input when none follows.
pub proof fn lemma_spans_end_at_line_end(s: Seq<char>)
    requires
        s.len() <= usize::MAX,
    ensures
        forall|k: int| 0 <= k < spec_find_comments(s).len()
            ==> span_ends_at_line_end(s, #[trigger] spec_find_comments(s)[k]),
{
    lemma_scan_at_line_ends(s, s.len() as int + 1);
}

} // verus!


