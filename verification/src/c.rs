//! The C-dialect scanner: finds `//` line comments and `/* ... */` block
//! comments, scanning through single- and double-quoted strings with
//! backslash escapes.  A lone `/` is a tentative comment start that is
//! retracted when the next character opens neither comment form.

use vstd::prelude::*;
use crate::CommentMatch;
use crate::CommentState;
use crate::remove::spans_disjoint;
use crate::remove::spans_in_range;
use crate::remove::spans_sorted;
use crate::remove::spans_well_formed;

verus! {

/// The automaton state of the C scanner between two characters.
#[derive(Debug, Clone, Copy, PartialEq, Eq, Structural)]
pub enum ParseState {
    Normal,
    SlashSeen,
    LineComment,
    BlockComment,
    BlockCommentStarSeen,
    StringDoubleQuotes,
    StringDoubleQuotesEscaped,
    StringSingleQuotes,
    StringSingleQuotesEscaped,
    End,
}

/// What the consumed character means for the span being tracked.
#[derive(Debug, Clone, Copy, PartialEq, Eq, Structural)]
pub enum ParseAction {
    Nothing,
    /// A `/` that may open a comment: remember its position tentatively.
    TentativeCommentStart,
    /// The second delimiter character arrived: the tentative start is real.
    CommentConfirmed,
    /// The character after a lone `/` opened no comment: forget the start.
    TentativeAbandoned,
    /// The comment ends before the current character (end of a line comment).
    CommentEnds,
    /// The comment ends with the current character (the `/` of `*/`).
    CommentEndsInclusive,
}

/// The transition function of the C automaton.
pub open spec fn spec_state_transition(
    from: ParseState,
    current_char: Option<char>,
) -> (ParseState, ParseAction) {
    match current_char {
        Some(c) => match from {
            ParseState::Normal => if c == '/' {
                (ParseState::SlashSeen, ParseAction::TentativeCommentStart)
            } else if c == '"' {
                (ParseState::StringDoubleQuotes, ParseAction::Nothing)
            } else if c == '\'' {
                (ParseState::StringSingleQuotes, ParseAction::Nothing)
            } else {
                (ParseState::Normal, ParseAction::Nothing)
            },
            ParseState::SlashSeen => if c == '/' {
                (ParseState::LineComment, ParseAction::CommentConfirmed)
            } else if c == '*' {
                (ParseState::BlockComment, ParseAction::CommentConfirmed)
            } else if c == '"' {
                (ParseState::StringDoubleQuotes, ParseAction::TentativeAbandoned)
            } else if c == '\'' {
                (ParseState::StringSingleQuotes, ParseAction::TentativeAbandoned)
            } else {
                (ParseState::Normal, ParseAction::TentativeAbandoned)
            },
            ParseState::LineComment => if c == '\n' {
                (ParseState::Normal, ParseAction::CommentEnds)
            } else {
                (ParseState::LineComment, ParseAction::Nothing)
            },
            ParseState::BlockComment => if c == '*' {
                (ParseState::BlockCommentStarSeen, ParseAction::Nothing)
            } else {
                (ParseState::BlockComment, ParseAction::Nothing)
            },
            ParseState::BlockCommentStarSeen => if c == '/' {
                (ParseState::Normal, ParseAction::CommentEndsInclusive)
            } else if c == '*' {
                (ParseState::BlockCommentStarSeen, ParseAction::Nothing)
            } else {
                (ParseState::BlockComment, ParseAction::Nothing)
            },
            ParseState::StringDoubleQuotes => if c == '"' {
                (ParseState::Normal, ParseAction::Nothing)
            } else if c == '\\' {
                (ParseState::StringDoubleQuotesEscaped, ParseAction::Nothing)
            } else {
                (ParseState::StringDoubleQuotes, ParseAction::Nothing)
            },
            ParseState::StringDoubleQuotesEscaped => (
                ParseState::StringDoubleQuotes,
                ParseAction::Nothing,
            ),
            ParseState::StringSingleQuotes => if c == '\'' {
                (ParseState::Normal, ParseAction::Nothing)
            } else if c == '\\' {
                (ParseState::StringSingleQuotesEscaped, ParseAction::Nothing)
            } else {
                (ParseState::StringSingleQuotes, ParseAction::Nothing)
            },
            ParseState::StringSingleQuotesEscaped => (
                ParseState::StringSingleQuotes,
                ParseAction::Nothing,
            ),
            ParseState::End => (ParseState::End, ParseAction::Nothing),
        },
        None => match from {
            ParseState::LineComment => (ParseState::End, ParseAction::CommentEnds),
            ParseState::BlockComment => (ParseState::End, ParseAction::CommentEnds),
            ParseState::BlockCommentStarSeen => (ParseState::End, ParseAction::CommentEnds),
            ParseState::SlashSeen => (ParseState::End, ParseAction::TentativeAbandoned),
            _ => (ParseState::End, ParseAction::Nothing),
        },
    }
}

/// Computes one automaton step.
pub fn state_transition(
    from: ParseState,
    current_char: Option<char>,
) -> (r: (ParseState, ParseAction))
    ensures
        r == spec_state_transition(from, current_char),
{
    match current_char {
        Some(c) => match from {
            ParseState::Normal => match c {
                '/' => (ParseState::SlashSeen, ParseAction::TentativeCommentStart),
                '"' => (ParseState::StringDoubleQuotes, ParseAction::Nothing),
                '\'' => (ParseState::StringSingleQuotes, ParseAction::Nothing),
                _ => (ParseState::Normal, ParseAction::Nothing),
            },
            ParseState::SlashSeen => match c {
                '/' => (ParseState::LineComment, ParseAction::CommentConfirmed),
                '*' => (ParseState::BlockComment, ParseAction::CommentConfirmed),
                '"' => (ParseState::StringDoubleQuotes, ParseAction::TentativeAbandoned),
                '\'' => (ParseState::StringSingleQuotes, ParseAction::TentativeAbandoned),
                _ => (ParseState::Normal, ParseAction::TentativeAbandoned),
            },
            ParseState::LineComment => match c {
                '\n' => (ParseState::Normal, ParseAction::CommentEnds),
                _ => (ParseState::LineComment, ParseAction::Nothing),
            },
            ParseState::BlockComment => match c {
                '*' => (ParseState::BlockCommentStarSeen, ParseAction::Nothing),
                _ => (ParseState::BlockComment, ParseAction::Nothing),
            },
            ParseState::BlockCommentStarSeen => match c {
                '/' => (ParseState::Normal, ParseAction::CommentEndsInclusive),
                '*' => (ParseState::BlockCommentStarSeen, ParseAction::Nothing),
                _ => (ParseState::BlockComment, ParseAction::Nothing),
            },
            ParseState::StringDoubleQuotes => match c {
                '"' => (ParseState::Normal, ParseAction::Nothing),
                '\\' => (ParseState::StringDoubleQuotesEscaped, ParseAction::Nothing),
                _ => (ParseState::StringDoubleQuotes, ParseAction::Nothing),
            },
            ParseState::StringDoubleQuotesEscaped => (
                ParseState::StringDoubleQuotes,
                ParseAction::Nothing,
            ),
            ParseState::StringSingleQuotes => match c {
                '\'' => (ParseState::Normal, ParseAction::Nothing),
                '\\' => (ParseState::StringSingleQuotesEscaped, ParseAction::Nothing),
                _ => (ParseState::StringSingleQuotes, ParseAction::Nothing),
            },
            ParseState::StringSingleQuotesEscaped => (
                ParseState::StringSingleQuotes,
                ParseAction::Nothing,
            ),
            ParseState::End => (ParseState::End, ParseAction::Nothing),
        },
        None => match from {
            ParseState::LineComment => (ParseState::End, ParseAction::CommentEnds),
            ParseState::BlockComment => (ParseState::End, ParseAction::CommentEnds),
            ParseState::BlockCommentStarSeen => (ParseState::End, ParseAction::CommentEnds),
            ParseState::SlashSeen => (ParseState::End, ParseAction::TentativeAbandoned),
            _ => (ParseState::End, ParseAction::Nothing),
        },
    }
}

/// Applies an action to the tracked span and the spans found so far; `pos`
/// is the position of the character that caused the action.
pub open spec fn spec_apply_action(
    cs: CommentState,
    ms: Seq<CommentMatch>,
    action: ParseAction,
    pos: usize,
) -> (CommentState, Seq<CommentMatch>) {
    match action {
        ParseAction::Nothing => (cs, ms),
        ParseAction::TentativeCommentStart => (CommentState::MaybeInComment(pos), ms),
        ParseAction::CommentConfirmed => match cs {
            CommentState::MaybeInComment(from) => (CommentState::InComment(from), ms),
            _ => (cs, ms),
        },
        ParseAction::TentativeAbandoned => (CommentState::NotInComment, ms),
        ParseAction::CommentEnds => match cs {
            CommentState::NotInComment => (cs, ms),
            CommentState::MaybeInComment(from) => (
                CommentState::NotInComment,
                ms.push(CommentMatch { from, to: pos }),
            ),
            CommentState::InComment(from) => (
                CommentState::NotInComment,
                ms.push(CommentMatch { from, to: pos }),
            ),
        },
        ParseAction::CommentEndsInclusive => match cs {
            CommentState::NotInComment => (cs, ms),
            CommentState::MaybeInComment(from) => (
                CommentState::NotInComment,
                ms.push(CommentMatch { from, to: (pos + 1) as usize }),
            ),
            CommentState::InComment(from) => (
                CommentState::NotInComment,
                ms.push(CommentMatch { from, to: (pos + 1) as usize }),
            ),
        },
    }
}

/// The scanner's whole configuration after `i` steps: steps `1` to `s.len()`
/// consume the characters in order, step `s.len() + 1` consumes end of input.
pub open spec fn scan_at(s: Seq<char>, i: int) -> (ParseState, CommentState, Seq<CommentMatch>)
    decreases i,
{
    if i <= 0 {
        (ParseState::Normal, CommentState::NotInComment, Seq::empty())
    } else {
        let prev = scan_at(s, i - 1);
        let c = if i - 1 < s.len() {
            Some(s[i - 1])
        } else {
            None
        };
        let stepped = spec_state_transition(prev.0, c);
        let applied = spec_apply_action(prev.1, prev.2, stepped.1, (i - 1) as usize);
        (stepped.0, applied.0, applied.1)
    }
}

/// The comment spans of `s` under the C dialect.
pub open spec fn spec_find_comments(s: Seq<char>) -> Seq<CommentMatch> {
    scan_at(s, s.len() as int + 1).2
}

/// Whenever the automaton state says "inside a comment", a start position is
/// being tracked, so a comment-end action always finds one.
pub open spec fn tracking_ok(st: ParseState, cs: CommentState) -> bool {
    &&& st == ParseState::LineComment ==> cs is InComment
    &&& st == ParseState::BlockComment ==> cs is InComment
    &&& st == ParseState::BlockCommentStarSeen ==> cs is InComment
    &&& st == ParseState::SlashSeen ==> cs is MaybeInComment
}

proof fn lemma_scan_at_tracking(s: Seq<char>, i: int)
    ensures
        tracking_ok(scan_at(s, i).0, scan_at(s, i).1),
    decreases i,
{
    if i > 0 {
        lemma_scan_at_tracking(s, i - 1);
    }
}

/// The bookkeeping facts that every prefix of a scan maintains: spans found
/// so far are well formed, end by the position reached and within the input,
/// and come in order without sharing positions; a tracked start lies at or
/// after the end of all of them.
pub open spec fn scan_accounting(
    s: Seq<char>,
    cs: CommentState,
    ms: Seq<CommentMatch>,
    i: int,
) -> bool {
    &&& forall|k: int| 0 <= k < ms.len()
        ==> (#[trigger] ms[k]).from <= ms[k].to && ms[k].to <= i && ms[k].to <= s.len()
    &&& forall|k1: int, k2: int|
        0 <= k1 < k2 < ms.len() ==> ms[k1].to <= ms[k2].from
    &&& match cs {
        CommentState::NotInComment => true,
        CommentState::MaybeInComment(f) => f < i && f < s.len()
            && forall|k: int| 0 <= k < ms.len() ==> (#[trigger] ms[k]).to <= f,
        CommentState::InComment(f) => f < i && f < s.len()
            && forall|k: int| 0 <= k < ms.len() ==> (#[trigger] ms[k]).to <= f,
    }
}

proof fn lemma_scan_at_accounting(s: Seq<char>, i: int)
    requires
        s.len() <= usize::MAX,
        0 <= i <= s.len() + 1,
    ensures
        scan_accounting(s, scan_at(s, i).1, scan_at(s, i).2, i),
    decreases i,
{
    if i > 0 {
        lemma_scan_at_accounting(s, i - 1);
    }
}

/// The spans a C scan emits are well formed, lie within the input, are
/// sorted by start position, and no two of them overlap.
pub proof fn lemma_find_comments_spans_ok(s: Seq<char>)
    requires
        s.len() <= usize::MAX,
    ensures
        spans_well_formed(spec_find_comments(s)),
        spans_in_range(spec_find_comments(s), s.len()),
        spans_sorted(spec_find_comments(s)),
        spans_disjoint(spec_find_comments(s)),
{
    lemma_scan_at_accounting(s, s.len() as int + 1);
    let ms = spec_find_comments(s);
    assert forall|i: int, j: int| 0 <= i < j < ms.len() implies
        crate::remove::span_le(ms[i], ms[j]) && !crate::remove::spans_overlap(ms[i], ms[j]) by {
        assert(ms[i].to <= ms[j].from);
    }
}

/// Finds the C comments of `input` as spans of character positions; the span
/// of a block comment includes its closing `*/`, a comment still open at end
/// of input is closed there.
///
/// The scan makes one pass, cannot fail on any input, and returns exactly
/// the spans of the specification automaton; the error branch only guards
/// against an inconsistent automaton state, which cannot arise.
pub fn find_comments(input: &str) -> (r: Result<Vec<CommentMatch>, &'static str>)
    ensures
        r matches Ok(found) && found@ == spec_find_comments(input@),
        input@.len() <= usize::MAX,
{
    let len = input.unicode_len();
    let mut matches: Vec<CommentMatch> = Vec::new();
    let mut current_state = ParseState::Normal;
    let mut comment_state = CommentState::NotInComment;
    let mut position: usize = 0;
    while position < len
        invariant
            position <= len,
            len == input@.len(),
            current_state == scan_at(input@, position as int).0,
            comment_state == scan_at(input@, position as int).1,
            matches@ == scan_at(input@, position as int).2,
        decreases len - position,
    {
        let current_char = input.get_char(position);
        let (next_state, action) = state_transition(current_state, Some(current_char));
        match action {
            ParseAction::Nothing => {},
            ParseAction::TentativeCommentStart => {
                comment_state = CommentState::MaybeInComment(position);
            },
            ParseAction::CommentConfirmed => {
                match comment_state {
                    CommentState::MaybeInComment(from) => {
                        comment_state = CommentState::InComment(from);
                    },
                    _ => {
                        proof {
                            lemma_scan_at_tracking(input@, position as int);
                        }
                        return Err("c style parse error");
                    },
                }
            },
            ParseAction::TentativeAbandoned => {
                comment_state = CommentState::NotInComment;
            },
            ParseAction::CommentEnds => {
                match comment_state {
                    CommentState::NotInComment => {
                        proof {
                            lemma_scan_at_tracking(input@, position as int);
                        }
                        return Err("c style parse error");
                    },
                    CommentState::MaybeInComment(from) => {
                        matches.push(CommentMatch { from, to: position });
                        comment_state = CommentState::NotInComment;
                    },
                    CommentState::InComment(from) => {
                        matches.push(CommentMatch { from, to: position });
                        comment_state = CommentState::NotInComment;
                    },
                }
            },
            ParseAction::CommentEndsInclusive => {
                match comment_state {
                    CommentState::NotInComment => {
                        proof {
                            lemma_scan_at_tracking(input@, position as int);
                        }
                        return Err("c style parse error");
                    },
                    CommentState::MaybeInComment(from) => {
                        matches.push(CommentMatch { from, to: position + 1 });
                        comment_state = CommentState::NotInComment;
                    },
                    CommentState::InComment(from) => {
                        matches.push(CommentMatch { from, to: position + 1 });
                        comment_state = CommentState::NotInComment;
                    },
                }
            },
        }
        current_state = next_state;
        position += 1;
    }
    let (_final_state, action) = state_transition(current_state, None);
    match action {
        ParseAction::Nothing => {},
        ParseAction::TentativeCommentStart => {},
        ParseAction::CommentConfirmed => {},
        ParseAction::TentativeAbandoned => {
            comment_state = CommentState::NotInComment;
        },
        ParseAction::CommentEnds => {
            match comment_state {
                CommentState::NotInComment => {
                    proof {
                        lemma_scan_at_tracking(input@, position as int);
                    }
                    return Err("c style parse error");
                },
                CommentState::MaybeInComment(from) => {
                    matches.push(CommentMatch { from, to: position });
                },
                CommentState::InComment(from) => {
                    matches.push(CommentMatch { from, to: position });
                },
            }
        },
        ParseAction::CommentEndsInclusive => {},
    }
    Ok(matches)
}


proof fn lemma_no_delimiter_scan(s: Seq<char>, i: int)
    requires
        forall|p: int| 0 <= p < s.len() - 1
            ==> !((#[trigger] s[p]) == '/' && (s[p + 1] == '/' || s[p + 1] == '*')),
        0 <= i <= s.len() + 1,
    ensures
        scan_at(s, i).2.len() == 0,
        scan_at(s, i).0 != ParseState::LineComment,
        scan_at(s, i).0 != ParseState::BlockComment,
        scan_at(s, i).0 != ParseState::BlockCommentStarSeen,
        scan_at(s, i).0 == ParseState::SlashSeen
            ==> 1 <= i && i - 1 < s.len() && s[i - 1] == '/',
        scan_at(s, i).1 is NotInComment
            || (scan_at(s, i).0 == ParseState::SlashSeen
                && scan_at(s, i).1 is MaybeInComment),
    decreases i,
{
    if i > 0 {
        lemma_no_delimiter_scan(s, i - 1);
        let prev = scan_at(s, i - 1);
        if prev.0 == ParseState::SlashSeen && i - 1 < s.len() {
            assert(!(s[i - 2] == '/' && (s[i - 1] == '/' || s[i - 1] == '*')));
        }
    }
}

/// An input without the `//` and `/*` delimiters yields no comment spans;
/// a lone `/` opens nothing.
pub proof fn lemma_no_delimiter_no_comments(s: Seq<char>)
    requires
        forall|p: int| 0 <= p < s.len() - 1
            ==> !((#[trigger] s[p]) == '/' && (s[p + 1] == '/' || s[p + 1] == '*')),
    ensures
        spec_find_comments(s).len() == 0,
{
    lemma_no_delimiter_scan(s, s.len() as int + 1);
}


/// A span start is sound: it sits on the `/` that opened the comment, seen
/// in state `Normal`, outside every string literal.  No comment span ever
/// begins inside a string region.
pub open spec fn sound_span_start(s: Seq<char>, p: usize) -> bool {
    &&& p < s.len()
    &&& s[p as int] == '/'
    &&& scan_at(s, p as int).0 == ParseState::Normal
}

proof fn lemma_scan_at_sound_starts(s: Seq<char>, i: int)
    requires
        s.len() <= usize::MAX,
        0 <= i <= s.len() + 1,
    ensures
        forall|k: int| 0 <= k < scan_at(s, i).2.len()
            ==> sound_span_start(s, (#[trigger] scan_at(s, i).2[k]).from),
        match scan_at(s, i).1 {
            CommentState::NotInComment => true,
            CommentState::MaybeInComment(f) => sound_span_start(s, f),
            CommentState::InComment(f) => sound_span_start(s, f),
        },
    decreases i,
{
    if i > 0 {
        lemma_scan_at_sound_starts(s, i - 1);
        let prev = scan_at(s, i - 1);
        let cur = scan_at(s, i);
        assert forall|k: int| 0 <= k < cur.2.len() implies
            sound_span_start(s, (#[trigger] cur.2[k]).from) by {
            if k < prev.2.len() {
                assert(cur.2[k] == prev.2[k]);
            }
        }
    }
}

/// Every span of a C scan starts on the `/` that opened it, seen outside
/// every string literal: in automaton terms, in state `Normal`.
pub proof fn lemma_spans_start_outside_strings(s: Seq<char>)
    requires
        s.len() <= usize::MAX,
    ensures
        forall|k: int| 0 <= k < spec_find_comments(s).len()
            ==> sound_span_start(s, (#[trigger] spec_find_comments(s)[k]).from),
{
    lemma_scan_at_sound_starts(s, s.len() as int + 1);
}

} // verus!


