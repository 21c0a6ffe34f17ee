//! The span remover: validates a collection of spans against a text buffer
//! and against each other, then deletes the spanned characters.

use vstd::prelude::*;
use vstd::seq_lib::group_to_multiset_ensures;
use crate::CommentMatch;
use crate::RemovalError;

verus! {

/// One span comes no later than another: its start is earlier, or on a tied
/// start its end is no later.
pub open spec fn span_le(a: CommentMatch, b: CommentMatch) -> bool {
    a.from < b.from || (a.from == b.from && a.to <= b.to)
}

/// Two spans overlap when some character position lies inside both.
pub open spec fn spans_overlap(a: CommentMatch, b: CommentMatch) -> bool {
    a.from < b.to && b.from < a.to
}

/// Every span is a well-formed interval, with its start no later than its end.
pub open spec fn spans_well_formed(spans: Seq<CommentMatch>) -> bool {
    forall|k: int| 0 <= k < spans.len() ==> spans[k].from <= spans[k].to
}

/// Every span ends at or before position `len`.
pub open spec fn spans_in_range(spans: Seq<CommentMatch>, len: nat) -> bool {
    forall|k: int| 0 <= k < spans.len() ==> spans[k].to <= len
}

/// No two spans of the sequence overlap.
pub open spec fn spans_disjoint(spans: Seq<CommentMatch>) -> bool {
    forall|i: int, j: int|
        0 <= i < j < spans.len() ==> !spans_overlap(spans[i], spans[j])
}

/// The sequence is sorted by start position, ties broken by end position.
pub open spec fn spans_sorted(spans: Seq<CommentMatch>) -> bool {
    forall|i: int, j: int| 0 <= i < j < spans.len() ==> span_le(spans[i], spans[j])
}

/// Some span of `spans` covers the character position `i`.
pub open spec fn covered(spans: Seq<CommentMatch>, i: int) -> bool {
    exists|k: int| 0 <= k < spans.len() && (#[trigger] spans[k]).from <= i < spans[k].to
}

/// The characters of `text` from position `i` on that no span of `spans`
/// covers, in their original relative order.
pub open spec fn sieve(text: Seq<char>, spans: Seq<CommentMatch>, i: int) -> Seq<char>
    decreases text.len() - i,
{
    if i < 0 || i >= text.len() {
        Seq::empty()
    } else if covered(spans, i) {
        sieve(text, spans, i + 1)
    } else {
        seq![text[i]] + sieve(text, spans, i + 1)
    }
}

/// The characters of `text` kept from position `i` on when the spans of a
/// sorted sequence are cut out one after the other.
pub open spec fn kept_from(text: Seq<char>, spans: Seq<CommentMatch>, i: int) -> Seq<char>
    decreases spans.len(),
{
    if spans.len() == 0 {
        text.subrange(i, text.len() as int)
    } else {
        text.subrange(i, spans[0].from as int)
            + kept_from(text, spans.drop_first(), spans[0].to as int)
    }
}

/// When no position in `[i, j)` is covered, the sieve keeps that whole slice.
proof fn lemma_sieve_uncovered_slice(
    text: Seq<char>,
    spans: Seq<CommentMatch>,
    i: int,
    j: int,
)
    requires
        0 <= i <= j <= text.len(),
        forall|p: int| i <= p < j ==> !covered(spans, p),
    ensures
        sieve(text, spans, i) == text.subrange(i, j) + sieve(text, spans, j),
    decreases j - i,
{
    if i == j {
        assert(text.subrange(i, j) + sieve(text, spans, j) =~= sieve(text, spans, i));
    } else {
        assert(!covered(spans, i));
        lemma_sieve_uncovered_slice(text, spans, i + 1, j);
        assert(seq![text[i]] + (text.subrange(i + 1, j) + sieve(text, spans, j))
            =~= text.subrange(i, j) + sieve(text, spans, j));
    }
}

/// When every position in `[i, j)` is covered, the sieve skips the slice.
proof fn lemma_sieve_covered_slice(
    text: Seq<char>,
    spans: Seq<CommentMatch>,
    i: int,
    j: int,
)
    requires
        0 <= i <= j <= text.len(),
        forall|p: int| i <= p < j ==> covered(spans, p),
    ensures
        sieve(text, spans, i) == sieve(text, spans, j),
    decreases j - i,
{
    if i < j {
        assert(covered(spans, i));
        lemma_sieve_covered_slice(text, spans, i + 1, j);
    }
}

/// A span that covers nothing at or after position `i` can be dropped from
/// the front of the sequence without changing the sieve from `i` on.
proof fn lemma_sieve_drop_first(text: Seq<char>, spans: Seq<CommentMatch>, i: int)
    requires
        spans.len() > 0,
        0 <= i,
        spans[0].to <= i,
    ensures
        sieve(text, spans, i) == sieve(text, spans.drop_first(), i),
    decreases text.len() - i,
{
    if i < text.len() {
        let tail = spans.drop_first();
        assert(covered(spans, i) ==> covered(tail, i)) by {
            if covered(spans, i) {
                let k = choose|k: int|
                    0 <= k < spans.len() && (#[trigger] spans[k]).from <= i < spans[k].to;
                assert(k != 0);
                assert(tail[k - 1] == spans[k]);
            }
        }
        assert(covered(tail, i) ==> covered(spans, i)) by {
            if covered(tail, i) {
                let k = choose|k: int| 0 <= k < tail.len() && (#[trigger] tail[k]).from <= i < tail[k].to;
                assert(spans[k + 1] == tail[k]);
            }
        }
        lemma_sieve_drop_first(text, spans, i + 1);
    }
}

/// For a sorted, pairwise disjoint, well-formed, in-range span sequence whose
/// first span starts at or after `i`, cutting the spans out one after the
/// other keeps exactly the uncovered characters.
proof fn lemma_kept_from_eq_sieve(text: Seq<char>, spans: Seq<CommentMatch>, i: int)
    requires
        spans_sorted(spans),
        spans_disjoint(spans),
        spans_well_formed(spans),
        spans_in_range(spans, text.len()),
        0 <= i <= text.len(),
        spans.len() > 0 ==> i <= spans[0].from,
    ensures
        kept_from(text, spans, i) == sieve(text, spans, i),
    decreases spans.len(),
{
    if spans.len() == 0 {
        assert(forall|p: int| i <= p < text.len() ==> !covered(spans, p));
        lemma_sieve_uncovered_slice(text, spans, i, text.len() as int);
        assert(text.subrange(i, text.len() as int) + sieve(text, spans, text.len() as int)
            =~= text.subrange(i, text.len() as int));
    } else {
        let from0 = spans[0].from as int;
        let to0 = spans[0].to as int;
        let tail = spans.drop_first();
        assert forall|p: int| i <= p < from0 implies !covered(spans, p) by {
            if covered(spans, p) {
                let k = choose|k: int|
                    0 <= k < spans.len() && (#[trigger] spans[k]).from <= p < spans[k].to;
                if k > 0 {
                    assert(span_le(spans[0], spans[k]));
                }
                assert(false);
            }
        }
        lemma_sieve_uncovered_slice(text, spans, i, from0);
        assert(forall|p: int| from0 <= p < to0 ==> covered(spans, p));
        lemma_sieve_covered_slice(text, spans, from0, to0);
        lemma_sieve_drop_first(text, spans, to0);
        if tail.len() > 0 {
            assert(span_le(spans[0], spans[1]));
            assert(!spans_overlap(spans[0], spans[1]));
            assert(tail[0] == spans[1]);
            assert(to0 <= tail[0].from);
        }
        assert(spans_sorted(tail)) by {
            assert forall|a: int, b: int| 0 <= a < b < tail.len() implies
                span_le(tail[a], tail[b]) by {
                assert(tail[a] == spans[a + 1]);
                assert(tail[b] == spans[b + 1]);
            }
        }
        assert(spans_disjoint(tail)) by {
            assert forall|a: int, b: int| 0 <= a < b < tail.len() implies
                !spans_overlap(tail[a], tail[b]) by {
                assert(tail[a] == spans[a + 1]);
                assert(tail[b] == spans[b + 1]);
            }
        }
        assert(spans_well_formed(tail) && spans_in_range(tail, text.len())) by {
            assert(forall|k: int| 0 <= k < tail.len() ==> tail[k] == spans[k + 1]);
        }
        lemma_kept_from_eq_sieve(text, tail, to0);
        assert(kept_from(text, spans, i)
            == text.subrange(i, from0) + kept_from(text, tail, to0));
        assert(sieve(text, spans, i) == text.subrange(i, from0) + sieve(text, spans, from0));
    }
}

/// Sequences holding the same spans (as a multiset) cover the same positions,
/// so the sieve does not depend on the order the spans are listed in.
proof fn lemma_sieve_permutation(
    text: Seq<char>,
    a: Seq<CommentMatch>,
    b: Seq<CommentMatch>,
    i: int,
)
    requires
        a.to_multiset() == b.to_multiset(),
    ensures
        sieve(text, a, i) == sieve(text, b, i),
    decreases text.len() - i,
{
    broadcast use group_to_multiset_ensures;

    if 0 <= i < text.len() {
        assert(covered(a, i) ==> covered(b, i)) by {
            if covered(a, i) {
                let k = choose|k: int| 0 <= k < a.len() && (#[trigger] a[k]).from <= i < a[k].to;
                assert(a.contains(a[k]));
                assert(a.to_multiset().count(a[k]) > 0);
                assert(b.to_multiset().count(a[k]) > 0);
                assert(b.contains(a[k]));
                let m = choose|m: int| 0 <= m < b.len() && b[m] == a[k];
                assert(b[m].from <= i < b[m].to);
            }
        }
        assert(covered(b, i) ==> covered(a, i)) by {
            if covered(b, i) {
                let k = choose|k: int| 0 <= k < b.len() && (#[trigger] b[k]).from <= i < b[k].to;
                assert(b.contains(b[k]));
                assert(b.to_multiset().count(b[k]) > 0);
                assert(a.to_multiset().count(b[k]) > 0);
                assert(a.contains(b[k]));
                let m = choose|m: int| 0 <= m < a.len() && a[m] == b[k];
                assert(a[m].from <= i < a[m].to);
            }
        }
        lemma_sieve_permutation(text, a, b, i + 1);
    }
}

/// Well-formedness and range bounds carry over to any reordering.
proof fn lemma_span_bounds_permutation(a: Seq<CommentMatch>, b: Seq<CommentMatch>, len: nat)
    requires
        a.to_multiset() == b.to_multiset(),
        spans_well_formed(a),
        spans_in_range(a, len),
    ensures
        spans_well_formed(b),
        spans_in_range(b, len),
{
    broadcast use group_to_multiset_ensures;

    assert forall|k: int| 0 <= k < b.len() implies b[k].from <= b[k].to && b[k].to <= len by {
        assert(b.contains(b[k]));
        assert(b.to_multiset().count(b[k]) > 0);
        assert(a.to_multiset().count(b[k]) > 0);
        assert(a.contains(b[k]));
        let m = choose|m: int| 0 <= m < a.len() && a[m] == b[k];
    }
}

/// A value sitting at two distinct positions of a sequence counts at least
/// twice in its multiset.
proof fn lemma_two_indices_count(s: Seq<CommentMatch>, p: int, q: int)
    requires
        0 <= p < q < s.len(),
        s[p] == s[q],
    ensures
        s.to_multiset().count(s[p]) >= 2,
{
    broadcast use group_to_multiset_ensures;
    broadcast use vstd::multiset::group_multiset_axioms;

    let x = s[p];
    assert(s.remove(p).to_multiset() =~= s.to_multiset().remove(x));
    assert(s.remove(p)[q - 1] == x);
    assert(s.remove(p).contains(x));
    assert(s.remove(p).to_multiset().count(x) > 0);
}

/// A value counted at least twice sits at two distinct positions.
proof fn lemma_count_two_indices(s: Seq<CommentMatch>, x: CommentMatch) -> (r: (int, int))
    requires
        s.to_multiset().count(x) >= 2,
    ensures
        0 <= r.0 < r.1 < s.len(),
        s[r.0] == x,
        s[r.1] == x,
{
    broadcast use group_to_multiset_ensures;
    broadcast use vstd::multiset::group_multiset_axioms;

    assert(s.contains(x));
    let p = choose|p: int| 0 <= p < s.len() && s[p] == x;
    assert(s.remove(p).to_multiset() =~= s.to_multiset().remove(x));
    assert(s.remove(p).to_multiset().count(x) >= 1);
    assert(s.remove(p).contains(x));
    let q0 = choose|q: int| 0 <= q < s.remove(p).len() && s.remove(p)[q] == x;
    let q = if q0 < p { q0 } else { q0 + 1 };
    assert(s[q] == x);
    if q < p {
        (q, p)
    } else {
        (p, q)
    }
}

/// Pairwise disjointness carries over to any reordering of the spans.
proof fn lemma_disjoint_permutation(a: Seq<CommentMatch>, b: Seq<CommentMatch>)
    requires
        a.to_multiset() == b.to_multiset(),
        spans_disjoint(a),
    ensures
        spans_disjoint(b),
{
    broadcast use group_to_multiset_ensures;

    assert forall|p: int, q: int| 0 <= p < q < b.len() implies
        !spans_overlap(b[p], b[q]) by {
        let x = b[p];
        let y = b[q];
        if x == y {
            lemma_two_indices_count(b, p, q);
            let (i, j) = lemma_count_two_indices(a, x);
            assert(!spans_overlap(a[i], a[j]));
        } else {
            assert(b.contains(x)) by {
                assert(0 <= p < b.len() && b[p] == x);
            }
            assert(b.contains(y)) by {
                assert(0 <= q < b.len() && b[q] == y);
            }
            assert(b.to_multiset().count(x) > 0 && b.to_multiset().count(y) > 0);
            assert(a.to_multiset().count(x) > 0 && a.to_multiset().count(y) > 0);
            assert(a.contains(x) && a.contains(y));
            let i = choose|i: int| 0 <= i < a.len() && a[i] == x;
            let j = choose|j: int| 0 <= j < a.len() && a[j] == y;
            if i < j {
                assert(!spans_overlap(a[i], a[j]));
            } else {
                assert(!spans_overlap(a[j], a[i]));
            }
        }
    }
}

/// Sorts spans by start position, ties broken by end position.
fn sort_spans(spans: Vec<CommentMatch>) -> (r: Vec<CommentMatch>)
    ensures
        spans_sorted(r@),
        r@.to_multiset() == spans@.to_multiset(),
{
    broadcast use group_to_multiset_ensures;
    broadcast use vstd::multiset::group_multiset_axioms;

    let mut rest = spans;
    let ghost orig = rest@;
    let mut out: Vec<CommentMatch> = Vec::new();
    proof {
        assert(out@.to_multiset().add(rest@.to_multiset()) =~= orig.to_multiset());
    }
    while rest.len() > 0
        invariant
            spans_sorted(out@),
            out@.to_multiset().add(rest@.to_multiset()) == orig.to_multiset(),
            forall|x: int, j: int|
                0 <= x < out@.len() && 0 <= j < rest@.len()
                    ==> span_le(out@[x], rest@[j]),
        decreases rest.len(),
    {
        let mut min_idx: usize = 0;
        let mut m: usize = 1;
        while m < rest.len()
            invariant
                0 <= min_idx < rest.len(),
                1 <= m <= rest.len(),
                forall|t: int| 0 <= t < m ==> span_le(rest@[min_idx as int], rest@[t]),
            decreases rest.len() - m,
        {
            let challenger = rest[m];
            let best = rest[min_idx];
            if challenger.from < best.from
                || (challenger.from == best.from && challenger.to < best.to) {
                min_idx = m;
            }
            m += 1;
        }
        let ghost prerest = rest@;
        let picked = rest.remove(min_idx);
        let ghost pre = out@;
        out.push(picked);
        proof {
            broadcast use group_to_multiset_ensures;
            broadcast use vstd::multiset::group_multiset_axioms;

            prerest.remove_ensures(min_idx as int);
            assert(rest@ == prerest.remove(min_idx as int));
            assert(picked == prerest[min_idx as int]);
            assert(prerest.remove(min_idx as int).to_multiset()
                =~= prerest.to_multiset().remove(picked));
            assert(out@ == pre.push(picked));
            assert(pre.push(picked).to_multiset() =~= pre.to_multiset().insert(picked));
            assert(prerest.contains(picked));
            assert(prerest.to_multiset().count(picked) > 0);
            assert(out@.to_multiset().add(rest@.to_multiset())
                =~= pre.to_multiset().add(prerest.to_multiset()));
            assert forall|x: int, j: int|
                0 <= x < out@.len() && 0 <= j < rest@.len() implies
                span_le(out@[x], rest@[j]) by {
                let rj = rest@[j];
                if j < min_idx {
                    assert(rj == prerest[j]);
                } else {
                    assert(rj == prerest[j + 1]);
                }
                assert(span_le(picked, rj));
                if x < pre.len() {
                    assert(out@[x] == pre[x]);
                    assert(span_le(pre[x], prerest[min_idx as int]));
                } else {
                    assert(out@[x] == picked);
                }
            }
            assert(spans_sorted(out@)) by {
                assert forall|i: int, j: int| 0 <= i < j < out@.len() implies
                    span_le(out@[i], out@[j]) by {
                    if j < pre.len() {
                        assert(out@[i] == pre[i] && out@[j] == pre[j]);
                    } else {
                        assert(out@[i] == pre[i] && out@[j] == picked);
                        assert(span_le(pre[i], prerest[min_idx as int]));
                    }
                }
            }
        }
    }
    proof {
        assert forall|x: CommentMatch| rest@.to_multiset().count(x) == 0 by {
            if rest@.to_multiset().count(x) > 0 {
                assert(rest@.contains(x));
            }
        }
        assert(out@.to_multiset() =~= orig.to_multiset());
    }
    out
}

/// Deletes every given span from `input`: the characters at the spanned
/// positions disappear, every other character stays, in its original order.
///
/// The call succeeds exactly when every span ends within the buffer and no
/// two spans overlap; spans that merely touch (`a.to == b.from`) are
/// accepted.  Nothing of the buffer is altered on a failing call: the input
/// was moved in and is simply dropped.
pub fn remove(input: String, spans: Vec<CommentMatch>) -> (r: Result<String, RemovalError>)
    requires
        spans_well_formed(spans@),
    ensures
        (r matches Err(e) && e == RemovalError::OutOfRange)
            <==> !spans_in_range(spans@, input@.len()),
        (r matches Err(e) && e == RemovalError::Overlapping)
            <==> (spans_in_range(spans@, input@.len()) && !spans_disjoint(spans@)),
        spans_in_range(spans@, input@.len()) && spans_disjoint(spans@)
            ==> (r matches Ok(out) && out@ == sieve(input@, spans@, 0)),
{
    let text = input.as_str();
    let len = text.unicode_len();

    let mut k: usize = 0;
    while k < spans.len()
        invariant
            0 <= k <= spans@.len(),
            len == input@.len(),
            forall|j: int| 0 <= j < k ==> spans@[j].to <= len,
        decreases spans@.len() - k,
    {
        if spans[k].to > len {
            return Err(RemovalError::OutOfRange);
        }
        k += 1;
    }

    let mut i: usize = 0;
    while i < spans.len()
        invariant
            0 <= i <= spans@.len(),
            len == input@.len(),
            spans_in_range(spans@, input@.len()),
            forall|a: int, b: int|
                0 <= a < b < spans@.len() && a < i
                    ==> !spans_overlap(spans@[a], spans@[b]),
        decreases spans@.len() - i,
    {
        let mut j: usize = i + 1;
        while j < spans.len()
            invariant
                0 <= i < spans@.len(),
                i < j <= spans@.len(),
                len == input@.len(),
                spans_in_range(spans@, input@.len()),
                forall|b: int| i < b < j ==> !spans_overlap(spans@[i as int], spans@[b]),
            decreases spans@.len() - j,
        {
            if spans[i].from < spans[j].to && spans[j].from < spans[i].to {
                proof {
                    assert(spans_overlap(spans@[i as int], spans@[j as int]));
                }
                return Err(RemovalError::Overlapping);
            }
            j += 1;
        }
        i += 1;
    }

    let ghost given = spans@;
    let sorted = sort_spans(spans);
    proof {
        lemma_span_bounds_permutation(given, sorted@, input@.len());
        lemma_disjoint_permutation(given, sorted@);
    }

    let mut out = String::new();
    let mut prev: usize = 0;
    let mut k: usize = 0;
    proof {
        assert(sorted@.skip(0) =~= sorted@);
        assert(out@ + kept_from(input@, sorted@, 0) =~= kept_from(input@, sorted@, 0));
    }
    while k < sorted.len()
        invariant
            0 <= k <= sorted@.len(),
            len == input@.len(),
            spans_sorted(sorted@),
            spans_disjoint(sorted@),
            spans_well_formed(sorted@),
            spans_in_range(sorted@, input@.len()),
            text@ == input@,
            prev == if k == 0 { 0 } else { sorted@[k as int - 1].to as int },
            prev <= len,
            out@ + kept_from(input@, sorted@.skip(k as int), prev as int)
                == kept_from(input@, sorted@, 0),
        decreases sorted@.len() - k,
    {
        let next = sorted[k];
        proof {
            if k > 0 {
                assert(span_le(sorted@[k as int - 1], sorted@[k as int]));
                assert(!spans_overlap(sorted@[k as int - 1], sorted@[k as int]));
            }
            assert(prev <= next.from);
            assert(sorted@.skip(k as int)[0] == sorted@[k as int]);
            assert(sorted@.skip(k as int).drop_first() =~= sorted@.skip(k as int + 1));
        }
        let piece = text.substring_char(prev, next.from);
        let ghost pre = out@;
        out.append(piece);
        proof {
            assert(out@ == pre + input@.subrange(prev as int, next.from as int));
            assert(kept_from(input@, sorted@.skip(k as int), prev as int)
                == input@.subrange(prev as int, next.from as int)
                    + kept_from(input@, sorted@.skip(k as int + 1), next.to as int));
            assert((pre + input@.subrange(prev as int, next.from as int))
                + kept_from(input@, sorted@.skip(k as int + 1), next.to as int)
                =~= pre + (input@.subrange(prev as int, next.from as int)
                    + kept_from(input@, sorted@.skip(k as int + 1), next.to as int)));
        }
        prev = next.to;
        k += 1;
    }
    proof {
        assert(sorted@.skip(sorted@.len() as int) =~= Seq::<CommentMatch>::empty());
    }
    let tail = text.substring_char(prev, len);
    let ghost pre = out@;
    out.append(tail);
    proof {
        assert(kept_from(input@, Seq::<CommentMatch>::empty(), prev as int)
            == input@.subrange(prev as int, input@.len() as int));
        assert(out@ =~= pre + input@.subrange(prev as int, input@.len() as int));
        assert(out@ == kept_from(input@, sorted@, 0));
        lemma_kept_from_eq_sieve(input@, sorted@, 0);
        lemma_sieve_permutation(input@, sorted@, given, 0);
    }
    Ok(out)
}

/// Removing an empty set of spans keeps every character: no position is
/// covered, so the sieve is the text itself.
pub proof fn lemma_remove_nothing(text: Seq<char>)
    ensures
        sieve(text, Seq::<CommentMatch>::empty(), 0) == text,
{
    lemma_sieve_uncovered_slice(text, Seq::<CommentMatch>::empty(), 0, text.len() as int);
    assert(text.subrange(0, text.len() as int)
        + sieve(text, Seq::<CommentMatch>::empty(), text.len() as int) =~= text);
}

/// Spans that merely touch, the first ending where the second starts, do not
/// overlap: no character position lies inside both.
pub proof fn lemma_touching_spans_disjoint(a: CommentMatch, b: CommentMatch)
    requires
        a.to == b.from,
    ensures
        !spans_overlap(a, b),
        !spans_overlap(b, a),
{
}

} // verus!
