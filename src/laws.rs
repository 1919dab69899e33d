use vstd::prelude::*;
use crate::range::{Range, spec_from, spec_to, spec_cursor};
use crate::pairs::{spec_pair_of, nth_pair, lift, closest_pair, lemma_nth_pair_bounds, lemma_open_before_bounds};
use crate::lines::line_lo;
use crate::object::{Span, ObjectKind, kind_of, spec_is_quote, answered_outside};
use crate::resolve::{Hunk, resolved, literal_pair};
use crate::driver::{resolved_all, ext_at, outcome_ranges, count_on_line};
use crate::pairs::{open_before, close_after};
use crate::lines::{line_hi, count_char};

verus! {

proof fn lemma_lift_ordered(t: Seq<char>, lo: int, hi: int, p: int, open: char, close: char, n: nat)
    requires
        0 <= lo,
        hi <= t.len() <= usize::MAX,
    ensures
        lift(nth_pair(t, lo, hi, p, open, close, n)) matches Some((o, c)) ==> o <= c < t.len(),
{
    lemma_nth_pair_bounds(t, lo, hi, p, open, close, n);
}

proof fn lemma_found_pairs_ordered(t: Seq<char>, code: char, n: nat, r: Range)
    requires
        t.len() <= usize::MAX,
    ensures
        closest_pair(t, spec_cursor(r), n) matches Some((o, c)) ==> o <= c < t.len(),
        kind_of(code) matches ObjectKind::LiteralPair(ch) ==> (literal_pair(t, ch, n, spec_cursor(r)) matches Some((o, c)) ==> o <= c < t.len()),
{
    let p = spec_cursor(r);
    let hi = t.len() as int;
    lemma_lift_ordered(t, 0, hi, p, '(', ')', n);
    lemma_lift_ordered(t, 0, hi, p, '[', ']', n);
    lemma_lift_ordered(t, 0, hi, p, '{', '}', n);
    lemma_lift_ordered(t, 0, hi, p, '<', '>', n);
    if let ObjectKind::LiteralPair(ch) = kind_of(code) {
        let (open, close) = spec_pair_of(ch);
        lemma_lift_ordered(t, 0, hi, p, open, close, n);
        if spec_is_quote(ch) && 0 <= p <= t.len() {
            lemma_open_before_bounds(t, 0, p, '\n', '\n', 0);
            crate::pairs::lemma_close_after_bounds(t, p, hi, '\n', '\n', 0);
            lemma_lift_ordered(t, line_lo(t, p), crate::lines::line_hi(t, p), p, open, close, n);
        }
    }
}

/// For every object the library resolves itself (surrounding pairs, the
/// closest pair, diff hunks, and codes it ignores), the `Inside` range lies
/// within the `Around` range for the same code, count and range.
pub proof fn lemma_inside_within_around(
    t: Seq<char>,
    code: char,
    n: nat,
    r: Range,
    hunks: Option<Seq<Hunk>>,
)
    requires
        t.len() <= usize::MAX,
        !answered_outside(kind_of(code)),
    ensures
        spec_from(resolved(t, code, Span::Around, n, r, None, hunks)) <= spec_from(resolved(t, code, Span::Inside, n, r, None, hunks)),
        spec_to(resolved(t, code, Span::Inside, n, r, None, hunks)) <= spec_to(resolved(t, code, Span::Around, n, r, None, hunks)),
{
    lemma_found_pairs_ordered(t, code, n, r);
}

/// Resolving a selection gives one range per range, in the same order, and
/// the `i`-th result depends on the `i`-th range alone.
pub proof fn lemma_transform_keeps_ranges(
    t: Seq<char>,
    code: char,
    span: Span,
    n: nat,
    rs: Seq<Range>,
    ext: Seq<Option<Range>>,
    hunks: Option<Seq<Hunk>>,
)
    ensures
        resolved_all(t, code, span, n, rs, ext, hunks).len() == rs.len(),
        forall|i: int| 0 <= i < rs.len() ==> #[trigger] resolved_all(t, code, span, n, rs, ext, hunks)[i]
            == resolved(t, code, span, n, rs[i], ext_at(ext, i), hunks),
{
}

proof fn lemma_open_before_same(t: Seq<char>, lo: int, i: int, ch: char, d: nat)
    requires
        0 <= lo,
        i <= t.len(),
    ensures
        open_before(t, lo, i, ch, ch, d) matches Some(o) ==> lo <= o < i && t[o] == ch,
    decreases i - lo,
{
    if i > lo {
        if t[i - 1] == ch {
            if d > 0 {
                lemma_open_before_same(t, lo, i - 1, ch, (d - 1) as nat);
            }
        } else {
            lemma_open_before_same(t, lo, i - 1, ch, d);
        }
    }
}

proof fn lemma_close_after_same(t: Seq<char>, i: int, hi: int, ch: char, d: nat)
    requires
        0 <= i,
        hi <= t.len(),
    ensures
        close_after(t, i, hi, ch, ch, d) matches Some(c) ==> i <= c < hi && t[c] == ch,
    decreases hi - i,
{
    if i < hi {
        if t[i] == ch {
            if d > 0 {
                lemma_close_after_same(t, i + 1, hi, ch, (d - 1) as nat);
            }
        } else {
            lemma_close_after_same(t, i + 1, hi, ch, d);
        }
    }
}

/// A pair of a character that pairs with itself is two distinct occurrences of it.
proof fn lemma_same_char_pair(t: Seq<char>, lo: int, hi: int, p: int, ch: char, n: nat)
    requires
        0 <= lo,
        hi <= t.len(),
    ensures
        nth_pair(t, lo, hi, p, ch, ch, n) matches Some((o, c)) ==> lo <= o < c < hi && t[o] == ch && t[c] == ch,
    decreases n,
{
    if lo <= p < hi {
        lemma_open_before_same(t, lo, p, ch, 0);
        lemma_close_after_same(t, p, hi, ch, 0);
        lemma_close_after_same(t, p + 1, hi, ch, 0);
    }
    if n > 1 {
        lemma_same_char_pair(t, lo, hi, p, ch, (n - 1) as nat);
        if let Some((o, c)) = nth_pair(t, lo, hi, p, ch, ch, (n - 1) as nat) {
            lemma_open_before_same(t, lo, o, ch, 0);
            lemma_close_after_same(t, c + 1, hi, ch, 0);
        }
    }
}

proof fn lemma_count_one(t: Seq<char>, lo: int, hi: int, a: int, ch: char)
    requires
        0 <= lo <= a < hi <= t.len(),
        t[a] == ch,
    ensures
        count_char(t.subrange(lo, hi), ch) >= 1,
    decreases hi - lo,
{
    assert(t.subrange(lo, hi).drop_last() =~= t.subrange(lo, hi - 1));
    if a < hi - 1 {
        lemma_count_one(t, lo, hi - 1, a, ch);
    }
}

proof fn lemma_count_two(t: Seq<char>, lo: int, hi: int, a: int, b: int, ch: char)
    requires
        0 <= lo <= a < b < hi <= t.len(),
        t[a] == ch,
        t[b] == ch,
    ensures
        count_char(t.subrange(lo, hi), ch) >= 2,
    decreases hi - lo,
{
    assert(t.subrange(lo, hi).drop_last() =~= t.subrange(lo, hi - 1));
    if b < hi - 1 {
        lemma_count_two(t, lo, hi - 1, a, b, ch);
    } else {
        lemma_count_one(t, lo, hi - 1, a, ch);
    }
}

/// A range whose cursor line holds fewer than two of a quote is left as it
/// is by that quote's object.
proof fn lemma_lone_quote_unchanged(
    t: Seq<char>,
    ch: char,
    span: Span,
    n: nat,
    r: Range,
    ext: Option<Range>,
    hunks: Option<Seq<Hunk>>,
)
    requires
        spec_is_quote(ch),
        t.len() <= usize::MAX,
        count_on_line(t, spec_cursor(r), ch) < 2,
    ensures
        resolved(t, ch, span, n, r, ext, hunks) == r,
{
    let p = spec_cursor(r);
    assert(kind_of(ch) == ObjectKind::LiteralPair(ch));
    if 0 <= p <= t.len() {
        lemma_open_before_bounds(t, 0, p, '\n', '\n', 0);
        crate::pairs::lemma_close_after_bounds(t, p, t.len() as int, '\n', '\n', 0);
        let lo = line_lo(t, p);
        let hi = line_hi(t, p);
        lemma_same_char_pair(t, lo, hi, p, ch, n);
        if let Some((o, c)) = nth_pair(t, lo, hi, p, ch, ch, n) {
            lemma_count_two(t, lo, hi, o, c, ch);
        }
    }
}

/// When the cursor line of every range holds fewer than two of a quote, that
/// quote as object code has no effect on the selection.
pub proof fn lemma_lone_quote_no_effect(
    t: Seq<char>,
    ch: char,
    span: Span,
    n: nat,
    rs: Seq<Range>,
    ext: Seq<Option<Range>>,
    hunks: Option<Seq<Hunk>>,
)
    requires
        spec_is_quote(ch),
        t.len() <= usize::MAX,
        rs.len() >= 1,
        forall|i: int| 0 <= i < rs.len() ==> count_on_line(t, spec_cursor(#[trigger] rs[i]), ch) < 2,
    ensures
        outcome_ranges(t, ch, span, n, rs, ext, hunks) is None,
{
    assert forall|i: int| 0 <= i < rs.len() implies #[trigger] resolved_all(t, ch, span, n, rs, ext, hunks)[i] == rs[i] by {
        lemma_lone_quote_unchanged(t, ch, span, n, rs[i], ext_at(ext, i), hunks);
    }
    assert(resolved_all(t, ch, span, n, rs, ext, hunks) =~= rs);
    assert(kind_of(ch) == ObjectKind::LiteralPair(ch));
    assert(count_on_line(t, spec_cursor(rs[0]), ch) < 2);
}

} // verus!
