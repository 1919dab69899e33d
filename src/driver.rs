use vstd::prelude::*;
use crate::range::{Range, Selection, spec_cursor};
use crate::text::{rope_text, len_chars};
use crate::pairs::{close_after, find_close_after, lemma_close_after_bounds};
use crate::lines::{line_lo, line_hi, count_char, find_line_lo, find_line_hi, count_between};
use crate::object::{Span, Operation, ObjectKind, kind_of, object_kind, spec_is_quote, is_quote};
use crate::resolve::{
    Hunk, resolved, hunks_view, pair_span, literal_pair, resolve_range, find_literal_pair,
    make_pair_span,
};

verus! {

/// What a text-object command comes to.
#[derive(Clone, Debug)]
pub enum Outcome {
    /// The diff object was asked for on a buffer without a diff; nothing changes.
    DiffUnavailable,
    /// Nothing was found; the selection stays as it was.
    NoEffect,
    /// The selection becomes this one, then the operation is carried out on it.
    Apply(Selection, Operation),
}

/// The status shown when the diff object is asked for on a buffer without a diff.
pub fn diff_unavailable_message() -> (s: &'static str)
    ensures
        s@ == "Diff is not available in current buffer"@,
{
    "Diff is not available in current buffer"
}

pub open spec fn ext_at(ext: Seq<Option<Range>>, i: int) -> Option<Range> {
    if 0 <= i < ext.len() {
        ext[i]
    } else {
        None
    }
}

/// Every range resolved on its own, in order.
pub open spec fn resolved_all(
    t: Seq<char>,
    code: char,
    span: Span,
    n: nat,
    rs: Seq<Range>,
    ext: Seq<Option<Range>>,
    hunks: Option<Seq<Hunk>>,
) -> Seq<Range> {
    Seq::new(rs.len(), |i: int| resolved(t, code, span, n, rs[i], ext_at(ext, i), hunks))
}

/// Occurrences of `ch` on the line that holds position `p`.
pub open spec fn count_on_line(t: Seq<char>, p: int, ch: char) -> nat {
    if 0 <= p <= t.len() {
        count_char(t.subrange(line_lo(t, p), line_hi(t, p)), ch)
    } else {
        0
    }
}

/// For a quote, some range's cursor line holds fewer than two of it.
pub open spec fn quote_guard_fails(t: Seq<char>, ch: char, rs: Seq<Range>) -> bool {
    spec_is_quote(ch) && exists|i: int| 0 <= i < rs.len() && count_on_line(t, spec_cursor(rs[i]), ch) < 2
}

/// The second try for one range: move the cursor to the next `ch` after it
/// (just past it, for a quote) and look for the pair again from there, on
/// the plain text.
pub open spec fn retried(t: Seq<char>, ch: char, span: Span, n: nat, r: Range) -> Option<Range> {
    match close_after(t, spec_cursor(r) + 1, t.len() as int, ch, ch, 0) {
        Some(q) => {
            let p = if spec_is_quote(ch) { q + 1 } else { q };
            match literal_pair(t, ch, n, p) {
                Some(pr) => Some(pair_span(Some(pr), span, r)),
                None => None,
            }
        },
        None => None,
    }
}

pub open spec fn retried_all(t: Seq<char>, ch: char, span: Span, n: nat, rs: Seq<Range>) -> Seq<Range> {
    Seq::new(
        rs.len(),
        |i: int|
            match retried(t, ch, span, n, rs[i]) {
                Some(x) => x,
                None => rs[i],
            },
    )
}

pub open spec fn any_retried(t: Seq<char>, ch: char, span: Span, n: nat, rs: Seq<Range>) -> bool {
    exists|i: int| 0 <= i < rs.len() && retried(t, ch, span, n, rs[i]) is Some
}

/// The ranges a text-object command leaves, or `None` when it has no effect:
/// the resolved ranges when any of them differs from the range it came from; else, for
/// a delimiter, the second try when it finds a pair for some range.
pub open spec fn outcome_ranges(
    t: Seq<char>,
    code: char,
    span: Span,
    n: nat,
    rs: Seq<Range>,
    ext: Seq<Option<Range>>,
    hunks: Option<Seq<Hunk>>,
) -> Option<Seq<Range>> {
    let out = resolved_all(t, code, span, n, rs, ext, hunks);
    if out != rs {
        Some(out)
    } else {
        match kind_of(code) {
            ObjectKind::LiteralPair(ch) => if quote_guard_fails(t, ch, rs) || !any_retried(t, ch, span, n, rs) {
                None
            } else {
                Some(retried_all(t, ch, span, n, rs))
            },
            _ => None,
        }
    }
}

pub open spec fn diff_missing(code: char, hunks: Option<Seq<Hunk>>) -> bool {
    kind_of(code) == ObjectKind::ChangedHunk && hunks is None
}

/// Resolves the object code against every range of the selection, each one on
/// its own, keeping their order. `ext[i]` is the editor's own answer for
/// range `i` (see `resolved`), where it has one.
pub fn transform_selection(
    text: &ropey::Rope,
    sel: &Selection,
    code: char,
    span: Span,
    count: usize,
    ext: &Vec<Option<Range>>,
    hunks: &Option<Vec<Hunk>>,
) -> (out: Vec<Range>)
    ensures
        out@ == resolved_all(rope_text(*text), code, span, count as nat, sel.ranges@, ext@, hunks_view(hunks)),
{
    let ghost t = rope_text(*text);
    let ghost h = hunks_view(hunks);
    let mut out: Vec<Range> = Vec::new();
    let mut i: usize = 0;
    while i < sel.ranges.len()
        invariant
            i <= sel.ranges@.len(),
            t == rope_text(*text),
            h == hunks_view(hunks),
            out@.len() == i,
            forall|j: int| 0 <= j < i ==> out@[j] == resolved(t, code, span, count as nat, sel.ranges@[j], ext_at(ext@, j), h),
        decreases sel.ranges@.len() - i,
    {
        let e = if i < ext.len() { ext[i] } else { None };
        let r = resolve_range(text, code, span, count, sel.ranges[i], e, hunks);
        out.push(r);
        i = i + 1;
    }
    assert(out@ =~= resolved_all(t, code, span, count as nat, sel.ranges@, ext@, h));
    out
}

/// Whether two lists of ranges differ.
pub fn ranges_differ(a: &Vec<Range>, b: &Vec<Range>) -> (d: bool)
    ensures
        d == (a@ != b@),
{
    if a.len() != b.len() {
        return true;
    }
    let mut i: usize = 0;
    while i < a.len()
        invariant
            i <= a@.len(),
            a@.len() == b@.len(),
            forall|j: int| 0 <= j < i ==> a@[j] == b@[j],
        decreases a@.len() - i,
    {
        if a[i] != b[i] {
            assert(a@[i as int] != b@[i as int]);
            return true;
        }
        i = i + 1;
    }
    assert(a@ =~= b@);
    false
}

fn quote_guard(text: &ropey::Rope, ch: char, rs: &Vec<Range>) -> (fails: bool)
    requires
        spec_is_quote(ch),
    ensures
        fails == quote_guard_fails(rope_text(*text), ch, rs@),
{
    let ghost t = rope_text(*text);
    let len = len_chars(text);
    let mut i: usize = 0;
    while i < rs.len()
        invariant
            i <= rs@.len(),
            t == rope_text(*text),
            len == t.len(),
            spec_is_quote(ch),
            forall|j: int| 0 <= j < i ==> count_on_line(t, spec_cursor(rs@[j]), ch) >= 2,
        decreases rs@.len() - i,
    {
        let p = rs[i].cursor();
        if p > len {
            assert(count_on_line(t, spec_cursor(rs@[i as int]), ch) < 2);
            return true;
        }
        let lo = find_line_lo(text, p);
        let hi = find_line_hi(text, p);
        if count_between(text, lo, hi, ch) < 2 {
            assert(count_on_line(t, spec_cursor(rs@[i as int]), ch) < 2);
            return true;
        }
        i = i + 1;
    }
    false
}

fn retry_range(text: &ropey::Rope, ch: char, span: Span, n: usize, r: Range) -> (out: Option<Range>)
    ensures
        out == retried(rope_text(*text), ch, span, n as nat, r),
{
    let len = len_chars(text);
    let p = r.cursor();
    if p >= len {
        return None;
    }
    proof {
        lemma_close_after_bounds(rope_text(*text), p + 1, len as int, ch, ch, 0);
    }
    match find_close_after(text, p + 1, len, ch, ch) {
        Some(q) => {
            let start = if is_quote(ch) { q + 1 } else { q };
            match find_literal_pair(text, ch, n, start) {
                Some(pr) => Some(make_pair_span(Some(pr), span, r)),
                None => None,
            }
        },
        None => None,
    }
}

fn retry_all(text: &ropey::Rope, ch: char, span: Span, n: usize, rs: &Vec<Range>) -> (res: (Vec<Range>, bool))
    ensures
        res.0@ == retried_all(rope_text(*text), ch, span, n as nat, rs@),
        res.1 == any_retried(rope_text(*text), ch, span, n as nat, rs@),
{
    let ghost t = rope_text(*text);
    let mut out: Vec<Range> = Vec::new();
    let mut any = false;
    let mut i: usize = 0;
    while i < rs.len()
        invariant
            i <= rs@.len(),
            t == rope_text(*text),
            out@.len() == i,
            forall|j: int| 0 <= j < i ==> out@[j] == (match retried(t, ch, span, n as nat, rs@[j]) {
                Some(x) => x,
                None => rs@[j],
            }),
            any == exists|j: int| 0 <= j < i && retried(t, ch, span, n as nat, rs@[j]) is Some,
        decreases rs@.len() - i,
    {
        let r = rs[i];
        match retry_range(text, ch, span, n, r) {
            Some(x) => {
                out.push(x);
                any = true;
            },
            None => {
                out.push(r);
            },
        }
        i = i + 1;
    }
    assert(out@ =~= retried_all(t, ch, span, n as nat, rs@));
    (out, any)
}

/// Runs a text-object command: resolves `code` against every range of `sel`,
/// falls back to the next delimiter when a delimiter pair was not found, and
/// says what becomes of the selection and which operation follows.
pub fn apply_textobject(
    text: &ropey::Rope,
    sel: &Selection,
    code: char,
    span: Span,
    count: usize,
    op: Operation,
    ext: &Vec<Option<Range>>,
    hunks: &Option<Vec<Hunk>>,
) -> (o: Outcome)
    requires
        sel.wf(),
    ensures
        (o is DiffUnavailable) == diff_missing(code, hunks_view(hunks)),
        !diff_missing(code, hunks_view(hunks)) ==> ((o is NoEffect) == (outcome_ranges(
            rope_text(*text),
            code,
            span,
            count as nat,
            sel.ranges@,
            ext@,
            hunks_view(hunks),
        ) is None)),
        o matches Outcome::Apply(s, o2) ==> o2 == op && s.primary == sel.primary && s.wf()
            && Some(s.ranges@) == outcome_ranges(
            rope_text(*text),
            code,
            span,
            count as nat,
            sel.ranges@,
            ext@,
            hunks_view(hunks),
        ),
{
    let kind = object_kind(code);
    if kind == ObjectKind::ChangedHunk && hunks.is_none() {
        return Outcome::DiffUnavailable;
    }
    let out = transform_selection(text, sel, code, span, count, ext, hunks);
    if ranges_differ(&out, &sel.ranges) {
        return Outcome::Apply(Selection { ranges: out, primary: sel.primary }, op);
    }
    match kind {
        ObjectKind::LiteralPair(ch) => {
            if is_quote(ch) && quote_guard(text, ch, &sel.ranges) {
                return Outcome::NoEffect;
            }
            let (rs, any) = retry_all(text, ch, span, count, &sel.ranges);
            if any {
                Outcome::Apply(Selection { ranges: rs, primary: sel.primary }, op)
            } else {
                Outcome::NoEffect
            }
        },
        _ => Outcome::NoEffect,
    }
}

} // verus!
