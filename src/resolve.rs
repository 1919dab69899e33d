use vstd::prelude::*;
use crate::range::{Range, spanning, spec_cursor, spec_direction};
use crate::text::{rope_text, len_chars, char_to_line, newlines, line_of};
use crate::pairs::{spec_pair_of, pair_of, nth_pair, lift, closest_pair, find_nth_pair, find_closest_pair};
use crate::lines::{line_lo, line_hi, line_pos, find_line_lo, find_line_hi, line_start};
use crate::object::{Span, ObjectKind, kind_of, object_kind, spec_is_quote, is_quote};

verus! {

/// A changed region of the buffer, as the lines `[after_start, after_end)`
/// that it covers after the change.
#[derive(Clone, Copy, Debug, PartialEq, Eq, Structural)]
pub struct Hunk {
    pub after_start: u32,
    pub after_end: u32,
}

/// The first hunk, from index `i` on, whose lines hold `line`.
pub open spec fn first_hunk_from(hs: Seq<Hunk>, line: int, i: int) -> Option<int>
    decreases hs.len() - i,
{
    if i < 0 || i >= hs.len() {
        None
    } else if hs[i].after_start <= line < hs[i].after_end {
        Some(i)
    } else {
        first_hunk_from(hs, line, i + 1)
    }
}

/// The lines of the hunk that holds the cursor line of `r`, or `r` itself
/// when no hunk holds it.
pub open spec fn hunk_span(t: Seq<char>, hs: Seq<Hunk>, r: Range) -> Range {
    let p = spec_cursor(r);
    if p > t.len() {
        r
    } else {
        match first_hunk_from(hs, line_of(t, p) as int, 0) {
            Some(i) => if hs[i].after_end <= newlines(t) + 1 {
                spanning(
                    line_pos(t, hs[i].after_start as nat) as usize,
                    line_pos(t, hs[i].after_end as nat) as usize,
                    spec_direction(r),
                )
            } else {
                r
            },
            None => r,
        }
    }
}

/// The range a found pair of delimiters `[o, c]` gives: its interior for
/// `Inside`, the delimiters too for `Around`, in the direction of `r`.
/// No pair leaves `r` as it was.
pub open spec fn pair_span(pr: Option<(usize, usize)>, span: Span, r: Range) -> Range {
    match pr {
        Some((o, c)) => match span {
            Span::Inside => spanning((o + 1) as usize, c, spec_direction(r)),
            Span::Around => spanning(o, (c + 1) as usize, spec_direction(r)),
        },
        None => r,
    }
}

/// The `n`-th pair of the delimiter `ch` around `p`. Quotes are paired within
/// the line that holds `p`; other delimiters anywhere in the text.
pub open spec fn literal_pair(t: Seq<char>, ch: char, n: nat, p: int) -> Option<(usize, usize)> {
    let (open, close) = spec_pair_of(ch);
    if spec_is_quote(ch) {
        if 0 <= p <= t.len() {
            lift(nth_pair(t, line_lo(t, p), line_hi(t, p), p, open, close, n))
        } else {
            None
        }
    } else {
        lift(nth_pair(t, 0, t.len() as int, p, open, close, n))
    }
}

/// What the object code `code` makes of the range `r`. `ext` is the editor's
/// own answer for `r`: the word, paragraph or syntax-tree object, or, for the
/// closest pair and for delimiters other than quotes, the syntax-aware pair
/// (`None` where it has none; pairs are then matched on the plain text).
/// Quotes are always matched on the plain text of the cursor line. `hunks`
/// is the buffer's changed hunks, if any.
pub open spec fn resolved(
    t: Seq<char>,
    code: char,
    span: Span,
    n: nat,
    r: Range,
    ext: Option<Range>,
    hunks: Option<Seq<Hunk>>,
) -> Range {
    match kind_of(code) {
        ObjectKind::Word | ObjectKind::BigWord | ObjectKind::Paragraph | ObjectKind::Syntax(_) => match ext {
            Some(x) => x,
            None => r,
        },
        ObjectKind::ClosestPair => match ext {
            Some(x) => x,
            None => pair_span(closest_pair(t, spec_cursor(r), n), span, r),
        },
        ObjectKind::LiteralPair(ch) => match ext {
            Some(x) if !spec_is_quote(ch) => x,
            _ => pair_span(literal_pair(t, ch, n, spec_cursor(r)), span, r),
        },
        ObjectKind::ChangedHunk => match hunks {
            Some(hs) => hunk_span(t, hs, r),
            None => r,
        },
        ObjectKind::Ignored => r,
    }
}

pub open spec fn hunks_view(hunks: &Option<Vec<Hunk>>) -> Option<Seq<Hunk>> {
    match hunks {
        Some(v) => Some(v@),
        None => None,
    }
}

pub fn make_pair_span(pr: Option<(usize, usize)>, span: Span, r: Range) -> (out: Range)
    requires
        pr matches Some((o, c)) ==> o <= c < usize::MAX,
    ensures
        out == pair_span(pr, span, r),
{
    match pr {
        Some((o, c)) => match span {
            Span::Inside => Range::spanning(o + 1, c, r.direction()),
            Span::Around => Range::spanning(o, c + 1, r.direction()),
        },
        None => r,
    }
}

pub fn find_literal_pair(text: &ropey::Rope, ch: char, n: usize, p: usize) -> (r: Option<(usize, usize)>)
    ensures
        r == literal_pair(rope_text(*text), ch, n as nat, p as int),
        r matches Some((o, c)) ==> o <= p <= c < rope_text(*text).len(),
{
    let (open, close) = pair_of(ch);
    let len = len_chars(text);
    if is_quote(ch) {
        if p <= len {
            let lo = find_line_lo(text, p);
            let hi = find_line_hi(text, p);
            find_nth_pair(text, lo, hi, p, open, close, n)
        } else {
            None
        }
    } else {
        find_nth_pair(text, 0, len, p, open, close, n)
    }
}

pub fn resolve_hunk(text: &ropey::Rope, hs: &Vec<Hunk>, r: Range) -> (out: Range)
    ensures
        out == hunk_span(rope_text(*text), hs@, r),
{
    let ghost t = rope_text(*text);
    let p = r.cursor();
    let len = len_chars(text);
    if p > len {
        return r;
    }
    let line = char_to_line(text, p);
    let mut i: usize = 0;
    while i < hs.len()
        invariant
            i <= hs@.len(),
            t == rope_text(*text),
            p <= t.len(),
            p == spec_cursor(r),
            line == line_of(t, p as int),
            first_hunk_from(hs@, line as int, i as int) == first_hunk_from(hs@, line as int, 0),
        decreases hs@.len() - i,
    {
        let h = hs[i];
        if h.after_start as usize <= line && line < h.after_end as usize {
            assert(first_hunk_from(hs@, line as int, i as int) == Some(i as int));
            let a = line_start(text, h.after_start as usize);
            let b = line_start(text, h.after_end as usize);
            proof {
                if h.after_end <= newlines(t) + 1 {
                    assert(a == Some(line_pos(t, h.after_start as nat) as usize));
                    assert(b == Some(line_pos(t, h.after_end as nat) as usize));
                } else {
                    assert(b is None);
                }
                assert(h == hs@[i as int]);
            }
            let out = match (a, b) {
                (Some(a), Some(b)) => Range::spanning(a, b, r.direction()),
                _ => r,
            };
            return out;
        }
        i = i + 1;
    }
    r
}

/// Resolves the object code `code` against one range.
pub fn resolve_range(
    text: &ropey::Rope,
    code: char,
    span: Span,
    n: usize,
    r: Range,
    ext: Option<Range>,
    hunks: &Option<Vec<Hunk>>,
) -> (out: Range)
    ensures
        out == resolved(rope_text(*text), code, span, n as nat, r, ext, hunks_view(hunks)),
{
    let _len = len_chars(text);
    match object_kind(code) {
        ObjectKind::Word | ObjectKind::BigWord | ObjectKind::Paragraph | ObjectKind::Syntax(_) => match ext {
            Some(x) => x,
            None => r,
        },
        ObjectKind::ClosestPair => match ext {
            Some(x) => x,
            None => {
                let pr = find_closest_pair(text, r.cursor(), n);
                make_pair_span(pr, span, r)
            },
        },
        ObjectKind::LiteralPair(ch) => match ext {
            Some(x) if !is_quote(ch) => x,
            _ => {
                let pr = find_literal_pair(text, ch, n, r.cursor());
                make_pair_span(pr, span, r)
            },
        },
        ObjectKind::ChangedHunk => match hunks {
            Some(hs) => resolve_hunk(text, hs, r),
            None => r,
        },
        ObjectKind::Ignored => r,
    }
}

} // verus!
