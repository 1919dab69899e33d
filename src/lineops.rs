use vstd::prelude::*;
use crate::range::{Range, Selection, spanning, spec_from, spec_to, spec_cursor, spec_direction};
use crate::text::{rope_text, len_chars, slice_text};
use crate::lines::{line_lo, line_hi, find_line_lo, find_line_hi};
use crate::object::Operation;

verus! {

/// The end of `n` whole lines, starting with the line that holds `p`.
pub open spec fn lines_end(t: Seq<char>, p: int, n: nat) -> int
    decreases n,
{
    if n <= 1 {
        line_hi(t, p)
    } else {
        let e = lines_end(t, p, (n - 1) as nat);
        if e < t.len() {
            line_hi(t, e)
        } else {
            e
        }
    }
}

/// The last position `r` covers (its start, when it is empty).
pub open spec fn last_pos(r: Range) -> int {
    if spec_to(r) > spec_from(r) {
        spec_to(r) - 1
    } else {
        spec_from(r)
    }
}

/// `r` stretched to whole lines: from the start of its first line over `n`
/// lines from its last one, in the direction of `r`. A range past the end of
/// the text stays as it is.
pub open spec fn line_span(t: Seq<char>, r: Range, n: nat) -> Range {
    if spec_to(r) > t.len() {
        r
    } else {
        spanning(
            line_lo(t, spec_from(r)) as usize,
            lines_end(t, last_pos(r), n) as usize,
            spec_direction(r),
        )
    }
}

pub fn extend_to_lines(text: &ropey::Rope, r: Range, n: usize) -> (out: Range)
    ensures
        out == line_span(rope_text(*text), r, n as nat),
{
    let ghost t = rope_text(*text);
    let len = len_chars(text);
    if r.to() > len {
        return r;
    }
    let from = r.from();
    let last = if r.to() > from { r.to() - 1 } else { from };
    let lo = find_line_lo(text, from);
    let mut e = find_line_hi(text, last);
    let mut k: usize = 1;
    while k < n
        invariant
            1 <= k,
            n >= 1 ==> k <= n,
            n < 1 ==> k == 1,
            t == rope_text(*text),
            len == t.len(),
            e <= len,
            e == lines_end(t, last as int, k as nat),
        decreases n - k,
    {
        if e < len {
            e = find_line_hi(text, e);
        }
        k = k + 1;
    }
    proof {
        if n < 1 {
            assert(lines_end(t, last as int, n as nat) == lines_end(t, last as int, 1));
        }
    }
    Range::spanning(lo, e, r.direction())
}

pub open spec fn line_spans(t: Seq<char>, rs: Seq<Range>, n: nat) -> Seq<Range> {
    Seq::new(rs.len(), |i: int| line_span(t, rs[i], n))
}

fn extend_all(text: &ropey::Rope, sel: &Selection, n: usize) -> (out: Selection)
    requires
        sel.wf(),
    ensures
        out.wf(),
        out.primary == sel.primary,
        out.ranges@ == line_spans(rope_text(*text), sel.ranges@, n as nat),
{
    let ghost t = rope_text(*text);
    let mut out: Vec<Range> = Vec::new();
    let mut i: usize = 0;
    while i < sel.ranges.len()
        invariant
            i <= sel.ranges@.len(),
            t == rope_text(*text),
            out@.len() == i,
            forall|j: int| 0 <= j < i ==> out@[j] == line_span(t, sel.ranges@[j], n as nat),
        decreases sel.ranges@.len() - i,
    {
        out.push(extend_to_lines(text, sel.ranges[i], n));
        i = i + 1;
    }
    assert(out@ =~= line_spans(t, sel.ranges@, n as nat));
    Selection { ranges: out, primary: sel.primary }
}

/// Selects `count` whole lines at each range, to be replaced.
pub fn change_line(text: &ropey::Rope, sel: &Selection, count: usize) -> (res: (Selection, Operation))
    requires
        sel.wf(),
    ensures
        res.0.wf(),
        res.0.primary == sel.primary,
        res.0.ranges@ == line_spans(rope_text(*text), sel.ranges@, count as nat),
        res.1 == Operation::Change,
{
    (extend_all(text, sel, count), Operation::Change)
}

/// Selects `count` whole lines at each range, to be deleted.
pub fn delete_line(text: &ropey::Rope, sel: &Selection, count: usize) -> (res: (Selection, Operation))
    requires
        sel.wf(),
    ensures
        res.0.wf(),
        res.0.primary == sel.primary,
        res.0.ranges@ == line_spans(rope_text(*text), sel.ranges@, count as nat),
        res.1 == Operation::Delete,
{
    (extend_all(text, sel, count), Operation::Delete)
}

/// Selects `count` whole lines at each range, to be copied.
pub fn yank_line(text: &ropey::Rope, sel: &Selection, count: usize) -> (res: (Selection, Operation))
    requires
        sel.wf(),
    ensures
        res.0.wf(),
        res.0.primary == sel.primary,
        res.0.ranges@ == line_spans(rope_text(*text), sel.ranges@, count as nat),
        res.1 == Operation::Yank,
{
    (extend_all(text, sel, count), Operation::Yank)
}

/// The text of the line under the cursor of the last range of the
/// selection, line feed included; empty when that cursor lies past the end of
/// the text.
pub fn get_line_text(text: &ropey::Rope, sel: &Selection) -> (s: String)
    requires
        sel.wf(),
    ensures
        ({
            let t = rope_text(*text);
            let p = spec_cursor(sel.ranges@.last());
            if p <= t.len() {
                s@ == t.subrange(line_lo(t, p), line_hi(t, p))
            } else {
                s@ == Seq::<char>::empty()
            }
        }),
{
    let len = len_chars(text);
    let p = sel.ranges[sel.ranges.len() - 1].cursor();
    if p > len {
        return String::new();
    }
    let lo = find_line_lo(text, p);
    let hi = find_line_hi(text, p);
    slice_text(text, lo, hi)
}

} // verus!
