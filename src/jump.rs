use vstd::prelude::*;
use crate::range::{Range, Selection, spec_cursor, spec_from, spec_to};
use crate::text::{rope_text, len_chars};

verus! {

/// The range a jump from `orig` to the matching bracket at `pos` gives: in
/// select mode it stretches from `orig` over the match; otherwise it covers
/// the match alone.
pub open spec fn jump_range(select: bool, orig: int, pos: int) -> Range {
    if select {
        if pos > orig {
            Range { anchor: orig as usize, head: (pos + 1) as usize }
        } else {
            Range { anchor: (orig + 1) as usize, head: pos as usize }
        }
    } else {
        Range { anchor: pos as usize, head: (pos + 1) as usize }
    }
}

/// Moves to the bracket that matches the one under the primary cursor.
/// `matched` is the syntax tree's answer for that cursor (`None` without a
/// tree or a match); the primary range becomes the jump's range and the
/// other ranges stay as they are. Positions outside
/// the text leave the selection as it was.
pub fn goto_matching_pair(text: &ropey::Rope, sel: &Selection, select: bool, matched: Option<usize>) -> (out: Selection)
    requires
        sel.wf(),
    ensures
        out.wf(),
        out.primary == sel.primary,
        out.ranges@.len() == sel.ranges@.len(),
        ({
            let orig = spec_cursor(sel.ranges@[sel.primary as int]);
            match matched {
                Some(pos) => if pos < rope_text(*text).len() && orig < rope_text(*text).len() {
                    out.ranges@ == sel.ranges@.update(sel.primary as int, jump_range(select, orig, pos as int))
                } else {
                    out.ranges@ == sel.ranges@
                },
                None => out.ranges@ == sel.ranges@,
            }
        }),
{
    let len = len_chars(text);
    let orig = sel.primary_range().cursor();
    let pos = match matched {
        Some(p) => p,
        None => return sel.clone_ranges(),
    };
    if pos >= len || orig >= len {
        return sel.clone_ranges();
    }
    let r = if select {
        if pos > orig {
            Range::new(orig, pos + 1)
        } else {
            Range::new(orig + 1, pos)
        }
    } else {
        Range::new(pos, pos + 1)
    };
    let mut out = sel.clone_ranges();
    out.ranges.set(sel.primary, r);
    out
}

/// A jump from a bracket to its match and back from the new cursor ends on a
/// range that covers the bracket it started from, when each of the two
/// brackets is the other's match.
pub proof fn lemma_jump_back_covers_start(select: bool, o: int, c: int)
    requires
        0 <= o < usize::MAX - 1,
        0 <= c < usize::MAX - 1,
        o != c,
    ensures
        spec_cursor(jump_range(select, o, c)) == c,
        spec_from(jump_range(select, spec_cursor(jump_range(select, o, c)), o)) <= o,
        o < spec_to(jump_range(select, spec_cursor(jump_range(select, o, c)), o)),
{
}

} // verus!
