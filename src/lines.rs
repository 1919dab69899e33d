use vstd::prelude::*;
use crate::text::{rope_text, len_chars, char_at, newlines, is_line_start, len_lines, line_to_char};
use crate::pairs::{open_before, close_after, find_open_before, find_close_after, lemma_open_before_bounds, lemma_close_after_bounds};

verus! {

/// Start of the line that holds position `p`: just past the last line feed before it.
pub open spec fn line_lo(t: Seq<char>, p: int) -> int {
    match open_before(t, 0, p, '\n', '\n', 0) {
        Some(k) => k + 1,
        None => 0,
    }
}

/// End of the line that holds position `p`: just past its line feed, or the
/// end of the text on the last line.
pub open spec fn line_hi(t: Seq<char>, p: int) -> int {
    match close_after(t, p, t.len() as int, '\n', '\n', 0) {
        Some(k) => k + 1,
        None => t.len() as int,
    }
}

/// Number of occurrences of `ch` in `s`.
pub open spec fn count_char(s: Seq<char>, ch: char) -> nat
    decreases s.len(),
{
    if s.len() == 0 {
        0
    } else {
        count_char(s.drop_last(), ch) + if s.last() == ch {
            1nat
        } else {
            0nat
        }
    }
}

/// The position at which line `l` starts; one past the last line, the end of the text.
pub open spec fn line_pos(t: Seq<char>, l: nat) -> int {
    if l == newlines(t) + 1 {
        t.len() as int
    } else {
        choose|c: int| is_line_start(t, c, l)
    }
}

pub fn find_line_lo(text: &ropey::Rope, p: usize) -> (r: usize)
    requires
        p <= rope_text(*text).len(),
    ensures
        r == line_lo(rope_text(*text), p as int),
        r <= p,
{
    proof {
        lemma_open_before_bounds(rope_text(*text), 0, p as int, '\n', '\n', 0);
    }
    match find_open_before(text, 0, p, '\n', '\n') {
        Some(k) => k + 1,
        None => 0,
    }
}

pub fn find_line_hi(text: &ropey::Rope, p: usize) -> (r: usize)
    requires
        p <= rope_text(*text).len(),
    ensures
        r == line_hi(rope_text(*text), p as int),
        p <= r <= rope_text(*text).len(),
{
    let n = len_chars(text);
    proof {
        lemma_close_after_bounds(rope_text(*text), p as int, n as int, '\n', '\n', 0);
    }
    match find_close_after(text, p, n, '\n', '\n') {
        Some(k) => k + 1,
        None => n,
    }
}

/// Counts the occurrences of `ch` in `[lo, hi)`.
pub fn count_between(text: &ropey::Rope, lo: usize, hi: usize, ch: char) -> (n: usize)
    requires
        lo <= hi <= rope_text(*text).len(),
    ensures
        n == count_char(rope_text(*text).subrange(lo as int, hi as int), ch),
{
    let ghost t = rope_text(*text);
    let mut i: usize = lo;
    let mut n: usize = 0;
    while i < hi
        invariant
            lo <= i <= hi <= t.len(),
            t == rope_text(*text),
            n <= i - lo,
            n == count_char(t.subrange(lo as int, i as int), ch),
        decreases hi - i,
    {
        assert(t.subrange(lo as int, i + 1).drop_last() =~= t.subrange(lo as int, i as int));
        if char_at(text, i) == ch {
            n = n + 1;
        }
        i = i + 1;
    }
    n
}

proof fn lemma_newlines_mono(t: Seq<char>, a: int, b: int)
    requires
        0 <= a <= b <= t.len(),
    ensures
        newlines(t.subrange(0, a)) <= newlines(t.subrange(0, b)),
    decreases b - a,
{
    if a < b {
        assert(t.subrange(0, b).drop_last() =~= t.subrange(0, b - 1));
        lemma_newlines_mono(t, a, b - 1);
    }
}

proof fn lemma_line_start_unique(t: Seq<char>, c1: int, c2: int, l: nat)
    requires
        is_line_start(t, c1, l),
        is_line_start(t, c2, l),
    ensures
        c1 == c2,
{
    if l > 0 && c1 != c2 {
        let (a, b) = if c1 < c2 { (c1, c2) } else { (c2, c1) };
        lemma_newlines_mono(t, a, b - 1);
        assert(t.subrange(0, b).drop_last() =~= t.subrange(0, b - 1));
    }
}

/// The position at which line `l` starts, when the text has such a line
/// (or `l` is one past the last line).
pub fn line_start(text: &ropey::Rope, l: usize) -> (r: Option<usize>)
    ensures
        r == (if l <= newlines(rope_text(*text)) + 1 {
            Some(line_pos(rope_text(*text), l as nat) as usize)
        } else {
            None::<usize>
        }),
        r matches Some(c) ==> c <= rope_text(*text).len(),
{
    let ghost t = rope_text(*text);
    let n = len_lines(text);
    if l > n {
        return None;
    }
    let c = line_to_char(text, l);
    proof {
        if l == newlines(t) + 1 {
            if is_line_start(t, c as int, l as nat) {
                lemma_newlines_mono(t, c as int, t.len() as int);
                assert(t.subrange(0, t.len() as int) =~= t);
            }
        } else {
            lemma_line_start_unique(t, c as int, line_pos(t, l as nat), l as nat);
        }
    }
    Some(c)
}

} // verus!
