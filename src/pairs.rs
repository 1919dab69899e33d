use vstd::prelude::*;
use crate::text::{rope_text, char_at, len_chars};

verus! {

/// The nearest `open` in `t[lo..i)` that is not matched by a `close` after it
/// (skipping `d` unmatched closes first), searching leftwards from `i`.
/// When `open == close` this is simply the nearest occurrence.
pub open spec fn open_before(t: Seq<char>, lo: int, i: int, open: char, close: char, d: nat) -> Option<int>
    decreases i - lo,
{
    if i <= lo {
        None
    } else if t[i - 1] == open {
        if d == 0 {
            Some(i - 1)
        } else {
            open_before(t, lo, i - 1, open, close, (d - 1) as nat)
        }
    } else if t[i - 1] == close {
        open_before(t, lo, i - 1, open, close, d + 1)
    } else {
        open_before(t, lo, i - 1, open, close, d)
    }
}

/// The nearest `close` in `t[i..hi)` that is not matched by an `open` before
/// it (skipping `d` unmatched opens first), searching rightwards from `i`.
/// When `open == close` this is simply the nearest occurrence.
pub open spec fn close_after(t: Seq<char>, i: int, hi: int, open: char, close: char, d: nat) -> Option<int>
    decreases hi - i,
{
    if i >= hi {
        None
    } else if t[i] == close {
        if d == 0 {
            Some(i)
        } else {
            close_after(t, i + 1, hi, open, close, (d - 1) as nat)
        }
    } else if t[i] == open {
        close_after(t, i + 1, hi, open, close, d + 1)
    } else {
        close_after(t, i + 1, hi, open, close, d)
    }
}

/// The innermost pair of `open`/`close` within `t[lo..hi)` around position `p`.
/// A cursor on an opening delimiter opens the pair; a cursor on a closing one
/// closes it. For a same-character delimiter under the cursor, it opens the
/// pair when a later one follows on `[p + 1, hi)`, and closes it otherwise.
pub open spec fn first_pair(t: Seq<char>, lo: int, hi: int, p: int, open: char, close: char) -> Option<(int, int)> {
    if !(lo <= p < hi && hi <= t.len()) {
        None
    } else if t[p] == open && t[p] == close {
        match close_after(t, p + 1, hi, open, close, 0) {
            Some(c) => Some((p, c)),
            None => match open_before(t, lo, p, open, close, 0) {
                Some(o) => Some((o, p)),
                None => None,
            },
        }
    } else if t[p] == open {
        match close_after(t, p + 1, hi, open, close, 0) {
            Some(c) => Some((p, c)),
            None => None,
        }
    } else if t[p] == close {
        match open_before(t, lo, p, open, close, 0) {
            Some(o) => Some((o, p)),
            None => None,
        }
    } else {
        match (open_before(t, lo, p, open, close, 0), close_after(t, p, hi, open, close, 0)) {
            (Some(o), Some(c)) => Some((o, c)),
            _ => None,
        }
    }
}

/// The `n`-th pair of `open`/`close` around `p`, counting outwards from the
/// innermost one (`n == 1`).
pub open spec fn nth_pair(t: Seq<char>, lo: int, hi: int, p: int, open: char, close: char, n: nat) -> Option<(int, int)>
    decreases n,
{
    if n <= 1 {
        first_pair(t, lo, hi, p, open, close)
    } else {
        match nth_pair(t, lo, hi, p, open, close, (n - 1) as nat) {
            Some((o, c)) => match (open_before(t, lo, o, open, close, 0), close_after(t, c + 1, hi, open, close, 0)) {
                (Some(o2), Some(c2)) => Some((o2, c2)),
                _ => None,
            },
            None => None,
        }
    }
}

/// The delimiter that closes a pair opened by `ch`, and the one that opens a
/// pair closed by `ch`; any other character pairs with itself.
pub open spec fn spec_pair_of(ch: char) -> (char, char) {
    if ch == '(' || ch == ')' {
        ('(', ')')
    } else if ch == '[' || ch == ']' {
        ('[', ']')
    } else if ch == '{' || ch == '}' {
        ('{', '}')
    } else if ch == '<' || ch == '>' {
        ('<', '>')
    } else {
        (ch, ch)
    }
}

pub fn pair_of(ch: char) -> (r: (char, char))
    ensures
        r == spec_pair_of(ch),
{
    if ch == '(' || ch == ')' {
        ('(', ')')
    } else if ch == '[' || ch == ']' {
        ('[', ']')
    } else if ch == '{' || ch == '}' {
        ('{', '}')
    } else if ch == '<' || ch == '>' {
        ('<', '>')
    } else {
        (ch, ch)
    }
}

pub fn find_open_before(text: &ropey::Rope, lo: usize, start: usize, open: char, close: char) -> (r: Option<usize>)
    requires
        lo <= start <= rope_text(*text).len(),
    ensures
        r == (match open_before(rope_text(*text), lo as int, start as int, open, close, 0) {
            Some(o) => Some(o as usize),
            None => None::<usize>,
        }),
        r matches Some(o) ==> lo <= o < start,
{
    let ghost t = rope_text(*text);
    let mut i: usize = start;
    let mut d: usize = 0;
    while i > lo
        invariant
            lo <= i <= start <= t.len(),
            t == rope_text(*text),
            d <= start - i,
            open_before(t, lo as int, i as int, open, close, d as nat) == open_before(t, lo as int, start as int, open, close, 0),
        decreases i,
    {
        let c = char_at(text, i - 1);
        if c == open {
            if d == 0 {
                return Some(i - 1);
            }
            d = d - 1;
        } else if c == close {
            d = d + 1;
        }
        i = i - 1;
    }
    None
}

pub fn find_close_after(text: &ropey::Rope, start: usize, hi: usize, open: char, close: char) -> (r: Option<usize>)
    requires
        start <= hi <= rope_text(*text).len(),
    ensures
        r == (match close_after(rope_text(*text), start as int, hi as int, open, close, 0) {
            Some(c) => Some(c as usize),
            None => None::<usize>,
        }),
        r matches Some(c) ==> start <= c < hi,
{
    let ghost t = rope_text(*text);
    let mut i: usize = start;
    let mut d: usize = 0;
    while i < hi
        invariant
            start <= i <= hi <= t.len(),
            t == rope_text(*text),
            d <= i - start,
            close_after(t, i as int, hi as int, open, close, d as nat) == close_after(t, start as int, hi as int, open, close, 0),
        decreases hi - i,
    {
        let c = char_at(text, i);
        if c == close {
            if d == 0 {
                return Some(i);
            }
            d = d - 1;
        } else if c == open {
            d = d + 1;
        }
        i = i + 1;
    }
    None
}


pub proof fn lemma_open_before_bounds(t: Seq<char>, lo: int, i: int, open: char, close: char, d: nat)
    ensures
        open_before(t, lo, i, open, close, d) matches Some(o) ==> lo <= o < i,
    decreases i - lo,
{
    if i > lo {
        if t[i - 1] == open {
            if d > 0 {
                lemma_open_before_bounds(t, lo, i - 1, open, close, (d - 1) as nat);
            }
        } else if t[i - 1] == close {
            lemma_open_before_bounds(t, lo, i - 1, open, close, d + 1);
        } else {
            lemma_open_before_bounds(t, lo, i - 1, open, close, d);
        }
    }
}

pub proof fn lemma_close_after_bounds(t: Seq<char>, i: int, hi: int, open: char, close: char, d: nat)
    ensures
        close_after(t, i, hi, open, close, d) matches Some(c) ==> i <= c < hi,
    decreases hi - i,
{
    if i < hi {
        if t[i] == close {
            if d > 0 {
                lemma_close_after_bounds(t, i + 1, hi, open, close, (d - 1) as nat);
            }
        } else if t[i] == open {
            lemma_close_after_bounds(t, i + 1, hi, open, close, d + 1);
        } else {
            lemma_close_after_bounds(t, i + 1, hi, open, close, d);
        }
    }
}

/// Every pair found around `p` lies within the searched bounds and encloses `p`.
pub proof fn lemma_nth_pair_bounds(t: Seq<char>, lo: int, hi: int, p: int, open: char, close: char, n: nat)
    ensures
        nth_pair(t, lo, hi, p, open, close, n) matches Some((o, c)) ==> lo <= o <= p <= c < hi,
    decreases n,
{
    lemma_open_before_bounds(t, lo, p, open, close, 0);
    lemma_close_after_bounds(t, p, hi, open, close, 0);
    lemma_close_after_bounds(t, p + 1, hi, open, close, 0);
    if n > 1 {
        lemma_nth_pair_bounds(t, lo, hi, p, open, close, (n - 1) as nat);
        if let Some((o, c)) = nth_pair(t, lo, hi, p, open, close, (n - 1) as nat) {
            lemma_open_before_bounds(t, lo, o, open, close, 0);
            lemma_close_after_bounds(t, c + 1, hi, open, close, 0);
        }
    }
}

pub open spec fn lift(r: Option<(int, int)>) -> Option<(usize, usize)> {
    match r {
        Some((o, c)) => Some((o as usize, c as usize)),
        None => None,
    }
}

/// Finds the innermost pair around `p` within `[lo, hi)`.
pub fn find_first_pair(text: &ropey::Rope, lo: usize, hi: usize, p: usize, open: char, close: char) -> (r: Option<(usize, usize)>)
    requires
        lo <= hi <= rope_text(*text).len(),
    ensures
        r == lift(first_pair(rope_text(*text), lo as int, hi as int, p as int, open, close)),
        r matches Some((o, c)) ==> lo <= o <= p <= c < hi,
{
    if !(lo <= p && p < hi) {
        return None;
    }
    let ch = char_at(text, p);
    if ch == open && ch == close {
        match find_close_after(text, p + 1, hi, open, close) {
            Some(c) => Some((p, c)),
            None => match find_open_before(text, lo, p, open, close) {
                Some(o) => Some((o, p)),
                None => None,
            },
        }
    } else if ch == open {
        match find_close_after(text, p + 1, hi, open, close) {
            Some(c) => Some((p, c)),
            None => None,
        }
    } else if ch == close {
        match find_open_before(text, lo, p, open, close) {
            Some(o) => Some((o, p)),
            None => None,
        }
    } else {
        match (find_open_before(text, lo, p, open, close), find_close_after(text, p, hi, open, close)) {
            (Some(o), Some(c)) => Some((o, c)),
            _ => None,
        }
    }
}

/// Finds the `n`-th pair around `p` within `[lo, hi)`, counting outwards.
pub fn find_nth_pair(text: &ropey::Rope, lo: usize, hi: usize, p: usize, open: char, close: char, n: usize) -> (r: Option<(usize, usize)>)
    requires
        lo <= hi <= rope_text(*text).len(),
    ensures
        r == lift(nth_pair(rope_text(*text), lo as int, hi as int, p as int, open, close, n as nat)),
        r matches Some((o, c)) ==> lo <= o <= p <= c < hi,
{
    let ghost t = rope_text(*text);
    let mut cur = find_first_pair(text, lo, hi, p, open, close);
    let mut k: usize = 1;
    while k < n
        invariant
            1 <= k,
            n >= 1 ==> k <= n,
            n < 1 ==> k == 1,
            t == rope_text(*text),
            lo <= hi <= t.len(),
            cur == lift(nth_pair(t, lo as int, hi as int, p as int, open, close, k as nat)),
            cur matches Some((o, c)) ==> lo <= o <= p <= c < hi,
        decreases n - k,
    {
        proof {
            lemma_nth_pair_bounds(t, lo as int, hi as int, p as int, open, close, k as nat);
        }
        match cur {
            Some((o, c)) => {
                match (find_open_before(text, lo, o, open, close), find_close_after(text, c + 1, hi, open, close)) {
                    (Some(o2), Some(c2)) => {
                        cur = Some((o2, c2));
                    },
                    _ => {
                        cur = None;
                    },
                }
            },
            None => {},
        }
        k = k + 1;
    }
    proof {
        if n < 1 {
            assert(nth_pair(t, lo as int, hi as int, p as int, open, close, n as nat) == nth_pair(t, lo as int, hi as int, p as int, open, close, 1));
        }
    }
    cur
}

/// Of two candidate pairs, the one that opens later, i.e. the inner one.
pub open spec fn inner_of(a: Option<(usize, usize)>, b: Option<(usize, usize)>) -> Option<(usize, usize)> {
    match (a, b) {
        (Some(x), Some(y)) => if y.0 > x.0 { b } else { a },
        (Some(_), None) => a,
        _ => b,
    }
}

/// The closest pair of brackets of any kind around `p`: the `n`-th pair of
/// each kind of bracket, whichever opens last.
pub open spec fn closest_pair(t: Seq<char>, p: int, n: nat) -> Option<(usize, usize)> {
    let hi = t.len() as int;
    inner_of(
        inner_of(
            inner_of(lift(nth_pair(t, 0, hi, p, '(', ')', n)), lift(nth_pair(t, 0, hi, p, '[', ']', n))),
            lift(nth_pair(t, 0, hi, p, '{', '}', n)),
        ),
        lift(nth_pair(t, 0, hi, p, '<', '>', n)),
    )
}

fn inner_pair(a: Option<(usize, usize)>, b: Option<(usize, usize)>) -> (r: Option<(usize, usize)>)
    ensures
        r == inner_of(a, b),
{
    match (a, b) {
        (Some(x), Some(y)) => if y.0 > x.0 { b } else { a },
        (Some(_), None) => a,
        _ => b,
    }
}

/// Finds the closest pair of brackets of any kind around `p`.
pub fn find_closest_pair(text: &ropey::Rope, p: usize, n: usize) -> (r: Option<(usize, usize)>)
    ensures
        r == closest_pair(rope_text(*text), p as int, n as nat),
        r matches Some((o, c)) ==> o <= p <= c < rope_text(*text).len(),
{
    let hi = len_chars(text);
    let a = find_nth_pair(text, 0, hi, p, '(', ')', n);
    let b = find_nth_pair(text, 0, hi, p, '[', ']', n);
    let c = find_nth_pair(text, 0, hi, p, '{', '}', n);
    let d = find_nth_pair(text, 0, hi, p, '<', '>', n);
    let ab = inner_pair(a, b);
    let abc = inner_pair(ab, c);
    inner_pair(abc, d)
}

} // verus!
