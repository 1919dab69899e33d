use vstd::prelude::*;

verus! {

/// The buffer text, held in a rope.
#[verifier::external_type_specification]
#[verifier::external_body]
pub struct ExRope(ropey::Rope);

/// The characters that a rope holds, in order.
pub uninterp spec fn rope_text(r: ropey::Rope) -> Seq<char>;

/// Number of line feeds in `s`. Line feed is the only line break: the rope
/// is built without its `cr_lines` and `unicode_lines` features. Cargo
/// merges features across a build, so the line contracts below hold only
/// while nothing in the build turns either of them on.
pub open spec fn newlines(s: Seq<char>) -> nat
    decreases s.len(),
{
    if s.len() == 0 {
        0
    } else {
        newlines(s.drop_last()) + if s.last() == '\n' {
            1nat
        } else {
            0nat
        }
    }
}

/// The zero-based line that character position `i` lies on.
pub open spec fn line_of(t: Seq<char>, i: int) -> nat {
    newlines(t.subrange(0, i))
}

/// `c` is the character position at which line `l` of `t` starts.
pub open spec fn is_line_start(t: Seq<char>, c: int, l: nat) -> bool {
    &&& 0 <= c <= t.len()
    &&& if l == 0 {
        c == 0
    } else {
        c >= 1 && t[c - 1] == '\n' && newlines(t.subrange(0, c)) == l
    }
}

/// Relies on ropey::Rope::len_chars: the number of characters held.
#[verifier::external_body]
pub(crate) fn len_chars(r: &ropey::Rope) -> (n: usize)
    ensures
        n == rope_text(*r).len(),
{
    r.len_chars()
}

/// Relies on ropey::Rope::len_lines: one more than the number of line breaks.
#[verifier::external_body]
pub(crate) fn len_lines(r: &ropey::Rope) -> (n: usize)
    ensures
        n == newlines(rope_text(*r)) + 1,
{
    r.len_lines()
}

/// Relies on ropey::Rope::char: the character at a position (panics past the end).
#[verifier::external_body]
pub(crate) fn char_at(r: &ropey::Rope, i: usize) -> (c: char)
    requires
        i < rope_text(*r).len(),
    ensures
        c == rope_text(*r)[i as int],
{
    r.char(i)
}

/// Relies on ropey::Rope::char_to_line: the number of line breaks before a
/// position (panics past one-past-the-end).
#[verifier::external_body]
pub(crate) fn char_to_line(r: &ropey::Rope, i: usize) -> (l: usize)
    requires
        i <= rope_text(*r).len(),
    ensures
        l == line_of(rope_text(*r), i as int),
{
    r.char_to_line(i)
}

/// Relies on ropey::Rope::line_to_char: the position at which a line starts
/// (panics past one-past-the-last line).
#[verifier::external_body]
pub(crate) fn line_to_char(r: &ropey::Rope, l: usize) -> (c: usize)
    requires
        l <= newlines(rope_text(*r)) + 1,
    ensures
        is_line_start(rope_text(*r), c as int, l as nat) || (l == newlines(rope_text(*r)) + 1
            && c == rope_text(*r).len()),
{
    r.line_to_char(l)
}

/// Relies on ropey::Rope::slice and RopeSlice's `to_string`: the characters
/// in `[a, b)` as a string (the slice panics on a reversed or overlong range).
#[verifier::external_body]
pub(crate) fn slice_text(r: &ropey::Rope, a: usize, b: usize) -> (s: String)
    requires
        a <= b <= rope_text(*r).len(),
    ensures
        s@ == rope_text(*r).subrange(a as int, b as int),
{
    r.slice(a..b).to_string()
}

} // verus!
