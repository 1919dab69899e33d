use vstd::prelude::*;
use crate::range::{Selection, spec_cursor};
use crate::text::{rope_text, len_chars, char_at, slice_text};
use crate::lines::{line_lo, line_hi, find_line_lo, find_line_hi};

verus! {

/// `a` comes no later than `b` in lexicographic order of code points.
pub open spec fn lex_le(a: Seq<char>, b: Seq<char>) -> bool
    decreases a.len(),
{
    if a.len() == 0 {
        true
    } else if b.len() == 0 {
        false
    } else if a[0] != b[0] {
        (a[0] as u32) < (b[0] as u32)
    } else {
        lex_le(a.drop_first(), b.drop_first())
    }
}

pub open spec fn names(v: Seq<String>) -> Seq<Seq<char>> {
    v.map_values(|s: String| s@)
}

pub open spec fn is_sorted(s: Seq<Seq<char>>) -> bool {
    forall|i: int, j: int| 0 <= i < j < s.len() ==> lex_le(#[trigger] s[i], #[trigger] s[j])
}

/// `b` holds the items of `a` in ascending order.
pub open spec fn sorted_version(a: Seq<Seq<char>>, b: Seq<Seq<char>>) -> bool {
    b.to_multiset() == a.to_multiset() && is_sorted(b)
}

/// The strings of `s` one after the other.
pub open spec fn flatten(s: Seq<Seq<char>>) -> Seq<char>
    decreases s.len(),
{
    if s.len() == 0 {
        Seq::empty()
    } else {
        flatten(s.drop_last()) + s.last()
    }
}

pub open spec fn with_suffix(v: Seq<Seq<char>>, suf: Seq<char>) -> Seq<Seq<char>> {
    v.map_values(|n: Seq<char>| n + suf)
}

/// Relies on `<[String]>::sort`: the same strings in ascending order, where
/// strings are ordered by their bytes, i.e. by the code points of their
/// characters.
#[verifier::external_body]
fn sort_strings(v: &mut Vec<String>)
    ensures
        sorted_version(names(old(v)@), names(final(v)@)),
{
    v.sort();
}

fn suffixed(v: &Vec<String>, suf: &str) -> (out: Vec<String>)
    ensures
        names(out@) == with_suffix(names(v@), suf@),
{
    let mut out: Vec<String> = Vec::new();
    let mut i: usize = 0;
    while i < v.len()
        invariant
            i <= v@.len(),
            out@.len() == i,
            forall|j: int| 0 <= j < i ==> #[trigger] out@[j]@ == v@[j]@ + suf@,
        decreases v@.len() - i,
    {
        let e = String::from_str(v[i].as_str()).concat(suf);
        out.push(e);
        i = i + 1;
    }
    assert(names(out@) =~= with_suffix(names(v@), suf@));
    out
}

fn push_all(s: &mut String, v: &Vec<String>)
    ensures
        final(s)@ == old(s)@ + flatten(names(v@)),
{
    let ghost start = s@;
    let mut i: usize = 0;
    while i < v.len()
        invariant
            i <= v@.len(),
            s@ == start + flatten(names(v@).subrange(0, i as int)),
        decreases v@.len() - i,
    {
        s.append(v[i].as_str());
        assert(names(v@).subrange(0, i + 1).drop_last() =~= names(v@).subrange(0, i as int));
        i = i + 1;
    }
    assert(names(v@).subrange(0, v@.len() as int) =~= names(v@));
}

/// The text of a directory listing: `../`, then each directory name with a
/// trailing `/`, then each file name, one entry per line, directories and
/// files each in ascending order.
pub fn listing_text(dirs: &Vec<String>, files: &Vec<String>) -> (s: String)
    ensures
        exists|ds: Seq<Seq<char>>, fs: Seq<Seq<char>>|
            sorted_version(with_suffix(names(dirs@), "/\n"@), ds)
            && sorted_version(with_suffix(names(files@), "\n"@), fs)
            && s@ == "../\n"@ + flatten(ds) + flatten(fs),
{
    let mut ds = suffixed(dirs, "/\n");
    sort_strings(&mut ds);
    let mut fs = suffixed(files, "\n");
    sort_strings(&mut fs);
    let mut s = String::from_str("../\n");
    push_all(&mut s, &ds);
    push_all(&mut s, &fs);
    assert(s@ == "../\n"@ + flatten(names(ds@)) + flatten(names(fs@)));
    s
}

/// What a line of a listing buffer names.
#[derive(Clone, Debug)]
pub enum Entry {
    /// The `../` line: the parent directory.
    Parent,
    /// A line ending in `/`: a subdirectory, named without the `/`.
    Directory(String),
    /// Any other line: a file.
    File(String),
}

/// The line that holds `p`, without its line feed.
pub open spec fn line_content(t: Seq<char>, p: int) -> Seq<char> {
    let lo = line_lo(t, p);
    let hi = line_hi(t, p);
    if hi > lo && t[hi - 1] == '\n' {
        t.subrange(lo, hi - 1)
    } else {
        t.subrange(lo, hi)
    }
}

pub open spec fn is_parent_line(c: Seq<char>) -> bool {
    c =~= seq!['.', '.', '/']
}

/// The entry named by the line under the cursor of the last range of `sel`,
/// or `None` when that cursor lies past the end of the text.
pub fn listing_entry(text: &ropey::Rope, sel: &Selection) -> (e: Option<Entry>)
    requires
        sel.wf(),
    ensures
        ({
            let t = rope_text(*text);
            let p = spec_cursor(sel.ranges@.last());
            let c = line_content(t, p);
            match e {
                None => p > t.len(),
                Some(Entry::Parent) => p <= t.len() && is_parent_line(c),
                Some(Entry::Directory(name)) => p <= t.len() && !is_parent_line(c) && c.len() > 0
                    && c.last() == '/' && name@ == c.drop_last(),
                Some(Entry::File(name)) => p <= t.len() && !is_parent_line(c) && !(c.len() > 0
                    && c.last() == '/') && name@ == c,
            }
        }),
{
    let ghost t = rope_text(*text);
    let len = len_chars(text);
    let p = sel.ranges[sel.ranges.len() - 1].cursor();
    if p > len {
        return None;
    }
    let lo = find_line_lo(text, p);
    let hi = find_line_hi(text, p);
    let end = if hi > lo && char_at(text, hi - 1) == '\n' { hi - 1 } else { hi };
    let ghost c = line_content(t, p as int);
    assert(c =~= t.subrange(lo as int, end as int));
    if end - lo == 3 && char_at(text, lo) == '.' && char_at(text, lo + 1) == '.' && char_at(text, lo + 2) == '/' {
        assert(is_parent_line(c));
        return Some(Entry::Parent);
    }
    assert(!is_parent_line(c)) by {
        if is_parent_line(c) {
            assert(c[0] == t[lo as int] && c[1] == t[lo + 1] && c[2] == t[lo + 2]);
        }
    }
    if end > lo && char_at(text, end - 1) == '/' {
        Some(Entry::Directory(slice_text(text, lo, end - 1)))
    } else {
        Some(Entry::File(slice_text(text, lo, end)))
    }
}

} // verus!
