use vstd::prelude::*;
use crate::range::{Range, Selection, spec_from, spec_to};

verus! {

pub open spec fn clamp(x: int, len: int) -> int {
    if x < len { x } else { len }
}

pub open spec fn at_least(x: int, m: int) -> int {
    if x < m { m } else { x }
}

/// After the first `k` ranges: where the last removed span ended, and how
/// many characters were removed before it. Each span is the range clamped to
/// the text and cut so that it starts no earlier than the previous one ended.
pub open spec fn removal_state(rs: Seq<Range>, len: int, k: int) -> (int, int)
    decreases k,
{
    if k <= 0 {
        (0, 0)
    } else {
        let (e, removed) = removal_state(rs, len, k - 1);
        let a = at_least(clamp(spec_from(rs[k - 1]), len), e);
        let b = at_least(clamp(spec_to(rs[k - 1]), len), a);
        (b, removed + (b - a))
    }
}

/// The `i`-th span to remove, in positions of the text as it stands once the
/// spans before it are gone.
pub open spec fn removal_span(rs: Seq<Range>, len: int, i: int) -> (int, int) {
    let (e, removed) = removal_state(rs, len, i);
    let a = at_least(clamp(spec_from(rs[i]), len), e);
    let b = at_least(clamp(spec_to(rs[i]), len), a);
    (a - removed, b - removed)
}

/// How to delete the content of every range of `sel` from a text of `len`
/// characters: the spans to remove one after the other, and the selection
/// afterwards, each range collapsed where its content was.
pub fn removal_plan(sel: &Selection, len: usize) -> (res: (Vec<(usize, usize)>, Selection))
    requires
        sel.wf(),
    ensures
        res.0@.len() == sel.ranges@.len(),
        res.1.wf(),
        res.1.primary == sel.primary,
        res.1.ranges@.len() == sel.ranges@.len(),
        forall|i: int| 0 <= i < sel.ranges@.len() ==> {
            let sp = #[trigger] removal_span(sel.ranges@, len as int, i);
            &&& res.0@[i] == (sp.0 as usize, sp.1 as usize)
            &&& res.1.ranges@[i] == (Range { anchor: sp.0 as usize, head: sp.0 as usize })
        },
{
    let ghost rs = sel.ranges@;
    let mut spans: Vec<(usize, usize)> = Vec::new();
    let mut points: Vec<Range> = Vec::new();
    let mut e: usize = 0;
    let mut removed: usize = 0;
    let mut i: usize = 0;
    while i < sel.ranges.len()
        invariant
            i <= rs.len(),
            rs == sel.ranges@,
            spans@.len() == i,
            points@.len() == i,
            removed <= e <= len,
            removal_state(rs, len as int, i as int) == (e as int, removed as int),
            forall|j: int| 0 <= j < i ==> {
                let sp = #[trigger] removal_span(rs, len as int, j);
                &&& spans@[j] == (sp.0 as usize, sp.1 as usize)
                &&& points@[j] == (Range { anchor: sp.0 as usize, head: sp.0 as usize })
            },
        decreases rs.len() - i,
    {
        let r = sel.ranges[i];
        let f = if r.from() < len { r.from() } else { len };
        let a = if f < e { e } else { f };
        let t = if r.to() < len { r.to() } else { len };
        let b = if t < a { a } else { t };
        spans.push((a - removed, b - removed));
        points.push(Range::point(a - removed));
        assert(removal_state(rs, len as int, i + 1) == (b as int, removed + (b - a)));
        removed = removed + (b - a);
        e = b;
        i = i + 1;
    }
    (spans, Selection { ranges: points, primary: sel.primary })
}

} // verus!
