use vstd::prelude::*;

verus! {

/// Which end of a range the cursor sits on.
#[derive(Clone, Copy, Debug, PartialEq, Eq, Structural)]
pub enum Direction {
    Forward,
    Backward,
}

/// One selection range over the character positions of a buffer.
/// `anchor` stays put while `head` moves; the two may be in either order.
#[derive(Clone, Copy, Debug, PartialEq, Eq, Structural)]
pub struct Range {
    pub anchor: usize,
    pub head: usize,
}

pub open spec fn spec_direction(r: Range) -> Direction {
    if r.head < r.anchor {
        Direction::Backward
    } else {
        Direction::Forward
    }
}

/// The character the block cursor of `r` covers: the head, or the character
/// just before it when the range extends forward.
pub open spec fn spec_cursor(r: Range) -> int {
    if r.head > r.anchor {
        r.head - 1
    } else {
        r.head as int
    }
}

pub open spec fn spec_from(r: Range) -> int {
    if r.anchor <= r.head {
        r.anchor as int
    } else {
        r.head as int
    }
}

pub open spec fn spec_to(r: Range) -> int {
    if r.anchor <= r.head {
        r.head as int
    } else {
        r.anchor as int
    }
}

/// The range covering `[from, to)` that points in direction `d`.
pub open spec fn spanning(from: usize, to: usize, d: Direction) -> Range {
    match d {
        Direction::Forward => Range { anchor: from, head: to },
        Direction::Backward => Range { anchor: to, head: from },
    }
}

impl Range {
    pub fn new(anchor: usize, head: usize) -> (r: Range)
        ensures
            r.anchor == anchor,
            r.head == head,
    {
        Range { anchor, head }
    }

    pub fn point(pos: usize) -> (r: Range)
        ensures
            r.anchor == pos,
            r.head == pos,
    {
        Range { anchor: pos, head: pos }
    }

    pub fn direction(&self) -> (d: Direction)
        ensures
            d == spec_direction(*self),
    {
        if self.head < self.anchor {
            Direction::Backward
        } else {
            Direction::Forward
        }
    }

    pub fn cursor(&self) -> (c: usize)
        ensures
            c == spec_cursor(*self),
    {
        if self.head > self.anchor {
            self.head - 1
        } else {
            self.head
        }
    }

    pub fn from(&self) -> (f: usize)
        ensures
            f == spec_from(*self),
    {
        if self.anchor <= self.head {
            self.anchor
        } else {
            self.head
        }
    }

    pub fn to(&self) -> (t: usize)
        ensures
            t == spec_to(*self),
    {
        if self.anchor <= self.head {
            self.head
        } else {
            self.anchor
        }
    }

    /// The range covering `[from, to)` that points in direction `d`.
    pub fn spanning(from: usize, to: usize, d: Direction) -> (r: Range)
        ensures
            r == spanning(from, to, d),
    {
        match d {
            Direction::Forward => Range { anchor: from, head: to },
            Direction::Backward => Range { anchor: to, head: from },
        }
    }
}

/// An ordered, non-empty list of ranges, one of which is the primary one.
#[derive(Clone, Debug)]
pub struct Selection {
    pub ranges: Vec<Range>,
    pub primary: usize,
}

impl Selection {
    pub open spec fn wf(&self) -> bool {
        &&& self.ranges@.len() >= 1
        &&& self.primary < self.ranges@.len()
    }

    pub fn single(anchor: usize, head: usize) -> (s: Selection)
        ensures
            s.wf(),
            s.ranges@ == seq![Range { anchor, head }],
            s.primary == 0,
    {
        Selection { ranges: vec![Range { anchor, head }], primary: 0 }
    }

    pub fn primary_range(&self) -> (r: Range)
        requires
            self.wf(),
        ensures
            r == self.ranges@[self.primary as int],
    {
        self.ranges[self.primary]
    }

    /// A copy of the selection.
    pub fn clone_ranges(&self) -> (s: Selection)
        ensures
            s.ranges@ == self.ranges@,
            s.primary == self.primary,
    {
        let mut out: Vec<Range> = Vec::new();
        let mut i: usize = 0;
        while i < self.ranges.len()
            invariant
                i <= self.ranges@.len(),
                out@ == self.ranges@.subrange(0, i as int),
            decreases self.ranges@.len() - i,
        {
            out.push(self.ranges[i]);
            i = i + 1;
            assert(out@ =~= self.ranges@.subrange(0, i as int));
        }
        assert(out@ =~= self.ranges@);
        Selection { ranges: out, primary: self.primary }
    }

    pub fn len(&self) -> (n: usize)
        ensures
            n == self.ranges@.len(),
    {
        self.ranges.len()
    }
}

} // verus!
