//! A source position: a character offset, with its (line, column) pair
//! derived on demand from a line-start table and cached inside the value.
//! Lines and columns are 0-based here; rendering adds 1 for display.

use vstd::prelude::*;
use vstd::string::StringExecFns;
use crate::strutil::{dec_digits, dec_usize};

verus! {

/// The greatest index whose entry is at most `v`, for a non-decreasing
/// table whose first entry is at most `v`.
pub open spec fn line_at(offsets: Seq<usize>, v: int) -> int
    decreases offsets.len(),
{
    if offsets.len() <= 1 {
        0
    } else if v < offsets[1] {
        0
    } else {
        1 + line_at(offsets.drop_first(), v)
    }
}

pub open spec fn sorted_usize(s: Seq<usize>) -> bool {
    forall|i: int, j: int| 0 <= i <= j < s.len() ==> #[trigger] s[i] <= #[trigger] s[j]
}

/// The 0-based line of offset `v`: the line whose start is the greatest at
/// most `v`, except that the exclusive end of a span sitting exactly on a
/// line start reports the line before it.
pub open spec fn pos_line(offsets: Seq<usize>, v: int, end: bool) -> int {
    let r = line_at(offsets, v);
    if end && r > 0 && offsets[r] == v {
        r - 1
    } else {
        r
    }
}

/// The 0-based column of offset `v`: its distance from the reported line's
/// start.
pub open spec fn pos_column(offsets: Seq<usize>, v: int, end: bool) -> int {
    v - offsets[pos_line(offsets, v, end)]
}

pub proof fn lemma_line_at_bounds(offsets: Seq<usize>, v: int)
    requires
        offsets.len() >= 1,
    ensures
        0 <= line_at(offsets, v) < offsets.len(),
        line_at(offsets, v) >= 1 ==> offsets[line_at(offsets, v)] <= v,
        offsets[0] <= v ==> offsets[line_at(offsets, v)] <= v,
        line_at(offsets, v) + 1 < offsets.len() ==> v < offsets[line_at(offsets, v) + 1],
    decreases offsets.len(),
{
    if offsets.len() > 1 && v >= offsets[1] {
        lemma_line_at_bounds(offsets.drop_first(), v);
    }
}

pub proof fn lemma_line_at_unique(offsets: Seq<usize>, v: int, r: int)
    requires
        sorted_usize(offsets),
        0 <= r < offsets.len(),
        offsets[r] <= v,
        r + 1 == offsets.len() || v < offsets[r + 1],
    ensures
        r == line_at(offsets, v),
    decreases offsets.len(),
{
    if offsets.len() <= 1 {
    } else if v < offsets[1] {
        if r >= 1 {
            assert(offsets[1] <= offsets[r]);
        }
    } else {
        if r == 0 {
            assert(v < offsets[1]);
        } else {
            assert(sorted_usize(offsets.drop_first())) by {
                assert forall|i: int, j: int|
                    0 <= i <= j < offsets.drop_first().len() implies #[trigger] offsets.drop_first()[i]
                    <= #[trigger] offsets.drop_first()[j] by {
                    assert(offsets[i + 1] <= offsets[j + 1]);
                }
            }
            lemma_line_at_unique(offsets.drop_first(), v, r - 1);
        }
    }
}

/// An offset into the source, with lazily computed, cached line and column.
#[derive(Debug, Clone, Copy)]
pub struct Position(pub usize, pub Option<usize>, pub Option<usize>);

/// The caches, where set, agree with the table and end-flag they will be
/// read under.
pub open spec fn pos_wf(p: Position, offsets: Seq<usize>, end: bool) -> bool {
    &&& (p.1 matches Some(l) ==> l == pos_line(offsets, p.0 as int, end))
    &&& (p.2 matches Some(c) ==> c == pos_column(offsets, p.0 as int, end))
}

/// A usable line-start table: non-decreasing, starting at offset 0.
pub open spec fn table_wf(offsets: Seq<usize>) -> bool {
    &&& sorted_usize(offsets)
    &&& offsets.len() >= 1
    &&& offsets[0] == 0
}

impl Position {
    pub fn new(index: usize) -> (p: Position)
        ensures
            p.0 == index,
            p.1 is None,
            p.2 is None,
    {
        Position(index, None, None)
    }

    /// The position's 0-based line under the given line-start table,
    /// computed by binary search once and cached.
    pub fn line(&mut self, newlines: &[usize], end: bool) -> (r: usize)
        requires
            table_wf(newlines@),
            pos_wf(*old(self), newlines@, end),
        ensures
            r == pos_line(newlines@, old(self).0 as int, end),
            final(self).0 == old(self).0,
            final(self).1 == Some(r),
            final(self).2 == old(self).2,
            pos_wf(*final(self), newlines@, end),
    {
        if let Some(l) = self.1 {
            self.1 = Some(l);
            return l;
        }
        let n = newlines.len();
        let mut lo: usize = 0;
        let mut hi: usize = n - 1;
        while lo < hi
            invariant
                table_wf(newlines@),
                n == newlines@.len(),
                lo <= hi < n,
                newlines@[lo as int] <= self.0,
                hi + 1 == n || self.0 < newlines@[hi + 1],
                self.0 == old(self).0,
                self.1 == old(self).1,
                self.2 == old(self).2,
            decreases hi - lo,
        {
            let mid = lo + (hi - lo + 1) / 2;
            if newlines[mid] <= self.0 {
                lo = mid;
            } else {
                hi = mid - 1;
            }
        }
        proof {
            lemma_line_at_unique(newlines@, self.0 as int, lo as int);
        }
        let r = if end && lo > 0 && newlines[lo] == self.0 {
            lo - 1
        } else {
            lo
        };
        self.1 = Some(r);
        r
    }

    /// The position's 0-based column: its distance from the reported line's
    /// start, cached after the first computation.
    pub fn column(&mut self, newlines: &[usize], end: bool) -> (r: usize)
        requires
            table_wf(newlines@),
            pos_wf(*old(self), newlines@, end),
        ensures
            r == pos_column(newlines@, old(self).0 as int, end),
            final(self).0 == old(self).0,
            final(self).2 == Some(r),
            pos_wf(*final(self), newlines@, end),
    {
        if let Some(c) = self.2 {
            self.2 = Some(c);
            return c;
        }
        let l = self.line(newlines, end);
        proof {
            lemma_line_at_bounds(newlines@, self.0 as int);
        }
        let c = self.0 - newlines[l];
        self.2 = Some(c);
        c
    }

    /// Renders the position for display, 1-based, as `line:column`.
    pub fn show(&mut self, newlines: &[usize], end: bool) -> (r: String)
        requires
            table_wf(newlines@),
            pos_wf(*old(self), newlines@, end),
            old(self).0 < usize::MAX,
            newlines@.len() < usize::MAX,
        ensures
            r@ == dec_digits(pos_line(newlines@, old(self).0 as int, end) + 1) + ":"@ + dec_digits(
                pos_column(newlines@, old(self).0 as int, end) + 1),
            pos_wf(*final(self), newlines@, end),
            final(self).0 == old(self).0,
    {
        let l = self.line(newlines, end);
        let c = self.column(newlines, end);
        proof {
            lemma_line_at_bounds(newlines@, self.0 as int);
        }
        let mut out = dec_usize(l + 1);
        out.append(":");
        out.append(dec_usize(c + 1).as_str());
        proof {
            assert(out@ =~= dec_digits(pos_line(newlines@, self.0 as int, end) + 1) + ":"@
                + dec_digits(pos_column(newlines@, self.0 as int, end) + 1));
        }
        out
    }
}

} // verus!
