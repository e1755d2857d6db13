//! The line index: an ascending table of line-start offsets built once from
//! the decoded source text, and the binary search that converts an offset
//! into a (line, column) pair.

use vstd::prelude::*;
use vstd::string::StrSliceExecFns;

verus! {

/// Line starts contributed by the first `upto` characters of `s`: offset 0,
/// then one entry directly after each newline.
pub open spec fn lines_pre(s: Seq<char>, upto: int) -> Seq<int>
    decreases upto,
{
    if upto <= 0 {
        seq![0int]
    } else if s[upto - 1] == '\n' {
        lines_pre(s, upto - 1).push(upto)
    } else {
        lines_pre(s, upto - 1)
    }
}

/// The line index of a text: the strictly increasing table of line-start
/// offsets, beginning with 0.
pub open spec fn line_starts(s: Seq<char>) -> Seq<int> {
    lines_pre(s, s.len() as int)
}

pub open spec fn sorted_u32(s: Seq<u32>) -> bool {
    forall|i: int, j: int| 0 <= i <= j < s.len() ==> #[trigger] s[i] <= #[trigger] s[j]
}

/// The greatest index whose entry is at most `v`, assuming a non-decreasing
/// table whose first entry is at most `v`.
pub open spec fn line_of(offsets: Seq<u32>, v: int) -> int
    decreases offsets.len(),
{
    if offsets.len() <= 1 {
        0
    } else if v < offsets[1] {
        0
    } else {
        1 + line_of(offsets.drop_first(), v)
    }
}

pub proof fn lemma_line_of_bounds(offsets: Seq<u32>, v: int)
    requires
        offsets.len() >= 1,
    ensures
        0 <= line_of(offsets, v) < offsets.len(),
        line_of(offsets, v) >= 1 ==> offsets[line_of(offsets, v)] <= v,
        offsets[0] <= v ==> offsets[line_of(offsets, v)] <= v,
        line_of(offsets, v) + 1 < offsets.len() ==> v < offsets[line_of(offsets, v) + 1],
    decreases offsets.len(),
{
    if offsets.len() > 1 && v >= offsets[1] {
        lemma_line_of_bounds(offsets.drop_first(), v);
    }
}

/// Any index that sits at most `v` while its successor (if any) exceeds `v`
/// is the one the table lookup returns.
pub proof fn lemma_line_of_unique(offsets: Seq<u32>, v: int, r: int)
    requires
        sorted_u32(offsets),
        0 <= r < offsets.len(),
        offsets[r] <= v,
        r + 1 == offsets.len() || v < offsets[r + 1],
    ensures
        r == line_of(offsets, v),
    decreases offsets.len(),
{
    if offsets.len() <= 1 {
    } else if v < offsets[1] {
        if r >= 1 {
            assert(offsets[1] <= offsets[r]);
        }
    } else {
        if r == 0 {
            assert(v < offsets[1]);
        } else {
            assert(sorted_u32(offsets.drop_first())) by {
                assert forall|i: int, j: int|
                    0 <= i <= j < offsets.drop_first().len() implies #[trigger] offsets.drop_first()[i]
                    <= #[trigger] offsets.drop_first()[j] by {
                    assert(offsets[i + 1] <= offsets[j + 1]);
                }
            }
            lemma_line_of_unique(offsets.drop_first(), v, r - 1);
        }
    }
}

pub proof fn lemma_lines_pre_props(s: Seq<char>, upto: int)
    requires
        0 <= upto <= s.len(),
    ensures
        lines_pre(s, upto).len() >= 1,
        lines_pre(s, upto)[0] == 0,
        forall|k: int|
            0 <= k < lines_pre(s, upto).len() ==> 0 <= #[trigger] lines_pre(s, upto)[k] <= upto,
        forall|i: int, j: int|
            0 <= i < j < lines_pre(s, upto).len() ==> #[trigger] lines_pre(s, upto)[i]
                < #[trigger] lines_pre(s, upto)[j],
        lines_pre(s, upto).len() <= upto + 1,
    decreases upto,
{
    if upto > 0 {
        lemma_lines_pre_props(s, upto - 1);
    }
}

/// Builds the line index of a text: offset 0, then the offset directly after
/// each newline character.
pub fn get_line_offsets(buf: String) -> (r: Vec<u32>)
    requires
        buf@.len() <= u32::MAX,
    ensures
        r@.map_values(|x: u32| x as int) == line_starts(buf@),
        r@.len() >= 1,
        r@[0] == 0,
        sorted_u32(r@),
        forall|k: int| 0 <= k < r@.len() ==> #[trigger] r@[k] <= buf@.len(),
{
    let s = buf.as_str();
    let n = s.unicode_len();
    let mut r: Vec<u32> = Vec::new();
    r.push(0);
    let mut i: usize = 0;
    proof {
        assert(r@.map_values(|x: u32| x as int) =~= lines_pre(buf@, 0));
    }
    while i < n
        invariant
            i <= n,
            n == buf@.len(),
            buf@.len() <= u32::MAX,
            buf@ == s@,
            r@.map_values(|x: u32| x as int) == lines_pre(buf@, i as int),
        decreases n - i,
    {
        let c = s.get_char(i);
        if c == '\n' {
            r.push((i + 1) as u32);
            proof {
                assert(r@.map_values(|x: u32| x as int) =~= lines_pre(buf@, i + 1));
            }
        } else {
            proof {
                assert(r@.map_values(|x: u32| x as int) =~= lines_pre(buf@, i + 1));
            }
        }
        i = i + 1;
    }
    proof {
        lemma_lines_pre_props(buf@, buf@.len() as int);
        let m = r@.map_values(|x: u32| x as int);
        assert(m.len() == r@.len());
        assert(r@[0] as int == m[0]);
        assert forall|a: int, b: int| 0 <= a <= b < r@.len() implies #[trigger] r@[a]
            <= #[trigger] r@[b] by {
            if a < b {
                assert(m[a] < m[b]);
            }
        }
        assert forall|k: int| 0 <= k < r@.len() implies #[trigger] r@[k] <= buf@.len() by {
            assert(m[k] <= buf@.len());
        }
    }
    r
}

pub(crate) fn binary_search_ref(value: u32, sorted_array: &Vec<u32>) -> (r: u32)
    requires
        sorted_u32(sorted_array@),
        sorted_array@.len() < u32::MAX,
    ensures
        sorted_array@.len() == 0 ==> r == 0,
        sorted_array@.len() > 0 && value < sorted_array@[0] ==> r == u32::MAX,
        sorted_array@.len() > 0 && value >= sorted_array@[0] ==> r as int == line_of(
            sorted_array@,
            value as int,
        ) && (r as int) < sorted_array@.len(),
{
    let n = sorted_array.len();
    if n == 0 {
        return 0;
    }
    if value < sorted_array[0] {
        return u32::MAX;
    }
    let mut lo: usize = 0;
    let mut hi: usize = n - 1;
    while lo < hi
        invariant
            sorted_u32(sorted_array@),
            n == sorted_array@.len(),
            0 < n < u32::MAX,
            lo <= hi < n,
            sorted_array@[lo as int] <= value,
            hi + 1 == n || value < sorted_array@[hi + 1],
        decreases hi - lo,
    {
        let mid = lo + (hi - lo + 1) / 2;
        if sorted_array[mid] <= value {
            lo = mid;
        } else {
            hi = mid - 1;
        }
    }
    proof {
        lemma_line_of_unique(sorted_array@, value as int, lo as int);
    }
    lo as u32
}

/// Binary search for the greatest recorded offset at most `value`; the
/// sentinel `u32::MAX` reports a value below the first entry, and an empty
/// table answers 0.
pub fn binary_search(value: u32, sorted_array: Vec<u32>) -> (r: u32)
    requires
        sorted_u32(sorted_array@),
        sorted_array@.len() < u32::MAX,
    ensures
        sorted_array@.len() == 0 ==> r == 0,
        sorted_array@.len() > 0 && value < sorted_array@[0] ==> r == u32::MAX,
        sorted_array@.len() > 0 && value >= sorted_array@[0] ==> r as int == line_of(
            sorted_array@,
            value as int,
        ) && (r as int) < sorted_array@.len(),
{
    binary_search_ref(value, &sorted_array)
}

pub(crate) fn file_position_ref(start_index: u32, line_offsets: &Vec<u32>) -> (r: (u32, u32))
    requires
        sorted_u32(line_offsets@),
        1 <= line_offsets@.len() < u32::MAX,
    ensures
        start_index < line_offsets@[0] ==> r == (0u32, 0u32),
        start_index >= line_offsets@[0] ==> ({
            let row = line_of(line_offsets@, start_index as int);
            r.0 == row && r.1 == start_index - line_offsets@[row]
        }),
{
    let index = binary_search_ref(start_index, line_offsets);
    if index == u32::MAX {
        return (0, 0);
    }
    proof {
        lemma_line_of_bounds(line_offsets@, start_index as int);
    }
    (index, start_index - line_offsets[index as usize])
}

/// Converts an offset into its 0-based (line, column) pair: the line is the
/// greatest table index whose entry is at most the offset, the column the
/// distance from that line's start.
pub fn file_position(start_index: u32, line_offsets: Vec<u32>) -> (r: (u32, u32))
    requires
        sorted_u32(line_offsets@),
        1 <= line_offsets@.len() < u32::MAX,
    ensures
        start_index < line_offsets@[0] ==> r == (0u32, 0u32),
        start_index >= line_offsets@[0] ==> ({
            let row = line_of(line_offsets@, start_index as int);
            r.0 == row && r.1 == start_index - line_offsets@[row]
        }),
{
    file_position_ref(start_index, &line_offsets)
}

} // verus!
