//! Standalone byte-level position utilities: a linear offset-to-position
//! scan and extraction of one source line, both over the raw byte buffer.

use vstd::prelude::*;
use crate::error::Error;

verus! {

/// A byte span of a token: its start offset and length.
#[derive(Debug, Clone)]
pub struct Token {
    pub start: u32,
    pub length: u32,
}

/// The number of newline bytes among the first `upto` bytes.
pub open spec fn nl_count(b: Seq<u8>, upto: int) -> int
    decreases upto,
{
    if upto <= 0 {
        0
    } else {
        nl_count(b, upto - 1) + if b[upto - 1] == 10 {
            1int
        } else {
            0int
        }
    }
}

/// The distance from position `upto` back to the byte after the last
/// newline before it (or to the start of the buffer).
pub open spec fn col_at(b: Seq<u8>, upto: int) -> int
    decreases upto,
{
    if upto <= 0 {
        0
    } else if b[upto - 1] == 10 {
        0
    } else {
        col_at(b, upto - 1) + 1
    }
}

/// Line starts contributed by the first `upto` bytes: offset 0, then one
/// entry directly after each newline byte.
pub open spec fn blines_pre(b: Seq<u8>, upto: int) -> Seq<int>
    decreases upto,
{
    if upto <= 0 {
        seq![0int]
    } else if b[upto - 1] == 10 {
        blines_pre(b, upto - 1).push(upto)
    } else {
        blines_pre(b, upto - 1)
    }
}

/// The byte-level line index of a buffer.
pub open spec fn bline_starts(b: Seq<u8>) -> Seq<int> {
    blines_pre(b, b.len() as int)
}

pub proof fn lemma_blines_pre_props(b: Seq<u8>, upto: int)
    requires
        0 <= upto <= b.len(),
    ensures
        blines_pre(b, upto).len() >= 1,
        blines_pre(b, upto)[0] == 0,
        forall|k: int|
            0 <= k < blines_pre(b, upto).len() ==> 0 <= #[trigger] blines_pre(b, upto)[k] <= upto,
        forall|i: int, j: int|
            0 <= i < j < blines_pre(b, upto).len() ==> #[trigger] blines_pre(b, upto)[i]
                < #[trigger] blines_pre(b, upto)[j],
        blines_pre(b, upto).len() <= upto + 1,
    decreases upto,
{
    if upto > 0 {
        lemma_blines_pre_props(b, upto - 1);
    }
}

/// Converts a byte offset into its 0-based (line, column) pair by one linear
/// scan: the line counts the newlines before the offset, the column the
/// bytes since the last of them.  An offset at or past the end of the buffer
/// is an internal error.
pub fn file_position(buf: &[u8], index: usize) -> (r: Result<(u32, u32), Error>)
    requires
        buf@.len() <= u32::MAX,
    ensures
        index < buf@.len() ==> (r matches Ok(p) && p.0 == nl_count(buf@, index as int) && p.1
            == col_at(buf@, index as int)),
        index >= buf@.len() ==> (r matches Err(e) && e is Code),
{
    if index >= buf.len() {
        return Err(Error::code("`index` parameter out of bounds", None, "src/token.rs", 0, 0));
    }
    let mut line: u32 = 0;
    let mut column: u32 = 0;
    let mut i: usize = 0;
    while i < index
        invariant
            i <= index,
            index < buf@.len() <= u32::MAX,
            line == nl_count(buf@, i as int),
            column == col_at(buf@, i as int),
            line <= i,
            column <= i,
        decreases index - i,
    {
        if buf[i] == 10 {
            line = line + 1;
            column = 0;
        } else {
            column = column + 1;
        }
        i = i + 1;
    }
    Ok((line, column))
}

/// Extracts one source line: the bytes of line `row` up to (excluding) its
/// newline, or up to the end of the buffer on the last line.  A row past the
/// last line is an internal error.
pub fn get_line(buf: &[u8], row: u32) -> (r: Result<Vec<u8>, Error>)
    ensures
        (row as int) < bline_starts(buf@).len() ==> (r matches Ok(v) && v@ == ({
            let st = bline_starts(buf@);
            let a = st[row as int];
            let b = if row as int + 1 < st.len() {
                st[row as int + 1] - 1
            } else {
                buf@.len() as int
            };
            buf@.subrange(a, b)
        })),
        (row as int) >= bline_starts(buf@).len() ==> (r matches Err(e) && e is Code),
{
    proof {
        lemma_blines_pre_props(buf@, buf@.len() as int);
    }
    let n = buf.len();
    let mut starts: Vec<usize> = Vec::new();
    starts.push(0);
    let mut i: usize = 0;
    proof {
        assert(starts@.map_values(|x: usize| x as int) =~= blines_pre(buf@, 0));
    }
    while i < n
        invariant
            i <= n,
            n == buf@.len(),
            starts@.map_values(|x: usize| x as int) == blines_pre(buf@, i as int),
        decreases n - i,
    {
        if buf[i] == 10 {
            starts.push(i + 1);
            proof {
                assert(starts@.map_values(|x: usize| x as int) =~= blines_pre(buf@, i + 1));
            }
        } else {
            proof {
                assert(starts@.map_values(|x: usize| x as int) =~= blines_pre(buf@, i + 1));
            }
        }
        i = i + 1;
    }
    let ghost st = bline_starts(buf@);
    proof {
        assert(starts@.map_values(|x: usize| x as int) == st);
        assert(starts@.len() == st.len());
    }
    if (row as usize) >= starts.len() {
        return Err(Error::code("`row` parameter out of bounds", None, "src/token.rs", 0, 0));
    }
    let rw = row as usize;
    proof {
        assert(starts@[rw as int] as int == st[rw as int]);
        if rw as int + 1 < st.len() {
            assert(starts@[rw as int + 1] as int == st[rw as int + 1]);
        }
    }
    let a = starts[rw];
    let b = if rw < starts.len() - 1 {
        starts[rw + 1] - 1
    } else {
        n
    };
    let mut v: Vec<u8> = Vec::new();
    let mut k = a;
    proof {
        assert(v@ =~= buf@.subrange(a as int, a as int));
    }
    while k < b
        invariant
            a <= k <= b,
            b <= n == buf@.len(),
            v@ == buf@.subrange(a as int, k as int),
        decreases b - k,
    {
        v.push(buf[k]);
        k = k + 1;
        proof {
            assert(v@ =~= buf@.subrange(a as int, k as int));
        }
    }
    Ok(v)
}

} // verus!
