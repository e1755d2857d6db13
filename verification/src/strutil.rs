//! Small verified string-building helpers used by the diagnostic renderer:
//! decimal rendering of numbers and repeated marker characters.

use vstd::prelude::*;
use vstd::string::StringExecFns;

verus! {

/// The digit character for a value below ten.
pub open spec fn digit_of(d: int) -> char {
    if d == 0 {
        '0'
    } else if d == 1 {
        '1'
    } else if d == 2 {
        '2'
    } else if d == 3 {
        '3'
    } else if d == 4 {
        '4'
    } else if d == 5 {
        '5'
    } else if d == 6 {
        '6'
    } else if d == 7 {
        '7'
    } else if d == 8 {
        '8'
    } else {
        '9'
    }
}

/// The usual decimal rendering of a non-negative number, most significant
/// digit first, with no leading zeros (zero itself rendered as one digit).
pub open spec fn dec_digits(n: int) -> Seq<char>
    decreases n,
{
    if n < 10 {
        seq![digit_of(if n < 0 { 0 } else { n })]
    } else {
        dec_digits(n / 10).push(digit_of(n % 10))
    }
}

/// The character `c` repeated `n` times.
pub open spec fn rep_char(c: char, n: int) -> Seq<char>
    decreases n,
{
    if n <= 0 {
        Seq::empty()
    } else {
        rep_char(c, n - 1).push(c)
    }
}

fn digit_str(d: u32) -> (r: &'static str)
    requires
        d < 10,
    ensures
        r@ == seq![digit_of(d as int)],
{
    let r: &'static str = if d == 0 {
        "0"
    } else if d == 1 {
        "1"
    } else if d == 2 {
        "2"
    } else if d == 3 {
        "3"
    } else if d == 4 {
        "4"
    } else if d == 5 {
        "5"
    } else if d == 6 {
        "6"
    } else if d == 7 {
        "7"
    } else if d == 8 {
        "8"
    } else {
        "9"
    };
    proof {
        reveal_strlit("0");
        reveal_strlit("1");
        reveal_strlit("2");
        reveal_strlit("3");
        reveal_strlit("4");
        reveal_strlit("5");
        reveal_strlit("6");
        reveal_strlit("7");
        reveal_strlit("8");
        reveal_strlit("9");
    }
    proof {
        assert(r@ =~= seq![digit_of(d as int)]);
    }
    r
}

/// Renders a number in decimal.
pub fn dec_u32(n: u32) -> (r: String)
    ensures
        r@ == dec_digits(n as int),
    decreases n,
{
    if n < 10 {
        digit_str(n).to_owned()
    } else {
        let mut s = dec_u32(n / 10);
        s.append(digit_str(n % 10));
        proof {
            assert(s@ =~= dec_digits(n as int));
        }
        s
    }
}

/// Renders a number in decimal.
pub fn dec_usize(n: usize) -> (r: String)
    ensures
        r@ == dec_digits(n as int),
    decreases n,
{
    if n < 10 {
        digit_str((n % 10) as u32).to_owned()
    } else {
        let mut s = dec_usize(n / 10);
        s.append(digit_str((n % 10) as u32));
        proof {
            assert(s@ =~= dec_digits(n as int));
        }
        s
    }
}

/// Builds a run of `n` copies of the single character held by `piece`.
pub fn repeat_piece(piece: &str, n: usize) -> (r: String)
    requires
        piece@.len() == 1,
    ensures
        r@ == rep_char(piece@[0], n as int),
{
    let mut s = String::new();
    let mut i: usize = 0;
    while i < n
        invariant
            i <= n,
            piece@.len() == 1,
            s@ == rep_char(piece@[0], i as int),
        decreases n - i,
    {
        s.append(piece);
        i = i + 1;
        proof {
            assert(s@ =~= rep_char(piece@[0], i as int));
        }
    }
    s
}

/// A run of `n` spaces.
pub fn spaces(n: usize) -> (r: String)
    ensures
        r@ == rep_char(' ', n as int),
{
    proof {
        reveal_strlit(" ");
    }
    repeat_piece(" ", n)
}

/// A run of `n` tildes.
pub fn tildes(n: usize) -> (r: String)
    ensures
        r@ == rep_char('~', n as int),
{
    proof {
        reveal_strlit("~");
    }
    repeat_piece("~", n)
}

/// Copies a table of offsets.
pub fn copy_u32_vec(v: &Vec<u32>) -> (r: Vec<u32>)
    ensures
        r@ == v@,
{
    let mut r: Vec<u32> = Vec::new();
    let mut i: usize = 0;
    while i < v.len()
        invariant
            i <= v@.len(),
            r@ == v@.subrange(0, i as int),
        decreases v@.len() - i,
    {
        r.push(v[i]);
        i = i + 1;
        proof {
            assert(r@ =~= v@.subrange(0, i as int));
        }
    }
    proof {
        assert(r@ =~= v@);
    }
    r
}

pub proof fn lemma_rep_char_len(c: char, n: int)
    ensures
        rep_char(c, n).len() == if n <= 0 {
            0
        } else {
            n
        },
    decreases n,
{
    if n > 0 {
        lemma_rep_char_len(c, n - 1);
    }
}

} // verus!
