//! Classification of one data literal in a raw byte buffer: numbers by their
//! first byte, and bracketed or quoted blocks by a one- or two-byte prefix,
//! scanned to their closing byte.

use vstd::prelude::*;
use crate::position::Position;

verus! {

#[derive(Debug, PartialEq, Eq, Hash, Clone, Copy)]
pub enum DataType {
    Num,
    Char,
    Str,
    Tuple,
    List,
    SetData,
    MapData,
}

/// A classified region of the buffer: its kind and the positions of its
/// first byte and of its closing byte (or the end of the buffer).
#[derive(Debug)]
pub struct Data {
    pub data_type: DataType,
    pub start: Position,
    pub end: Position,
}

pub open spec fn is_digit_byte(x: u8) -> bool {
    48 <= x && x <= 57
}

/// The byte that closes a block of each kind (a quote, or the matching
/// closing bracket).
pub open spec fn postfix_of(dt: DataType) -> u8 {
    match dt {
        DataType::Num => 0,
        DataType::Char => 39,
        DataType::Str => 34,
        DataType::Tuple => 41,
        DataType::List => 93,
        DataType::SetData => 93,
        DataType::MapData => 125,
    }
}

/// The kind a literal's prefix announces: a quote, a bracket, or a two-byte
/// `#`-prefix for sets and maps.
pub open spec fn data_prefix(b: Seq<u8>, i: int) -> Option<DataType> {
    if b[i] == 39 {
        Some(DataType::Char)
    } else if b[i] == 34 {
        Some(DataType::Str)
    } else if b[i] == 40 {
        Some(DataType::Tuple)
    } else if b[i] == 91 {
        Some(DataType::List)
    } else if b[i] == 35 && b[i + 1] == 91 {
        Some(DataType::SetData)
    } else if b[i] == 35 && b[i + 1] == 123 {
        Some(DataType::MapData)
    } else {
        None
    }
}

/// First index at or after `i` that holds no digit (possibly the end).
pub open spec fn digits_end(b: Seq<u8>, i: int) -> int
    decreases b.len() - i,
{
    if 0 <= i < b.len() && is_digit_byte(b[i]) {
        digits_end(b, i + 1)
    } else {
        i
    }
}

/// First index at or after `i` holding the byte `post` (possibly the end).
pub open spec fn block_end(b: Seq<u8>, i: int, post: u8) -> int
    decreases b.len() - i,
{
    if 0 <= i < b.len() && b[i] != post {
        block_end(b, i + 1, post)
    } else {
        i
    }
}

pub proof fn lemma_digits_end_props(b: Seq<u8>, i: int)
    requires
        0 <= i <= b.len(),
    ensures
        i <= digits_end(b, i) <= b.len(),
    decreases b.len() - i,
{
    if i < b.len() && is_digit_byte(b[i]) {
        lemma_digits_end_props(b, i + 1);
    }
}

pub proof fn lemma_block_end_props(b: Seq<u8>, i: int, post: u8)
    requires
        0 <= i <= b.len(),
    ensures
        i <= block_end(b, i, post) <= b.len(),
    decreases b.len() - i,
{
    if i < b.len() && b[i] != post {
        lemma_block_end_props(b, i + 1, post);
    }
}

/// Scans the digits of a number that starts at `pos` (a digit or a minus
/// sign): the region runs to the first non-digit after it.
pub fn parse_number(buf: &[u8], pos: &Position) -> (r: Data)
    requires
        pos.0 < buf@.len(),
    ensures
        r.data_type == DataType::Num,
        r.start == *pos,
        r.end.0 as int == digits_end(buf@, pos.0 as int + 1),
        r.end.1 is None && r.end.2 is None,
{
    let n = buf.len();
    let start: Position = *pos;
    proof {
        lemma_digits_end_props(buf@, pos.0 as int + 1);
    }
    let mut i = pos.0 + 1;
    while i < n && 48 <= buf[i] && buf[i] <= 57
        invariant
            n == buf@.len(),
            pos.0 < i <= buf@.len(),
            digits_end(buf@, pos.0 as int + 1) == digits_end(buf@, i as int),
        decreases buf@.len() - i,
    {
        i = i + 1;
    }
    Data { data_type: DataType::Num, start, end: Position::new(i) }
}

/// Scans a block literal that opens at `pos`: the region runs to the first
/// occurrence of the kind's closing byte after the prefix, or to the end of
/// the buffer.
pub fn parse_block(buf: &[u8], pos: &Position, data_type: &DataType) -> (r: Data)
    requires
        pos.0 < buf@.len(),
    ensures
        r.data_type == *data_type,
        r.start == *pos,
        r.end.0 as int == block_end(buf@, pos.0 as int + 1, postfix_of(*data_type)),
        r.end.1 is None && r.end.2 is None,
{
    let post: u8 = match data_type {
        DataType::Num => 0,
        DataType::Char => 39,
        DataType::Str => 34,
        DataType::Tuple => 41,
        DataType::List => 93,
        DataType::SetData => 93,
        DataType::MapData => 125,
    };
    let n = buf.len();
    let start: Position = *pos;
    proof {
        lemma_block_end_props(buf@, pos.0 as int + 1, post);
    }
    let mut i = pos.0 + 1;
    while i < n && buf[i] != post
        invariant
            n == buf@.len(),
            pos.0 < i <= buf@.len(),
            block_end(buf@, pos.0 as int + 1, post) == block_end(buf@, i as int, post),
        decreases buf@.len() - i,
    {
        i = i + 1;
    }
    Data { data_type: *data_type, start, end: Position::new(i) }
}

/// Classifies the data literal at `pos`: a number when a digit or minus sign
/// stands there, a block when one of the known prefixes does, and nothing
/// otherwise.
pub fn parse_data(buf: &[u8], pos: &Position) -> (r: Option<Data>)
    requires
        pos.0 < buf@.len(),
        !(is_digit_byte(buf@[pos.0 as int]) || buf@[pos.0 as int] == 45) ==> pos.0 + 1
            < buf@.len(),
    ensures
        ({
            let x = buf@[pos.0 as int];
            if is_digit_byte(x) || x == 45 {
                r matches Some(d) && d.data_type == DataType::Num && d.start == *pos
                    && d.end.0 as int == digits_end(buf@, pos.0 as int + 1)
            } else {
                match data_prefix(buf@, pos.0 as int) {
                    Some(dt) => r matches Some(d) && d.data_type == dt && d.start == *pos
                        && d.end.0 as int == block_end(buf@, pos.0 as int + 1, postfix_of(dt)),
                    None => r is None,
                }
            }
        }),
{
    let x = buf[pos.0];
    if (48 <= x && x <= 57) || x == 45 {
        return Some(parse_number(buf, pos));
    }
    let y = buf[pos.0 + 1];
    let dt: Option<DataType> = if x == 39 {
        Some(DataType::Char)
    } else if x == 34 {
        Some(DataType::Str)
    } else if x == 40 {
        Some(DataType::Tuple)
    } else if x == 91 {
        Some(DataType::List)
    } else if x == 35 && y == 91 {
        Some(DataType::SetData)
    } else if x == 35 && y == 123 {
        Some(DataType::MapData)
    } else {
        None
    };
    match dt {
        Some(d) => Some(parse_block(buf, pos, &d)),
        None => None,
    }
}

} // verus!
