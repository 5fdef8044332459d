use vstd::prelude::*;
use crate::segments::LineSegment;

verus! {

/// The value that stands for `1.0` in a 16-bit signed normalized number.
pub const SNORM_ONE: i32 = 32767;

/// A line segment in the record layout that the shading stage reads: the
/// start point and the direction (end minus start), each as two 16-bit
/// signed normalized values in one word (x in the low half), and the
/// segment's position in its batch.
#[derive(Clone, Copy, Debug, PartialEq, Eq, Structural)]
pub struct PackedLine {
    pub start: u32,
    pub v: u32,
    pub time: u32,
}

/// The word that holds `lo` in its low half and `hi` in its high half.
pub open spec fn word_of(lo: int, hi: int) -> int {
    lo + 65536 * hi
}

/// `x` limited to the range of a signed normalized value, `[-1, 1]`.
pub open spec fn clamp_snorm(x: int) -> int {
    if x < -SNORM_ONE {
        -SNORM_ONE as int
    } else if x > SNORM_ONE {
        SNORM_ONE as int
    } else {
        x
    }
}

/// The 16 bits of `x` in two's complement, read as an unsigned number.
pub open spec fn bits16(x: int) -> int {
    if x < 0 {
        x + 65536
    } else {
        x
    }
}

/// The encoding of a fixed-point value (scaled by `SNORM_ONE`) as a 16-bit
/// signed normalized number: clamped to `[-1, 1]`, then in two's complement.
pub open spec fn snorm16(x: int) -> int {
    bits16(clamp_snorm(x))
}

/// The fixed-point value that a 16-bit signed normalized number stands for.
pub open spec fn unsnorm16(w: int) -> int {
    if w >= 32768 {
        w - 65536
    } else {
        w
    }
}

/// Packing loses nothing in `[-1, 1]`: a value in range comes back from its
/// encoding unchanged; a value out of range packs as the nearest end of it.
pub proof fn lemma_snorm_round_trip(x: int)
    ensures
        -SNORM_ONE <= x <= SNORM_ONE ==> unsnorm16(snorm16(x)) == x,
        x > SNORM_ONE ==> snorm16(x) == snorm16(SNORM_ONE as int),
        x < -SNORM_ONE ==> snorm16(x) == snorm16(-SNORM_ONE as int),
        0 <= snorm16(x) < 65536,
{
}

pub open spec fn packed_line(s: LineSegment) -> PackedLine {
    PackedLine {
        start: word_of(snorm16(s.start.x as int), snorm16(s.start.y as int)) as u32,
        v: word_of(
            snorm16(s.end.x - s.start.x),
            snorm16(s.end.y - s.start.y),
        ) as u32,
        time: s.time,
    }
}

/// Packs two unsigned 16-bit values into one word, the first in the low half.
pub fn pack2xu16(e: [u16; 2]) -> (r: u32)
    ensures
        r as int == word_of(e[0] as int, e[1] as int),
{
    let lo: u32 = e[0] as u32;
    let hi: u32 = e[1] as u32;
    assert((lo | (hi << 16u32)) == lo + hi * 65536) by (bit_vector)
        requires
            lo <= 0xffff,
            hi <= 0xffff,
    ;
    lo | (hi << 16)
}

/// Encodes a fixed-point value scaled by `SNORM_ONE` as a 16-bit signed
/// normalized number, clamping it to `[-1, 1]` first.
pub fn pack16snorm(e: i32) -> (r: u16)
    ensures
        r as int == snorm16(e as int),
{
    let c: i32 = if e < -SNORM_ONE {
        -SNORM_ONE
    } else if e > SNORM_ONE {
        SNORM_ONE
    } else {
        e
    };
    if c < 0 {
        (c + 65536) as u16
    } else {
        c as u16
    }
}

/// Packs two fixed-point values as 16-bit signed normalized numbers into one
/// word, the first in the low half.
pub fn pack2x16snorm(e: [i32; 2]) -> (r: u32)
    ensures
        r as int == word_of(snorm16(e[0] as int), snorm16(e[1] as int)),
{
    pack2xu16([pack16snorm(e[0]), pack16snorm(e[1])])
}

/// The record of a segment: its start point and its direction, each packed.
pub fn pack_line(s: &LineSegment) -> (r: PackedLine)
    ensures
        r == packed_line(*s),
{
    let sx = s.start.x as i32;
    let sy = s.start.y as i32;
    let ex = s.end.x as i32;
    let ey = s.end.y as i32;
    PackedLine {
        start: pack2x16snorm([sx, sy]),
        v: pack2x16snorm([ex - sx, ey - sy]),
        time: s.time,
    }
}

} // verus!
