//! Big-endian integers as they travel on the wire.

use vstd::prelude::*;

verus! {

/// The number whose big-endian bytes are `hi`, `lo`.
pub open spec fn be16(hi: u8, lo: u8) -> u16 {
    (hi as int * 256 + lo as int) as u16
}

/// The number whose big-endian bytes are `b0` to `b3`.
pub open spec fn be32(b0: u8, b1: u8, b2: u8, b3: u8) -> u32 {
    (b0 as int * 16777216 + b1 as int * 65536 + b2 as int * 256 + b3 as int) as u32
}

/// The two's-complement number whose big-endian bytes are `b0` to `b3`.
pub open spec fn be32_signed(b0: u8, b1: u8, b2: u8, b3: u8) -> i32 {
    let unsigned = be32(b0, b1, b2, b3) as int;
    if unsigned >= 0x8000_0000 {
        (unsigned - 0x1_0000_0000) as i32
    } else {
        unsigned as i32
    }
}

/// The big-endian bytes of the low 16 bits of `value`.
pub open spec fn u16_bytes(value: int) -> Seq<u8> {
    seq![((value / 256) % 256) as u8, (value % 256) as u8]
}

/// The big-endian bytes of the low 32 bits of `value`.
pub open spec fn u32_bytes(value: int) -> Seq<u8> {
    seq![
        ((value / 16777216) % 256) as u8,
        ((value / 65536) % 256) as u8,
        ((value / 256) % 256) as u8,
        (value % 256) as u8,
    ]
}

/// Reading back the bytes of a 16-bit number gives the number.
pub proof fn lemma_u16_bytes_round_trip(value: u16)
    ensures
        u16_bytes(value as int).len() == 2,
        be16(u16_bytes(value as int)[0], u16_bytes(value as int)[1]) == value,
{
}

/// Reading back the bytes of a 32-bit number gives the number.
pub proof fn lemma_u32_bytes_round_trip(value: u32)
    ensures
        u32_bytes(value as int).len() == 4,
        be32(
            u32_bytes(value as int)[0],
            u32_bytes(value as int)[1],
            u32_bytes(value as int)[2],
            u32_bytes(value as int)[3],
        ) == value,
{
}

/// Appends the low 16 bits of `value`, most significant byte first.
pub fn push_u16(out: &mut Vec<u8>, value: usize)
    ensures
        final(out)@ == old(out)@ + u16_bytes(value as int),
{
    out.push(((value / 256) % 256) as u8);
    out.push((value % 256) as u8);
    assert(out@ =~= old(out)@ + u16_bytes(value as int));
}

/// Appends a 32-bit number, most significant byte first.
pub fn push_u32(out: &mut Vec<u8>, value: u32)
    ensures
        final(out)@ == old(out)@ + u32_bytes(value as int),
{
    out.push(((value / 16777216) % 256) as u8);
    out.push(((value / 65536) % 256) as u8);
    out.push(((value / 256) % 256) as u8);
    out.push((value % 256) as u8);
    assert(out@ =~= old(out)@ + u32_bytes(value as int));
}

/// The 16-bit number at `offset`, if the bytes hold one there.
pub fn peek_u16(bytes: &[u8], offset: usize) -> (value: Option<u16>)
    ensures
        value == if offset + 2 <= bytes@.len() {
            Some(be16(bytes@[offset as int], bytes@[offset + 1]))
        } else {
            None
        },
{
    if bytes.len() < 2 || offset > bytes.len() - 2 {
        None
    } else {
        let b0: u16 = bytes[offset] as u16;
        let b1: u16 = bytes[offset + 1] as u16;
        Some(b0 * 256 + b1)
    }
}

/// The 32-bit number at `offset`, if the bytes hold one there.
pub fn peek_u32(bytes: &[u8], offset: usize) -> (value: Option<u32>)
    ensures
        value == if offset + 4 <= bytes@.len() {
            Some(
                be32(
                    bytes@[offset as int],
                    bytes@[offset + 1],
                    bytes@[offset + 2],
                    bytes@[offset + 3],
                ),
            )
        } else {
            None
        },
{
    if bytes.len() < 4 || offset > bytes.len() - 4 {
        None
    } else {
        let b0: u32 = bytes[offset] as u32;
        let b1: u32 = bytes[offset + 1] as u32;
        let b2: u32 = bytes[offset + 2] as u32;
        let b3: u32 = bytes[offset + 3] as u32;
        Some(b0 * 16777216 + b1 * 65536 + b2 * 256 + b3)
    }
}

} // verus!
