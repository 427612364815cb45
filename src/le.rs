//! Little-endian 32-bit integers on the wire.
use vstd::prelude::*;

verus! {

/// The four little-endian bytes of `u`.
pub open spec fn le_u32(u: u32) -> Seq<u8> {
    seq![
        (u & 0xff) as u8,
        ((u >> 8u32) & 0xff) as u8,
        ((u >> 16u32) & 0xff) as u8,
        ((u >> 24u32) & 0xff) as u8,
    ]
}

/// The four little-endian bytes of `v`, in two's complement.
pub open spec fn le_i32(v: i32) -> Seq<u8> {
    le_u32(v as u32)
}

/// The unsigned value of four little-endian bytes.
pub open spec fn u32_of(b0: u8, b1: u8, b2: u8, b3: u8) -> u32 {
    (b0 as u32) | ((b1 as u32) << 8u32) | ((b2 as u32) << 16u32) | ((b3 as u32) << 24u32)
}

/// The signed value of the four bytes of `b` that start at `pos`.
pub open spec fn i32_at(b: Seq<u8>, pos: int) -> i32 {
    u32_of(b[pos], b[pos + 1], b[pos + 2], b[pos + 3]) as i32
}

/// Reading back the bytes written for `v` gives `v`.
pub proof fn lemma_i32_round_trip(v: i32)
    ensures
        i32_at(le_i32(v), 0) == v,
{
    let u = v as u32;
    assert(u32_of(
        (u & 0xff) as u8,
        ((u >> 8u32) & 0xff) as u8,
        ((u >> 16u32) & 0xff) as u8,
        ((u >> 24u32) & 0xff) as u8,
    ) == u) by (bit_vector);
    assert((u as i32) == v) by (bit_vector)
        requires
            u == v as u32,
    ;
}

/// Appends the four little-endian bytes of `v` to `out`.
pub fn put_i32_le(out: &mut Vec<u8>, v: i32)
    ensures
        final(out)@ == old(out)@ + le_i32(v),
{
    let u = v as u32;
    out.push((u & 0xff) as u8);
    out.push(((u >> 8u32) & 0xff) as u8);
    out.push(((u >> 16u32) & 0xff) as u8);
    out.push(((u >> 24u32) & 0xff) as u8);
    assert(out@ =~= old(out)@ + le_i32(v));
}

/// Reads the signed little-endian integer at `pos`.
pub fn get_i32_le(b: &[u8], pos: usize) -> (r: i32)
    requires
        pos + 4 <= b@.len(),
    ensures
        r == i32_at(b@, pos as int),
{
    let u: u32 = (b[pos] as u32) | ((b[pos + 1] as u32) << 8u32) | ((b[pos + 2] as u32) << 16u32)
        | ((b[pos + 3] as u32) << 24u32);
    u as i32
}

} // verus!
