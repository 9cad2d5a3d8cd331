//! Little-endian byte-level primitives of the wire format.
//!
//! Each quantity has a specification-level encoder, a specification-level
//! parser over the remaining input, and executable mirrors proved against
//! them.

use vstd::prelude::*;

verus! {

/// The little-endian 16-bit encoding of `v`.
pub open spec fn spec_u16_le(v: u16) -> Seq<u8> {
    seq![(v & 0xff) as u8, ((v >> 8) & 0xff) as u8]
}

/// The little-endian 32-bit encoding of `v`.
pub open spec fn spec_u32_le(v: u32) -> Seq<u8> {
    seq![
        (v & 0xff) as u8,
        ((v >> 8) & 0xff) as u8,
        ((v >> 16) & 0xff) as u8,
        ((v >> 24) & 0xff) as u8,
    ]
}

/// The little-endian 64-bit encoding of `v`.
pub open spec fn spec_u64_le(v: u64) -> Seq<u8> {
    seq![
        (v & 0xff) as u8,
        ((v >> 8) & 0xff) as u8,
        ((v >> 16) & 0xff) as u8,
        ((v >> 24) & 0xff) as u8,
        ((v >> 32) & 0xff) as u8,
        ((v >> 40) & 0xff) as u8,
        ((v >> 48) & 0xff) as u8,
        ((v >> 56) & 0xff) as u8,
    ]
}

/// The value of two little-endian bytes.
pub open spec fn spec_u16_from_le(b: Seq<u8>) -> u16
    recommends
        b.len() == 2,
{
    (b[0] + b[1] * 0x100) as u16
}

/// The value of four little-endian bytes.
pub open spec fn spec_u32_from_le(b: Seq<u8>) -> u32
    recommends
        b.len() == 4,
{
    (b[0] + b[1] * 0x100 + b[2] * 0x1_0000 + b[3] * 0x100_0000) as u32
}

/// The value of eight little-endian bytes.
pub open spec fn spec_u64_from_le(b: Seq<u8>) -> u64
    recommends
        b.len() == 8,
{
    (b[0] + b[1] * 0x100 + b[2] * 0x1_0000 + b[3] * 0x100_0000 + b[4] * 0x1_0000_0000 + b[5]
        * 0x100_0000_0000 + b[6] * 0x1_0000_0000_0000 + b[7] * 0x100_0000_0000_0000) as u64
}

/// Reading back the two little-endian bytes of `v` yields `v`.
pub proof fn lemma_u16_round_trip(v: u16)
    ensures
        spec_u16_from_le(spec_u16_le(v)) == v,
{
    assert((v & 0xff) + ((v >> 8) & 0xff) * 0x100 == v) by (bit_vector);
    assert((v & 0xff) < 0x100 && ((v >> 8) & 0xff) < 0x100) by (bit_vector);
}

/// Reading back the four little-endian bytes of `v` yields `v`.
pub proof fn lemma_u32_round_trip(v: u32)
    ensures
        spec_u32_from_le(spec_u32_le(v)) == v,
{
    assert((v & 0xff) + ((v >> 8) & 0xff) * 0x100 + ((v >> 16) & 0xff) * 0x1_0000 + ((v >> 24)
        & 0xff) * 0x100_0000 == v) by (bit_vector);
    assert((v & 0xff) < 0x100 && ((v >> 8) & 0xff) < 0x100 && ((v >> 16) & 0xff) < 0x100 && ((v
        >> 24) & 0xff) < 0x100) by (bit_vector);
}

/// Reading back the eight little-endian bytes of `v` yields `v`.
pub proof fn lemma_u64_round_trip(v: u64)
    ensures
        spec_u64_from_le(spec_u64_le(v)) == v,
{
    assert((v & 0xff) + ((v >> 8) & 0xff) * 0x100 + ((v >> 16) & 0xff) * 0x1_0000 + ((v >> 24)
        & 0xff) * 0x100_0000 + ((v >> 32) & 0xff) * 0x1_0000_0000 + ((v >> 40) & 0xff)
        * 0x100_0000_0000 + ((v >> 48) & 0xff) * 0x1_0000_0000_0000 + ((v >> 56) & 0xff)
        * 0x100_0000_0000_0000 == v) by (bit_vector);
    assert((v & 0xff) < 0x100 && ((v >> 8) & 0xff) < 0x100 && ((v >> 16) & 0xff) < 0x100 && ((v
        >> 24) & 0xff) < 0x100 && ((v >> 32) & 0xff) < 0x100 && ((v >> 40) & 0xff) < 0x100 && ((v
        >> 48) & 0xff) < 0x100 && ((v >> 56) & 0xff) < 0x100) by (bit_vector);
}

/// Parses a 16-bit little-endian value off the front of the input.
pub open spec fn p_u16(b: Seq<u8>) -> Option<(u16, Seq<u8>)> {
    if b.len() >= 2 {
        Some((spec_u16_from_le(b.take(2)), b.skip(2)))
    } else {
        None
    }
}

/// Parses a 32-bit little-endian value off the front of the input.
pub open spec fn p_u32(b: Seq<u8>) -> Option<(u32, Seq<u8>)> {
    if b.len() >= 4 {
        Some((spec_u32_from_le(b.take(4)), b.skip(4)))
    } else {
        None
    }
}

/// Parses a 64-bit little-endian value off the front of the input.
pub open spec fn p_u64(b: Seq<u8>) -> Option<(u64, Seq<u8>)> {
    if b.len() >= 8 {
        Some((spec_u64_from_le(b.take(8)), b.skip(8)))
    } else {
        None
    }
}

/// Parsing an encoded 16-bit value followed by anything yields the value.
pub proof fn lemma_p_u16(v: u16, rest: Seq<u8>)
    ensures
        p_u16(spec_u16_le(v) + rest) == Some((v, rest)),
{
    let b = spec_u16_le(v) + rest;
    assert(b.take(2) =~= spec_u16_le(v));
    assert(b.skip(2) =~= rest);
    lemma_u16_round_trip(v);
}

/// Parsing an encoded 32-bit value followed by anything yields the value.
pub proof fn lemma_p_u32(v: u32, rest: Seq<u8>)
    ensures
        p_u32(spec_u32_le(v) + rest) == Some((v, rest)),
{
    let b = spec_u32_le(v) + rest;
    assert(b.take(4) =~= spec_u32_le(v));
    assert(b.skip(4) =~= rest);
    lemma_u32_round_trip(v);
}

/// Parsing an encoded 64-bit value followed by anything yields the value.
pub proof fn lemma_p_u64(v: u64, rest: Seq<u8>)
    ensures
        p_u64(spec_u64_le(v) + rest) == Some((v, rest)),
{
    let b = spec_u64_le(v) + rest;
    assert(b.take(8) =~= spec_u64_le(v));
    assert(b.skip(8) =~= rest);
    lemma_u64_round_trip(v);
}

/// Appends the two little-endian bytes of `v`.
pub fn push_u16_le(out: &mut Vec<u8>, v: u16)
    ensures
        final(out)@ == old(out)@ + spec_u16_le(v),
{
    let ghost pre = out@;
    out.push((v & 0xff) as u8);
    out.push(((v >> 8) & 0xff) as u8);
    proof {
        assert(final(out)@ =~= pre + spec_u16_le(v));
    }
}

/// Appends the four little-endian bytes of `v`.
pub fn push_u32_le(out: &mut Vec<u8>, v: u32)
    ensures
        final(out)@ == old(out)@ + spec_u32_le(v),
{
    let ghost pre = out@;
    out.push((v & 0xff) as u8);
    out.push(((v >> 8) & 0xff) as u8);
    out.push(((v >> 16) & 0xff) as u8);
    out.push(((v >> 24) & 0xff) as u8);
    proof {
        assert(final(out)@ =~= pre + spec_u32_le(v));
    }
}

/// Appends the eight little-endian bytes of `v`.
pub fn push_u64_le(out: &mut Vec<u8>, v: u64)
    ensures
        final(out)@ == old(out)@ + spec_u64_le(v),
{
    let ghost pre = out@;
    out.push((v & 0xff) as u8);
    out.push(((v >> 8) & 0xff) as u8);
    out.push(((v >> 16) & 0xff) as u8);
    out.push(((v >> 24) & 0xff) as u8);
    out.push(((v >> 32) & 0xff) as u8);
    out.push(((v >> 40) & 0xff) as u8);
    out.push(((v >> 48) & 0xff) as u8);
    out.push(((v >> 56) & 0xff) as u8);
    proof {
        assert(final(out)@ =~= pre + spec_u64_le(v));
    }
}

/// Reads a 16-bit little-endian value at `off`, mirroring [`p_u16`] on the
/// input that remains from `off`.
pub fn read_u16_le(b: &Vec<u8>, off: usize) -> (r: Option<(u16, usize)>)
    requires
        off <= b@.len(),
    ensures
        match r {
            Some(p) => {
                &&& p_u16(b@.skip(off as int)) == Some((p.0, b@.skip(p.1 as int)))
                &&& off < p.1 <= b@.len()
            },
            None => p_u16(b@.skip(off as int)) is None,
        },
{
    if b.len() - off >= 2 {
        let v: u16 = (b[off] as u16) + (b[off + 1] as u16) * 0x100;
        proof {
            let s = b@.skip(off as int);
            assert(s.take(2)[0] == b@[off as int]);
            assert(s.take(2)[1] == b@[off as int + 1]);
            assert(s.skip(2) =~= b@.skip(off as int + 2));
        }
        Some((v, off + 2))
    } else {
        None
    }
}

/// Reads a 32-bit little-endian value at `off`, mirroring [`p_u32`].
pub fn read_u32_le(b: &Vec<u8>, off: usize) -> (r: Option<(u32, usize)>)
    requires
        off <= b@.len(),
    ensures
        match r {
            Some(p) => {
                &&& p_u32(b@.skip(off as int)) == Some((p.0, b@.skip(p.1 as int)))
                &&& off < p.1 <= b@.len()
            },
            None => p_u32(b@.skip(off as int)) is None,
        },
{
    if b.len() - off >= 4 {
        let v: u32 = (b[off] as u32) + (b[off + 1] as u32) * 0x100 + (b[off + 2] as u32) * 0x1_0000
            + (b[off + 3] as u32) * 0x100_0000;
        proof {
            let s = b@.skip(off as int);
            assert(s.take(4)[0] == b@[off as int]);
            assert(s.take(4)[1] == b@[off as int + 1]);
            assert(s.take(4)[2] == b@[off as int + 2]);
            assert(s.take(4)[3] == b@[off as int + 3]);
            assert(s.skip(4) =~= b@.skip(off as int + 4));
        }
        Some((v, off + 4))
    } else {
        None
    }
}

/// Reads a 64-bit little-endian value at `off`, mirroring [`p_u64`].
pub fn read_u64_le(b: &Vec<u8>, off: usize) -> (r: Option<(u64, usize)>)
    requires
        off <= b@.len(),
    ensures
        match r {
            Some(p) => {
                &&& p_u64(b@.skip(off as int)) == Some((p.0, b@.skip(p.1 as int)))
                &&& off < p.1 <= b@.len()
            },
            None => p_u64(b@.skip(off as int)) is None,
        },
{
    if b.len() - off >= 8 {
        let v: u64 = (b[off] as u64) + (b[off + 1] as u64) * 0x100 + (b[off + 2] as u64) * 0x1_0000
            + (b[off + 3] as u64) * 0x100_0000 + (b[off + 4] as u64) * 0x1_0000_0000 + (b[off + 5]
            as u64) * 0x100_0000_0000 + (b[off + 6] as u64) * 0x1_0000_0000_0000 + (b[off + 7]
            as u64) * 0x100_0000_0000_0000;
        proof {
            let s = b@.skip(off as int);
            assert(s.take(8)[0] == b@[off as int]);
            assert(s.take(8)[1] == b@[off as int + 1]);
            assert(s.take(8)[2] == b@[off as int + 2]);
            assert(s.take(8)[3] == b@[off as int + 3]);
            assert(s.take(8)[4] == b@[off as int + 4]);
            assert(s.take(8)[5] == b@[off as int + 5]);
            assert(s.take(8)[6] == b@[off as int + 6]);
            assert(s.take(8)[7] == b@[off as int + 7]);
            assert(s.skip(8) =~= b@.skip(off as int + 8));
        }
        Some((v, off + 8))
    } else {
        None
    }
}

/// Reads the byte at `off`, mirroring a one-byte parse.
pub fn read_u8(b: &Vec<u8>, off: usize) -> (r: Option<(u8, usize)>)
    requires
        off <= b@.len(),
    ensures
        match r {
            Some(p) => {
                &&& off < b@.len()
                &&& p.0 == b@.skip(off as int)[0]
                &&& p.1 == off + 1
                &&& b@.skip(off as int).skip(1) == b@.skip(p.1 as int)
            },
            None => b@.skip(off as int).len() == 0,
        },
{
    if off < b.len() {
        proof {
            assert(b@.skip(off as int).skip(1) =~= b@.skip(off as int + 1));
        }
        Some((b[off], off + 1))
    } else {
        None
    }
}

} // verus!
