//! Byte-oriented reader/writer pair over a contiguous buffer.
//!
//! Fixed-size fields are written as raw fixed-length byte runs with no
//! length prefix; a short buffer on read is a `CorruptedData` error.
//! Variable-size fields carry an 8-byte big-endian length prefix.

use vstd::prelude::*;

use crate::error::ErrorKind;

verus! {

/// Big-endian byte encoding of a 64-bit length field.
pub open spec fn u64_be(v: u64) -> Seq<u8> {
    seq![
        (v >> 56) as u8,
        (v >> 48) as u8,
        (v >> 40) as u8,
        (v >> 32) as u8,
        (v >> 24) as u8,
        (v >> 16) as u8,
        (v >> 8) as u8,
        v as u8,
    ]
}

/// The 64-bit value read back from eight big-endian bytes.
pub open spec fn be_u64(s: Seq<u8>) -> u64
    recommends
        s.len() == 8,
{
    (((s[0] as u64) << 56) | ((s[1] as u64) << 48) | ((s[2] as u64) << 40)
        | ((s[3] as u64) << 32) | ((s[4] as u64) << 24) | ((s[5] as u64) << 16)
        | ((s[6] as u64) << 8) | (s[7] as u64)) as u64
}

/// Reading back the eight bytes of a written 64-bit value yields the value.
pub proof fn lemma_u64_roundtrip(v: u64)
    ensures
        be_u64(u64_be(v)) == v,
{
    assert((((((v >> 56) as u8) as u64) << 56) | ((((v >> 48) as u8) as u64) << 48)
        | ((((v >> 40) as u8) as u64) << 40) | ((((v >> 32) as u8) as u64) << 32)
        | ((((v >> 24) as u8) as u64) << 24) | ((((v >> 16) as u8) as u64) << 16)
        | ((((v >> 8) as u8) as u64) << 8) | ((v as u8) as u64)) as u64 == v) by (bit_vector);
}

/// Append one byte to the buffer.
pub fn write_u8(buf: &mut Vec<u8>, v: u8)
    ensures
        final(buf)@ == old(buf)@.push(v),
{
    buf.push(v);
}

/// Append a raw fixed-length byte run, with no length prefix.
pub fn write_fixed_bytes(buf: &mut Vec<u8>, bytes: &Vec<u8>)
    ensures
        final(buf)@ == old(buf)@ + bytes@,
{
    let mut i: usize = 0;
    while i < bytes.len()
        invariant
            i <= bytes@.len(),
            buf@ == old(buf)@ + bytes@.subrange(0, i as int),
        decreases bytes@.len() - i,
    {
        let b = bytes[i];
        proof {
            assert(old(buf)@ + bytes@.subrange(0, i as int) + seq![bytes@[i as int]]
                =~= old(buf)@ + bytes@.subrange(0, i as int + 1));
        }
        buf.push(b);
        i = i + 1;
    }
    proof {
        assert(old(buf)@ + bytes@.subrange(0, bytes@.len() as int) =~= old(buf)@ + bytes@);
    }
}

/// Append a 64-bit value as eight big-endian bytes.
pub fn write_u64(buf: &mut Vec<u8>, v: u64)
    ensures
        final(buf)@ == old(buf)@ + u64_be(v),
{
    buf.push((v >> 56) as u8);
    buf.push((v >> 48) as u8);
    buf.push((v >> 40) as u8);
    buf.push((v >> 32) as u8);
    buf.push((v >> 24) as u8);
    buf.push((v >> 16) as u8);
    buf.push((v >> 8) as u8);
    buf.push(v as u8);
    proof {
        assert(final(buf)@ =~= old(buf)@ + u64_be(v));
    }
}

/// Read one byte; a short buffer is `CorruptedData`.
pub fn read_u8(data: &Vec<u8>, pos: &mut usize) -> (r: Result<u8, ErrorKind>)
    ensures
        *old(pos) < data@.len() ==> (r matches Ok(v) && v == data@[*old(pos) as int]
            && *final(pos) == *old(pos) + 1),
        *old(pos) >= data@.len() ==> (r == Err::<u8, ErrorKind>(ErrorKind::CorruptedData)
            && *final(pos) == *old(pos)),
{
    if *pos < data.len() {
        let v = data[*pos];
        *pos = *pos + 1;
        Ok(v)
    } else {
        Err(ErrorKind::CorruptedData)
    }
}

/// Read a raw fixed-length byte run; a short buffer is `CorruptedData`.
pub fn read_fixed_bytes(data: &Vec<u8>, pos: &mut usize, len: usize) -> (r: Result<
    Vec<u8>,
    ErrorKind,
>)
    ensures
        *old(pos) + len <= data@.len() ==> (r matches Ok(v)
            && v@ == data@.subrange(*old(pos) as int, *old(pos) + len)
            && *final(pos) == *old(pos) + len),
        *old(pos) + len > data@.len() ==> (r == Err::<Vec<u8>, ErrorKind>(
            ErrorKind::CorruptedData,
        ) && *final(pos) == *old(pos)),
{
    if *pos <= data.len() && len <= data.len() - *pos {
        let start: usize = *pos;
        let n: usize = data.len();
        let mut out: Vec<u8> = Vec::new();
        let mut i: usize = 0;
        while i < len
            invariant
                i <= len,
                n == data@.len(),
                start + len <= n,
                out@ == data@.subrange(start as int, start as int + i),
            decreases len - i,
        {
            proof {
                assert(data@.subrange(start as int, start as int + i).push(
                    data@[start as int + i],
                ) =~= data@.subrange(start as int, start as int + i + 1));
            }
            out.push(data[start + i]);
            i = i + 1;
        }
        *pos = start + len;
        Ok(out)
    } else {
        Err(ErrorKind::CorruptedData)
    }
}

/// Read a 64-bit big-endian value; a short buffer is `CorruptedData`.
pub fn read_u64(data: &Vec<u8>, pos: &mut usize) -> (r: Result<u64, ErrorKind>)
    ensures
        *old(pos) + 8 <= data@.len() ==> (r matches Ok(v)
            && v == be_u64(data@.subrange(*old(pos) as int, *old(pos) + 8))
            && *final(pos) == *old(pos) + 8),
        *old(pos) + 8 > data@.len() ==> (r == Err::<u64, ErrorKind>(ErrorKind::CorruptedData)
            && *final(pos) == *old(pos)),
{
    let bytes = read_fixed_bytes(data, pos, 8)?;
    let v: u64 = ((bytes[0] as u64) << 56) | ((bytes[1] as u64) << 48) | ((bytes[2] as u64) << 40)
        | ((bytes[3] as u64) << 32) | ((bytes[4] as u64) << 24) | ((bytes[5] as u64) << 16) | ((
    bytes[6] as u64) << 8) | (bytes[7] as u64);
    Ok(v)
}

} // verus!
