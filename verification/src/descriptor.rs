//! The self-delimiting descriptor length codec used by sample-entry
//! sub-structures: a big-endian base-128 length where each byte's top bit
//! signals continuation, at most four bytes long, encoded in the fewest
//! bytes that hold the value.
use vstd::prelude::*;

use crate::types::Error;

verus! {

/// Largest length the four-byte form can hold.
pub const DESC_MAX_LENGTH: u32 = 0x0fffffff;

/// The minimal encoding of a descriptor length: one byte per seven bits,
/// high bit set on every byte but the last.
pub open spec fn desc_len_bytes(size: u32) -> Seq<u8> {
    if size < 0x80 {
        seq![(size % 0x80) as u8]
    } else if size < 0x4000 {
        seq![(0x80 + (size / 0x80) % 0x80) as u8, (size % 0x80) as u8]
    } else if size < 0x200000 {
        seq![
            (0x80 + (size / 0x4000) % 0x80) as u8,
            (0x80 + (size / 0x80) % 0x80) as u8,
            (size % 0x80) as u8,
        ]
    } else {
        seq![
            (0x80 + (size / 0x200000) % 0x80) as u8,
            (0x80 + (size / 0x4000) % 0x80) as u8,
            (0x80 + (size / 0x80) % 0x80) as u8,
            (size % 0x80) as u8,
        ]
    }
}

/// How many bytes the minimal encoding takes.
pub open spec fn desc_len_size(size: u32) -> int {
    if size < 0x80 {
        1
    } else if size < 0x4000 {
        2
    } else if size < 0x200000 {
        3
    } else {
        4
    }
}

/// Decodes a descriptor length at `pos`: seven value bits per byte until a
/// byte with the continuation bit clear, capped at four bytes.
pub open spec fn parse_desc_len(data: Seq<u8>, pos: int, acc: u32, fuel: int) -> Option<
    (u32, int),
>
    decreases fuel,
{
    if fuel <= 0 {
        Some((acc, pos))
    } else if 0 <= pos < data.len() {
        let b = data[pos];
        let acc2 = ((acc * 0x80) + (b % 0x80) as u32) as u32;
        if b >= 0x80 {
            parse_desc_len(data, pos + 1, acc2, fuel - 1)
        } else {
            Some((acc2, pos + 1))
        }
    } else {
        None
    }
}

/// Appends the minimal encoding of `size`; lengths beyond the four-byte
/// range are out of the encodable range.
pub fn write_desc_len(out: &mut Vec<u8>, size: u32) -> (r: Result<u64, Error>)
    ensures
        match r {
            Ok(n) => size <= DESC_MAX_LENGTH && final(out)@ == old(out)@ + desc_len_bytes(size)
                && n == desc_len_size(size),
            Err(e) => size > DESC_MAX_LENGTH && final(out)@ == old(out)@ && e is InvalidData,
        },
{
    if size > DESC_MAX_LENGTH {
        return Err(Error::InvalidData("descriptor length out of range"));
    }
    if size < 0x80 {
        out.push((size % 0x80) as u8);
        proof {
            assert(out@ =~= old(out)@ + desc_len_bytes(size));
        }
        Ok(1)
    } else if size < 0x4000 {
        out.push((0x80 + (size / 0x80) % 0x80) as u8);
        out.push((size % 0x80) as u8);
        proof {
            assert(out@ =~= old(out)@ + desc_len_bytes(size));
        }
        Ok(2)
    } else if size < 0x200000 {
        out.push((0x80 + (size / 0x4000) % 0x80) as u8);
        out.push((0x80 + (size / 0x80) % 0x80) as u8);
        out.push((size % 0x80) as u8);
        proof {
            assert(out@ =~= old(out)@ + desc_len_bytes(size));
        }
        Ok(3)
    } else {
        out.push((0x80 + (size / 0x200000) % 0x80) as u8);
        out.push((0x80 + (size / 0x4000) % 0x80) as u8);
        out.push((0x80 + (size / 0x80) % 0x80) as u8);
        out.push((size % 0x80) as u8);
        proof {
            assert(out@ =~= old(out)@ + desc_len_bytes(size));
        }
        Ok(4)
    }
}

/// Reads a descriptor length at the cursor.
pub fn read_desc_len(data: &Vec<u8>, pos: &mut usize) -> (r: Result<u32, Error>)
    ensures
        match r {
            Ok(v) => parse_desc_len(data@, *old(pos) as int, 0, 4) == Some(
                (v, *final(pos) as int),
            ) && *final(pos) <= data@.len(),
            Err(e) => parse_desc_len(data@, *old(pos) as int, 0, 4) is None
                && e is UnexpectedEof,
        },
{
    let mut size: u32 = 0;
    let mut i: usize = 0;
    loop
        invariant
            i <= 4,
            i > 0 ==> *pos <= data@.len(),
            parse_desc_len(data@, *old(pos) as int, 0, 4) == parse_desc_len(
                data@,
                *pos as int,
                size,
                4 - i,
            ),
            i == 0 ==> size == 0,
            i == 1 ==> size < 0x80,
            i == 2 ==> size < 0x4000,
            i == 3 ==> size < 0x200000,
            i == 4 ==> size < 0x10000000,
        decreases 4 - i,
    {
        if i >= 4 {
            proof {
                assert(parse_desc_len(data@, *pos as int, size, 0) == Some(
                    (size, *pos as int),
                ));
            }
            return Ok(size);
        }
        if *pos >= data.len() {
            return Err(Error::UnexpectedEof);
        }
        let b = data[*pos];
        *pos = *pos + 1;
        size = size * 0x80 + (b % 0x80) as u32;
        i = i + 1;
        if b < 0x80 {
            return Ok(size);
        }
    }
}

/// Encoding a descriptor length and decoding the produced bytes gives the
/// length back, for every encodable value, and the encoding is minimal:
/// one byte per full seven bits of the value.
pub proof fn lemma_desc_len_roundtrip(size: u32, data: Seq<u8>, pos: int)
    requires
        size <= DESC_MAX_LENGTH,
        0 <= pos,
        pos + desc_len_size(size) <= data.len(),
        data.subrange(pos, pos + desc_len_size(size)) == desc_len_bytes(size),
    ensures
        desc_len_bytes(size).len() == desc_len_size(size),
        parse_desc_len(data, pos, 0, 4) == Some((size, pos + desc_len_size(size))),
{
    if size < 0x80 {
        let b0 = data[pos];
        assert(b0 == desc_len_bytes(size)[0]);
        assert(b0 == (size % 0x80) as u8);
        assert(parse_desc_len(data, pos, 0, 4) == Some(
            (((0u32 * 0x80) + (b0 % 0x80) as u32) as u32, pos + 1),
        ));
    } else if size < 0x4000 {
        let b0 = data[pos];
        let b1 = data[pos + 1];
        assert(b0 == desc_len_bytes(size)[0]);
        assert(b1 == desc_len_bytes(size)[1]);
        let a1: u32 = ((0u32 * 0x80) + (b0 % 0x80) as u32) as u32;
        assert(b0 >= 0x80 && b1 < 0x80);
        assert(a1 == (size / 0x80) % 0x80);
        assert(parse_desc_len(data, pos, 0, 4) == parse_desc_len(data, pos + 1, a1, 3));
        assert(parse_desc_len(data, pos + 1, a1, 3) == Some(
            (((a1 * 0x80) + (b1 % 0x80) as u32) as u32, pos + 2),
        ));
        assert((size / 0x80) % 0x80 * 0x80 + size % 0x80 == size) by (nonlinear_arith)
            requires
                0x80 <= size < 0x4000,
        ;
    } else if size < 0x200000 {
        let b0 = data[pos];
        let b1 = data[pos + 1];
        let b2 = data[pos + 2];
        assert(b0 == desc_len_bytes(size)[0]);
        assert(b1 == desc_len_bytes(size)[1]);
        assert(b2 == desc_len_bytes(size)[2]);
        let a1: u32 = ((0u32 * 0x80) + (b0 % 0x80) as u32) as u32;
        let a2: u32 = ((a1 * 0x80) + (b1 % 0x80) as u32) as u32;
        assert(b0 >= 0x80 && b1 >= 0x80 && b2 < 0x80);
        assert(a1 == (size / 0x4000) % 0x80);
        assert(parse_desc_len(data, pos, 0, 4) == parse_desc_len(data, pos + 1, a1, 3));
        assert(parse_desc_len(data, pos + 1, a1, 3) == parse_desc_len(data, pos + 2, a2, 2));
        assert(parse_desc_len(data, pos + 2, a2, 2) == Some(
            (((a2 * 0x80) + (b2 % 0x80) as u32) as u32, pos + 3),
        ));
        assert(((size / 0x4000) % 0x80 * 0x80 + (size / 0x80) % 0x80) * 0x80 + size % 0x80 == size
            && (size / 0x4000) % 0x80 * 0x80 + (size / 0x80) % 0x80 < 0x4000) by (nonlinear_arith)
            requires
                0x4000 <= size < 0x200000,
        ;
    } else {
        let b0 = data[pos];
        let b1 = data[pos + 1];
        let b2 = data[pos + 2];
        let b3 = data[pos + 3];
        assert(b0 == desc_len_bytes(size)[0]);
        assert(b1 == desc_len_bytes(size)[1]);
        assert(b2 == desc_len_bytes(size)[2]);
        assert(b3 == desc_len_bytes(size)[3]);
        let a1: u32 = ((0u32 * 0x80) + (b0 % 0x80) as u32) as u32;
        let a2: u32 = ((a1 * 0x80) + (b1 % 0x80) as u32) as u32;
        let a3: u32 = ((a2 * 0x80) + (b2 % 0x80) as u32) as u32;
        assert(b0 >= 0x80 && b1 >= 0x80 && b2 >= 0x80 && b3 < 0x80);
        assert(a1 == (size / 0x200000) % 0x80);
        assert(parse_desc_len(data, pos, 0, 4) == parse_desc_len(data, pos + 1, a1, 3));
        assert(parse_desc_len(data, pos + 1, a1, 3) == parse_desc_len(data, pos + 2, a2, 2));
        assert(parse_desc_len(data, pos + 2, a2, 2) == parse_desc_len(data, pos + 3, a3, 1));
        assert(parse_desc_len(data, pos + 3, a3, 1) == Some(
            (((a3 * 0x80) + (b3 % 0x80) as u32) as u32, pos + 4),
        ));
        assert((((size / 0x200000) % 0x80 * 0x80 + (size / 0x4000) % 0x80) * 0x80 + (size / 0x80)
            % 0x80) * 0x80 + size % 0x80 == size && (size / 0x200000) % 0x80 * 0x80 + (size
            / 0x4000) % 0x80 < 0x4000 && ((size / 0x200000) % 0x80 * 0x80 + (size / 0x4000) % 0x80)
            * 0x80 + (size / 0x80) % 0x80 < 0x200000) by (nonlinear_arith)
            requires
                0x200000 <= size <= 0x0fffffff,
        ;
    }
}

} // verus!
