//! The `(size, tag)` box header and the version-and-flags extension that
//! full boxes add to it.
use vstd::prelude::*;

use crate::boxtype::BoxType;
use crate::primitives::{
    be32_at, be64_at, get_u32, get_u64, lemma_u32_be_bytes_roundtrip, lemma_u64_be_bytes_roundtrip,
    put_u32, spec_u32_to_be_bytes, spec_u64_to_be_bytes,
};
use crate::types::Error;

verus! {

/// The decoded prefix of a box: its tag and its declared total size in
/// bytes, header included.
#[derive(Debug, Clone, Copy, PartialEq, Eq, Structural)]
pub struct BoxHeader {
    pub name: BoxType,
    pub size: u64,
}

/// The serialized form of a header: the compact one when the size fits in
/// 32 bits, else the marker word 1 followed by a 64-bit size.
pub open spec fn header_bytes(name: BoxType, size: u64) -> Seq<u8> {
    if size > 0xffffffff {
        spec_u32_to_be_bytes(1) + spec_u32_to_be_bytes(name.spec_to_u32()) + spec_u64_to_be_bytes(
            size,
        )
    } else {
        spec_u32_to_be_bytes(size as u32) + spec_u32_to_be_bytes(name.spec_to_u32())
    }
}

/// Decodes the header at `pos`: the header value and the position of the
/// first payload byte. `None` when the buffer ends inside the header.
pub open spec fn parse_header(data: Seq<u8>, pos: int) -> Option<(BoxHeader, int)> {
    if pos + 8 <= data.len() {
        let s32 = be32_at(data, pos);
        let name = BoxType::spec_from_u32(be32_at(data, pos + 4));
        if s32 == 1 {
            if pos + 16 <= data.len() {
                Some((BoxHeader { name, size: be64_at(data, pos + 8) }, pos + 16))
            } else {
                None
            }
        } else {
            Some((BoxHeader { name, size: s32 as u64 }, pos + 8))
        }
    } else {
        None
    }
}

impl BoxHeader {
    pub fn new(name: BoxType, size: u64) -> (r: BoxHeader)
        ensures
            r == (BoxHeader { name, size }),
    {
        BoxHeader { name, size }
    }

    /// Appends the encoded header; returns the number of bytes appended.
    pub fn write(&self, out: &mut Vec<u8>) -> (r: Result<u64, Error>)
        ensures
            final(out)@ == old(out)@ + header_bytes(self.name, self.size),
            r matches Ok(n) && n == header_bytes(self.name, self.size).len(),
    {
        if self.size > 0xffffffff {
            put_u32(out, 1);
            put_u32(out, self.name.to_u32());
            crate::primitives::put_u64(out, self.size);
            proof {
                assert(out@ =~= old(out)@ + header_bytes(self.name, self.size));
            }
            Ok(16)
        } else {
            put_u32(out, self.size as u32);
            put_u32(out, self.name.to_u32());
            proof {
                assert(out@ =~= old(out)@ + header_bytes(self.name, self.size));
            }
            Ok(8)
        }
    }

    /// Decodes the header at the cursor and advances past it.
    pub fn read(data: &Vec<u8>, pos: &mut usize) -> (r: Result<BoxHeader, Error>)
        ensures
            match r {
                Ok(h) => parse_header(data@, *old(pos) as int) == Some((h, *final(pos) as int))
                    && *old(pos) <= *final(pos) <= data@.len(),
                Err(e) => parse_header(data@, *old(pos) as int) is None && *final(pos) == *old(pos)
                    && e is UnexpectedEof,
            },
    {
        let s32 = get_u32(data, pos)?;
        let tag = match get_u32(data, pos) {
            Ok(v) => v,
            Err(e) => {
                *pos = *pos - 4;
                return Err(e);
            },
        };
        let name = BoxType::from_u32(tag);
        if s32 == 1 {
            match get_u64(data, pos) {
                Ok(big) => Ok(BoxHeader { name, size: big }),
                Err(e) => {
                    *pos = *pos - 8;
                    Err(e)
                },
            }
        } else {
            Ok(BoxHeader { name, size: s32 as u64 })
        }
    }
}

/// Writing a header and decoding it at the same offset gives the header
/// back, for every known tag and every size a real box can declare.
pub proof fn lemma_header_roundtrip(name: BoxType, size: u64, data: Seq<u8>, pos: int)
    requires
        0 <= pos,
        pos + header_bytes(name, size).len() <= data.len(),
        data.subrange(pos, pos + header_bytes(name, size).len()) == header_bytes(name, size),
        !(name is UnknownBox),
        size >= 2,
    ensures
        parse_header(data, pos) == Some(
            (BoxHeader { name, size }, pos + header_bytes(name, size).len()),
        ),
{
    let hb = header_bytes(name, size);
    lemma_u32_be_bytes_roundtrip(name.spec_to_u32());
    crate::boxtype::lemma_boxtype_u32_roundtrip(name);
    if size > 0xffffffff {
        lemma_u32_be_bytes_roundtrip(1);
        lemma_u64_be_bytes_roundtrip(size);
        assert(data.subrange(pos, pos + 4) =~= hb.subrange(0, 4));
        assert(data.subrange(pos + 4, pos + 8) =~= hb.subrange(4, 8));
        assert(data.subrange(pos + 8, pos + 16) =~= hb.subrange(8, 16));
        assert(hb.subrange(0, 4) =~= spec_u32_to_be_bytes(1));
        assert(hb.subrange(4, 8) =~= spec_u32_to_be_bytes(name.spec_to_u32()));
        assert(hb.subrange(8, 16) =~= spec_u64_to_be_bytes(size));
    } else {
        lemma_u32_be_bytes_roundtrip(size as u32);
        assert(data.subrange(pos, pos + 4) =~= hb.subrange(0, 4));
        assert(data.subrange(pos + 4, pos + 8) =~= hb.subrange(4, 8));
        assert(hb.subrange(0, 4) =~= spec_u32_to_be_bytes(size as u32));
        assert(hb.subrange(4, 8) =~= spec_u32_to_be_bytes(name.spec_to_u32()));
    }
}

/// The packed version-and-flags word of a full box.
pub open spec fn ext_word(version: u8, flags: u32) -> u32 {
    (((version as u32) << 24) | (flags & 0xffffff)) as u32
}

pub open spec fn ext_version(w: u32) -> u8 {
    (w >> 24) as u8
}

pub open spec fn ext_flags(w: u32) -> u32 {
    w & 0xffffff
}

pub broadcast proof fn lemma_ext_word_roundtrip(version: u8, flags: u32)
    ensures
        ext_version(#[trigger] ext_word(version, flags)) == version,
        ext_flags(ext_word(version, flags)) == flags & 0xffffff,
        flags < 0x1000000 ==> ext_flags(ext_word(version, flags)) == flags,
        flags < 0x1000000 ==> ext_word(version, flags) == ((version as u32) << 24) | flags,
{
    assert(((((version as u32) << 24) | (flags & 0xffffff)) >> 24) as u8 == version)
        by (bit_vector);
    assert(((((version as u32) << 24) | (flags & 0xffffff)) & 0xffffff) == flags & 0xffffff)
        by (bit_vector);
    assert(flags < 0x1000000 ==> flags & 0xffffff == flags) by (bit_vector);
}

/// The serialized version-and-flags extension.
pub open spec fn ext_bytes(version: u8, flags: u32) -> Seq<u8> {
    spec_u32_to_be_bytes(ext_word(version, flags))
}

/// Appends the version-and-flags extension of a full box.
pub fn write_box_header_ext(out: &mut Vec<u8>, version: u8, flags: u32)
    ensures
        final(out)@ == old(out)@ + ext_bytes(version, flags),
{
    put_u32(out, ((version as u32) << 24) | (flags & 0xffffff));
}

/// Reads the version-and-flags extension of a full box.
pub fn read_box_header_ext(data: &Vec<u8>, pos: &mut usize) -> (r: Result<(u8, u32), Error>)
    ensures
        match r {
            Ok(vf) => *old(pos) + 4 <= data@.len() && vf.0 == ext_version(
                be32_at(data@, *old(pos) as int),
            ) && vf.1 == ext_flags(be32_at(data@, *old(pos) as int)) && *final(pos) == *old(pos)
                + 4,
            Err(e) => *old(pos) + 4 > data@.len() && *final(pos) == *old(pos)
                && e is UnexpectedEof,
        },
{
    let w = get_u32(data, pos)?;
    Ok((((w >> 24) as u8), w & 0xffffff))
}

} // verus!
