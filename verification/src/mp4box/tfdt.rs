//! The track-fragment-decode-time box: the absolute decode timestamp of
//! the fragment's first sample, 64 bits wide under version 1 and 32 under
//! version 0.
use vstd::prelude::*;

use crate::boxtype::BoxType;
use crate::header::{
    ext_bytes, ext_flags, ext_version, header_bytes, lemma_ext_word_roundtrip,
    lemma_header_roundtrip, parse_header, read_box_header_ext, write_box_header_ext, BoxHeader,
};
use crate::primitives::{
    be32_at, be64_at, get_u32, get_u64, lemma_u32_be_bytes_roundtrip, lemma_u64_be_bytes_roundtrip,
    put_u32, put_u64, skip_to_end, spec_u32_to_be_bytes, spec_u64_to_be_bytes,
};
use crate::types::{Error, HEADER_EXT_SIZE, HEADER_SIZE};

verus! {

#[derive(Debug, Clone, Copy, PartialEq, Eq, Structural, Default)]
pub struct TfdtBox {
    pub version: u8,
    pub flags: u32,
    pub base_media_decode_time: u64,
}

impl TfdtBox {
    /// A version-0 decode time must fit its 32-bit field, which is the
    /// caller's responsibility.
    pub open spec fn wf(self) -> bool {
        &&& self.version <= 1
        &&& self.flags < 0x1000000
        &&& self.version == 0 ==> self.base_media_decode_time < 0x100000000
    }

    pub open spec fn spec_size(self) -> u64 {
        if self.version == 1 {
            20
        } else {
            16
        }
    }

    pub open spec fn spec_ser(self) -> Seq<u8> {
        header_bytes(BoxType::TfdtBox, self.spec_size()) + ext_bytes(self.version, self.flags)
            + if self.version == 1 {
            spec_u64_to_be_bytes(self.base_media_decode_time)
        } else {
            spec_u32_to_be_bytes(self.base_media_decode_time as u32)
        }
    }

    /// Decodes the payload of a box whose header, already consumed, began
    /// at `start` and declared `size` bytes in total.
    pub open spec fn spec_parse(data: Seq<u8>, start: int, size: int) -> Option<TfdtBox> {
        if start + 12 <= data.len() {
            let version = ext_version(be32_at(data, start + 8));
            let flags = ext_flags(be32_at(data, start + 8));
            if version == 1 {
                if start + 20 <= data.len() && start + size <= data.len() {
                    Some(TfdtBox { version, flags, base_media_decode_time: be64_at(data, start + 12) })
                } else {
                    None
                }
            } else {
                if start + 16 <= data.len() && start + size <= data.len() {
                    Some(
                        TfdtBox {
                            version,
                            flags,
                            base_media_decode_time: be32_at(data, start + 12) as u64,
                        },
                    )
                } else {
                    None
                }
            }
        } else {
            None
        }
    }

    pub fn get_type(&self) -> (r: BoxType)
        ensures
            r == BoxType::TfdtBox,
    {
        BoxType::TfdtBox
    }

    pub fn get_size(&self) -> (r: u64)
        ensures
            r == self.spec_size(),
    {
        if self.version == 1 {
            HEADER_SIZE + HEADER_EXT_SIZE + 8
        } else {
            HEADER_SIZE + HEADER_EXT_SIZE + 4
        }
    }

    pub fn box_type(&self) -> (r: BoxType)
        ensures
            r == BoxType::TfdtBox,
    {
        self.get_type()
    }

    pub fn box_size(&self) -> (r: u64)
        ensures
            r == self.spec_size(),
    {
        self.get_size()
    }

    pub fn write_box(&self, out: &mut Vec<u8>) -> (r: Result<u64, Error>)
        ensures
            final(out)@ == old(out)@ + self.spec_ser(),
            r matches Ok(n) && n == self.spec_size(),
            self.spec_ser().len() == self.spec_size(),
    {
        let size = self.box_size();
        BoxHeader::new(self.box_type(), size).write(out)?;
        write_box_header_ext(out, self.version, self.flags);
        if self.version == 1 {
            put_u64(out, self.base_media_decode_time);
        } else {
            put_u32(out, self.base_media_decode_time as u32);
        }
        proof {
            assert(out@ =~= old(out)@ + self.spec_ser());
        }
        Ok(size)
    }

    pub fn read_box(data: &Vec<u8>, pos: &mut usize, size: u64) -> (r: Result<TfdtBox, Error>)
        requires
            *old(pos) >= 8,
        ensures
            match r {
                Ok(b) => Self::spec_parse(data@, *old(pos) - 8, size as int) == Some(b)
                    && *final(pos) == *old(pos) - 8 + size,
                Err(e) => Self::spec_parse(data@, *old(pos) - 8, size as int) is None
                    && e is UnexpectedEof,
            },
    {
        let start: usize = *pos - 8;
        let (version, flags) = read_box_header_ext(data, pos)?;
        let base_media_decode_time: u64 = if version == 1 {
            get_u64(data, pos)?
        } else {
            get_u32(data, pos)? as u64
        };
        skip_to_end(data, pos, start, size)?;
        Ok(TfdtBox { version, flags, base_media_decode_time })
    }
}

/// Writing a track-fragment-decode-time box and reading the produced bytes
/// back yields the original value.
pub proof fn lemma_tfdt_roundtrip(b: TfdtBox, data: Seq<u8>, start: int)
    requires
        0 <= start,
        b.wf(),
        start + b.spec_size() <= data.len(),
        data.subrange(start, start + b.spec_size() as int) == b.spec_ser(),
    ensures
        parse_header(data, start) == Some(
            (BoxHeader { name: BoxType::TfdtBox, size: b.spec_size() }, start + 8),
        ),
        TfdtBox::spec_parse(data, start, b.spec_size() as int) == Some(b),
{
    let ser = b.spec_ser();
    assert(data.subrange(start, start + 8) =~= ser.subrange(0, 8));
    assert(ser.subrange(0, 8) =~= header_bytes(BoxType::TfdtBox, b.spec_size()));
    lemma_header_roundtrip(BoxType::TfdtBox, b.spec_size(), data, start);
    assert(data.subrange(start + 8, start + 12) =~= ser.subrange(8, 12));
    assert(ser.subrange(8, 12) =~= ext_bytes(b.version, b.flags));
    lemma_u32_be_bytes_roundtrip(crate::header::ext_word(b.version, b.flags));
    lemma_ext_word_roundtrip(b.version, b.flags);
    if b.version == 1 {
        assert(data.subrange(start + 12, start + 20) =~= ser.subrange(12, 20));
        assert(ser.subrange(12, 20) =~= spec_u64_to_be_bytes(b.base_media_decode_time));
        lemma_u64_be_bytes_roundtrip(b.base_media_decode_time);
    } else {
        assert(data.subrange(start + 12, start + 16) =~= ser.subrange(12, 16));
        assert(ser.subrange(12, 16) =~= spec_u32_to_be_bytes(b.base_media_decode_time as u32));
        lemma_u32_be_bytes_roundtrip(b.base_media_decode_time as u32);
    }
}

} // verus!
