//! The producer-reference-time box: pairs a wall-clock timestamp with a
//! media time on a reference track. The width of the media-time field
//! follows the full-box version.
use vstd::prelude::*;

use crate::boxtype::BoxType;
use crate::header::{
    ext_bytes, ext_flags, ext_version, header_bytes, lemma_ext_word_roundtrip,
    lemma_header_roundtrip, parse_header, read_box_header_ext, write_box_header_ext, BoxHeader,
};
use crate::primitives::{
    be32_at, be64_at, get_u32, get_u64, lemma_u32_be_bytes_roundtrip, lemma_u64_be_bytes_roundtrip,
    put_u32, put_u64, skip_to_end, spec_u32_to_be_bytes, spec_u64_to_be_bytes,
};
use crate::types::{Error, HEADER_EXT_SIZE, HEADER_SIZE};

verus! {

#[derive(Debug, Clone, Copy, PartialEq, Eq, Structural)]
pub struct PrftBox {
    pub version: u8,
    pub flags: u32,
    pub reference_track_id: u32,
    pub ntp_timestamp: u64,
    pub media_time: u64,
}

impl Default for PrftBox {
    fn default() -> (r: Self)
        ensures
            r == (PrftBox {
                version: 1,
                flags: 0,
                reference_track_id: 0,
                ntp_timestamp: 0,
                media_time: 0,
            }),
    {
        PrftBox { version: 1, flags: 0, reference_track_id: 0, ntp_timestamp: 0, media_time: 0 }
    }
}

impl PrftBox {
    /// The version selects the media-time width; a version-0 media time
    /// must fit its 32-bit field, which is the caller's responsibility.
    pub open spec fn wf(self) -> bool {
        &&& self.version <= 1
        &&& self.flags < 0x1000000
        &&& self.version == 0 ==> self.media_time < 0x100000000
    }

    pub open spec fn spec_size(self) -> u64 {
        if self.version == 1 {
            32
        } else if self.version == 0 {
            28
        } else {
            24
        }
    }

    pub open spec fn spec_ser(self) -> Seq<u8> {
        header_bytes(BoxType::PrftBox, self.spec_size()) + ext_bytes(self.version, self.flags)
            + spec_u32_to_be_bytes(self.reference_track_id) + spec_u64_to_be_bytes(
            self.ntp_timestamp,
        ) + if self.version == 0 {
            spec_u32_to_be_bytes(self.media_time as u32)
        } else {
            spec_u64_to_be_bytes(self.media_time)
        }
    }

    /// Decodes the payload of a box whose header, already consumed, began
    /// at `start` and declared `size` bytes in total.
    pub open spec fn spec_parse(data: Seq<u8>, start: int, size: int) -> Option<PrftBox> {
        if start + 24 <= data.len() {
            let version = ext_version(be32_at(data, start + 8));
            let flags = ext_flags(be32_at(data, start + 8));
            let reference_track_id = be32_at(data, start + 12);
            let ntp_timestamp = be64_at(data, start + 16);
            if version == 0 {
                if start + 28 <= data.len() && start + size <= data.len() {
                    Some(
                        PrftBox {
                            version,
                            flags,
                            reference_track_id,
                            ntp_timestamp,
                            media_time: be32_at(data, start + 24) as u64,
                        },
                    )
                } else {
                    None
                }
            } else {
                if start + 32 <= data.len() && start + size <= data.len() {
                    Some(
                        PrftBox {
                            version,
                            flags,
                            reference_track_id,
                            ntp_timestamp,
                            media_time: be64_at(data, start + 24),
                        },
                    )
                } else {
                    None
                }
            }
        } else {
            None
        }
    }

    pub fn get_type(&self) -> (r: BoxType)
        ensures
            r == BoxType::PrftBox,
    {
        BoxType::PrftBox
    }

    pub fn get_size(&self) -> (r: u64)
        ensures
            r == self.spec_size(),
    {
        let mut size: u64 = HEADER_SIZE + HEADER_EXT_SIZE + 4 + 8;
        if self.version == 1 {
            size = size + 8;
        } else if self.version == 0 {
            size = size + 4;
        }
        size
    }

    pub fn box_type(&self) -> (r: BoxType)
        ensures
            r == BoxType::PrftBox,
    {
        self.get_type()
    }

    pub fn box_size(&self) -> (r: u64)
        ensures
            r == self.spec_size(),
    {
        self.get_size()
    }

    pub fn write_box(&self, out: &mut Vec<u8>) -> (r: Result<u64, Error>)
        ensures
            final(out)@ == old(out)@ + self.spec_ser(),
            r matches Ok(n) && n == self.spec_size(),
            self.wf() ==> self.spec_ser().len() == self.spec_size(),
    {
        let size = self.box_size();
        BoxHeader::new(self.box_type(), size).write(out)?;
        write_box_header_ext(out, self.version, self.flags);
        put_u32(out, self.reference_track_id);
        put_u64(out, self.ntp_timestamp);
        if self.version == 0 {
            put_u32(out, self.media_time as u32);
        } else {
            put_u64(out, self.media_time);
        }
        proof {
            assert(out@ =~= old(out)@ + self.spec_ser());
        }
        Ok(size)
    }

    pub fn read_box(data: &Vec<u8>, pos: &mut usize, size: u64) -> (r: Result<PrftBox, Error>)
        requires
            *old(pos) >= 8,
        ensures
            match r {
                Ok(b) => Self::spec_parse(data@, *old(pos) - 8, size as int) == Some(b)
                    && *final(pos) == *old(pos) - 8 + size,
                Err(e) => Self::spec_parse(data@, *old(pos) - 8, size as int) is None
                    && e is UnexpectedEof,
            },
    {
        let start: usize = *pos - 8;
        let (version, flags) = read_box_header_ext(data, pos)?;
        let reference_track_id = get_u32(data, pos)?;
        let ntp_timestamp = get_u64(data, pos)?;
        let media_time: u64 = if version == 0 {
            get_u32(data, pos)? as u64
        } else {
            get_u64(data, pos)?
        };
        skip_to_end(data, pos, start, size)?;
        Ok(PrftBox { version, flags, ntp_timestamp, reference_track_id, media_time })
    }
}

/// Writing a producer-reference-time box and reading the produced bytes
/// back yields the original value.
pub proof fn lemma_prft_roundtrip(b: PrftBox, data: Seq<u8>, start: int)
    requires
        0 <= start,
        b.wf(),
        start + b.spec_size() <= data.len(),
        data.subrange(start, start + b.spec_size() as int) == b.spec_ser(),
    ensures
        parse_header(data, start) == Some(
            (BoxHeader { name: BoxType::PrftBox, size: b.spec_size() }, start + 8),
        ),
        PrftBox::spec_parse(data, start, b.spec_size() as int) == Some(b),
{
    let ser = b.spec_ser();
    let n = b.spec_size() as int;
    assert(data.subrange(start, start + 8) =~= ser.subrange(0, 8));
    assert(ser.subrange(0, 8) =~= header_bytes(BoxType::PrftBox, b.spec_size()));
    lemma_header_roundtrip(BoxType::PrftBox, b.spec_size(), data, start);
    assert(data.subrange(start + 8, start + 12) =~= ser.subrange(8, 12));
    assert(ser.subrange(8, 12) =~= ext_bytes(b.version, b.flags));
    lemma_u32_be_bytes_roundtrip(crate::header::ext_word(b.version, b.flags));
    lemma_ext_word_roundtrip(b.version, b.flags);
    assert(data.subrange(start + 12, start + 16) =~= ser.subrange(12, 16));
    assert(ser.subrange(12, 16) =~= spec_u32_to_be_bytes(b.reference_track_id));
    lemma_u32_be_bytes_roundtrip(b.reference_track_id);
    assert(data.subrange(start + 16, start + 24) =~= ser.subrange(16, 24));
    assert(ser.subrange(16, 24) =~= spec_u64_to_be_bytes(b.ntp_timestamp));
    lemma_u64_be_bytes_roundtrip(b.ntp_timestamp);
    if b.version == 0 {
        assert(data.subrange(start + 24, start + 28) =~= ser.subrange(24, 28));
        assert(ser.subrange(24, 28) =~= spec_u32_to_be_bytes(b.media_time as u32));
        lemma_u32_be_bytes_roundtrip(b.media_time as u32);
    } else {
        assert(data.subrange(start + 24, start + 32) =~= ser.subrange(24, 32));
        assert(ser.subrange(24, 32) =~= spec_u64_to_be_bytes(b.media_time));
        lemma_u64_be_bytes_roundtrip(b.media_time);
    }
}

} // verus!
