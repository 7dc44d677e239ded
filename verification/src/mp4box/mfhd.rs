//! The movie-fragment-header box: the fragment's sequence number.
use vstd::prelude::*;

use crate::boxtype::BoxType;
use crate::header::{
    ext_bytes, ext_flags, ext_version, header_bytes, lemma_ext_word_roundtrip,
    lemma_header_roundtrip, parse_header, read_box_header_ext, write_box_header_ext, BoxHeader,
};
use crate::primitives::{
    be32_at, get_u32, lemma_u32_be_bytes_roundtrip, put_u32, skip_to_end, spec_u32_to_be_bytes,
};
use crate::types::{Error, HEADER_EXT_SIZE, HEADER_SIZE};

verus! {

#[derive(Debug, Clone, Copy, PartialEq, Eq, Structural, Default)]
pub struct MfhdBox {
    pub version: u8,
    pub flags: u32,
    pub sequence_number: u32,
}

impl MfhdBox {
    pub open spec fn wf(self) -> bool {
        self.flags < 0x1000000
    }

    pub open spec fn spec_size(self) -> u64 {
        16
    }

    pub open spec fn spec_ser(self) -> Seq<u8> {
        header_bytes(BoxType::MfhdBox, 16) + ext_bytes(self.version, self.flags)
            + spec_u32_to_be_bytes(self.sequence_number)
    }

    /// Decodes the payload of a box whose header, already consumed, began
    /// at `start` and declared `size` bytes in total.
    pub open spec fn spec_parse(data: Seq<u8>, start: int, size: int) -> Option<MfhdBox> {
        if start + 16 <= data.len() && start + size <= data.len() {
            Some(
                MfhdBox {
                    version: ext_version(be32_at(data, start + 8)),
                    flags: ext_flags(be32_at(data, start + 8)),
                    sequence_number: be32_at(data, start + 12),
                },
            )
        } else {
            None
        }
    }

    pub fn get_type(&self) -> (r: BoxType)
        ensures
            r == BoxType::MfhdBox,
    {
        BoxType::MfhdBox
    }

    pub fn get_size(&self) -> (r: u64)
        ensures
            r == self.spec_size(),
    {
        HEADER_SIZE + HEADER_EXT_SIZE + 4
    }

    pub fn box_type(&self) -> (r: BoxType)
        ensures
            r == BoxType::MfhdBox,
    {
        self.get_type()
    }

    pub fn box_size(&self) -> (r: u64)
        ensures
            r == self.spec_size(),
    {
        self.get_size()
    }

    pub fn write_box(&self, out: &mut Vec<u8>) -> (r: Result<u64, Error>)
        ensures
            final(out)@ == old(out)@ + self.spec_ser(),
            r matches Ok(n) && n == self.spec_size(),
            self.spec_ser().len() == self.spec_size(),
    {
        let size = self.box_size();
        BoxHeader::new(self.box_type(), size).write(out)?;
        write_box_header_ext(out, self.version, self.flags);
        put_u32(out, self.sequence_number);
        proof {
            assert(out@ =~= old(out)@ + self.spec_ser());
        }
        Ok(size)
    }

    pub fn read_box(data: &Vec<u8>, pos: &mut usize, size: u64) -> (r: Result<MfhdBox, Error>)
        requires
            *old(pos) >= 8,
        ensures
            match r {
                Ok(b) => Self::spec_parse(data@, *old(pos) - 8, size as int) == Some(b)
                    && *final(pos) == *old(pos) - 8 + size,
                Err(e) => Self::spec_parse(data@, *old(pos) - 8, size as int) is None
                    && e is UnexpectedEof,
            },
    {
        let start: usize = *pos - 8;
        let (version, flags) = read_box_header_ext(data, pos)?;
        let sequence_number = get_u32(data, pos)?;
        skip_to_end(data, pos, start, size)?;
        Ok(MfhdBox { version, flags, sequence_number })
    }
}

/// Writing a movie-fragment-header box and reading the produced bytes back
/// yields the original value.
pub proof fn lemma_mfhd_roundtrip(b: MfhdBox, data: Seq<u8>, start: int)
    requires
        0 <= start,
        b.wf(),
        start + 16 <= data.len(),
        data.subrange(start, start + 16) == b.spec_ser(),
    ensures
        parse_header(data, start) == Some(
            (BoxHeader { name: BoxType::MfhdBox, size: 16 }, start + 8),
        ),
        MfhdBox::spec_parse(data, start, 16) == Some(b),
{
    let ser = b.spec_ser();
    assert(data.subrange(start, start + 8) =~= ser.subrange(0, 8));
    assert(ser.subrange(0, 8) =~= header_bytes(BoxType::MfhdBox, 16));
    lemma_header_roundtrip(BoxType::MfhdBox, 16, data, start);
    assert(data.subrange(start + 8, start + 12) =~= ser.subrange(8, 12));
    assert(ser.subrange(8, 12) =~= ext_bytes(b.version, b.flags));
    lemma_u32_be_bytes_roundtrip(crate::header::ext_word(b.version, b.flags));
    lemma_ext_word_roundtrip(b.version, b.flags);
    assert(data.subrange(start + 12, start + 16) =~= ser.subrange(12, 16));
    assert(ser.subrange(12, 16) =~= spec_u32_to_be_bytes(b.sequence_number));
    lemma_u32_be_bytes_roundtrip(b.sequence_number);
}

} // verus!
