//! The original-format box: the four-character code of the format that a
//! protected stream had before encryption.
use vstd::prelude::*;

use crate::boxtype::BoxType;
use crate::header::{header_bytes, lemma_header_roundtrip, parse_header, BoxHeader};
use crate::primitives::{
    be32_at, get_u32, lemma_u32_be_bytes_roundtrip, put_u32, skip_to_end, spec_u32_to_be_bytes,
};
use crate::types::{Error, FourCC, HEADER_SIZE};

verus! {

#[derive(Debug, Clone, Copy, PartialEq, Eq, Default)]
pub struct FrmaBox {
    pub data_format: FourCC,
}

/// The mathematical value of an original-format box: the format code as its
/// 32-bit big-endian value.
#[derive(Debug, PartialEq, Eq, Structural)]
pub struct FrmaBoxView {
    pub data_format: u32,
}

impl View for FrmaBox {
    type V = FrmaBoxView;

    open spec fn view(&self) -> FrmaBoxView {
        FrmaBoxView { data_format: self.data_format.spec_u32() }
    }
}

impl FrmaBoxView {
    pub open spec fn spec_size(self) -> u64 {
        12
    }

    pub open spec fn spec_ser(self) -> Seq<u8> {
        header_bytes(BoxType::FrmaBox, 12) + spec_u32_to_be_bytes(self.data_format)
    }

    /// Decodes the payload of a box whose header, already consumed, began
    /// at `start` and declared `size` bytes in total.
    pub open spec fn spec_parse(data: Seq<u8>, start: int, size: int) -> Option<FrmaBoxView> {
        if start + 12 <= data.len() && start + size <= data.len() {
            Some(FrmaBoxView { data_format: be32_at(data, start + 8) })
        } else {
            None
        }
    }
}

impl FrmaBox {
    pub fn get_type(&self) -> (r: BoxType)
        ensures
            r == BoxType::FrmaBox,
    {
        BoxType::FrmaBox
    }

    pub fn get_size(&self) -> (r: u64)
        ensures
            r == self@.spec_size(),
    {
        HEADER_SIZE + 4
    }

    pub fn box_type(&self) -> (r: BoxType)
        ensures
            r == BoxType::FrmaBox,
    {
        self.get_type()
    }

    pub fn box_size(&self) -> (r: u64)
        ensures
            r == self@.spec_size(),
    {
        self.get_size()
    }

    pub fn write_box(&self, out: &mut Vec<u8>) -> (r: Result<u64, Error>)
        ensures
            final(out)@ == old(out)@ + self@.spec_ser(),
            r matches Ok(n) && n == self@.spec_size(),
            self@.spec_ser().len() == self@.spec_size(),
    {
        let size = self.box_size();
        BoxHeader::new(self.box_type(), size).write(out)?;
        put_u32(out, self.data_format.to_u32());
        proof {
            assert(out@ =~= old(out)@ + self@.spec_ser());
        }
        Ok(size)
    }

    pub fn read_box(data: &Vec<u8>, pos: &mut usize, size: u64) -> (r: Result<FrmaBox, Error>)
        requires
            *old(pos) >= 8,
        ensures
            match r {
                Ok(b) => FrmaBoxView::spec_parse(data@, *old(pos) - 8, size as int) == Some(b@)
                    && *final(pos) == *old(pos) - 8 + size,
                Err(e) => FrmaBoxView::spec_parse(data@, *old(pos) - 8, size as int) is None
                    && e is UnexpectedEof,
            },
    {
        let start: usize = *pos - 8;
        let raw = get_u32(data, pos)?;
        let data_format = FourCC::from_u32(raw);
        skip_to_end(data, pos, start, size)?;
        Ok(FrmaBox { data_format })
    }
}

/// An original-format box serializes to exactly as many bytes as its size
/// field declares.
pub proof fn lemma_frma_ser_len(m: FrmaBoxView)
    ensures
        m.spec_ser().len() == m.spec_size(),
{
}

/// Writing an original-format box and reading the produced bytes back
/// yields the original value.
pub proof fn lemma_frma_roundtrip(m: FrmaBoxView, data: Seq<u8>, start: int)
    requires
        0 <= start,
        start + 12 <= data.len(),
        data.subrange(start, start + 12) == m.spec_ser(),
    ensures
        parse_header(data, start) == Some(
            (BoxHeader { name: BoxType::FrmaBox, size: 12 }, start + 8),
        ),
        FrmaBoxView::spec_parse(data, start, 12) == Some(m),
{
    let ser = m.spec_ser();
    assert(data.subrange(start, start + 8) =~= ser.subrange(0, 8));
    assert(ser.subrange(0, 8) =~= header_bytes(BoxType::FrmaBox, 12));
    lemma_header_roundtrip(BoxType::FrmaBox, 12, data, start);
    assert(data.subrange(start + 8, start + 12) =~= ser.subrange(8, 12));
    assert(ser.subrange(8, 12) =~= spec_u32_to_be_bytes(m.data_format));
    lemma_u32_be_bytes_roundtrip(m.data_format);
}

} // verus!
