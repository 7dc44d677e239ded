//! The pixel-aspect-ratio box: two 32-bit counts after the plain header.
use vstd::prelude::*;

use crate::boxtype::BoxType;
use crate::header::{header_bytes, lemma_header_roundtrip, parse_header, BoxHeader};
use crate::primitives::{
    be32_at, get_u32, lemma_u32_be_bytes_roundtrip, put_u32, skip_to_end, spec_u32_to_be_bytes,
};
use crate::types::{Error, HEADER_SIZE};

verus! {

#[derive(Debug, Clone, Copy, PartialEq, Eq, Structural)]
pub struct PaspBox {
    pub numerator: u32,
    pub denumerator: u32,
}

impl PaspBox {
    pub open spec fn spec_size(self) -> u64 {
        16
    }

    /// The exact bytes of the box, header included.
    pub open spec fn spec_ser(self) -> Seq<u8> {
        header_bytes(BoxType::PaspBox, 16) + spec_u32_to_be_bytes(self.numerator)
            + spec_u32_to_be_bytes(self.denumerator)
    }

    /// Decodes the payload of a box whose header, already consumed, began
    /// at `start` and declared `size` bytes in total.
    pub open spec fn spec_parse(data: Seq<u8>, start: int, size: int) -> Option<PaspBox> {
        if start + 16 <= data.len() && start + size <= data.len() {
            Some(
                PaspBox {
                    numerator: be32_at(data, start + 8),
                    denumerator: be32_at(data, start + 12),
                },
            )
        } else {
            None
        }
    }

    pub fn get_type(&self) -> (r: BoxType)
        ensures
            r == BoxType::PaspBox,
    {
        BoxType::PaspBox
    }

    pub fn get_size(&self) -> (r: u64)
        ensures
            r == self.spec_size(),
    {
        HEADER_SIZE + 8
    }

    pub fn box_type(&self) -> (r: BoxType)
        ensures
            r == BoxType::PaspBox,
    {
        self.get_type()
    }

    pub fn box_size(&self) -> (r: u64)
        ensures
            r == self.spec_size(),
    {
        self.get_size()
    }

    pub fn write_box(&self, out: &mut Vec<u8>) -> (r: Result<u64, Error>)
        ensures
            final(out)@ == old(out)@ + self.spec_ser(),
            r matches Ok(n) && n == self.spec_size(),
            self.spec_ser().len() == self.spec_size(),
    {
        let size = self.box_size();
        BoxHeader::new(self.box_type(), size).write(out)?;
        put_u32(out, self.numerator);
        put_u32(out, self.denumerator);
        proof {
            assert(out@ =~= old(out)@ + self.spec_ser());
        }
        Ok(size)
    }

    pub fn read_box(data: &Vec<u8>, pos: &mut usize, size: u64) -> (r: Result<PaspBox, Error>)
        requires
            *old(pos) >= 8,
        ensures
            match r {
                Ok(b) => Self::spec_parse(data@, *old(pos) - 8, size as int) == Some(b)
                    && *final(pos) == *old(pos) - 8 + size,
                Err(e) => Self::spec_parse(data@, *old(pos) - 8, size as int) is None
                    && e is UnexpectedEof,
            },
    {
        let start: usize = *pos - 8;
        let numerator = get_u32(data, pos)?;
        let denumerator = get_u32(data, pos)?;
        skip_to_end(data, pos, start, size)?;
        Ok(PaspBox { numerator, denumerator })
    }
}

/// Writing a pixel-aspect-ratio box and reading the produced bytes back
/// yields the original value, wherever in a buffer the bytes stand.
pub proof fn lemma_pasp_roundtrip(b: PaspBox, data: Seq<u8>, start: int)
    requires
        0 <= start,
        start + 16 <= data.len(),
        data.subrange(start, start + 16) == b.spec_ser(),
    ensures
        parse_header(data, start) == Some(
            (BoxHeader { name: BoxType::PaspBox, size: 16 }, start + 8),
        ),
        PaspBox::spec_parse(data, start, 16) == Some(b),
{
    let ser = b.spec_ser();
    assert(data.subrange(start, start + 8) =~= ser.subrange(0, 8));
    assert(ser.subrange(0, 8) =~= header_bytes(BoxType::PaspBox, 16));
    lemma_header_roundtrip(BoxType::PaspBox, 16, data, start);
    assert(data.subrange(start + 8, start + 12) =~= ser.subrange(8, 12));
    assert(ser.subrange(8, 12) =~= spec_u32_to_be_bytes(b.numerator));
    lemma_u32_be_bytes_roundtrip(b.numerator);
    assert(data.subrange(start + 12, start + 16) =~= ser.subrange(12, 16));
    assert(ser.subrange(12, 16) =~= spec_u32_to_be_bytes(b.denumerator));
    lemma_u32_be_bytes_roundtrip(b.denumerator);
}

} // verus!
