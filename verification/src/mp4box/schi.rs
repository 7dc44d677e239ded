//! The scheme-information box: a container whose single child here is the
//! track-encryption box.
use vstd::prelude::*;

use crate::boxtype::BoxType;
use crate::header::{header_bytes, lemma_header_roundtrip, parse_header, BoxHeader};
use crate::mp4box::tenc::{lemma_tenc_roundtrip, lemma_tenc_ser_len, TencBox, TencBoxView};
use crate::primitives::skip_to_end;
use crate::types::Error;

verus! {

#[derive(Debug, Clone, PartialEq, Eq, Default)]
pub struct SchiBox {
    pub tenc: TencBox,
}

/// The mathematical value of a scheme-information box.
pub struct SchiBoxView {
    pub tenc: TencBoxView,
}

impl View for SchiBox {
    type V = SchiBoxView;

    open spec fn view(&self) -> SchiBoxView {
        SchiBoxView { tenc: self.tenc@ }
    }
}

impl SchiBoxView {
    pub open spec fn wf(self) -> bool {
        self.tenc.wf()
    }

    pub open spec fn spec_size(self) -> u64 {
        (8 + self.tenc.spec_size()) as u64
    }

    pub open spec fn spec_ser(self) -> Seq<u8> {
        header_bytes(BoxType::SchiBox, self.spec_size()) + self.tenc.spec_ser()
    }

    /// Decodes the payload of a box whose header, already consumed, began
    /// at `start` and declared `size` bytes in total: one child, which must
    /// be a track-encryption box that fits the remaining budget.
    pub open spec fn spec_parse(data: Seq<u8>, start: int, size: int) -> Option<SchiBoxView> {
        match parse_header(data, start + 8) {
            Some((h, p2)) => {
                let cstart = p2 - 8;
                if cstart + h.size > start + size {
                    None
                } else if h.name == BoxType::TencBox {
                    match TencBoxView::spec_parse(data, cstart, h.size as int) {
                        Some(t) => if start + size <= data.len() {
                            Some(SchiBoxView { tenc: t })
                        } else {
                            None
                        },
                        None => None,
                    }
                } else {
                    None
                }
            },
            None => None,
        }
    }
}

impl SchiBox {
    pub fn get_type(&self) -> (r: BoxType)
        ensures
            r == BoxType::SchiBox,
    {
        BoxType::SchiBox
    }

    pub fn get_size(&self) -> (r: u64)
        ensures
            r == self@.spec_size(),
    {
        8 + self.tenc.box_size()
    }

    pub fn box_type(&self) -> (r: BoxType)
        ensures
            r == BoxType::SchiBox,
    {
        self.get_type()
    }

    pub fn box_size(&self) -> (r: u64)
        ensures
            r == self@.spec_size(),
    {
        self.get_size()
    }

    pub fn write_box(&self, out: &mut Vec<u8>) -> (r: Result<u64, Error>)
        requires
            self@.wf(),
        ensures
            final(out)@ == old(out)@ + self@.spec_ser(),
            r matches Ok(n) && n == self@.spec_size(),
            self@.spec_ser().len() == self@.spec_size(),
    {
        let size = self.box_size();
        BoxHeader::new(self.box_type(), size).write(out)?;
        self.tenc.write_box(out)?;
        proof {
            assert(out@ =~= old(out)@ + self@.spec_ser());
        }
        Ok(size)
    }

    pub fn read_box(data: &Vec<u8>, pos: &mut usize, size: u64) -> (r: Result<SchiBox, Error>)
        requires
            *old(pos) >= 8,
        ensures
            match r {
                Ok(b) => SchiBoxView::spec_parse(data@, *old(pos) - 8, size as int) matches Some(m)
                    && m.tenc == b@.tenc && b@.tenc.wf() && *final(pos) == *old(pos) - 8 + size,
                Err(e) => SchiBoxView::spec_parse(data@, *old(pos) - 8, size as int) is None,
            },
    {
        let start: usize = *pos - 8;
        let header = BoxHeader::read(data, pos)?;
        let child_start: usize = *pos - 8;
        let off: u64 = (child_start - start) as u64;
        if size < off || header.size > size - off {
            return Err(Error::InvalidData("schi box contains a box with a larger size than it"));
        }
        if header.name == BoxType::TencBox {
            let tenc = TencBox::read_box(data, pos, header.size)?;
            skip_to_end(data, pos, start, size)?;
            Ok(SchiBox { tenc })
        } else {
            Err(Error::InvalidData("Invalid box type in SchiBox"))
        }
    }
}

/// A sound scheme-information box serializes to exactly as many bytes as
/// its size field declares.
pub proof fn lemma_schi_ser_len(m: SchiBoxView)
    requires
        m.wf(),
    ensures
        m.spec_ser().len() == m.spec_size(),
{
    lemma_tenc_ser_len(m.tenc);
}

/// Writing a scheme-information box and reading the produced bytes back
/// yields the original value.
pub proof fn lemma_schi_roundtrip(m: SchiBoxView, data: Seq<u8>, start: int)
    requires
        0 <= start,
        m.wf(),
        start + m.spec_size() <= data.len(),
        data.subrange(start, start + m.spec_size() as int) == m.spec_ser(),
    ensures
        parse_header(data, start) == Some(
            (BoxHeader { name: BoxType::SchiBox, size: m.spec_size() }, start + 8),
        ),
        SchiBoxView::spec_parse(data, start, m.spec_size() as int) == Some(m),
{
    let ser = m.spec_ser();
    let n = m.spec_size() as int;
    let tn = m.tenc.spec_size() as int;
    lemma_tenc_ser_len(m.tenc);
    assert(data.subrange(start, start + 8) =~= ser.subrange(0, 8));
    assert(ser.subrange(0, 8) =~= header_bytes(BoxType::SchiBox, m.spec_size()));
    lemma_header_roundtrip(BoxType::SchiBox, m.spec_size(), data, start);
    assert(data.subrange(start + 8, start + 8 + tn) =~= ser.subrange(8, 8 + tn));
    assert(ser.subrange(8, 8 + tn) =~= m.tenc.spec_ser());
    lemma_tenc_roundtrip(m.tenc, data, start + 8);
}

} // verus!
