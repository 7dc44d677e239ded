//! The track-fragment box: the per-track header, the optional decode-time
//! box, and the optional run of samples, parsed by recursive descent with
//! the same remaining-budget rule as every container.
use vstd::prelude::*;

use crate::boxtype::BoxType;
use crate::header::{header_bytes, parse_header, BoxHeader};
use crate::mp4box::tfdt::TfdtBox;
use crate::mp4box::tfhd::TfhdBox;
use crate::mp4box::trun::{lemma_entries_bytes_len, TrunBox, TrunBoxView};
use crate::primitives::skip_to_end;
use crate::types::Error;

verus! {

#[derive(Debug, Clone, PartialEq, Eq, Default)]
pub struct TrafBox {
    pub tfhd: TfhdBox,
    pub tfdt: Option<TfdtBox>,
    pub trun: Option<TrunBox>,
}

/// The mathematical value of a track-fragment box.
pub struct TrafBoxView {
    pub tfhd: TfhdBox,
    pub tfdt: Option<TfdtBox>,
    pub trun: Option<TrunBoxView>,
}

pub open spec fn view_trun_opt(o: Option<TrunBox>) -> Option<TrunBoxView> {
    match o {
        Some(b) => Some(b@),
        None => None,
    }
}

impl View for TrafBox {
    type V = TrafBoxView;

    open spec fn view(&self) -> TrafBoxView {
        TrafBoxView { tfhd: self.tfhd, tfdt: self.tfdt, trun: view_trun_opt(self.trun) }
    }
}

/// A sound track-run box serializes to exactly as many bytes as its size
/// field declares.
pub proof fn lemma_trun_ser_len(m: TrunBoxView)
    requires
        m.wf(),
    ensures
        m.spec_ser().len() == m.spec_size(),
{
    lemma_entries_bytes_len(m, m.sample_count as int);
}

/// One step of the child walk per recursive call, as for every container.
pub open spec fn parse_traf_children(
    data: Seq<u8>,
    pos: int,
    end: int,
    tfhd: Option<TfhdBox>,
    tfdt: Option<TfdtBox>,
    trun: Option<TrunBoxView>,
) -> Option<(Option<TfhdBox>, Option<TfdtBox>, Option<TrunBoxView>)>
    decreases end - pos,
{
    if pos >= end {
        Some((tfhd, tfdt, trun))
    } else {
        match parse_header(data, pos) {
            None => None,
            Some((h, p2)) => {
                let cstart = p2 - 8;
                let cend = cstart + h.size;
                if h.size < 8 || cend > end {
                    None
                } else if h.name == BoxType::TfhdBox {
                    match TfhdBox::spec_parse(data, cstart, h.size as int) {
                        Some(b) => parse_traf_children(data, cend, end, Some(b), tfdt, trun),
                        None => None,
                    }
                } else if h.name == BoxType::TfdtBox {
                    match TfdtBox::spec_parse(data, cstart, h.size as int) {
                        Some(b) => parse_traf_children(data, cend, end, tfhd, Some(b), trun),
                        None => None,
                    }
                } else if h.name == BoxType::TrunBox {
                    match TrunBoxView::spec_parse(data, cstart, h.size as int) {
                        Some(b) => parse_traf_children(data, cend, end, tfhd, tfdt, Some(b)),
                        None => None,
                    }
                } else {
                    if cend <= data.len() {
                        parse_traf_children(data, cend, end, tfhd, tfdt, trun)
                    } else {
                        None
                    }
                }
            },
        }
    }
}

impl TrafBoxView {
    pub open spec fn wf(self) -> bool {
        &&& self.tfhd.wf()
        &&& (self.tfdt matches Some(t) ==> t.wf())
        &&& (self.trun matches Some(t) ==> t.wf())
        &&& self.spec_size_int() <= 0xffffffff
    }

    pub open spec fn spec_size_int(self) -> int {
        8 + self.tfhd.spec_size() + (match self.tfdt {
            Some(t) => t.spec_size() as int,
            None => 0int,
        }) + (match self.trun {
            Some(t) => t.spec_size_int(),
            None => 0int,
        })
    }

    pub open spec fn spec_size(self) -> u64 {
        self.spec_size_int() as u64
    }

    pub open spec fn spec_ser(self) -> Seq<u8> {
        header_bytes(BoxType::TrafBox, self.spec_size()) + self.tfhd.spec_ser() + (
        match self.tfdt {
            Some(t) => t.spec_ser(),
            None => Seq::empty(),
        }) + (match self.trun {
            Some(t) => t.spec_ser(),
            None => Seq::empty(),
        })
    }

    /// Decodes the payload of a box whose header, already consumed, began
    /// at `start` and declared `size` bytes in total. The track-fragment
    /// header child is required.
    pub open spec fn spec_parse(data: Seq<u8>, start: int, size: int) -> Option<TrafBoxView> {
        if start + size <= data.len() {
            match parse_traf_children(data, start + 8, start + size, None, None, None) {
                Some((Some(tfhd), tfdt, trun)) => Some(TrafBoxView { tfhd, tfdt, trun }),
                _ => None,
            }
        } else {
            None
        }
    }
}

impl TrafBox {
    pub fn get_type(&self) -> (r: BoxType)
        ensures
            r == BoxType::TrafBox,
    {
        BoxType::TrafBox
    }

    pub fn get_size(&self) -> (r: u64)
        requires
            self@.wf(),
        ensures
            r == self@.spec_size(),
    {
        let tfdt_size: u64 = match &self.tfdt {
            Some(t) => t.box_size(),
            None => 0,
        };
        let trun_size: u64 = match &self.trun {
            Some(t) => t.box_size(),
            None => 0,
        };
        8 + self.tfhd.box_size() + tfdt_size + trun_size
    }

    pub fn box_type(&self) -> (r: BoxType)
        ensures
            r == BoxType::TrafBox,
    {
        self.get_type()
    }

    pub fn box_size(&self) -> (r: u64)
        requires
            self@.wf(),
        ensures
            r == self@.spec_size(),
    {
        self.get_size()
    }

    pub fn write_box(&self, out: &mut Vec<u8>) -> (r: Result<u64, Error>)
        requires
            self@.wf(),
        ensures
            final(out)@ == old(out)@ + self@.spec_ser(),
            r matches Ok(n) && n == self@.spec_size(),
            self@.spec_ser().len() == self@.spec_size(),
    {
        let size = self.box_size();
        BoxHeader::new(self.box_type(), size).write(out)?;
        self.tfhd.write_box(out)?;
        if let Some(tfdt) = &self.tfdt {
            tfdt.write_box(out)?;
        }
        if let Some(trun) = &self.trun {
            trun.write_box(out)?;
        }
        proof {
            assert(out@ =~= old(out)@ + self@.spec_ser());
        }
        Ok(size)
    }

    #[verifier::loop_isolation(false)]
    pub fn read_box(data: &Vec<u8>, pos: &mut usize, size: u64) -> (r: Result<TrafBox, Error>)
        requires
            *old(pos) >= 8,
            *old(pos) <= data@.len(),
        ensures
            match r {
                Ok(b) => TrafBoxView::spec_parse(data@, *old(pos) - 8, size as int) matches Some(m)
                    && m.tfhd == b@.tfhd && m.tfdt == b@.tfdt && m.trun == b@.trun && *final(pos)
                    == *old(pos) - 8 + size,
                Err(e) => TrafBoxView::spec_parse(data@, *old(pos) - 8, size as int) is None,
            },
    {
        let start: usize = *pos - 8;
        let remaining: usize = data.len() - start;
        if size > remaining as u64 {
            return Err(Error::UnexpectedEof);
        }
        let end: usize = start + size as usize;
        let p0: usize = *pos;
        let mut tfhd: Option<TfhdBox> = None;
        let mut tfdt: Option<TfdtBox> = None;
        let mut trun: Option<TrunBox> = None;
        while *pos < end
            invariant
                p0 <= *pos,
                parse_traf_children(data@, p0 as int, end as int, None, None, None)
                    == parse_traf_children(
                    data@,
                    *pos as int,
                    end as int,
                    tfhd,
                    tfdt,
                    view_trun_opt(trun),
                ),
            decreases end - *pos,
        {
            let header = BoxHeader::read(data, pos)?;
            let child_start: usize = *pos - 8;
            if header.size < 8 || child_start > end || header.size > ((end - child_start)
                as u64) {
                return Err(
                    Error::InvalidData("traf box contains a box with a larger size than it"),
                );
            }
            if header.name == BoxType::TfhdBox {
                tfhd = Some(TfhdBox::read_box(data, pos, header.size)?);
            } else if header.name == BoxType::TfdtBox {
                tfdt = Some(TfdtBox::read_box(data, pos, header.size)?);
            } else if header.name == BoxType::TrunBox {
                trun = Some(TrunBox::read_box(data, pos, header.size)?);
            } else {
                skip_to_end(data, pos, child_start, header.size)?;
            }
        }
        skip_to_end(data, pos, start, size)?;
        match tfhd {
            Some(t) => Ok(TrafBox { tfhd: t, tfdt, trun }),
            None => Err(Error::BoxNotFound(BoxType::TfhdBox)),
        }
    }
}

/// A sound track-fragment box serializes to exactly as many bytes as its
/// size field declares.
pub proof fn lemma_traf_ser_len(m: TrafBoxView)
    requires
        m.wf(),
    ensures
        m.spec_ser().len() == m.spec_size(),
{
    match m.trun {
        Some(t) => lemma_trun_ser_len(t),
        None => {},
    }
}

} // verus!
