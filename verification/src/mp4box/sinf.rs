//! The protection-scheme-information box: a container parsed by recursive
//! descent over its children. The original-format child is required; the
//! scheme-type and scheme-information children are optional; unknown
//! children are skipped. A child whose declared size exceeds the parent's
//! remaining budget is a data error, so a corrupt size field can never
//! cause a read out of bounds.
use vstd::prelude::*;

use crate::boxtype::BoxType;
use crate::header::{header_bytes, lemma_header_roundtrip, parse_header, BoxHeader};
use crate::mp4box::frma::{lemma_frma_roundtrip, lemma_frma_ser_len, FrmaBox, FrmaBoxView};
use crate::mp4box::schi::{lemma_schi_roundtrip, lemma_schi_ser_len, SchiBox, SchiBoxView};
use crate::mp4box::schm::{lemma_schm_roundtrip, lemma_schm_ser_len, SchmBox, SchmBoxView};
use crate::primitives::skip_to_end;
use crate::types::Error;

verus! {

#[derive(Debug, Clone, PartialEq, Eq, Default)]
pub struct SinfBox {
    pub frma: FrmaBox,
    pub schi: Option<SchiBox>,
    pub schm: Option<SchmBox>,
}

/// The mathematical value of a protection-scheme-information box.
pub struct SinfBoxView {
    pub frma: FrmaBoxView,
    pub schi: Option<SchiBoxView>,
    pub schm: Option<SchmBoxView>,
}

pub open spec fn view_frma_opt(o: Option<FrmaBox>) -> Option<FrmaBoxView> {
    match o {
        Some(b) => Some(b@),
        None => None,
    }
}

pub open spec fn view_schi_opt(o: Option<SchiBox>) -> Option<SchiBoxView> {
    match o {
        Some(b) => Some(b@),
        None => None,
    }
}

pub open spec fn view_schm_opt(o: Option<SchmBox>) -> Option<SchmBoxView> {
    match o {
        Some(b) => Some(b@),
        None => None,
    }
}

impl View for SinfBox {
    type V = SinfBoxView;

    open spec fn view(&self) -> SinfBoxView {
        SinfBoxView {
            frma: self.frma@,
            schi: view_schi_opt(self.schi),
            schm: view_schm_opt(self.schm),
        }
    }
}

/// One step of the child loop per recursive call: decode a header, refuse
/// a child that is shorter than a header or would run past the parent's
/// end, decode or skip it, and continue at its declared end with the
/// fields gathered so far.
pub open spec fn parse_sinf_children(
    data: Seq<u8>,
    pos: int,
    end: int,
    frma: Option<FrmaBoxView>,
    schi: Option<SchiBoxView>,
    schm: Option<SchmBoxView>,
) -> Option<(Option<FrmaBoxView>, Option<SchiBoxView>, Option<SchmBoxView>)>
    decreases end - pos,
{
    if pos >= end {
        Some((frma, schi, schm))
    } else {
        match parse_header(data, pos) {
            None => None,
            Some((h, p2)) => {
                let cstart = p2 - 8;
                let cend = cstart + h.size;
                if h.size < 8 || cend > end {
                    None
                } else if h.name == BoxType::FrmaBox {
                    match FrmaBoxView::spec_parse(data, cstart, h.size as int) {
                        Some(f) => parse_sinf_children(data, cend, end, Some(f), schi, schm),
                        None => None,
                    }
                } else if h.name == BoxType::SchiBox {
                    match SchiBoxView::spec_parse(data, cstart, h.size as int) {
                        Some(s) => parse_sinf_children(data, cend, end, frma, Some(s), schm),
                        None => None,
                    }
                } else if h.name == BoxType::SchmBox {
                    match SchmBoxView::spec_parse(data, cstart, h.size as int) {
                        Some(s) => parse_sinf_children(data, cend, end, frma, schi, Some(s)),
                        None => None,
                    }
                } else {
                    if cend <= data.len() {
                        parse_sinf_children(data, cend, end, frma, schi, schm)
                    } else {
                        None
                    }
                }
            },
        }
    }
}

impl SinfBoxView {
    pub open spec fn spec_size_int(self) -> int {
        8 + self.frma.spec_size() + match self.schi {
            Some(s) => s.spec_size() as int,
            None => 0int,
        } + match self.schm {
            Some(s) => s.spec_size() as int,
            None => 0int,
        }
    }

    pub open spec fn wf(self) -> bool {
        &&& (self.schi matches Some(s) ==> s.wf())
        &&& (self.schm matches Some(s) ==> s.wf())
        &&& self.spec_size_int() <= 0xffffffff
    }

    pub open spec fn spec_size(self) -> u64 {
        self.spec_size_int() as u64
    }

    pub open spec fn spec_ser(self) -> Seq<u8> {
        header_bytes(BoxType::SinfBox, self.spec_size()) + self.frma.spec_ser() + match self.schi {
            Some(s) => s.spec_ser(),
            None => Seq::empty(),
        } + match self.schm {
            Some(s) => s.spec_ser(),
            None => Seq::empty(),
        }
    }

    /// Decodes the payload of a box whose header, already consumed, began
    /// at `start` and declared `size` bytes in total. The original-format
    /// child is required.
    pub open spec fn spec_parse(data: Seq<u8>, start: int, size: int) -> Option<SinfBoxView> {
        if start + size <= data.len() {
            match parse_sinf_children(data, start + 8, start + size, None, None, None) {
                Some((Some(f), schi, schm)) => Some(SinfBoxView { frma: f, schi, schm }),
                _ => None,
            }
        } else {
            None
        }
    }
}

impl SinfBox {
    pub fn get_type(&self) -> (r: BoxType)
        ensures
            r == BoxType::SinfBox,
    {
        BoxType::SinfBox
    }

    pub fn get_size(&self) -> (r: u64)
        requires
            self@.wf(),
        ensures
            r == self@.spec_size(),
    {
        let schi_size: u64 = match &self.schi {
            Some(schi) => schi.box_size(),
            None => 0,
        };
        let schm_size: u64 = match &self.schm {
            Some(schm) => schm.box_size(),
            None => 0,
        };
        8 + self.frma.box_size() + schi_size + schm_size
    }

    pub fn box_type(&self) -> (r: BoxType)
        ensures
            r == BoxType::SinfBox,
    {
        self.get_type()
    }

    pub fn box_size(&self) -> (r: u64)
        requires
            self@.wf(),
        ensures
            r == self@.spec_size(),
    {
        self.get_size()
    }

    pub fn write_box(&self, out: &mut Vec<u8>) -> (r: Result<u64, Error>)
        requires
            self@.wf(),
        ensures
            final(out)@ == old(out)@ + self@.spec_ser(),
            r matches Ok(n) && n == self@.spec_size(),
            self@.spec_ser().len() == self@.spec_size(),
    {
        let size = self.box_size();
        BoxHeader::new(self.box_type(), size).write(out)?;
        self.frma.write_box(out)?;
        if let Some(schi) = &self.schi {
            schi.write_box(out)?;
        }
        if let Some(schm) = &self.schm {
            schm.write_box(out)?;
        }
        proof {
            lemma_sinf_ser_len(self@);
            assert(out@ =~= old(out)@ + self@.spec_ser());
        }
        Ok(size)
    }

    pub fn read_box(data: &Vec<u8>, pos: &mut usize, size: u64) -> (r: Result<SinfBox, Error>)
        requires
            *old(pos) >= 8,
            *old(pos) <= data@.len(),
        ensures
            match r {
                Ok(b) => SinfBoxView::spec_parse(data@, *old(pos) - 8, size as int) matches Some(m)
                    && m.frma == b@.frma && m.schi == b@.schi && m.schm == b@.schm && *final(pos)
                    == *old(pos) - 8 + size,
                Err(e) => SinfBoxView::spec_parse(data@, *old(pos) - 8, size as int) is None,
            },
    {
        let start: usize = *pos - 8;
        let remaining: usize = data.len() - start;
        if size > remaining as u64 {
            return Err(Error::UnexpectedEof);
        }
        let end: usize = start + size as usize;
        let p0: usize = *pos;
        let ghost gstart: int = start as int;
        let mut frma: Option<FrmaBox> = None;
        let mut schi: Option<SchiBox> = None;
        let mut schm: Option<SchmBox> = None;
        while *pos < end
            invariant
                8 <= p0,
                p0 == *old(pos),
                p0 == gstart + 8,
                0 <= gstart,
                end == gstart + size,
                end <= data@.len(),
                p0 <= *pos,
                parse_sinf_children(data@, p0 as int, end as int, None, None, None)
                    == parse_sinf_children(
                    data@,
                    *pos as int,
                    end as int,
                    view_frma_opt(frma),
                    view_schi_opt(schi),
                    view_schm_opt(schm),
                ),
            decreases end - *pos,
        {
            let header = BoxHeader::read(data, pos)?;
            let child_start: usize = *pos - 8;
            if header.size < 8 || child_start > end || header.size > ((end - child_start)
                as u64) {
                return Err(
                    Error::InvalidData("sinf box contains a box with a larger size than it"),
                );
            }
            if header.name == BoxType::FrmaBox {
                frma = Some(FrmaBox::read_box(data, pos, header.size)?);
            } else if header.name == BoxType::SchiBox {
                schi = Some(SchiBox::read_box(data, pos, header.size)?);
            } else if header.name == BoxType::SchmBox {
                schm = Some(SchmBox::read_box(data, pos, header.size)?);
            } else {
                skip_to_end(data, pos, child_start, header.size)?;
            }
        }
        skip_to_end(data, pos, start, size)?;
        match frma {
            Some(f) => Ok(SinfBox { frma: f, schi, schm }),
            None => Err(Error::BoxNotFound(BoxType::FrmaBox)),
        }
    }
}

/// A sound protection-scheme-information box serializes to exactly as many
/// bytes as its size field declares.
pub proof fn lemma_sinf_ser_len(m: SinfBoxView)
    requires
        m.wf(),
    ensures
        m.spec_ser().len() == m.spec_size(),
{
    lemma_frma_ser_len(m.frma);
    match m.schi {
        Some(s) => lemma_schi_ser_len(s),
        None => {},
    }
    match m.schm {
        Some(s) => lemma_schm_ser_len(s),
        None => {},
    }
}

/// Writing a protection-scheme-information box and reading the produced
/// bytes back yields the original value.
#[verifier::rlimit(100)]
#[verifier::spinoff_prover]
pub proof fn lemma_sinf_roundtrip(m: SinfBoxView, data: Seq<u8>, start: int)
    requires
        0 <= start,
        m.wf(),
        start + m.spec_size() <= data.len(),
        data.subrange(start, start + m.spec_size() as int) == m.spec_ser(),
    ensures
        parse_header(data, start) == Some(
            (BoxHeader { name: BoxType::SinfBox, size: m.spec_size() }, start + 8),
        ),
        SinfBoxView::spec_parse(data, start, m.spec_size() as int) matches Some(p) && p.frma
            == m.frma && p.schi == m.schi && p.schm == m.schm,
{
    let n = m.spec_size() as int;
    let end = start + n;
    lemma_sinf_ser_len(m);
    lemma_sinf_region_header(m, data, start);
    lemma_sinf_region_frma(m, data, start);
    let f_at = start + 8;
    let f_end = f_at + 12;
    let s_end = f_end + match m.schi {
        Some(s) => s.spec_size() as int,
        None => 0int,
    };
    let t_end = s_end + match m.schm {
        Some(s) => s.spec_size() as int,
        None => 0int,
    };
    assert(t_end == end);
    lemma_sinf_step_frma(data, f_at, end, m.frma, None, None, None);
    match m.schi {
        Some(s) => {
            lemma_sinf_region_schi(m, s, data, start);
            lemma_sinf_step_schi(data, f_end, end, s, Some(m.frma), None);
        },
        None => {},
    }
    match m.schm {
        Some(s) => {
            lemma_sinf_region_schm(m, s, data, start);
            lemma_sinf_step_schm(data, s_end, end, s, Some(m.frma), m.schi);
        },
        None => {},
    }
}

/// The container's own header decodes to its tag and size.
#[verifier::spinoff_prover]
proof fn lemma_sinf_region_header(m: SinfBoxView, data: Seq<u8>, start: int)
    requires
        0 <= start,
        m.wf(),
        start + m.spec_size() <= data.len(),
        data.subrange(start, start + m.spec_size() as int) == m.spec_ser(),
    ensures
        parse_header(data, start) == Some(
            (BoxHeader { name: BoxType::SinfBox, size: m.spec_size() }, start + 8),
        ),
{
    let ser = m.spec_ser();
    lemma_sinf_ser_len(m);
    assert(data.subrange(start, start + 8) =~= ser.subrange(0, 8));
    assert(ser.subrange(0, 8) =~= header_bytes(BoxType::SinfBox, m.spec_size()));
    lemma_header_roundtrip(BoxType::SinfBox, m.spec_size(), data, start);
}

/// The bytes of the original-format child decode to that child.
#[verifier::spinoff_prover]
proof fn lemma_sinf_region_frma(m: SinfBoxView, data: Seq<u8>, start: int)
    requires
        0 <= start,
        m.wf(),
        start + m.spec_size() <= data.len(),
        data.subrange(start, start + m.spec_size() as int) == m.spec_ser(),
    ensures
        parse_header(data, start + 8) == Some(
            (BoxHeader { name: BoxType::FrmaBox, size: 12 }, start + 16),
        ),
        FrmaBoxView::spec_parse(data, start + 8, 12) == Some(m.frma),
{
    let ser = m.spec_ser();
    lemma_sinf_ser_len(m);
    lemma_frma_ser_len(m.frma);
    assert(data.subrange(start + 8, start + 20) =~= ser.subrange(8, 20));
    assert(ser.subrange(8, 20) =~= m.frma.spec_ser());
    lemma_frma_roundtrip(m.frma, data, start + 8);
}

/// The bytes of the scheme-information child decode to that child.
#[verifier::spinoff_prover]
proof fn lemma_sinf_region_schi(m: SinfBoxView, s: SchiBoxView, data: Seq<u8>, start: int)
    requires
        0 <= start,
        m.wf(),
        m.schi == Some(s),
        start + m.spec_size() <= data.len(),
        data.subrange(start, start + m.spec_size() as int) == m.spec_ser(),
    ensures
        parse_header(data, start + 20) == Some(
            (BoxHeader { name: BoxType::SchiBox, size: s.spec_size() }, start + 28),
        ),
        SchiBoxView::spec_parse(data, start + 20, s.spec_size() as int) == Some(s),
{
    let ser = m.spec_ser();
    lemma_sinf_ser_len(m);
    lemma_schi_ser_len(s);
    let s_at = start + 20;
    let s_end = s_at + s.spec_size() as int;
    assert(data.subrange(s_at, s_end) =~= ser.subrange(20, s_end - start));
    assert(ser.subrange(20, s_end - start) =~= s.spec_ser());
    lemma_schi_roundtrip(s, data, s_at);
}

/// The bytes of the scheme-type child decode to that child.
#[verifier::spinoff_prover]
proof fn lemma_sinf_region_schm(m: SinfBoxView, s: SchmBoxView, data: Seq<u8>, start: int)
    requires
        0 <= start,
        m.wf(),
        m.schm == Some(s),
        start + m.spec_size() <= data.len(),
        data.subrange(start, start + m.spec_size() as int) == m.spec_ser(),
    ensures
        parse_header(
            data,
            start + 20 + match m.schi {
                Some(c) => c.spec_size() as int,
                None => 0int,
            },
        ) == Some(
            (
                BoxHeader { name: BoxType::SchmBox, size: s.spec_size() },
                start + 28 + match m.schi {
                    Some(c) => c.spec_size() as int,
                    None => 0int,
                },
            ),
        ),
        SchmBoxView::spec_parse(
            data,
            start + 20 + match m.schi {
                Some(c) => c.spec_size() as int,
                None => 0int,
            },
            s.spec_size() as int,
        ) == Some(s),
{
    let ser = m.spec_ser();
    lemma_sinf_ser_len(m);
    lemma_schm_ser_len(s);
    match m.schi {
        Some(c) => lemma_schi_ser_len(c),
        None => {},
    }
    let t_at = start + 20 + match m.schi {
        Some(c) => c.spec_size() as int,
        None => 0int,
    };
    let t_end = t_at + s.spec_size() as int;
    assert(data.subrange(t_at, t_end) =~= ser.subrange(t_at - start, t_end - start));
    assert(ser.subrange(t_at - start, t_end - start) =~= s.spec_ser());
    lemma_schm_roundtrip(s, data, t_at);
}

/// One step of the child walk: a well-formed original-format child at
/// `pos` advances the decode to its end with the field filled in.
#[verifier::spinoff_prover]
proof fn lemma_sinf_step_frma(
    data: Seq<u8>,
    pos: int,
    end: int,
    f: FrmaBoxView,
    frma0: Option<FrmaBoxView>,
    schi: Option<SchiBoxView>,
    schm: Option<SchmBoxView>,
)
    requires
        pos < end,
        pos + 12 <= end,
        parse_header(data, pos) == Some((BoxHeader { name: BoxType::FrmaBox, size: 12 }, pos + 8)),
        FrmaBoxView::spec_parse(data, pos, 12) == Some(f),
    ensures
        parse_sinf_children(data, pos, end, frma0, schi, schm) == parse_sinf_children(
            data,
            pos + 12,
            end,
            Some(f),
            schi,
            schm,
        ),
{
}

/// One step of the child walk for the scheme-information child.
#[verifier::spinoff_prover]
proof fn lemma_sinf_step_schi(
    data: Seq<u8>,
    pos: int,
    end: int,
    s: SchiBoxView,
    frma: Option<FrmaBoxView>,
    schm: Option<SchmBoxView>,
)
    requires
        pos < end,
        8 <= s.spec_size(),
        pos + s.spec_size() <= end,
        parse_header(data, pos) == Some(
            (BoxHeader { name: BoxType::SchiBox, size: s.spec_size() }, pos + 8),
        ),
        SchiBoxView::spec_parse(data, pos, s.spec_size() as int) == Some(s),
    ensures
        parse_sinf_children(data, pos, end, frma, None, schm) == parse_sinf_children(
            data,
            pos + s.spec_size(),
            end,
            frma,
            Some(s),
            schm,
        ),
{
}

/// One step of the child walk for the scheme-type child.
#[verifier::spinoff_prover]
proof fn lemma_sinf_step_schm(
    data: Seq<u8>,
    pos: int,
    end: int,
    s: SchmBoxView,
    frma: Option<FrmaBoxView>,
    schi: Option<SchiBoxView>,
)
    requires
        pos < end,
        8 <= s.spec_size(),
        pos + s.spec_size() <= end,
        parse_header(data, pos) == Some(
            (BoxHeader { name: BoxType::SchmBox, size: s.spec_size() }, pos + 8),
        ),
        SchmBoxView::spec_parse(data, pos, s.spec_size() as int) == Some(s),
    ensures
        parse_sinf_children(data, pos, end, frma, schi, None) == parse_sinf_children(
            data,
            pos + s.spec_size(),
            end,
            frma,
            schi,
            Some(s),
        ),
{
}

} // verus!
