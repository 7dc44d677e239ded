//! The color-description box: either the coded `nclx` triple or a raw ICC
//! profile, selected by a four-character tag after the header.
use vstd::prelude::*;

use crate::boxtype::BoxType;
use crate::header::{header_bytes, lemma_header_roundtrip, parse_header, BoxHeader};
use crate::payload::{bytes_contents, bytes_from_vec, bytes_len};
use crate::primitives::{
    be16_at, be32_at, get_bytes, get_u16, get_u32, get_u8, lemma_u16_be_bytes_roundtrip,
    lemma_u32_be_bytes_roundtrip, put_bytes, put_u16, put_u32, put_u8, skip_to_end,
    spec_u16_to_be_bytes, spec_u32_to_be_bytes,
};
use crate::types::{ColorConfig, Error, HEADER_SIZE};

verus! {

/// The `nclx` tag as its big-endian word.
pub const COLOR_TAG_NCLX: u32 = 0x6e636c78;

/// The `prof` tag as its big-endian word.
pub const COLOR_TAG_PROF: u32 = 0x70726f66;

#[derive(Debug, Clone, PartialEq, Eq)]
pub enum Color {
    Nclx(ColorConfig),
    Prof(bytes::Bytes),
}

/// The mathematical value of a color description.
pub enum ColorView {
    Nclx(ColorConfig),
    Prof(Seq<u8>),
}

impl View for Color {
    type V = ColorView;

    open spec fn view(&self) -> ColorView {
        match self {
            Color::Nclx(c) => ColorView::Nclx(*c),
            Color::Prof(b) => ColorView::Prof(bytes_contents(*b)),
        }
    }
}

impl ColorView {
    /// Byte length of the payload after the tag word.
    pub open spec fn spec_size(self) -> int {
        match self {
            ColorView::Nclx(_) => 7,
            ColorView::Prof(s) => s.len() as int,
        }
    }

    pub open spec fn wf(self) -> bool {
        match self {
            ColorView::Nclx(c) => true,
            ColorView::Prof(s) => s.len() + 12 <= 0xffffffff,
        }
    }

    pub open spec fn payload_bytes(self) -> Seq<u8> {
        match self {
            ColorView::Nclx(c) => spec_u16_to_be_bytes(c.color_primaries) + spec_u16_to_be_bytes(
                c.transfer_characteristics,
            ) + spec_u16_to_be_bytes(c.matrix_coefficients) + seq![
                if c.full_range {
                    128u8
                } else {
                    0u8
                },
            ],
            ColorView::Prof(s) => s,
        }
    }

    pub open spec fn tag_word(self) -> u32 {
        match self {
            ColorView::Nclx(_) => COLOR_TAG_NCLX,
            ColorView::Prof(_) => COLOR_TAG_PROF,
        }
    }
}

impl Color {
    pub fn get_size(&self) -> (r: u64)
        requires
            self@.wf(),
        ensures
            r == self@.spec_size(),
    {
        match self {
            Color::Nclx(_) => 7,
            Color::Prof(icc) => bytes_len(icc) as u64,
        }
    }

    /// The four-character tag that introduces this color form.
    pub fn tag(&self) -> (r: &'static str)
        ensures
            self@ is Nclx ==> r@ == "nclx"@,
            self@ is Prof ==> r@ == "prof"@,
    {
        match self {
            Color::Nclx(_) => "nclx",
            Color::Prof(_) => "prof",
        }
    }
}

#[derive(Debug, Clone, PartialEq, Eq)]
pub struct ColrBox {
    pub color_config: Color,
}

/// The mathematical value of a color-description box.
pub struct ColrBoxView {
    pub color_config: ColorView,
}

impl View for ColrBox {
    type V = ColrBoxView;

    open spec fn view(&self) -> ColrBoxView {
        ColrBoxView { color_config: self.color_config@ }
    }
}

impl ColrBoxView {
    pub open spec fn wf(self) -> bool {
        self.color_config.wf()
    }

    pub open spec fn spec_size(self) -> int {
        12 + self.color_config.spec_size()
    }

    pub open spec fn spec_ser(self) -> Seq<u8> {
        header_bytes(BoxType::ColrBox, self.spec_size() as u64) + spec_u32_to_be_bytes(
            self.color_config.tag_word(),
        ) + self.color_config.payload_bytes()
    }

    /// Decodes the payload of a box whose header, already consumed, began
    /// at `start` and declared `size` bytes in total.
    pub open spec fn spec_parse(data: Seq<u8>, start: int, size: int) -> Option<ColrBoxView> {
        if start + 12 <= data.len() {
            let tag = be32_at(data, start + 8);
            if tag == COLOR_TAG_PROF {
                if size >= 12 && start + size <= data.len() {
                    Some(
                        ColrBoxView {
                            color_config: ColorView::Prof(data.subrange(start + 12, start + size)),
                        },
                    )
                } else {
                    None
                }
            } else if tag == COLOR_TAG_NCLX {
                if start + 19 <= data.len() && start + size <= data.len() {
                    Some(
                        ColrBoxView {
                            color_config: ColorView::Nclx(
                                ColorConfig {
                                    color_primaries: be16_at(data, start + 12),
                                    transfer_characteristics: be16_at(data, start + 14),
                                    matrix_coefficients: be16_at(data, start + 16),
                                    full_range: data[start + 18] >= 128,
                                },
                            ),
                        },
                    )
                } else {
                    None
                }
            } else {
                None
            }
        } else {
            None
        }
    }
}

impl ColrBox {
    pub fn get_type(&self) -> (r: BoxType)
        ensures
            r == BoxType::ColrBox,
    {
        BoxType::ColrBox
    }

    pub fn get_size(&self) -> (r: u64)
        requires
            self@.wf(),
        ensures
            r == self@.spec_size(),
    {
        HEADER_SIZE + 4 + self.color_config.get_size()
    }

    pub fn box_type(&self) -> (r: BoxType)
        ensures
            r == BoxType::ColrBox,
    {
        self.get_type()
    }

    pub fn box_size(&self) -> (r: u64)
        requires
            self@.wf(),
        ensures
            r == self@.spec_size(),
    {
        self.get_size()
    }

    pub fn write_box(&self, out: &mut Vec<u8>) -> (r: Result<u64, Error>)
        requires
            self@.wf(),
        ensures
            final(out)@ == old(out)@ + self@.spec_ser(),
            r matches Ok(n) && n == self@.spec_size(),
            self@.spec_ser().len() == self@.spec_size(),
    {
        let size = self.box_size();
        BoxHeader::new(self.box_type(), size).write(out)?;
        match &self.color_config {
            Color::Nclx(colr) => {
                put_u32(out, COLOR_TAG_NCLX);
                put_u16(out, colr.color_primaries);
                put_u16(out, colr.transfer_characteristics);
                put_u16(out, colr.matrix_coefficients);
                put_u8(out, if colr.full_range {
                    128
                } else {
                    0
                });
            },
            Color::Prof(icc) => {
                put_u32(out, COLOR_TAG_PROF);
                crate::payload::bytes_append_to(out, icc);
            },
        }
        proof {
            assert(out@ =~= old(out)@ + self@.spec_ser());
        }
        Ok(size)
    }

    pub fn read_box(data: &Vec<u8>, pos: &mut usize, size: u64) -> (r: Result<ColrBox, Error>)
        requires
            *old(pos) >= 8,
        ensures
            match r {
                Ok(b) => ColrBoxView::spec_parse(data@, *old(pos) - 8, size as int) matches Some(m)
                    && m.color_config == b@.color_config && *final(pos) == *old(pos) - 8 + size,
                Err(e) => ColrBoxView::spec_parse(data@, *old(pos) - 8, size as int) is None,
            },
    {
        let start: usize = *pos - 8;
        let tag = get_u32(data, pos)?;
        if tag == COLOR_TAG_PROF {
            if size < 12 {
                return Err(Error::InvalidData("invalid colr box size"));
            }
            let remaining: usize = data.len() - *pos;
            if size - 12 > remaining as u64 {
                return Err(Error::UnexpectedEof);
            }
            let icc = get_bytes(data, pos, (size - 12) as usize)?;
            skip_to_end(data, pos, start, size)?;
            let color_config = Color::Prof(bytes_from_vec(&icc));
            Ok(ColrBox { color_config })
        } else if tag == COLOR_TAG_NCLX {
            let color_primaries = get_u16(data, pos)?;
            let transfer_characteristics = get_u16(data, pos)?;
            let matrix_coefficients = get_u16(data, pos)?;
            let b = get_u8(data, pos)?;
            let full_range = b >= 128;
            skip_to_end(data, pos, start, size)?;
            let color_config = Color::Nclx(
                ColorConfig {
                    color_primaries,
                    transfer_characteristics,
                    matrix_coefficients,
                    full_range,
                },
            );
            Ok(ColrBox { color_config })
        } else {
            Err(Error::InvalidData("invalid colr tag"))
        }
    }
}

/// Writing a color-description box and reading the produced bytes back
/// yields the original value.
pub proof fn lemma_colr_roundtrip(m: ColrBoxView, data: Seq<u8>, start: int)
    requires
        0 <= start,
        m.wf(),
        start + m.spec_size() <= data.len(),
        data.subrange(start, start + m.spec_size()) == m.spec_ser(),
    ensures
        parse_header(data, start) == Some(
            (BoxHeader { name: BoxType::ColrBox, size: m.spec_size() as u64 }, start + 8),
        ),
        ColrBoxView::spec_parse(data, start, m.spec_size()) matches Some(p) && p.color_config
            == m.color_config,
{
    let ser = m.spec_ser();
    let n = m.spec_size();
    assert(data.subrange(start, start + 8) =~= ser.subrange(0, 8));
    assert(ser.subrange(0, 8) =~= header_bytes(BoxType::ColrBox, n as u64));
    lemma_header_roundtrip(BoxType::ColrBox, n as u64, data, start);
    assert(data.subrange(start + 8, start + 12) =~= ser.subrange(8, 12));
    assert(ser.subrange(8, 12) =~= spec_u32_to_be_bytes(m.color_config.tag_word()));
    lemma_u32_be_bytes_roundtrip(m.color_config.tag_word());
    match m.color_config {
        ColorView::Nclx(c) => {
            assert(data.subrange(start + 12, start + 14) =~= ser.subrange(12, 14));
            assert(ser.subrange(12, 14) =~= spec_u16_to_be_bytes(c.color_primaries));
            lemma_u16_be_bytes_roundtrip(c.color_primaries);
            assert(data.subrange(start + 14, start + 16) =~= ser.subrange(14, 16));
            assert(ser.subrange(14, 16) =~= spec_u16_to_be_bytes(c.transfer_characteristics));
            lemma_u16_be_bytes_roundtrip(c.transfer_characteristics);
            assert(data.subrange(start + 16, start + 18) =~= ser.subrange(16, 18));
            assert(ser.subrange(16, 18) =~= spec_u16_to_be_bytes(c.matrix_coefficients));
            lemma_u16_be_bytes_roundtrip(c.matrix_coefficients);
            assert(data[start + 18] == ser[18]);
            assert(ser[18] == if c.full_range {
                128u8
            } else {
                0u8
            });
        },
        ColorView::Prof(s) => {
            assert(data.subrange(start + 12, start + n) =~= ser.subrange(12, n));
            assert(ser.subrange(12, n) =~= s);
        },
    }
}

} // verus!
