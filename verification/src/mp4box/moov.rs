//! The write path of the initialization segment: the file-type box and the
//! movie box with one track subtree per stream plus the fragment defaults.
//! These boxes are only ever assembled and written by the header writer,
//! so only serialization is specified here.
use vstd::prelude::*;

use crate::boxtype::BoxType;
use crate::header::{ext_bytes, header_bytes, write_box_header_ext, BoxHeader};
use crate::mp4box::colr::{ColrBox, ColrBoxView};
use crate::mp4box::pasp::PaspBox;
use crate::primitives::{
    put_bytes, put_u16, put_u32, put_u64, put_u8, put_zeros, spec_u16_to_be_bytes,
    spec_u32_to_be_bytes, zero_bytes,
};
use crate::types::{Error, FourCC, TrackType, HEADER_EXT_SIZE, HEADER_SIZE};

verus! {

/// The file-type box: major brand, minor version, compatible brands.
#[derive(Debug, Clone, PartialEq, Eq)]
pub struct FtypBox {
    pub major_brand: FourCC,
    pub minor_version: u32,
    pub compatible_brands: Vec<FourCC>,
}

/// The mathematical value of a file-type box.
pub struct FtypBoxView {
    pub major_brand: u32,
    pub minor_version: u32,
    pub compatible_brands: Seq<u32>,
}

impl View for FtypBox {
    type V = FtypBoxView;

    open spec fn view(&self) -> FtypBoxView {
        FtypBoxView {
            major_brand: self.major_brand.spec_u32(),
            minor_version: self.minor_version,
            compatible_brands: Seq::new(
                self.compatible_brands@.len(),
                |i: int| self.compatible_brands@[i].spec_u32(),
            ),
        }
    }
}

/// The brand words laid end to end.
pub open spec fn brands_bytes(brands: Seq<u32>) -> Seq<u8>
    decreases brands.len(),
{
    if brands.len() == 0 {
        Seq::empty()
    } else {
        brands_bytes(brands.drop_last()) + spec_u32_to_be_bytes(brands.last())
    }
}

pub proof fn lemma_brands_bytes_len(brands: Seq<u32>)
    ensures
        brands_bytes(brands).len() == 4 * brands.len(),
    decreases brands.len(),
{
    if brands.len() > 0 {
        lemma_brands_bytes_len(brands.drop_last());
    }
}

impl FtypBoxView {
    pub open spec fn wf(self) -> bool {
        self.compatible_brands.len() < 0x1000000
    }

    pub open spec fn spec_size(self) -> u64 {
        (16 + 4 * self.compatible_brands.len()) as u64
    }

    pub open spec fn spec_ser(self) -> Seq<u8> {
        header_bytes(BoxType::FtypBox, self.spec_size()) + spec_u32_to_be_bytes(self.major_brand)
            + spec_u32_to_be_bytes(self.minor_version) + brands_bytes(self.compatible_brands)
    }
}

impl FtypBox {
    pub fn get_type(&self) -> (r: BoxType)
        ensures
            r == BoxType::FtypBox,
    {
        BoxType::FtypBox
    }

    pub fn get_size(&self) -> (r: u64)
        requires
            self@.wf(),
        ensures
            r == self@.spec_size(),
    {
        16 + 4 * (self.compatible_brands.len() as u64)
    }

    pub fn box_type(&self) -> (r: BoxType)
        ensures
            r == BoxType::FtypBox,
    {
        self.get_type()
    }

    pub fn box_size(&self) -> (r: u64)
        requires
            self@.wf(),
        ensures
            r == self@.spec_size(),
    {
        self.get_size()
    }

    #[verifier::loop_isolation(false)]
    pub fn write_box(&self, out: &mut Vec<u8>) -> (r: Result<u64, Error>)
        requires
            self@.wf(),
        ensures
            final(out)@ == old(out)@ + self@.spec_ser(),
            r matches Ok(n) && n == self@.spec_size(),
            self@.spec_ser().len() == self@.spec_size(),
    {
        let size = self.box_size();
        BoxHeader::new(self.box_type(), size).write(out)?;
        put_u32(out, self.major_brand.to_u32());
        put_u32(out, self.minor_version);
        let ghost base = out@;
        let mut i: usize = 0;
        proof {
            lemma_brands_bytes_len(self@.compatible_brands);
            assert(out@ =~= base + brands_bytes(self@.compatible_brands.subrange(0, 0)));
        }
        while i < self.compatible_brands.len()
            invariant
                i <= self.compatible_brands@.len(),
                out@ == base + brands_bytes(self@.compatible_brands.subrange(0, i as int)),
            decreases self.compatible_brands@.len() - i,
        {
            put_u32(out, self.compatible_brands[i].to_u32());
            i = i + 1;
            proof {
                let pre = self@.compatible_brands.subrange(0, i - 1);
                let cur = self@.compatible_brands.subrange(0, i as int);
                assert(cur.drop_last() =~= pre);
                assert(cur.last() == self@.compatible_brands[i - 1]);
                assert(out@ =~= base + brands_bytes(cur));
            }
        }
        proof {
            assert(self@.compatible_brands.subrange(0, self@.compatible_brands.len() as int)
                =~= self@.compatible_brands);
            assert(out@ =~= old(out)@ + self@.spec_ser());
        }
        Ok(size)
    }
}

/// The identity transformation matrix every header carries.
pub open spec fn matrix_bytes() -> Seq<u8> {
    spec_u32_to_be_bytes(0x00010000) + spec_u32_to_be_bytes(0) + spec_u32_to_be_bytes(0)
        + spec_u32_to_be_bytes(0) + spec_u32_to_be_bytes(0x00010000) + spec_u32_to_be_bytes(0)
        + spec_u32_to_be_bytes(0) + spec_u32_to_be_bytes(0) + spec_u32_to_be_bytes(0x40000000)
}

fn put_matrix(out: &mut Vec<u8>)
    ensures
        final(out)@ == old(out)@ + matrix_bytes(),
{
    put_u32(out, 0x00010000);
    put_u32(out, 0);
    put_u32(out, 0);
    put_u32(out, 0);
    put_u32(out, 0x00010000);
    put_u32(out, 0);
    put_u32(out, 0);
    put_u32(out, 0);
    put_u32(out, 0x40000000);
    proof {
        assert(out@ =~= old(out)@ + matrix_bytes());
    }
}

/// The movie header: overall timescale and duration, upgraded to the
/// 64-bit layout when the duration overflows its 32-bit field.
#[derive(Debug, Clone, Copy, PartialEq, Eq, Structural)]
pub struct MvhdBox {
    pub version: u8,
    pub timescale: u32,
    pub duration: u64,
    pub next_track_id: u32,
}

impl MvhdBox {
    pub open spec fn wf(self) -> bool {
        &&& self.version <= 1
        &&& (self.version == 0 ==> self.duration <= u32::MAX)
    }

    pub fn get_size(&self) -> (r: u64)
        ensures
            r == self.spec_size(),
    {
        if self.version == 1 {
            120
        } else {
            108
        }
    }

    pub open spec fn spec_size(self) -> u64 {
        if self.version == 1 {
            120
        } else {
            108
        }
    }

    pub open spec fn spec_ser(self) -> Seq<u8> {
        header_bytes(BoxType::MvhdBox, self.spec_size()) + ext_bytes(self.version, 0)
            + (if self.version == 1 {
            zero_bytes(16) + spec_u32_to_be_bytes(self.timescale) + crate::primitives::spec_u64_to_be_bytes(self.duration)
        } else {
            zero_bytes(8) + spec_u32_to_be_bytes(self.timescale) + spec_u32_to_be_bytes(
                self.duration as u32,
            )
        }) + spec_u32_to_be_bytes(0x00010000) + spec_u16_to_be_bytes(0x0100) + zero_bytes(10)
            + matrix_bytes() + zero_bytes(24) + spec_u32_to_be_bytes(self.next_track_id)
    }

    pub fn write_box(&self, out: &mut Vec<u8>) -> (r: Result<u64, Error>)
        requires
            self.wf(),
        ensures
            final(out)@ == old(out)@ + self.spec_ser(),
            r matches Ok(n) && n == self.spec_size(),
            self.spec_ser().len() == self.spec_size(),
    {
        let size: u64 = if self.version == 1 {
            120
        } else {
            108
        };
        BoxHeader::new(BoxType::MvhdBox, size).write(out)?;
        write_box_header_ext(out, self.version, 0);
        if self.version == 1 {
            put_zeros(out, 16);
            put_u32(out, self.timescale);
            put_u64(out, self.duration);
        } else {
            put_zeros(out, 8);
            put_u32(out, self.timescale);
            put_u32(out, self.duration as u32);
        }
        put_u32(out, 0x00010000);
        put_u16(out, 0x0100);
        put_zeros(out, 10);
        put_matrix(out);
        put_zeros(out, 24);
        put_u32(out, self.next_track_id);
        proof {
            assert(out@ =~= old(out)@ + self.spec_ser());
        }
        Ok(size)
    }
}

/// The track header: id, duration in movie units, and the visual size in
/// 16.16 fixed point.
#[derive(Debug, Clone, Copy, PartialEq, Eq, Structural)]
pub struct TkhdBox {
    pub track_id: u32,
    pub duration: u64,
    pub width: u16,
    pub height: u16,
    pub volume: u16,
}

impl TkhdBox {
    /// A duration beyond the 32-bit field is truncated on write, which is
    /// the caller's responsibility under the 32-bit layout.
    pub open spec fn wf(self) -> bool {
        true
    }

    pub open spec fn spec_size(self) -> u64 {
        92
    }

    pub open spec fn spec_ser(self) -> Seq<u8> {
        header_bytes(BoxType::TkhdBox, 92) + ext_bytes(0, 1) + zero_bytes(8)
            + spec_u32_to_be_bytes(self.track_id) + zero_bytes(4) + spec_u32_to_be_bytes(
            self.duration as u32,
        ) + zero_bytes(8) + spec_u16_to_be_bytes(0) + spec_u16_to_be_bytes(0)
            + spec_u16_to_be_bytes(self.volume) + spec_u16_to_be_bytes(0) + matrix_bytes()
            + spec_u32_to_be_bytes(((self.width as int) * 0x10000) as u32)
            + spec_u32_to_be_bytes(((self.height as int) * 0x10000) as u32)
    }

    pub fn write_box(&self, out: &mut Vec<u8>) -> (r: Result<u64, Error>)
        requires
            self.wf(),
        ensures
            final(out)@ == old(out)@ + self.spec_ser(),
            r matches Ok(n) && n == self.spec_size(),
            self.spec_ser().len() == self.spec_size(),
    {
        BoxHeader::new(BoxType::TkhdBox, 92).write(out)?;
        write_box_header_ext(out, 0, 1);
        put_zeros(out, 8);
        put_u32(out, self.track_id);
        put_zeros(out, 4);
        put_u32(out, self.duration as u32);
        put_zeros(out, 8);
        put_u16(out, 0);
        put_u16(out, 0);
        put_u16(out, self.volume);
        put_u16(out, 0);
        put_matrix(out);
        put_u32(out, (self.width as u32) * 0x10000);
        put_u32(out, (self.height as u32) * 0x10000);
        proof {
            assert(out@ =~= old(out)@ + self.spec_ser());
        }
        Ok(92)
    }
}

/// The media header: the track timescale, its duration in track units,
/// and the packed three-letter language code.
#[derive(Debug, Clone, Copy, PartialEq, Eq, Structural)]
pub struct MdhdBox {
    pub timescale: u32,
    pub duration: u64,
    pub language: u16,
}

impl MdhdBox {
    /// A duration beyond the 32-bit field is truncated on write, which is
    /// the caller's responsibility under the 32-bit layout.
    pub open spec fn wf(self) -> bool {
        true
    }

    pub open spec fn spec_size(self) -> u64 {
        32
    }

    pub open spec fn spec_ser(self) -> Seq<u8> {
        header_bytes(BoxType::MdhdBox, 32) + ext_bytes(0, 0) + zero_bytes(8)
            + spec_u32_to_be_bytes(self.timescale) + spec_u32_to_be_bytes(self.duration as u32)
            + spec_u16_to_be_bytes(self.language) + spec_u16_to_be_bytes(0)
    }

    pub fn write_box(&self, out: &mut Vec<u8>) -> (r: Result<u64, Error>)
        requires
            self.wf(),
        ensures
            final(out)@ == old(out)@ + self.spec_ser(),
            r matches Ok(n) && n == self.spec_size(),
            self.spec_ser().len() == self.spec_size(),
    {
        BoxHeader::new(BoxType::MdhdBox, 32).write(out)?;
        write_box_header_ext(out, 0, 0);
        put_zeros(out, 8);
        put_u32(out, self.timescale);
        put_u32(out, self.duration as u32);
        put_u16(out, self.language);
        put_u16(out, 0);
        proof {
            assert(out@ =~= old(out)@ + self.spec_ser());
        }
        Ok(32)
    }
}

/// The handler name bytes for a track type, zero terminator included.
pub open spec fn handler_name_bytes(t: TrackType) -> Seq<u8> {
    match t {
        TrackType::Video => seq![
            86u8,
            105u8,
            100u8,
            101u8,
            111u8,
            72u8,
            97u8,
            110u8,
            100u8,
            108u8,
            101u8,
            114u8,
            0u8,
        ],
        TrackType::Audio => seq![
            83u8,
            111u8,
            117u8,
            110u8,
            100u8,
            72u8,
            97u8,
            110u8,
            100u8,
            108u8,
            101u8,
            114u8,
            0u8,
        ],
        TrackType::Subtitle => seq![
            84u8,
            101u8,
            120u8,
            116u8,
            72u8,
            97u8,
            110u8,
            100u8,
            108u8,
            101u8,
            114u8,
            0u8,
        ],
    }
}

/// The handler four-character code of a track type.
pub open spec fn handler_word(t: TrackType) -> u32 {
    match t {
        TrackType::Video => 0x76696465,
        TrackType::Audio => 0x736f756e,
        TrackType::Subtitle => 0x74657874,
    }
}

/// The handler box of a track type.
pub open spec fn hdlr_ser(t: TrackType) -> Seq<u8> {
    header_bytes(BoxType::HdlrBox, hdlr_size(t)) + ext_bytes(0, 0) + zero_bytes(4)
        + spec_u32_to_be_bytes(handler_word(t)) + zero_bytes(12) + handler_name_bytes(t)
}

pub open spec fn hdlr_size(t: TrackType) -> u64 {
    (32 + handler_name_bytes(t).len()) as u64
}

fn write_hdlr(out: &mut Vec<u8>, t: TrackType) -> (r: Result<u64, Error>)
    ensures
        final(out)@ == old(out)@ + hdlr_ser(t),
        r matches Ok(n) && n == hdlr_size(t),
        hdlr_ser(t).len() == hdlr_size(t),
{
    match t {
        TrackType::Video => {
            BoxHeader::new(BoxType::HdlrBox, 45).write(out)?;
            write_box_header_ext(out, 0, 0);
            put_zeros(out, 4);
            put_u32(out, 0x76696465);
            put_zeros(out, 12);
            put_u8(out, 86);
            put_u8(out, 105);
            put_u8(out, 100);
            put_u8(out, 101);
            put_u8(out, 111);
            put_u8(out, 72);
            put_u8(out, 97);
            put_u8(out, 110);
            put_u8(out, 100);
            put_u8(out, 108);
            put_u8(out, 101);
            put_u8(out, 114);
            put_u8(out, 0);
            proof {
                assert(out@ =~= old(out)@ + hdlr_ser(t));
            }
            Ok(45)
        },
        TrackType::Audio => {
            BoxHeader::new(BoxType::HdlrBox, 45).write(out)?;
            write_box_header_ext(out, 0, 0);
            put_zeros(out, 4);
            put_u32(out, 0x736f756e);
            put_zeros(out, 12);
            put_u8(out, 83);
            put_u8(out, 111);
            put_u8(out, 117);
            put_u8(out, 110);
            put_u8(out, 100);
            put_u8(out, 72);
            put_u8(out, 97);
            put_u8(out, 110);
            put_u8(out, 100);
            put_u8(out, 108);
            put_u8(out, 101);
            put_u8(out, 114);
            put_u8(out, 0);
            proof {
                assert(out@ =~= old(out)@ + hdlr_ser(t));
            }
            Ok(45)
        },
        TrackType::Subtitle => {
            BoxHeader::new(BoxType::HdlrBox, 44).write(out)?;
            write_box_header_ext(out, 0, 0);
            put_zeros(out, 4);
            put_u32(out, 0x74657874);
            put_zeros(out, 12);
            put_u8(out, 84);
            put_u8(out, 101);
            put_u8(out, 120);
            put_u8(out, 116);
            put_u8(out, 72);
            put_u8(out, 97);
            put_u8(out, 110);
            put_u8(out, 100);
            put_u8(out, 108);
            put_u8(out, 101);
            put_u8(out, 114);
            put_u8(out, 0);
            proof {
                assert(out@ =~= old(out)@ + hdlr_ser(t));
            }
            Ok(44)
        },
    }
}

/// The media-information header of a track type: the video header with its
/// flag bit for video tracks, the sound header otherwise.
pub open spec fn media_header_ser(t: TrackType) -> Seq<u8> {
    match t {
        TrackType::Video => header_bytes(BoxType::VmhdBox, 20) + ext_bytes(0, 1) + zero_bytes(8),
        _ => header_bytes(BoxType::SmhdBox, 16) + ext_bytes(0, 0) + zero_bytes(4),
    }
}

pub open spec fn media_header_size(t: TrackType) -> u64 {
    match t {
        TrackType::Video => 20,
        _ => 16,
    }
}

fn write_media_header(out: &mut Vec<u8>, t: TrackType) -> (r: Result<u64, Error>)
    ensures
        final(out)@ == old(out)@ + media_header_ser(t),
        r matches Ok(n) && n == media_header_size(t),
        media_header_ser(t).len() == media_header_size(t),
{
    match t {
        TrackType::Video => {
            BoxHeader::new(BoxType::VmhdBox, 20).write(out)?;
            write_box_header_ext(out, 0, 1);
            put_zeros(out, 8);
            proof {
                assert(out@ =~= old(out)@ + media_header_ser(t));
            }
            Ok(20)
        },
        _ => {
            BoxHeader::new(BoxType::SmhdBox, 16).write(out)?;
            write_box_header_ext(out, 0, 0);
            put_zeros(out, 4);
            proof {
                assert(out@ =~= old(out)@ + media_header_ser(t));
            }
            Ok(16)
        },
    }
}

/// The constant data-information box: one self-contained data reference.
pub open spec fn dinf_ser() -> Seq<u8> {
    header_bytes(BoxType::DinfBox, 36) + header_bytes(BoxType::DrefBox, 28) + ext_bytes(0, 0)
        + spec_u32_to_be_bytes(1) + header_bytes(BoxType::UrlBox, 12) + ext_bytes(0, 1)
}

fn write_dinf(out: &mut Vec<u8>) -> (r: Result<u64, Error>)
    ensures
        final(out)@ == old(out)@ + dinf_ser(),
        r matches Ok(n) && n == 36,
        dinf_ser().len() == 36,
{
    BoxHeader::new(BoxType::DinfBox, 36).write(out)?;
    BoxHeader::new(BoxType::DrefBox, 28).write(out)?;
    write_box_header_ext(out, 0, 0);
    put_u32(out, 1);
    BoxHeader::new(BoxType::UrlBox, 12).write(out)?;
    write_box_header_ext(out, 0, 1);
    proof {
        assert(out@ =~= old(out)@ + dinf_ser());
    }
    Ok(36)
}

/// The empty sample tables a fragmented track carries: every actual sample
/// value comes from the fragments.
pub open spec fn empty_tables_ser() -> Seq<u8> {
    header_bytes(BoxType::SttsBox, 16) + ext_bytes(0, 0) + spec_u32_to_be_bytes(0) + header_bytes(
        BoxType::StscBox,
        16,
    ) + ext_bytes(0, 0) + spec_u32_to_be_bytes(0) + header_bytes(BoxType::StszBox, 20) + ext_bytes(
        0,
        0,
    ) + spec_u32_to_be_bytes(0) + spec_u32_to_be_bytes(0) + header_bytes(BoxType::StcoBox, 16)
        + ext_bytes(0, 0) + spec_u32_to_be_bytes(0)
}

fn write_empty_tables(out: &mut Vec<u8>) -> (r: Result<u64, Error>)
    ensures
        final(out)@ == old(out)@ + empty_tables_ser(),
        r matches Ok(n) && n == 68,
        empty_tables_ser().len() == 68,
{
    BoxHeader::new(BoxType::SttsBox, 16).write(out)?;
    write_box_header_ext(out, 0, 0);
    put_u32(out, 0);
    BoxHeader::new(BoxType::StscBox, 16).write(out)?;
    write_box_header_ext(out, 0, 0);
    put_u32(out, 0);
    BoxHeader::new(BoxType::StszBox, 20).write(out)?;
    write_box_header_ext(out, 0, 0);
    put_u32(out, 0);
    put_u32(out, 0);
    BoxHeader::new(BoxType::StcoBox, 16).write(out)?;
    write_box_header_ext(out, 0, 0);
    put_u32(out, 0);
    proof {
        assert(out@ =~= old(out)@ + empty_tables_ser());
    }
    Ok(68)
}

/// The AVC decoder-configuration box, built from one sequence and one
/// picture parameter set.
#[derive(Debug, Clone, PartialEq, Eq)]
pub struct AvcCBox {
    pub seq_param_set: Vec<u8>,
    pub pic_param_set: Vec<u8>,
}

/// The mathematical value of a decoder-configuration box.
pub struct AvcCBoxView {
    pub seq_param_set: Seq<u8>,
    pub pic_param_set: Seq<u8>,
}

impl View for AvcCBox {
    type V = AvcCBoxView;

    open spec fn view(&self) -> AvcCBoxView {
        AvcCBoxView { seq_param_set: self.seq_param_set@, pic_param_set: self.pic_param_set@ }
    }
}

impl AvcCBoxView {
    /// The profile, compatibility and level bytes repeat the sequence
    /// parameter set's own header, so it must hold one.
    pub open spec fn wf(self) -> bool {
        &&& self.seq_param_set.len() >= 4
        &&& self.seq_param_set.len() <= 0xffff
        &&& self.pic_param_set.len() <= 0xffff
    }

    pub open spec fn spec_size(self) -> u64 {
        (19 + self.seq_param_set.len() + self.pic_param_set.len()) as u64
    }

    pub open spec fn spec_ser(self) -> Seq<u8> {
        header_bytes(BoxType::AvcCBox, self.spec_size()) + seq![1u8] + seq![
            self.seq_param_set[1],
            self.seq_param_set[2],
            self.seq_param_set[3],
        ] + seq![0xffu8, 0xe1u8] + spec_u16_to_be_bytes(self.seq_param_set.len() as u16)
            + self.seq_param_set + seq![1u8] + spec_u16_to_be_bytes(
            self.pic_param_set.len() as u16,
        ) + self.pic_param_set
    }
}

impl AvcCBox {
    pub fn get_size(&self) -> (r: u64)
        requires
            self@.wf(),
        ensures
            r == self@.spec_size(),
    {
        19 + self.seq_param_set.len() as u64 + self.pic_param_set.len() as u64
    }

    pub fn write_box(&self, out: &mut Vec<u8>) -> (r: Result<u64, Error>)
        requires
            self@.wf(),
        ensures
            final(out)@ == old(out)@ + self@.spec_ser(),
            r matches Ok(n) && n == self@.spec_size(),
            self@.spec_ser().len() == self@.spec_size(),
    {
        let size = self.get_size();
        BoxHeader::new(BoxType::AvcCBox, size).write(out)?;
        put_u8(out, 1);
        put_u8(out, self.seq_param_set[1]);
        put_u8(out, self.seq_param_set[2]);
        put_u8(out, self.seq_param_set[3]);
        put_u8(out, 0xff);
        put_u8(out, 0xe1);
        put_u16(out, self.seq_param_set.len() as u16);
        put_bytes(out, self.seq_param_set.as_slice());
        put_u8(out, 1);
        put_u16(out, self.pic_param_set.len() as u16);
        put_bytes(out, self.pic_param_set.as_slice());
        proof {
            assert(out@ =~= old(out)@ + self@.spec_ser());
        }
        Ok(size)
    }
}

/// The AVC visual sample entry: the fixed visual prelude, the decoder
/// configuration, and the optional color and aspect-ratio children.
#[derive(Debug, Clone, PartialEq, Eq)]
pub struct Avc1Box {
    pub width: u16,
    pub height: u16,
    pub avcc: AvcCBox,
    pub colr: Option<ColrBox>,
    pub pasp: Option<PaspBox>,
}

/// The mathematical value of an AVC sample entry.
pub struct Avc1BoxView {
    pub width: u16,
    pub height: u16,
    pub avcc: AvcCBoxView,
    pub colr: Option<ColrBoxView>,
    pub pasp: Option<PaspBox>,
}

impl View for Avc1Box {
    type V = Avc1BoxView;

    open spec fn view(&self) -> Avc1BoxView {
        Avc1BoxView {
            width: self.width,
            height: self.height,
            avcc: self.avcc@,
            colr: match &self.colr {
                Some(c) => Some(c@),
                None => None,
            },
            pasp: self.pasp,
        }
    }
}

/// The fixed visual sample-entry prelude: reserved words, the data
/// reference index, the frame geometry and the default resolution.
pub open spec fn visual_prelude(width: u16, height: u16) -> Seq<u8> {
    zero_bytes(6) + spec_u16_to_be_bytes(1) + zero_bytes(16) + spec_u16_to_be_bytes(width)
        + spec_u16_to_be_bytes(height) + spec_u32_to_be_bytes(0x480000) + spec_u32_to_be_bytes(
        0x480000,
    ) + zero_bytes(4) + spec_u16_to_be_bytes(1) + zero_bytes(32) + spec_u16_to_be_bytes(0x18)
        + spec_u16_to_be_bytes(0xffff)
}

fn write_visual_prelude(out: &mut Vec<u8>, width: u16, height: u16)
    ensures
        final(out)@ == old(out)@ + visual_prelude(width, height),
        visual_prelude(width, height).len() == 78,
{
    put_zeros(out, 6);
    put_u16(out, 1);
    put_zeros(out, 16);
    put_u16(out, width);
    put_u16(out, height);
    put_u32(out, 0x480000);
    put_u32(out, 0x480000);
    put_zeros(out, 4);
    put_u16(out, 1);
    put_zeros(out, 32);
    put_u16(out, 0x18);
    put_u16(out, 0xffff);
    proof {
        assert(out@ =~= old(out)@ + visual_prelude(width, height));
    }
}

impl Avc1BoxView {
    pub open spec fn wf(self) -> bool {
        &&& self.avcc.wf()
        &&& (self.colr matches Some(c) ==> c.wf() && c.spec_size() <= 0xffff)
    }

    pub open spec fn spec_size(self) -> u64 {
        (86 + self.avcc.spec_size() + (match self.colr {
            Some(c) => c.spec_size(),
            None => 0int,
        }) + (match self.pasp {
            Some(_) => 16int,
            None => 0int,
        })) as u64
    }

    pub open spec fn spec_ser(self) -> Seq<u8> {
        header_bytes(BoxType::Avc1Box, self.spec_size()) + visual_prelude(self.width, self.height)
            + self.avcc.spec_ser() + (match self.colr {
            Some(c) => c.spec_ser(),
            None => Seq::empty(),
        }) + (match self.pasp {
            Some(p) => p.spec_ser(),
            None => Seq::empty(),
        })
    }
}

impl Avc1Box {
    pub fn get_size(&self) -> (r: u64)
        requires
            self@.wf(),
        ensures
            r == self@.spec_size(),
    {
        let colr_size: u64 = match &self.colr {
            Some(c) => c.box_size(),
            None => 0,
        };
        let pasp_size: u64 = match &self.pasp {
            Some(_) => 16,
            None => 0,
        };
        86 + self.avcc.get_size() + colr_size + pasp_size
    }

    pub fn write_box(&self, out: &mut Vec<u8>) -> (r: Result<u64, Error>)
        requires
            self@.wf(),
        ensures
            final(out)@ == old(out)@ + self@.spec_ser(),
            r matches Ok(n) && n == self@.spec_size(),
            self@.spec_ser().len() == self@.spec_size(),
    {
        let size = self.get_size();
        BoxHeader::new(BoxType::Avc1Box, size).write(out)?;
        write_visual_prelude(out, self.width, self.height);
        self.avcc.write_box(out)?;
        if let Some(colr) = &self.colr {
            colr.write_box(out)?;
        }
        if let Some(pasp) = &self.pasp {
            pasp.write_box(out)?;
        }
        proof {
            assert(out@ =~= old(out)@ + self@.spec_ser());
        }
        Ok(size)
    }
}

/// One fragment-defaults entry per track; the actual per-sample values
/// always come from each fragment's run.
#[derive(Debug, Clone, Copy, PartialEq, Eq, Structural)]
pub struct TrexBox {
    pub track_id: u32,
}

impl TrexBox {
    pub open spec fn spec_size(self) -> u64 {
        32
    }

    pub open spec fn spec_ser(self) -> Seq<u8> {
        header_bytes(BoxType::TrexBox, 32) + ext_bytes(0, 0) + spec_u32_to_be_bytes(self.track_id)
            + spec_u32_to_be_bytes(1) + spec_u32_to_be_bytes(0) + spec_u32_to_be_bytes(0)
            + spec_u32_to_be_bytes(0)
    }

    pub fn write_box(&self, out: &mut Vec<u8>) -> (r: Result<u64, Error>)
        ensures
            final(out)@ == old(out)@ + self.spec_ser(),
            r matches Ok(n) && n == 32,
            self.spec_ser().len() == 32,
    {
        BoxHeader::new(BoxType::TrexBox, 32).write(out)?;
        write_box_header_ext(out, 0, 0);
        put_u32(out, self.track_id);
        put_u32(out, 1);
        put_u32(out, 0);
        put_u32(out, 0);
        put_u32(out, 0);
        proof {
            assert(out@ =~= old(out)@ + self.spec_ser());
        }
        Ok(32)
    }
}

/// One track's whole subtree in the movie box.
#[derive(Debug, Clone, PartialEq, Eq)]
pub struct TrakBox {
    pub tkhd: TkhdBox,
    pub mdhd: MdhdBox,
    pub track_type: TrackType,
    pub avc1: Avc1Box,
}

/// The mathematical value of a track subtree.
pub struct TrakBoxView {
    pub tkhd: TkhdBox,
    pub mdhd: MdhdBox,
    pub track_type: TrackType,
    pub avc1: Avc1BoxView,
}

impl View for TrakBox {
    type V = TrakBoxView;

    open spec fn view(&self) -> TrakBoxView {
        TrakBoxView {
            tkhd: self.tkhd,
            mdhd: self.mdhd,
            track_type: self.track_type,
            avc1: self.avc1@,
        }
    }
}

impl TrakBoxView {
    pub open spec fn wf(self) -> bool {
        &&& self.tkhd.wf()
        &&& self.mdhd.wf()
        &&& self.avc1.wf()
        &&& self.avc1.spec_size() + 1000 <= 0xffffffff
    }

    pub open spec fn stsd_size(self) -> int {
        16 + self.avc1.spec_size()
    }

    pub open spec fn stbl_size(self) -> int {
        8 + self.stsd_size() + 68
    }

    pub open spec fn minf_size(self) -> int {
        8 + media_header_size(self.track_type) + 36 + self.stbl_size()
    }

    pub open spec fn mdia_size(self) -> int {
        8 + 32 + hdlr_size(self.track_type) + self.minf_size()
    }

    pub open spec fn spec_size_int(self) -> int {
        8 + 92 + self.mdia_size()
    }

    pub open spec fn spec_size(self) -> u64 {
        self.spec_size_int() as u64
    }

    pub open spec fn stbl_ser(self) -> Seq<u8> {
        header_bytes(BoxType::StblBox, self.stbl_size() as u64) + header_bytes(
            BoxType::StsdBox,
            self.stsd_size() as u64,
        ) + ext_bytes(0, 0) + spec_u32_to_be_bytes(1) + self.avc1.spec_ser() + empty_tables_ser()
    }

    pub open spec fn minf_ser(self) -> Seq<u8> {
        header_bytes(BoxType::MinfBox, self.minf_size() as u64) + media_header_ser(
            self.track_type,
        ) + dinf_ser() + self.stbl_ser()
    }

    pub open spec fn mdia_ser(self) -> Seq<u8> {
        header_bytes(BoxType::MdiaBox, self.mdia_size() as u64) + self.mdhd.spec_ser() + hdlr_ser(
            self.track_type,
        ) + self.minf_ser()
    }

    pub open spec fn spec_ser(self) -> Seq<u8> {
        header_bytes(BoxType::TrakBox, self.spec_size()) + self.tkhd.spec_ser() + self.mdia_ser()
    }
}

impl TrakBox {
    pub fn get_size(&self) -> (r: u64)
        requires
            self@.wf(),
        ensures
            r == self@.spec_size(),
    {
        let stsd: u64 = 16 + self.avc1.get_size();
        let stbl: u64 = 8 + stsd + 68;
        let mh: u64 = match self.track_type {
            TrackType::Video => 20,
            _ => 16,
        };
        let hn: u64 = match self.track_type {
            TrackType::Video => 45,
            TrackType::Audio => 45,
            TrackType::Subtitle => 44,
        };
        let minf: u64 = 8 + mh + 36 + stbl;
        let mdia: u64 = 8 + 32 + hn + minf;
        8 + 92 + mdia
    }

    #[verifier::rlimit(100)]
    #[verifier::spinoff_prover]
    fn write_stbl(&self, out: &mut Vec<u8>) -> (r: Result<(), Error>)
        requires
            self@.wf(),
        ensures
            final(out)@ == old(out)@ + self@.stbl_ser(),
            r is Ok,
            self@.stbl_ser().len() == self@.stbl_size(),
    {
        let stsd: u64 = 16 + self.avc1.get_size();
        let stbl: u64 = 8 + stsd + 68;
        BoxHeader::new(BoxType::StblBox, stbl).write(out)?;
        BoxHeader::new(BoxType::StsdBox, stsd).write(out)?;
        write_box_header_ext(out, 0, 0);
        put_u32(out, 1);
        self.avc1.write_box(out)?;
        write_empty_tables(out)?;
        proof {
            assert(out@ =~= old(out)@ + self@.stbl_ser());
        }
        Ok(())
    }

    #[verifier::rlimit(100)]
    #[verifier::spinoff_prover]
    fn write_minf(&self, out: &mut Vec<u8>) -> (r: Result<(), Error>)
        requires
            self@.wf(),
        ensures
            final(out)@ == old(out)@ + self@.minf_ser(),
            r is Ok,
            self@.minf_ser().len() == self@.minf_size(),
    {
        let stsd: u64 = 16 + self.avc1.get_size();
        let stbl: u64 = 8 + stsd + 68;
        let mh: u64 = match self.track_type {
            TrackType::Video => 20,
            _ => 16,
        };
        let minf: u64 = 8 + mh + 36 + stbl;
        BoxHeader::new(BoxType::MinfBox, minf).write(out)?;
        write_media_header(out, self.track_type)?;
        write_dinf(out)?;
        self.write_stbl(out)?;
        proof {
            assert(out@ =~= old(out)@ + self@.minf_ser());
        }
        Ok(())
    }

    #[verifier::rlimit(100)]
    #[verifier::spinoff_prover]
    fn write_mdia(&self, out: &mut Vec<u8>) -> (r: Result<(), Error>)
        requires
            self@.wf(),
        ensures
            final(out)@ == old(out)@ + self@.mdia_ser(),
            r is Ok,
            self@.mdia_ser().len() == self@.mdia_size(),
    {
        let stsd: u64 = 16 + self.avc1.get_size();
        let stbl: u64 = 8 + stsd + 68;
        let mh: u64 = match self.track_type {
            TrackType::Video => 20,
            _ => 16,
        };
        let hn: u64 = match self.track_type {
            TrackType::Video => 45,
            TrackType::Audio => 45,
            TrackType::Subtitle => 44,
        };
        let minf: u64 = 8 + mh + 36 + stbl;
        let mdia: u64 = 8 + 32 + hn + minf;
        BoxHeader::new(BoxType::MdiaBox, mdia).write(out)?;
        self.mdhd.write_box(out)?;
        write_hdlr(out, self.track_type)?;
        self.write_minf(out)?;
        proof {
            assert(out@ =~= old(out)@ + self@.mdia_ser());
        }
        Ok(())
    }

    #[verifier::rlimit(100)]
    #[verifier::spinoff_prover]
    pub fn write_box(&self, out: &mut Vec<u8>) -> (r: Result<u64, Error>)
        requires
            self@.wf(),
        ensures
            final(out)@ == old(out)@ + self@.spec_ser(),
            r matches Ok(n) && n == self@.spec_size(),
            self@.spec_ser().len() == self@.spec_size(),
    {
        let size = self.get_size();
        BoxHeader::new(BoxType::TrakBox, size).write(out)?;
        self.tkhd.write_box(out)?;
        self.write_mdia(out)?;
        proof {
            assert(out@ =~= old(out)@ + self@.spec_ser());
        }
        Ok(size)
    }
}

} // verus!
