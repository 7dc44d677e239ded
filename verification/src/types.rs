//! Common value types: errors, four-character codes, the 16.16 fixed-point
//! value, media samples and per-track codec configuration.
use vstd::prelude::*;

use crate::boxtype::BoxType;
use crate::mp4box::opus::ChannelMappingFamily;
use crate::primitives::{spec_u32_from_be_bytes, spec_u32_to_be_bytes};

verus! {

/// Total byte length of the plain `(size, tag)` box header.
pub const HEADER_SIZE: u64 = 8;

/// Byte length of the version-and-flags extension of a full box.
pub const HEADER_EXT_SIZE: u64 = 4;

#[derive(Debug, Clone, Copy, PartialEq, Eq)]
pub enum Error {
    /// The payload is malformed, or a builder precondition was broken.
    InvalidData(&'static str),
    /// A required child box is absent.
    BoxNotFound(BoxType),
    /// A read or skip ran past the end of the source.
    UnexpectedEof,
    /// The configuration asks for a codec this library does not assemble.
    Unsupported(&'static str),
}

/// A four-character code, stored as its four bytes.
#[derive(Debug, Clone, Copy, PartialEq, Eq, Default)]
pub struct FourCC {
    pub value: [u8; 4],
}

impl FourCC {
    /// The big-endian 32-bit value of the code, as it appears on the wire.
    pub open spec fn spec_u32(self) -> u32 {
        spec_u32_from_be_bytes(self.value@)
    }

    pub fn new(value: [u8; 4]) -> (r: FourCC)
        ensures
            r.value@ == value@,
    {
        FourCC { value }
    }

    pub fn to_u32(&self) -> (r: u32)
        ensures
            r == self.spec_u32(),
    {
        ((self.value[0] as u32) << 24) | ((self.value[1] as u32) << 16) | ((self.value[2] as u32)
            << 8) | (self.value[3] as u32)
    }

    pub fn from_u32(v: u32) -> (r: FourCC)
        ensures
            r.value@ == spec_u32_to_be_bytes(v),
            r.spec_u32() == v,
    {
        let value: [u8; 4] = [
            ((v >> 24) & 0xff) as u8,
            ((v >> 16) & 0xff) as u8,
            ((v >> 8) & 0xff) as u8,
            (v & 0xff) as u8,
        ];
        proof {
            assert(value@ =~= spec_u32_to_be_bytes(v));
            crate::primitives::lemma_u32_be_bytes_roundtrip(v);
        }
        FourCC { value }
    }
}

/// An unsigned 16.16 fixed-point value, stored as its raw 32-bit form.
#[derive(Debug, Clone, Copy, PartialEq, Eq, Structural, Default)]
pub struct FixedPointU16 {
    pub raw: u32,
}

impl FixedPointU16 {
    pub fn new(v: u16) -> (r: FixedPointU16)
        ensures
            r.raw == v as u32 * 0x10000,
    {
        FixedPointU16 { raw: (v as u32) * 0x10000 }
    }

    pub fn new_raw(raw: u32) -> (r: FixedPointU16)
        ensures
            r.raw == raw,
    {
        FixedPointU16 { raw }
    }

    /// The integer part of the value.
    pub fn value(&self) -> (r: u16)
        ensures
            r == self.raw / 0x10000,
    {
        (self.raw / 0x10000) as u16
    }

    pub fn raw_value(&self) -> (r: u32)
        ensures
            r == self.raw,
    {
        self.raw
    }
}

/// One unit of media handed to the fragment writer: decode timing plus the
/// payload bytes.
#[derive(Debug)]
pub struct Mp4Sample {
    pub start_time: u64,
    pub duration: u32,
    pub rendering_offset: i32,
    pub is_sync: bool,
    pub bytes: bytes::Bytes,
}

#[derive(Debug, Clone, Copy, PartialEq, Eq, Structural)]
pub enum TrackType {
    Video,
    Audio,
    Subtitle,
}

#[derive(Debug, Clone, PartialEq, Eq)]
pub struct ColorConfig {
    pub color_primaries: u16,
    pub transfer_characteristics: u16,
    pub matrix_coefficients: u16,
    pub full_range: bool,
}

#[derive(Debug, Clone, PartialEq, Eq)]
pub struct AvcConfig {
    pub width: u16,
    pub height: u16,
    pub seq_param_set: Vec<u8>,
    pub pic_param_set: Vec<u8>,
    pub color: Option<ColorConfig>,
    pub aspect_ratio: Option<(u32, u32)>,
}

#[derive(Debug, Clone, PartialEq, Eq)]
pub struct HevcConfig {
    pub width: u16,
    pub height: u16,
}

#[derive(Debug, Clone, PartialEq, Eq)]
pub struct AacConfig {
    pub bitrate: u32,
    pub freq_index: u8,
    pub chan_conf: u8,
}

#[derive(Debug, Clone, PartialEq, Eq)]
pub struct TtxtConfig {}

#[derive(Debug, Clone, PartialEq, Eq)]
pub struct Vp9Config {
    pub width: u16,
    pub height: u16,
}

#[derive(Debug, Clone, PartialEq, Eq)]
pub struct Av1Config {
    pub width: u16,
    pub height: u16,
    pub tier: u8,
    pub profile: u8,
    pub level_idx: u8,
    pub bit_depth: u8,
    pub monochrome: bool,
    pub subsampling_x: u8,
    pub subsampling_y: u8,
    pub chroma_sample_position: u8,
    pub initial_presentation_delay_minus_one: Option<u8>,
    pub sequence_header: Vec<u8>,
    pub color: Option<ColorConfig>,
    pub aspect_ratio: Option<(u32, u32)>,
}

#[derive(Debug, Clone, PartialEq, Eq)]
pub struct OpusConfig {
    pub pre_skip: u16,
    pub sample_rate: u32,
    pub output_gain: i16,
    pub channel_mapping_family: ChannelMappingFamily,
}

#[derive(Debug, Clone, PartialEq, Eq)]
pub enum MediaConfig {
    AvcConfig(AvcConfig),
    HevcConfig(HevcConfig),
    AacConfig(AacConfig),
    TtxtConfig(TtxtConfig),
    Vp9Config(Vp9Config),
    Av1Config(Av1Config),
    OpusConfig(OpusConfig),
}

#[derive(Debug, Clone, PartialEq, Eq)]
pub struct TrackConfig {
    pub track_type: TrackType,
    pub timescale: u32,
    pub language: String,
    pub media_conf: MediaConfig,
}

} // verus!
